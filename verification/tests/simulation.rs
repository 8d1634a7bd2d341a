use monty_hall::{
    all_doors, resolve_round, run_games, stay, switch, ConfigError, Door, Doors, Outcome, Results,
    Strategy,
};
use rand::SeedableRng;

fn contents(ds: &Doors) -> Vec<Door> {
    let mut v = Vec::new();
    let mut i = 0;
    while i < ds.len() {
        v.push(ds.index(i));
        i += 1;
    }
    v
}

#[test]
fn wins_plus_losses_equal_trials() {
    let mut rng = rand::rngs::StdRng::seed_from_u64(1);
    let switched = run_games(&Strategy::Switch, &mut rng, 1000);
    assert_eq!(switched.won + switched.lost, 1000);
    let stayed = run_games(&Strategy::Stay, &mut rng, 777);
    assert_eq!(stayed.won + stayed.lost, 777);
}

#[test]
fn percentage_within_bounds() {
    let mut rng = rand::rngs::StdRng::seed_from_u64(2);
    for strategy in [Strategy::Switch, Strategy::Stay] {
        let tally = run_games(&strategy, &mut rng, 500);
        let p = tally.percentage().unwrap();
        assert!(p <= 100);
    }
}

#[test]
fn percentage_exact_values() {
    let mut tally = Results::new();
    tally.score(Outcome::Win);
    tally.score(Outcome::Lose);
    tally.score(Outcome::Lose);
    assert_eq!(tally.percentage(), Ok(33));

    let mut tally = Results::new();
    tally.score(Outcome::Win);
    tally.score(Outcome::Win);
    tally.score(Outcome::Lose);
    assert_eq!(tally.percentage(), Ok(66));

    let mut tally = Results::new();
    tally.score(Outcome::Win);
    assert_eq!(tally.percentage(), Ok(100));

    let mut tally = Results::new();
    tally.score(Outcome::Lose);
    assert_eq!(tally.percentage(), Ok(0));
}

#[test]
fn identical_seeds_give_identical_tallies() {
    let mut first_rng = rand::rngs::StdRng::seed_from_u64(42);
    let mut second_rng = rand::rngs::StdRng::seed_from_u64(42);
    let first = run_games(&Strategy::Switch, &mut first_rng, 2000);
    let second = run_games(&Strategy::Switch, &mut second_rng, 2000);
    assert_eq!(first, second);

    let mut first_rng = rand::rngs::StdRng::seed_from_u64(9);
    let mut second_rng = rand::rngs::StdRng::seed_from_u64(9);
    let first = run_games(&Strategy::Stay, &mut first_rng, 2000);
    let second = run_games(&Strategy::Stay, &mut second_rng, 2000);
    assert_eq!(first, second);
}

#[test]
fn without_excludes_each_door() {
    for door in [Door::DoorOne, Door::DoorTwo, Door::DoorThree] {
        let rest = all_doors().without(door);
        assert_eq!(rest.len(), 2);
        for remaining in contents(&rest) {
            assert_ne!(remaining, door);
        }
    }
}

#[test]
fn from_slice_keeps_order_and_duplicates() {
    let doors = Doors::from_slice(&[Door::DoorTwo, Door::DoorTwo, Door::DoorOne]);
    assert_eq!(contents(&doors), vec![Door::DoorTwo, Door::DoorTwo, Door::DoorOne]);
    let trimmed = doors.without(Door::DoorTwo);
    assert_eq!(contents(&trimmed), vec![Door::DoorTwo, Door::DoorOne]);
}

#[test]
fn without_absent_door_copies() {
    let rest = all_doors().without(Door::DoorTwo);
    let copy = rest.without(Door::DoorTwo);
    assert_eq!(contents(&rest), contents(&copy));
    assert_eq!(copy.len(), 2);
}

#[test]
fn switch_never_returns_guess() {
    for guess in [Door::DoorOne, Door::DoorTwo, Door::DoorThree] {
        for opened in [Door::DoorOne, Door::DoorTwo, Door::DoorThree] {
            if opened != guess {
                // exactly one non-guess door remains after the exclusions
                let chosen = switch(guess, all_doors().without(opened));
                assert_ne!(chosen, guess);
            }
        }
    }
}

#[test]
fn stay_returns_guess() {
    for guess in [Door::DoorOne, Door::DoorTwo, Door::DoorThree] {
        assert_eq!(stay(guess, all_doors()), guess);
        assert_eq!(stay(guess, all_doors().without(guess)), guess);
    }
}

#[test]
fn scenario_car_one_guess_two_opened_three() {
    let remaining = all_doors().without(Door::DoorThree);
    assert_eq!(contents(&remaining), vec![Door::DoorOne, Door::DoorTwo]);
    assert_eq!(switch(Door::DoorTwo, all_doors().without(Door::DoorThree)), Door::DoorOne);
    assert_eq!(stay(Door::DoorTwo, all_doors().without(Door::DoorThree)), Door::DoorTwo);
    assert_eq!(
        resolve_round(&Strategy::Switch, Door::DoorOne, Door::DoorTwo, Door::DoorThree),
        Outcome::Win
    );
    assert_eq!(
        resolve_round(&Strategy::Stay, Door::DoorOne, Door::DoorTwo, Door::DoorThree),
        Outcome::Lose
    );
}

#[test]
fn scenario_car_one_guess_one() {
    // opened = two: the non-opened doors are one and three
    let remaining = all_doors().without(Door::DoorTwo);
    assert_eq!(contents(&remaining), vec![Door::DoorOne, Door::DoorThree]);
    assert_eq!(switch(Door::DoorOne, all_doors().without(Door::DoorTwo)), Door::DoorThree);
    assert_eq!(
        resolve_round(&Strategy::Switch, Door::DoorOne, Door::DoorOne, Door::DoorTwo),
        Outcome::Lose
    );
    assert_eq!(
        resolve_round(&Strategy::Stay, Door::DoorOne, Door::DoorOne, Door::DoorTwo),
        Outcome::Win
    );

    // opened = three: the non-opened doors are one and two
    let remaining = all_doors().without(Door::DoorThree);
    assert_eq!(contents(&remaining), vec![Door::DoorOne, Door::DoorTwo]);
    assert_eq!(switch(Door::DoorOne, all_doors().without(Door::DoorThree)), Door::DoorTwo);
    assert_eq!(
        resolve_round(&Strategy::Switch, Door::DoorOne, Door::DoorOne, Door::DoorThree),
        Outcome::Lose
    );
    assert_eq!(
        resolve_round(&Strategy::Stay, Door::DoorOne, Door::DoorOne, Door::DoorThree),
        Outcome::Win
    );
}

#[test]
fn zero_trials_report_config_error() {
    assert_eq!(Results::new().percentage(), Err(ConfigError::ZeroTrials));
    let mut rng = rand::rngs::StdRng::seed_from_u64(3);
    let tally = run_games(&Strategy::Switch, &mut rng, 0);
    assert_eq!(tally.percentage(), Err(ConfigError::ZeroTrials));
}

#[test]
fn random_draws_stay_inside_the_set() {
    let mut rng = rand::rngs::StdRng::seed_from_u64(4);
    let doors = all_doors();
    for _ in 0..200 {
        let drawn = doors.random(&mut rng);
        assert!(contents(&doors).contains(&drawn));
    }
    let only_three = all_doors().without(Door::DoorOne).without(Door::DoorTwo);
    assert_eq!(only_three.len(), 1);
    for _ in 0..20 {
        assert_eq!(only_three.random(&mut rng), Door::DoorThree);
    }
}

#[test]
fn stay_tallies_near_one_third() {
    let mut rng = rand::rngs::StdRng::seed_from_u64(5);
    let tally = run_games(&Strategy::Stay, &mut rng, 30000);
    let p = tally.percentage().unwrap();
    assert!((25..=42).contains(&p), "stay won {}% of the trials", p);
}
