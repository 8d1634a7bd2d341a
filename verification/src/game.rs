//! One round of the three-door game, and the aggregator that repeats it.
//!
//! The host's rule here is the permissive one: the opened door always avoids
//! the car but may coincide with the player's guess, and when the two
//! coincide the switch strategy falls back to the first door still standing.
//! The stricter canonical rule has the host avoid the guess as well;
//! `lemma_canonical_host_round` records what that rule implies for a round.

use vstd::prelude::*;
use crate::doors::{
    all_doors, lemma_all_without, lemma_remove_first_keeps_others, lemma_remove_first_len,
    lemma_remove_first_no_duplicates, lemma_universe_facts, remove_first, universe, Door, Doors,
};
use crate::tally::{Outcome, Results};

verus! {

/// The player's decision rule for the final choice.
pub enum Strategy {
    Switch,
    Stay,
}

/// The door the player ends on: the guess under `Stay`; under `Switch`, the
/// first door left once the opened door and then the guess are excluded
/// from the universe.
pub open spec fn final_choice(strategy: Strategy, guess: Door, opened: Door) -> Door {
    match strategy {
        Strategy::Switch => remove_first(remove_first(universe(), opened), guess)[0],
        Strategy::Stay => guess,
    }
}

/// The round's result: a win exactly when the final choice is the car door.
pub open spec fn round_outcome(strategy: Strategy, car: Door, guess: Door, opened: Door) -> Outcome {
    if final_choice(strategy, guess, opened) == car {
        Outcome::Win
    } else {
        Outcome::Lose
    }
}

/// Switch away from `d`: the first door of `ds` once `d` is excluded.
pub fn switch(d: Door, ds: Doors) -> (r: Door)
    requires
        remove_first(ds@, d).len() > 0,
    ensures
        r == remove_first(ds@, d)[0],
{
    ds.without(d).index(0)
}

/// Over a duplicate-free collection of doors, when exactly one non-guess
/// door is left after excluding the guess, the door `switch` picks — the
/// first remaining door, by its contract — is never the guess itself.
pub proof fn lemma_switch_avoids_guess(s: Seq<Door>, guess: Door)
    requires
        s.no_duplicates(),
        remove_first(s, guess).len() == 1,
    ensures
        remove_first(s, guess)[0] != guess,
{
    lemma_remove_first_no_duplicates(s, guess);
    let r = remove_first(s, guess);
    assert(r.contains(r[0]));
}

/// Stay with `d`, whatever doors remain.
pub fn stay(d: Door, _ds: Doors) -> (r: Door)
    ensures
        r == d,
{
    d
}

/// Resolve one round from already-drawn doors: exclude the opened door from
/// the universe, apply the strategy to the guess and the remaining doors,
/// and compare the final choice with the car door.
pub fn resolve_round(
    strategy: &Strategy,
    door_with_car: Door,
    player_guess: Door,
    opened_door: Door,
) -> (o: Outcome)
    ensures
        o == round_outcome(*strategy, door_with_car, player_guess, opened_door),
{
    let player_final_guess = match strategy {
        Strategy::Switch => {
            proof {
                lemma_all_without(opened_door);
                lemma_remove_first_len(remove_first(universe(), opened_door), player_guess);
            }
            switch(player_guess, all_doors().without(opened_door))
        },
        Strategy::Stay => stay(player_guess, all_doors().without(opened_door)),
    };
    if player_final_guess == door_with_car {
        Outcome::Win
    } else {
        Outcome::Lose
    }
}

/// Run one round on fresh random draws: a car door and a player guess from
/// the full universe, an opened door from the universe without the car, and
/// the strategy's final choice scored against the car.
pub fn run_game(strategy: &Strategy, rng: &mut rand::rngs::StdRng) -> (o: Outcome)
    ensures
        exists|car: Door, guess: Door, opened: Door|
            universe().contains(car) && universe().contains(guess) && remove_first(
                universe(),
                car,
            ).contains(opened) && o == round_outcome(*strategy, car, guess, opened),
{
    let door_with_car = all_doors().random(rng);
    let player_guess = all_doors().random(rng);
    let hidden = all_doors().without(door_with_car);
    proof {
        lemma_all_without(door_with_car);
    }
    let opened_door = hidden.random(rng);
    let o = resolve_round(strategy, door_with_car, player_guess, opened_door);
    proof {
        assert(universe().contains(door_with_car) && universe().contains(player_guess)
            && remove_first(universe(), door_with_car).contains(opened_door) && o
            == round_outcome(*strategy, door_with_car, player_guess, opened_door));
    }
    o
}

/// Under the canonical host rule — the opened door avoids both the car and
/// the player's guess — switching wins a round exactly when the first guess
/// missed the car, and staying wins exactly when it hit. This is the
/// combinatorial fact behind the classic two-thirds versus one-third split.
pub proof fn lemma_canonical_host_round(car: Door, guess: Door, opened: Door)
    requires
        opened != car,
        opened != guess,
    ensures
        round_outcome(Strategy::Switch, car, guess, opened) == (if guess != car {
            Outcome::Win
        } else {
            Outcome::Lose
        }),
        round_outcome(Strategy::Stay, car, guess, opened) == (if guess == car {
            Outcome::Win
        } else {
            Outcome::Lose
        }),
{
    lemma_universe_facts();
    let remaining = remove_first(universe(), opened);
    lemma_remove_first_len(universe(), opened);
    lemma_remove_first_no_duplicates(universe(), opened);
    lemma_remove_first_keeps_others(universe(), opened, car);
    lemma_remove_first_keeps_others(universe(), opened, guess);
    let left = remove_first(remaining, guess);
    lemma_remove_first_len(remaining, guess);
    if guess != car {
        lemma_remove_first_keeps_others(remaining, guess, car);
        assert(left.len() == 1 && left.contains(car));
        let w = choose|w: int| 0 <= w < left.len() && left[w] == car;
        assert(w == 0);
        assert(left[0] == car);
    } else {
        lemma_remove_first_no_duplicates(remaining, guess);
        assert(left.len() == 1 && !left.contains(car));
        assert(left[0] != car) by {
            if left[0] == car {
                assert(left.contains(car));
            }
        }
    }
}

/// Run `num_games` rounds under one strategy and score every outcome into a
/// fresh tally; the tally accounts for each round exactly once, so wins and
/// losses sum to `num_games`.
pub fn run_games(strategy: &Strategy, rng: &mut rand::rngs::StdRng, num_games: usize) -> (r:
    Results)
    ensures
        r.won as int + r.lost as int == num_games as int,
{
    let mut res = Results::new();
    let mut i: usize = 0;
    while i < num_games
        invariant
            i <= num_games,
            res.won as int + res.lost as int == i as int,
        decreases num_games - i,
    {
        let outcome = run_game(strategy, rng);
        proof {
            assert(res.won < u64::MAX && res.lost < u64::MAX);
        }
        res.score(outcome);
        i = i + 1;
    }
    res
}

} // verus!
