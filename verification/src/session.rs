use vstd::prelude::*;

use crate::car::Car;
use crate::driver::Driver;
use crate::race_result::RaceResult;
use crate::ranking::{is_ranking_of, rank_results};
use crate::scoring::{
    draw_in_range, draw_with_ratio, practice_time_seconds, practice_time_tenths,
    qualification_tenths, qualification_time_seconds, race_time_seconds, race_time_tenths,
    rounded_seconds,
};

verus! {

/// Some catalog entry pairs this team name with a car.
pub open spec fn has_car(cars: Seq<(String, Car)>, name: Seq<char>) -> bool {
    exists|j: int| 0 <= j < cars.len() && #[trigger] cars[j].0@ == name
}

/// `car` is the car of the first catalog entry whose team name matches,
/// scanning front to back.
pub open spec fn is_first_car_match(car: Car, cars: Seq<(String, Car)>, name: Seq<char>) -> bool {
    exists|j: int|
        0 <= j < cars.len() && #[trigger] cars[j].0@ == name && (forall|k: int|
            0 <= k < j ==> #[trigger] cars[k].0@ != name) && car == cars[j].1
}

/// Looks a team's car up by name; `None` exactly when no entry matches.
pub(crate) fn find_car<'a>(cars: &'a Vec<(String, Car)>, name: &String) -> (found: Option<&'a Car>)
    ensures
        match found {
            Some(car) => is_first_car_match(*car, cars@, name@),
            None => !has_car(cars@, name@),
        },
{
    let n = cars.len();
    let mut j: usize = 0;
    while j < n
        invariant
            j <= n,
            n == cars@.len(),
            forall|k: int| 0 <= k < j ==> #[trigger] cars@[k].0@ != name@,
        decreases n - j,
    {
        if cars[j].0 == *name {
            return Some(&cars[j].1);
        }
        j = j + 1;
    }
    None
}

/// What one practice entry promises: the driver's identity carried over, no
/// position, no DNF, and a time that the practice formula yields for the
/// driver's car and some perturbation within ±1.5 s.
pub open spec fn practice_outcome(
    driver: Driver,
    cars: Seq<(String, Car)>,
    result: RaceResult,
) -> bool {
    &&& result.driver_name == driver.full_name
    &&& result.team_name == driver.team_name
    &&& result.finish_position == 0
    &&& result.dnf == false
    &&& exists|car: Car, v: int|
        is_first_car_match(car, cars, driver.team_name@) && -15 <= v <= 15
            && result.finish_time_seconds == rounded_seconds(
            #[trigger] practice_time_tenths(driver, car, v),
        )
}

/// What one qualification entry promises before ranking: as for practice,
/// but with the qualification formula and a perturbation within ±0.5 s.
pub open spec fn qualification_outcome(
    driver: Driver,
    cars: Seq<(String, Car)>,
    result: RaceResult,
) -> bool {
    &&& result.driver_name == driver.full_name
    &&& result.team_name == driver.team_name
    &&& result.finish_position == 0
    &&& result.dnf == false
    &&& exists|car: Car, v: int|
        is_first_car_match(car, cars, driver.team_name@) && -5 <= v <= 5
            && result.finish_time_seconds == rounded_seconds(
            #[trigger] qualification_tenths(driver, car, v),
        )
}

/// What one race entry promises before ranking: the race formula with a
/// perturbation within ±3 s. Nothing is promised of the DNF flag: it is an
/// independent one-in-ten draw.
pub open spec fn race_outcome(driver: Driver, cars: Seq<(String, Car)>, result: RaceResult) -> bool {
    &&& result.driver_name == driver.full_name
    &&& result.team_name == driver.team_name
    &&& result.finish_position == 0
    &&& exists|car: Car, v: int|
        is_first_car_match(car, cars, driver.team_name@) && -30 <= v <= 30
            && result.finish_time_seconds == rounded_seconds(
            #[trigger] race_time_tenths(driver, car, v),
        )
}

/// One practice entry per driver, in roster order, with a fresh random
/// perturbation per driver. Positions stay unset: practice is never ranked.
/// The session label is only a tag for the display side and does not enter
/// the computation.
pub fn simulate_practice_session(
    drivers: &Vec<Driver>,
    cars: &Vec<(String, Car)>,
    _session_name: &str,
) -> (results: Vec<RaceResult>)
    requires
        forall|i: int| 0 <= i < drivers@.len() ==> has_car(cars@, #[trigger] drivers@[i].team_name@),
    ensures
        results@.len() == drivers@.len(),
        forall|i: int|
            0 <= i < drivers@.len() ==> practice_outcome(drivers@[i], cars@, #[trigger] results@[i]),
{
    let mut results: Vec<RaceResult> = Vec::new();
    let n = drivers.len();
    let mut i: usize = 0;
    while i < n
        invariant
            i <= n,
            n == drivers@.len(),
            results@.len() == i,
            forall|k: int|
                0 <= k < drivers@.len() ==> has_car(cars@, #[trigger] drivers@[k].team_name@),
            forall|k: int|
                0 <= k < i ==> practice_outcome(drivers@[k], cars@, #[trigger] results@[k]),
        decreases n - i,
    {
        let driver = &drivers[i];
        let car = match find_car(cars, &driver.team_name) {
            Some(car) => car,
            None => vstd::pervasive::unreached(),
        };
        let variation = draw_in_range(-15, 15);
        let seconds = practice_time_seconds(driver, car, variation);
        let entry = RaceResult {
            driver_name: driver.full_name.clone(),
            team_name: driver.team_name.clone(),
            finish_position: 0,
            finish_time_seconds: seconds,
            dnf: false,
        };
        proof {
            assert(practice_outcome(drivers@[i as int], cars@, entry));
        }
        results.push(entry);
        i = i + 1;
    }
    results
}

/// One qualification entry per driver, ranked: a stable sort ascending by
/// the rounded figure, ties kept in roster order, positions 1..=N assigned.
pub fn simulate_qualification(drivers: &Vec<Driver>, cars: &Vec<(String, Car)>) -> (results: Vec<
    RaceResult,
>)
    requires
        drivers@.len() <= 255,
        forall|i: int| 0 <= i < drivers@.len() ==> has_car(cars@, #[trigger] drivers@[i].team_name@),
    ensures
        results@.len() == drivers@.len(),
        exists|scored: Seq<RaceResult>|
            scored.len() == drivers@.len() && (forall|i: int|
                0 <= i < drivers@.len() ==> qualification_outcome(
                    drivers@[i],
                    cars@,
                    #[trigger] scored[i],
                )) && #[trigger] is_ranking_of(scored, results@, false),
{
    let mut scored: Vec<RaceResult> = Vec::new();
    let n = drivers.len();
    let mut i: usize = 0;
    while i < n
        invariant
            i <= n,
            n == drivers@.len(),
            scored@.len() == i,
            forall|k: int|
                0 <= k < drivers@.len() ==> has_car(cars@, #[trigger] drivers@[k].team_name@),
            forall|k: int|
                0 <= k < i ==> qualification_outcome(drivers@[k], cars@, #[trigger] scored@[k]),
        decreases n - i,
    {
        let driver = &drivers[i];
        let car = match find_car(cars, &driver.team_name) {
            Some(car) => car,
            None => vstd::pervasive::unreached(),
        };
        let variation = draw_in_range(-5, 5);
        let seconds = qualification_time_seconds(driver, car, variation);
        let entry = RaceResult {
            driver_name: driver.full_name.clone(),
            team_name: driver.team_name.clone(),
            finish_position: 0,
            finish_time_seconds: seconds,
            dnf: false,
        };
        proof {
            assert(qualification_outcome(drivers@[i as int], cars@, entry));
        }
        scored.push(entry);
        i = i + 1;
    }
    let ghost scored_seq = scored@;
    let ranked = rank_results(scored, false);
    proof {
        assert(scored_seq.len() == drivers@.len() && (forall|i: int|
            0 <= i < drivers@.len() ==> qualification_outcome(
                drivers@[i],
                cars@,
                #[trigger] scored_seq[i],
            )) && is_ranking_of(scored_seq, ranked@, false));
    }
    ranked
}

/// One race entry per driver with an independent one-in-ten DNF draw,
/// ranked: finishers ahead of every DNF entry, each group stably sorted
/// ascending by time, positions 1..=N assigned over the whole order.
pub fn simulate_race(drivers: &Vec<Driver>, cars: &Vec<(String, Car)>) -> (results: Vec<RaceResult>)
    requires
        drivers@.len() <= 255,
        forall|i: int| 0 <= i < drivers@.len() ==> has_car(cars@, #[trigger] drivers@[i].team_name@),
    ensures
        results@.len() == drivers@.len(),
        exists|scored: Seq<RaceResult>|
            scored.len() == drivers@.len() && (forall|i: int|
                0 <= i < drivers@.len() ==> race_outcome(drivers@[i], cars@, #[trigger] scored[i]))
                && #[trigger] is_ranking_of(scored, results@, true),
{
    let mut scored: Vec<RaceResult> = Vec::new();
    let n = drivers.len();
    let mut i: usize = 0;
    while i < n
        invariant
            i <= n,
            n == drivers@.len(),
            scored@.len() == i,
            forall|k: int|
                0 <= k < drivers@.len() ==> has_car(cars@, #[trigger] drivers@[k].team_name@),
            forall|k: int| 0 <= k < i ==> race_outcome(drivers@[k], cars@, #[trigger] scored@[k]),
        decreases n - i,
    {
        let driver = &drivers[i];
        let car = match find_car(cars, &driver.team_name) {
            Some(car) => car,
            None => vstd::pervasive::unreached(),
        };
        let variation = draw_in_range(-30, 30);
        let seconds = race_time_seconds(driver, car, variation);
        let retired = draw_with_ratio(1, 10);
        let entry = RaceResult {
            driver_name: driver.full_name.clone(),
            team_name: driver.team_name.clone(),
            finish_position: 0,
            finish_time_seconds: seconds,
            dnf: retired,
        };
        proof {
            assert(race_outcome(drivers@[i as int], cars@, entry));
        }
        scored.push(entry);
        i = i + 1;
    }
    let ghost scored_seq = scored@;
    let ranked = rank_results(scored, true);
    proof {
        assert(scored_seq.len() == drivers@.len() && (forall|i: int|
            0 <= i < drivers@.len() ==> race_outcome(drivers@[i], cars@, #[trigger] scored_seq[i]))
            && is_ranking_of(scored_seq, ranked@, true));
    }
    ranked
}

} // verus!
