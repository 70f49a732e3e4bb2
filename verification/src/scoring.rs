use vstd::prelude::*;

use crate::car::Car;
use crate::driver::Driver;

verus! {

/// Weighted performance for practice and race sessions, in tenths of a
/// second: 0.4 skill + 0.3 engine power + 0.2 tyre management +
/// 0.1 reliability, plus the random perturbation (also in tenths).
pub open spec fn performance_tenths(driver: Driver, car: Car, variation: int) -> int {
    4 * driver.skill_level + 3 * car.engine_power + 2 * car.tyre_management + car.reliability
        + variation
}

/// The qualification figure, in tenths: 0.5 skill + 0.4 engine power plus
/// the perturbation. Unlike practice and race it is not subtracted from a
/// baseline, so a stronger pairing yields a larger figure; the sort still
/// treats smaller figures as better. That reads like a latent defect, but it
/// is this simulator's deliberate rule, so it is kept as it stands.
pub open spec fn qualification_tenths(driver: Driver, car: Car, variation: int) -> int {
    5 * driver.skill_level + 4 * car.engine_power + variation
}

/// Practice session time in tenths: a 90 second baseline minus performance.
pub open spec fn practice_time_tenths(driver: Driver, car: Car, variation: int) -> int {
    900 - performance_tenths(driver, car, variation)
}

/// Race time in tenths: a 120 second baseline minus performance.
pub open spec fn race_time_tenths(driver: Driver, car: Car, variation: int) -> int {
    1200 - performance_tenths(driver, car, variation)
}

/// Tenths of a second rounded to the nearest whole second and stored as a
/// byte: halves round up, negative figures collapse to 0 and anything beyond
/// the byte range caps at 255, as a float-to-byte conversion would.
pub open spec fn rounded_seconds(tenths: int) -> u8 {
    if tenths <= 0 {
        0
    } else if (tenths + 5) / 10 > 255 {
        255
    } else {
        ((tenths + 5) / 10) as u8
    }
}

/// Executable rounding for session-time figures.
fn round_to_seconds(tenths: i64) -> (seconds: u8)
    requires
        -100_000 <= tenths <= 100_000,
    ensures
        seconds == rounded_seconds(tenths as int),
{
    if tenths <= 0 {
        0
    } else {
        let rounded = (tenths + 5) / 10;
        if rounded > 255 {
            255
        } else {
            rounded as u8
        }
    }
}

/// Practice time in whole seconds, for a perturbation within ±1.5 s.
pub fn practice_time_seconds(driver: &Driver, car: &Car, variation_tenths: i64) -> (seconds: u8)
    requires
        -15 <= variation_tenths <= 15,
    ensures
        seconds == rounded_seconds(practice_time_tenths(*driver, *car, variation_tenths as int)),
{
    let performance = 4 * (driver.skill_level as i64) + 3 * (car.engine_power as i64) + 2 * (
    car.tyre_management as i64) + (car.reliability as i64) + variation_tenths;
    round_to_seconds(900 - performance)
}

/// The qualification figure in whole seconds, for a perturbation within
/// ±0.5 s.
pub fn qualification_time_seconds(
    driver: &Driver,
    car: &Car,
    variation_tenths: i64,
) -> (seconds: u8)
    requires
        -5 <= variation_tenths <= 5,
    ensures
        seconds == rounded_seconds(qualification_tenths(*driver, *car, variation_tenths as int)),
{
    let figure = 5 * (driver.skill_level as i64) + 4 * (car.engine_power as i64)
        + variation_tenths;
    round_to_seconds(figure)
}

/// Race time in whole seconds, for a perturbation within ±3 s.
pub fn race_time_seconds(driver: &Driver, car: &Car, variation_tenths: i64) -> (seconds: u8)
    requires
        -30 <= variation_tenths <= 30,
    ensures
        seconds == rounded_seconds(race_time_tenths(*driver, *car, variation_tenths as int)),
{
    let performance = 4 * (driver.skill_level as i64) + 3 * (car.engine_power as i64) + 2 * (
    car.tyre_management as i64) + (car.reliability as i64) + variation_tenths;
    round_to_seconds(1200 - performance)
}

/// Relies on rand's `Rng::random_range` over an inclusive integer range:
/// the sample lies within the range; the call panics only when the range is
/// empty.
#[verifier::external_body]
pub(crate) fn draw_in_range(lo: i64, hi: i64) -> (drawn: i64)
    requires
        lo <= hi,
    ensures
        lo <= drawn <= hi,
{
    rand::Rng::random_range(&mut rand::rng(), lo..=hi)
}

/// Relies on rand's `Rng::random_ratio`: a Bernoulli draw that comes up true
/// with probability numerator/denominator, guaranteed false for a zero
/// numerator and true when numerator and denominator agree; the call panics
/// only when the denominator is 0 or smaller than the numerator.
#[verifier::external_body]
pub(crate) fn draw_with_ratio(numerator: u32, denominator: u32) -> (drawn: bool)
    requires
        0 < denominator,
        numerator <= denominator,
    ensures
        numerator == 0 ==> !drawn,
        numerator == denominator ==> drawn,
{
    rand::Rng::random_ratio(&mut rand::rng(), numerator, denominator)
}

} // verus!
