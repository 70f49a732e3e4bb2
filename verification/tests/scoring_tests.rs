use race_sim::scoring::{practice_time_seconds, qualification_time_seconds, race_time_seconds};
use race_sim::Car;
use race_sim::Driver;
use race_sim::RaceResult;

fn sample_driver(skill: u8) -> Driver {
    Driver::new(
        "Test".to_string(),
        "Driver".to_string(),
        "Test Driver".to_string(),
        "TST".to_string(),
        30,
        "Nowhere".to_string(),
        99,
        skill,
        50,
        50,
        50,
        "Test Team".to_string(),
    )
}

#[test]
fn race_time_matches_the_worked_example() {
    // 120.0 - (0.4*95 + 0.3*95 + 0.2*88 + 0.1*92) = 120.0 - 93.3 = 26.7 -> 27
    let driver = sample_driver(95);
    let car = Car::new("Test Car".to_string(), 95, 88, 92, 90);
    assert_eq!(race_time_seconds(&driver, &car, 0), 27);
}

#[test]
fn race_time_follows_the_perturbation() {
    let driver = sample_driver(95);
    let car = Car::new("Test Car".to_string(), 95, 88, 92, 90);
    // 26.7 with a -3.0 s perturbation: 29.7 -> 30
    assert_eq!(race_time_seconds(&driver, &car, -30), 30);
    // 26.7 with a +3.0 s perturbation: 23.7 -> 24
    assert_eq!(race_time_seconds(&driver, &car, 30), 24);
}

#[test]
fn practice_time_saturates_at_zero() {
    // 90.0 - 93.3 = -3.3 rounds to -3, which a byte stores as 0.
    let driver = sample_driver(95);
    let car = Car::new("Test Car".to_string(), 95, 88, 92, 90);
    assert_eq!(practice_time_seconds(&driver, &car, 0), 0);
}

#[test]
fn practice_time_for_a_modest_pairing() {
    // 90.0 - (0.4*75 + 0.3*80 + 0.2*74 + 0.1*79) = 90.0 - 76.7 = 13.3 -> 13
    let driver = sample_driver(75);
    let car = Car::new("Test Car".to_string(), 80, 74, 79, 76);
    assert_eq!(practice_time_seconds(&driver, &car, 0), 13);
}

#[test]
fn qualification_figure_is_not_subtracted_from_a_baseline() {
    // 0.5*95 + 0.4*95 = 85.5 -> 86; a stronger pairing yields a larger figure.
    let strong = sample_driver(95);
    let weak = sample_driver(75);
    let fast_car = Car::new("Fast".to_string(), 95, 88, 92, 90);
    let slow_car = Car::new("Slow".to_string(), 80, 74, 79, 76);
    assert_eq!(qualification_time_seconds(&strong, &fast_car, 0), 86);
    // 0.5*75 + 0.4*80 = 69.5 -> 70
    assert_eq!(qualification_time_seconds(&weak, &slow_car, 0), 70);
    assert!(
        qualification_time_seconds(&strong, &fast_car, 0)
            > qualification_time_seconds(&weak, &slow_car, 0)
    );
}

#[test]
fn rounding_is_half_up() {
    // 0.5*1 + 0.4*0 = 0.5 -> 1
    let driver = sample_driver(1);
    let car = Car::new("Bare".to_string(), 0, 0, 0, 0);
    assert_eq!(qualification_time_seconds(&driver, &car, 0), 1);
    // 0.4 -> 0
    let slower = sample_driver(1);
    assert_eq!(qualification_time_seconds(&slower, &car, -1), 0);
}

#[test]
fn result_info_renders_every_field() {
    let result = RaceResult::new(
        "Test Driver".to_string(),
        "Test Team".to_string(),
        0,
        255,
        true,
    );
    let expected = "Race Result\n  Driver: Test Driver\n  Team: Test Team\n  Finish Position: 0\n  Finish Time: 255s\n  DNF: Yes\n";
    assert_eq!(result.info(), expected);
    let finisher = RaceResult::new("A".to_string(), "B".to_string(), 7, 42, false);
    let expected_finisher =
        "Race Result\n  Driver: A\n  Team: B\n  Finish Position: 7\n  Finish Time: 42s\n  DNF: No\n";
    assert_eq!(finisher.info(), expected_finisher);
}
