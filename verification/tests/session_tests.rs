use race_sim::catalog::{create_cars, create_drivers};
use race_sim::session::{simulate_practice_session, simulate_qualification, simulate_race};

#[test]
fn practice_produces_one_unranked_entry_per_driver() {
    let drivers = create_drivers();
    let cars = create_cars();
    let results = simulate_practice_session(&drivers, &cars, "FP1");
    assert_eq!(results.len(), drivers.len());
    for (driver, result) in drivers.iter().zip(results.iter()) {
        assert_eq!(result.driver_name, driver.full_name);
        assert_eq!(result.team_name, driver.team_name);
        assert_eq!(result.finish_position, 0);
        assert!(!result.dnf);
    }
}

#[test]
fn practice_times_stay_within_the_formula_window() {
    let drivers = create_drivers();
    let cars = create_cars();
    let results = simulate_practice_session(&drivers, &cars, "FP2");
    for (driver, result) in drivers.iter().zip(results.iter()) {
        let car = &cars
            .iter()
            .find(|(name, _)| *name == driver.team_name)
            .unwrap()
            .1;
        let performance = 4 * driver.skill_level as i64
            + 3 * car.engine_power as i64
            + 2 * car.tyre_management as i64
            + car.reliability as i64;
        let fastest = 900 - performance - 15;
        let slowest = 900 - performance + 15;
        let low = if fastest <= 0 { 0 } else { (fastest + 5) / 10 };
        let high = if slowest <= 0 { 0 } else { (slowest + 5) / 10 };
        let seconds = result.finish_time_seconds as i64;
        assert!(low <= seconds && seconds <= high);
    }
}

#[test]
fn qualification_ranks_all_drivers_ascending() {
    let drivers = create_drivers();
    let cars = create_cars();
    let results = simulate_qualification(&drivers, &cars);
    assert_eq!(results.len(), 20);
    for (index, result) in results.iter().enumerate() {
        assert_eq!(result.finish_position as usize, index + 1);
        assert!(!result.dnf);
    }
    for pair in results.windows(2) {
        assert!(pair[0].finish_time_seconds <= pair[1].finish_time_seconds);
    }
    let mut names: Vec<&str> = results.iter().map(|r| r.driver_name.as_str()).collect();
    names.sort();
    let mut expected: Vec<&str> = drivers.iter().map(|d| d.full_name.as_str()).collect();
    expected.sort();
    assert_eq!(names, expected);
}

#[test]
fn qualification_times_follow_the_qualification_formula_window() {
    let drivers = create_drivers();
    let cars = create_cars();
    let results = simulate_qualification(&drivers, &cars);
    for result in &results {
        let driver = drivers
            .iter()
            .find(|d| d.full_name == result.driver_name)
            .unwrap();
        let car = &cars
            .iter()
            .find(|(name, _)| *name == driver.team_name)
            .unwrap()
            .1;
        let figure = 5 * driver.skill_level as i64 + 4 * car.engine_power as i64;
        let low = (figure - 5 + 5) / 10;
        let high = (figure + 5 + 5) / 10;
        let seconds = result.finish_time_seconds as i64;
        assert!(low <= seconds && seconds <= high);
    }
}

#[test]
fn race_puts_every_finisher_ahead_of_every_dnf() {
    let drivers = create_drivers();
    let cars = create_cars();
    let results = simulate_race(&drivers, &cars);
    assert_eq!(results.len(), 20);
    for (index, result) in results.iter().enumerate() {
        assert_eq!(result.finish_position as usize, index + 1);
    }
    for finisher in results.iter().filter(|r| !r.dnf) {
        for retired in results.iter().filter(|r| r.dnf) {
            assert!(finisher.finish_position < retired.finish_position);
        }
    }
    for pair in results.windows(2) {
        if pair[0].dnf == pair[1].dnf {
            assert!(pair[0].finish_time_seconds <= pair[1].finish_time_seconds);
        }
    }
}
