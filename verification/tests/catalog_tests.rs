use race_sim::catalog::{create_cars, create_drivers, create_teams};
use race_sim::Car;
use race_sim::Driver;

#[test]
fn drivers_catalog_has_twenty_entries() {
    let drivers = create_drivers();
    assert_eq!(drivers.len(), 20);
    let max = &drivers[0];
    assert_eq!(max.first_name, "Max");
    assert_eq!(max.last_name, "Verstappen");
    assert_eq!(max.full_name, "Max Verstappen");
    assert_eq!(max.name_acronym, "VER");
    assert_eq!(max.age, 26);
    assert_eq!(max.country, "Netherlands");
    assert_eq!(max.driver_number, 1);
    assert_eq!(max.skill_level, 95);
    assert_eq!(max.experience_level, 90);
    assert_eq!(max.aggression_level, 85);
    assert_eq!(max.consistency_level, 90);
    assert_eq!(max.team_name, "Oracle Red Bull Racing");
    let ricciardo = &drivers[19];
    assert_eq!(ricciardo.full_name, "Daniel Ricciardo");
    assert_eq!(ricciardo.team_name, "Visa Cash App RB");
}

#[test]
fn drivers_attributes_are_within_bounds() {
    for driver in create_drivers() {
        assert!(driver.skill_level <= 100);
        assert!(driver.experience_level <= 100);
        assert!(driver.aggression_level <= 100);
        assert!(driver.consistency_level <= 100);
    }
}

#[test]
fn cars_catalog_has_ten_entries() {
    let cars = create_cars();
    assert_eq!(cars.len(), 10);
    assert_eq!(cars[0].0, "Oracle Red Bull Racing");
    assert_eq!(cars[0].1.name, "RB20");
    assert_eq!(cars[0].1.engine_power, 95);
    assert_eq!(cars[0].1.tyre_management, 88);
    assert_eq!(cars[0].1.reliability, 92);
    assert_eq!(cars[0].1.aerodynamics, 93);
    assert_eq!(cars[9].0, "Visa Cash App RB");
    assert_eq!(cars[9].1.name, "VCARB 01");
}

#[test]
fn teams_group_two_drivers_each_with_matching_car() {
    let drivers = create_drivers();
    let cars = create_cars();
    let teams = create_teams(&drivers, &cars);
    assert_eq!(teams.len(), 10);
    for team in &teams {
        assert_eq!(team.drivers.len(), 2);
        for driver in &team.drivers {
            assert_eq!(driver.team_name, team.name);
        }
    }
    assert_eq!(teams[0].name, "Oracle Red Bull Racing");
    assert_eq!(teams[0].team_color, "001344");
    assert_eq!(teams[0].nationality, "Austrian");
    assert_eq!(teams[0].car.name, "RB20");
    assert_eq!(teams[0].drivers[0].full_name, "Max Verstappen");
    assert_eq!(teams[0].drivers[1].full_name, "Sergio Perez");
    assert_eq!(teams[1].car.name, "W15");
    assert_eq!(teams[9].car.name, "VCARB 01");
}

#[test]
fn missing_car_is_replaced_by_the_fallback_car() {
    let drivers = create_drivers();
    let cars: Vec<(String, Car)> = Vec::new();
    let teams = create_teams(&drivers, &cars);
    assert_eq!(teams.len(), 10);
    for team in &teams {
        assert_eq!(team.car.name, "DefaultCar");
        assert_eq!(team.car.engine_power, 80);
        assert_eq!(team.car.tyre_management, 80);
        assert_eq!(team.car.reliability, 80);
        assert_eq!(team.car.aerodynamics, 80);
    }
}

#[test]
fn every_affiliation_resolves_to_exactly_one_team() {
    let drivers = create_drivers();
    let cars = create_cars();
    let teams = create_teams(&drivers, &cars);
    for driver in &drivers {
        let matches = teams.iter().filter(|t| t.name == driver.team_name).count();
        assert_eq!(matches, 1);
    }
}

#[test]
fn driver_info_renders_every_field() {
    let driver = Driver::new(
        "Max".to_string(),
        "Verstappen".to_string(),
        "Max Verstappen".to_string(),
        "VER".to_string(),
        26,
        "Netherlands".to_string(),
        1,
        95,
        90,
        85,
        90,
        "Oracle Red Bull Racing".to_string(),
    );
    let expected = "Driver: Max Verstappen (Verstappen)\n  Acronym: VER\n  Country: Netherlands\n  Age: 26\n  Number: 1\n  Skill: 95\n  Experience: 90\n  Aggression: 85\n  Consistency: 90\n  Team: Oracle Red Bull Racing\n";
    assert_eq!(driver.info(), expected);
}

#[test]
fn car_info_renders_every_field() {
    let car = Car::new("RB20".to_string(), 95, 88, 92, 93);
    let expected =
        "Car: RB20\n  Engine Power: 95\n  Tyre Management: 88\n  Reliability: 92\n  Aerodynamics: 93\n";
    assert_eq!(car.info(), expected);
}

#[test]
fn team_info_lists_the_roster_and_the_car() {
    let drivers = create_drivers();
    let cars = create_cars();
    let teams = create_teams(&drivers, &cars);
    let text = teams[0].info();
    let expected = "Team: Oracle Red Bull Racing\nColor: 001344\nNationality: Austrian\nDrivers:\n    - Max Verstappen\n    - Sergio Perez\nCar: RB20\n  Engine Power: 95\n  Tyre Management: 88\n  Reliability: 92\n  Aerodynamics: 93\n";
    assert_eq!(text, expected);
}
