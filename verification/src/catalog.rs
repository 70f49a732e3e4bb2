use vstd::prelude::*;

use crate::car::Car;
use crate::driver::Driver;
use crate::session::{find_car, has_car, is_first_car_match};
use crate::team::Team;

verus! {

/// The driver record carries exactly these identity fields and attributes.
pub open spec fn driver_is(
    d: Driver,
    first: &str,
    last: &str,
    full: &str,
    acronym: &str,
    age: u8,
    country: &str,
    number: u8,
    skill: u8,
    experience: u8,
    aggression: u8,
    consistency: u8,
    team: &str,
) -> bool {
    &&& d.first_name@ == first@
    &&& d.last_name@ == last@
    &&& d.full_name@ == full@
    &&& d.name_acronym@ == acronym@
    &&& d.age == age
    &&& d.country@ == country@
    &&& d.driver_number == number
    &&& d.skill_level == skill
    &&& d.experience_level == experience
    &&& d.aggression_level == aggression
    &&& d.consistency_level == consistency
    &&& d.team_name@ == team@
}

/// The car catalog entry pairs this team name with exactly this car.
pub open spec fn car_entry_is(
    entry: (String, Car),
    team: &str,
    name: &str,
    engine: u8,
    tyre: u8,
    reliability: u8,
    aero: u8,
) -> bool {
    &&& entry.0@ == team@
    &&& entry.1.name@ == name@
    &&& entry.1.engine_power == engine
    &&& entry.1.tyre_management == tyre
    &&& entry.1.reliability == reliability
    &&& entry.1.aerodynamics == aero
}

/// The fixed grid of twenty drivers, two per team.
pub open spec fn is_driver_catalog(drivers: Seq<Driver>) -> bool {
    &&& drivers.len() == 20
    &&& driver_is(drivers[0], "Max", "Verstappen", "Max Verstappen", "VER", 26, "Netherlands", 1, 95, 90, 85, 90, "Oracle Red Bull Racing")
    &&& driver_is(drivers[1], "Sergio", "Perez", "Sergio Perez", "PER", 34, "Mexico", 11, 88, 85, 80, 85, "Oracle Red Bull Racing")
    &&& driver_is(drivers[2], "Lewis", "Hamilton", "Lewis Hamilton", "HAM", 39, "United Kingdom", 44, 92, 98, 75, 95, "Mercedes")
    &&& driver_is(drivers[3], "George", "Russell", "George Russell", "RUS", 26, "United Kingdom", 63, 89, 85, 78, 88, "Mercedes")
    &&& driver_is(drivers[4], "Charles", "Leclerc", "Charles Leclerc", "LEC", 26, "Monaco", 16, 91, 87, 82, 86, "Scuderia Ferrari")
    &&& driver_is(drivers[5], "Carlos", "Sainz", "Carlos Sainz", "SAI", 29, "Spain", 55, 88, 89, 76, 87, "Scuderia Ferrari")
    &&& driver_is(drivers[6], "Lando", "Norris", "Lando Norris", "NOR", 24, "United Kingdom", 4, 90, 85, 79, 89, "McLaren")
    &&& driver_is(drivers[7], "Oscar", "Piastri", "Oscar Piastri", "PIA", 23, "Australia", 81, 84, 78, 74, 83, "McLaren")
    &&& driver_is(drivers[8], "Fernando", "Alonso", "Fernando Alonso", "ALO", 42, "Spain", 14, 90, 99, 70, 92, "Aston Martin")
    &&& driver_is(drivers[9], "Lance", "Stroll", "Lance Stroll", "STR", 25, "Canada", 18, 80, 78, 76, 79, "Aston Martin")
    &&& driver_is(drivers[10], "Esteban", "Ocon", "Esteban Ocon", "OCO", 27, "France", 31, 84, 83, 77, 84, "Alpine")
    &&& driver_is(drivers[11], "Pierre", "Gasly", "Pierre Gasly", "GAS", 28, "France", 10, 85, 84, 78, 82, "Alpine")
    &&& driver_is(drivers[12], "Alex", "Albon", "Alex Albon", "ALB", 28, "Thailand", 23, 86, 82, 79, 84, "Williams")
    &&& driver_is(drivers[13], "Logan", "Sargeant", "Logan Sargeant", "SAR", 24, "USA", 2, 75, 70, 80, 75, "Williams")
    &&& driver_is(drivers[14], "Kevin", "Magnussen", "Kevin Magnussen", "MAG", 31, "Denmark", 20, 82, 81, 82, 78, "Haas")
    &&& driver_is(drivers[15], "Nico", "Hulkenberg", "Nico Hulkenberg", "HUL", 36, "Germany", 27, 83, 85, 75, 80, "Haas")
    &&& driver_is(drivers[16], "Valtteri", "Bottas", "Valtteri Bottas", "BOT", 35, "Finland", 77, 85, 90, 70, 85, "Stake F1 Team Kick Sauber")
    &&& driver_is(drivers[17], "Zhou", "Guanyu", "Zhou Guanyu", "ZHO", 25, "China", 24, 80, 78, 75, 77, "Stake F1 Team Kick Sauber")
    &&& driver_is(drivers[18], "Yuki", "Tsunoda", "Yuki Tsunoda", "TSU", 24, "Japan", 22, 82, 80, 83, 78, "Visa Cash App RB")
    &&& driver_is(drivers[19], "Daniel", "Ricciardo", "Daniel Ricciardo", "RIC", 35, "Australia", 3, 87, 88, 74, 83, "Visa Cash App RB")
}

/// The fixed catalog of ten cars, one per team.
pub open spec fn is_car_catalog(cars: Seq<(String, Car)>) -> bool {
    &&& cars.len() == 10
    &&& car_entry_is(cars[0], "Oracle Red Bull Racing", "RB20", 95, 88, 92, 93)
    &&& car_entry_is(cars[1], "Mercedes", "W15", 90, 85, 88, 87)
    &&& car_entry_is(cars[2], "Scuderia Ferrari", "SF-24", 89, 83, 87, 85)
    &&& car_entry_is(cars[3], "McLaren", "MCL38", 88, 84, 86, 89)
    &&& car_entry_is(cars[4], "Aston Martin", "AMR24", 86, 80, 85, 82)
    &&& car_entry_is(cars[5], "Alpine", "A524", 83, 78, 82, 80)
    &&& car_entry_is(cars[6], "Williams", "FW46", 82, 77, 81, 79)
    &&& car_entry_is(cars[7], "Haas", "VF-24", 81, 75, 80, 78)
    &&& car_entry_is(cars[8], "Stake F1 Team Kick Sauber", "C44", 80, 74, 79, 76)
    &&& car_entry_is(cars[9], "Visa Cash App RB", "VCARB 01", 82, 76, 80, 77)
}

/// The drivers affiliated with the named team, in roster order.
pub open spec fn roster(drivers: Seq<Driver>, name: Seq<char>) -> Seq<Driver> {
    drivers.filter(|d: Driver| d.team_name@ == name)
}

/// The fallback car substituted when no catalog entry matches a team name:
/// every attribute defaults to a mid-range 80.
pub open spec fn is_default_car(car: Car) -> bool {
    &&& car.name@ == "DefaultCar"@
    &&& car.engine_power == 80
    &&& car.tyre_management == 80
    &&& car.reliability == 80
    &&& car.aerodynamics == 80
}

/// The car a team ends up with: the first matching catalog entry, or the
/// fallback car when the catalog has none for this name.
pub open spec fn is_team_car(car: Car, cars: Seq<(String, Car)>, name: Seq<char>) -> bool {
    if has_car(cars, name) {
        is_first_car_match(car, cars, name)
    } else {
        is_default_car(car)
    }
}

/// The team carries this metadata, the filtered roster, and its car.
pub open spec fn team_is(
    team: Team,
    drivers: Seq<Driver>,
    cars: Seq<(String, Car)>,
    name: &str,
    color: &str,
    nationality: &str,
) -> bool {
    &&& team.name@ == name@
    &&& team.team_color@ == color@
    &&& team.nationality@ == nationality@
    &&& team.drivers@ == roster(drivers, name@)
    &&& is_team_car(team.car, cars, name@)
}

/// The fixed list of ten teams, in grid order.
pub open spec fn is_team_catalog(
    teams: Seq<Team>,
    drivers: Seq<Driver>,
    cars: Seq<(String, Car)>,
) -> bool {
    &&& teams.len() == 10
    &&& team_is(teams[0], drivers, cars, "Oracle Red Bull Racing", "001344", "Austrian")
    &&& team_is(teams[1], drivers, cars, "Mercedes", "C0C0C0", "German")
    &&& team_is(teams[2], drivers, cars, "Scuderia Ferrari", "FF2800", "Italian")
    &&& team_is(teams[3], drivers, cars, "McLaren", "FF8700", "British")
    &&& team_is(teams[4], drivers, cars, "Aston Martin", "006F62", "British")
    &&& team_is(teams[5], drivers, cars, "Alpine", "005BAA", "French")
    &&& team_is(teams[6], drivers, cars, "Williams", "005AFF", "British")
    &&& team_is(teams[7], drivers, cars, "Haas", "FFFFFF", "American")
    &&& team_is(teams[8], drivers, cars, "Stake F1 Team Kick Sauber", "4CBB17", "Swiss")
    &&& team_is(teams[9], drivers, cars, "Visa Cash App RB", "0033A0", "Italian")
}

/// The fixed grid of twenty drivers.
pub fn create_drivers() -> (drivers: Vec<Driver>)
    ensures
        is_driver_catalog(drivers@),
        forall|i: int| 0 <= i < drivers@.len() ==> (#[trigger] drivers@[i]).valid(),
{
    let mut drivers: Vec<Driver> = Vec::new();
    drivers.push(Driver::new("Max".to_owned(), "Verstappen".to_owned(), "Max Verstappen".to_owned(), "VER".to_owned(), 26, "Netherlands".to_owned(), 1, 95, 90, 85, 90, "Oracle Red Bull Racing".to_owned()));
    drivers.push(Driver::new("Sergio".to_owned(), "Perez".to_owned(), "Sergio Perez".to_owned(), "PER".to_owned(), 34, "Mexico".to_owned(), 11, 88, 85, 80, 85, "Oracle Red Bull Racing".to_owned()));
    drivers.push(Driver::new("Lewis".to_owned(), "Hamilton".to_owned(), "Lewis Hamilton".to_owned(), "HAM".to_owned(), 39, "United Kingdom".to_owned(), 44, 92, 98, 75, 95, "Mercedes".to_owned()));
    drivers.push(Driver::new("George".to_owned(), "Russell".to_owned(), "George Russell".to_owned(), "RUS".to_owned(), 26, "United Kingdom".to_owned(), 63, 89, 85, 78, 88, "Mercedes".to_owned()));
    drivers.push(Driver::new("Charles".to_owned(), "Leclerc".to_owned(), "Charles Leclerc".to_owned(), "LEC".to_owned(), 26, "Monaco".to_owned(), 16, 91, 87, 82, 86, "Scuderia Ferrari".to_owned()));
    drivers.push(Driver::new("Carlos".to_owned(), "Sainz".to_owned(), "Carlos Sainz".to_owned(), "SAI".to_owned(), 29, "Spain".to_owned(), 55, 88, 89, 76, 87, "Scuderia Ferrari".to_owned()));
    drivers.push(Driver::new("Lando".to_owned(), "Norris".to_owned(), "Lando Norris".to_owned(), "NOR".to_owned(), 24, "United Kingdom".to_owned(), 4, 90, 85, 79, 89, "McLaren".to_owned()));
    drivers.push(Driver::new("Oscar".to_owned(), "Piastri".to_owned(), "Oscar Piastri".to_owned(), "PIA".to_owned(), 23, "Australia".to_owned(), 81, 84, 78, 74, 83, "McLaren".to_owned()));
    drivers.push(Driver::new("Fernando".to_owned(), "Alonso".to_owned(), "Fernando Alonso".to_owned(), "ALO".to_owned(), 42, "Spain".to_owned(), 14, 90, 99, 70, 92, "Aston Martin".to_owned()));
    drivers.push(Driver::new("Lance".to_owned(), "Stroll".to_owned(), "Lance Stroll".to_owned(), "STR".to_owned(), 25, "Canada".to_owned(), 18, 80, 78, 76, 79, "Aston Martin".to_owned()));
    drivers.push(Driver::new("Esteban".to_owned(), "Ocon".to_owned(), "Esteban Ocon".to_owned(), "OCO".to_owned(), 27, "France".to_owned(), 31, 84, 83, 77, 84, "Alpine".to_owned()));
    drivers.push(Driver::new("Pierre".to_owned(), "Gasly".to_owned(), "Pierre Gasly".to_owned(), "GAS".to_owned(), 28, "France".to_owned(), 10, 85, 84, 78, 82, "Alpine".to_owned()));
    drivers.push(Driver::new("Alex".to_owned(), "Albon".to_owned(), "Alex Albon".to_owned(), "ALB".to_owned(), 28, "Thailand".to_owned(), 23, 86, 82, 79, 84, "Williams".to_owned()));
    drivers.push(Driver::new("Logan".to_owned(), "Sargeant".to_owned(), "Logan Sargeant".to_owned(), "SAR".to_owned(), 24, "USA".to_owned(), 2, 75, 70, 80, 75, "Williams".to_owned()));
    drivers.push(Driver::new("Kevin".to_owned(), "Magnussen".to_owned(), "Kevin Magnussen".to_owned(), "MAG".to_owned(), 31, "Denmark".to_owned(), 20, 82, 81, 82, 78, "Haas".to_owned()));
    drivers.push(Driver::new("Nico".to_owned(), "Hulkenberg".to_owned(), "Nico Hulkenberg".to_owned(), "HUL".to_owned(), 36, "Germany".to_owned(), 27, 83, 85, 75, 80, "Haas".to_owned()));
    drivers.push(Driver::new("Valtteri".to_owned(), "Bottas".to_owned(), "Valtteri Bottas".to_owned(), "BOT".to_owned(), 35, "Finland".to_owned(), 77, 85, 90, 70, 85, "Stake F1 Team Kick Sauber".to_owned()));
    drivers.push(Driver::new("Zhou".to_owned(), "Guanyu".to_owned(), "Zhou Guanyu".to_owned(), "ZHO".to_owned(), 25, "China".to_owned(), 24, 80, 78, 75, 77, "Stake F1 Team Kick Sauber".to_owned()));
    drivers.push(Driver::new("Yuki".to_owned(), "Tsunoda".to_owned(), "Yuki Tsunoda".to_owned(), "TSU".to_owned(), 24, "Japan".to_owned(), 22, 82, 80, 83, 78, "Visa Cash App RB".to_owned()));
    drivers.push(Driver::new("Daniel".to_owned(), "Ricciardo".to_owned(), "Daniel Ricciardo".to_owned(), "RIC".to_owned(), 35, "Australia".to_owned(), 3, 87, 88, 74, 83, "Visa Cash App RB".to_owned()));
    drivers
}

/// The fixed catalog of ten cars, keyed by team name.
pub fn create_cars() -> (cars: Vec<(String, Car)>)
    ensures
        is_car_catalog(cars@),
        forall|j: int| 0 <= j < cars@.len() ==> (#[trigger] cars@[j].1).valid(),
{
    let mut cars: Vec<(String, Car)> = Vec::new();
    cars.push(("Oracle Red Bull Racing".to_owned(), Car::new("RB20".to_owned(), 95, 88, 92, 93)));
    cars.push(("Mercedes".to_owned(), Car::new("W15".to_owned(), 90, 85, 88, 87)));
    cars.push(("Scuderia Ferrari".to_owned(), Car::new("SF-24".to_owned(), 89, 83, 87, 85)));
    cars.push(("McLaren".to_owned(), Car::new("MCL38".to_owned(), 88, 84, 86, 89)));
    cars.push(("Aston Martin".to_owned(), Car::new("AMR24".to_owned(), 86, 80, 85, 82)));
    cars.push(("Alpine".to_owned(), Car::new("A524".to_owned(), 83, 78, 82, 80)));
    cars.push(("Williams".to_owned(), Car::new("FW46".to_owned(), 82, 77, 81, 79)));
    cars.push(("Haas".to_owned(), Car::new("VF-24".to_owned(), 81, 75, 80, 78)));
    cars.push(("Stake F1 Team Kick Sauber".to_owned(), Car::new("C44".to_owned(), 80, 74, 79, 76)));
    cars.push(("Visa Cash App RB".to_owned(), Car::new("VCARB 01".to_owned(), 82, 76, 80, 77)));
    cars
}

/// Builds one team: metadata, the drivers whose affiliation matches, and
/// the first matching car, with the fallback car substituted when none
/// matches.
fn build_team(
    drivers: &Vec<Driver>,
    cars: &Vec<(String, Car)>,
    name: &str,
    color: &str,
    nationality: &str,
) -> (team: Team)
    ensures
        team_is(team, drivers@, cars@, name, color, nationality),
{
    broadcast use vstd::seq_lib::group_filter_ensures;

    let name_string = name.to_owned();
    let mut team_drivers: Vec<Driver> = Vec::new();
    let n = drivers.len();
    proof {
        reveal(Seq::filter);
        assert(team_drivers@ == roster(drivers@.subrange(0, 0), name@));
    }
    let mut i: usize = 0;
    while i < n
        invariant
            i <= n,
            n == drivers@.len(),
            name_string@ == name@,
            team_drivers@ == roster(drivers@.subrange(0, i as int), name@),
        decreases n - i,
    {
        let ghost prev = drivers@.subrange(0, i as int);
        if drivers[i].team_name == name_string {
            team_drivers.push(drivers[i].clone());
        }
        proof {
            reveal(Seq::filter);
            let ext = drivers@.subrange(0, i + 1 as int);
            assert(ext.drop_last() =~= prev);
            assert(ext.last() == drivers@[i as int]);
            assert(team_drivers@ == roster(ext, name@));
        }
        i = i + 1;
    }
    proof {
        assert(drivers@.subrange(0, n as int) =~= drivers@);
    }
    let team_car = match find_car(cars, &name_string) {
        Some(car) => car.clone(),
        None => Car::new("DefaultCar".to_owned(), 80, 80, 80, 80),
    };
    proof {
        assert(is_team_car(team_car, cars@, name@));
    }
    Team::new(name.to_owned(), color.to_owned(), nationality.to_owned(), team_drivers, team_car)
}

/// Team `t` carries exactly this affiliation name.
pub open spec fn team_name_matches(teams: Seq<Team>, t: int, name: Seq<char>) -> bool {
    teams[t].name@ == name
}

/// Exactly one team on the list carries this affiliation name.
pub open spec fn resolves_to_unique_team(teams: Seq<Team>, name: Seq<char>) -> bool {
    &&& exists|t: int| 0 <= t < teams.len() && #[trigger] team_name_matches(teams, t, name)
    &&& forall|t1: int, t2: int|
        0 <= t1 < teams.len() && 0 <= t2 < teams.len() && #[trigger] team_name_matches(
            teams,
            t1,
            name,
        ) && #[trigger] team_name_matches(teams, t2, name) ==> t1 == t2
}

/// The ten team names of the catalog are pairwise different.
proof fn lemma_team_names_distinct(teams: Seq<Team>, drivers: Seq<Driver>, cars: Seq<(String, Car)>)
    requires
        is_team_catalog(teams, drivers, cars),
    ensures
        forall|t1: int, t2: int|
            #![trigger teams[t1], teams[t2]]
            0 <= t1 < 10 && 0 <= t2 < 10 && t1 != t2 ==> teams[t1].name@ != teams[t2].name@,
{
    reveal_strlit("Oracle Red Bull Racing");
    reveal_strlit("Mercedes");
    reveal_strlit("Scuderia Ferrari");
    reveal_strlit("McLaren");
    reveal_strlit("Aston Martin");
    reveal_strlit("Alpine");
    reveal_strlit("Williams");
    reveal_strlit("Haas");
    reveal_strlit("Stake F1 Team Kick Sauber");
    reveal_strlit("Visa Cash App RB");
    assert("Oracle Red Bull Racing"@.len() == 22);
    assert("Mercedes"@.len() == 8);
    assert("Scuderia Ferrari"@.len() == 16);
    assert("McLaren"@.len() == 7);
    assert("Aston Martin"@.len() == 12);
    assert("Alpine"@.len() == 6);
    assert("Williams"@.len() == 8);
    assert("Haas"@.len() == 4);
    assert("Stake F1 Team Kick Sauber"@.len() == 25);
    assert("Visa Cash App RB"@.len() == 16);
    assert("Mercedes"@[0] == 'M' && "Williams"@[0] == 'W');
    assert("Scuderia Ferrari"@[0] == 'S' && "Visa Cash App RB"@[0] == 'V');
}

/// Every driver's team affiliation resolves to exactly one team of the
/// catalog, and every team owns a car whose attributes are in the
/// conventional band, whether it came from the car catalog or is the
/// fallback car.
pub proof fn lemma_driver_team_resolution(
    drivers: Seq<Driver>,
    cars: Seq<(String, Car)>,
    teams: Seq<Team>,
)
    requires
        is_driver_catalog(drivers),
        is_car_catalog(cars),
        is_team_catalog(teams, drivers, cars),
    ensures
        forall|i: int|
            0 <= i < drivers.len() ==> #[trigger] resolves_to_unique_team(
                teams,
                drivers[i].team_name@,
            ),
        forall|t: int| 0 <= t < teams.len() ==> (#[trigger] teams[t]).car.valid(),
{
    lemma_team_names_distinct(teams, drivers, cars);
    assert(team_name_matches(teams, 0, "Oracle Red Bull Racing"@));
    assert(team_name_matches(teams, 1, "Mercedes"@));
    assert(team_name_matches(teams, 2, "Scuderia Ferrari"@));
    assert(team_name_matches(teams, 3, "McLaren"@));
    assert(team_name_matches(teams, 4, "Aston Martin"@));
    assert(team_name_matches(teams, 5, "Alpine"@));
    assert(team_name_matches(teams, 6, "Williams"@));
    assert(team_name_matches(teams, 7, "Haas"@));
    assert(team_name_matches(teams, 8, "Stake F1 Team Kick Sauber"@));
    assert(team_name_matches(teams, 9, "Visa Cash App RB"@));
    assert forall|i: int| 0 <= i < drivers.len() implies #[trigger] resolves_to_unique_team(
        teams,
        drivers[i].team_name@,
    ) by {
        assert forall|t1: int, t2: int|
            0 <= t1 < teams.len() && 0 <= t2 < teams.len() && #[trigger] team_name_matches(
                teams,
                t1,
                drivers[i].team_name@,
            ) && #[trigger] team_name_matches(teams, t2, drivers[i].team_name@) implies t1
            == t2 by {
            assert(teams[t1].name@ == teams[t2].name@);
        }
    }
    assert forall|j: int| 0 <= j < cars.len() implies (#[trigger] cars[j].1).valid() by {}
    assert forall|t: int| 0 <= t < teams.len() implies (#[trigger] teams[t]).car.valid() by {
        if has_car(cars, teams[t].name@) {
            assert(is_first_car_match(teams[t].car, cars, teams[t].name@));
            let j = choose|j: int|
                0 <= j < cars.len() && #[trigger] cars[j].0@ == teams[t].name@ && (forall|k: int|
                    0 <= k < j ==> #[trigger] cars[k].0@ != teams[t].name@) && teams[t].car
                    == cars[j].1;
            assert(cars[j].1.valid());
        }
    }
}

/// Groups the drivers by their team affiliation, attaches each team's car,
/// and returns the ten teams in grid order.
pub fn create_teams(drivers: &Vec<Driver>, cars: &Vec<(String, Car)>) -> (teams: Vec<Team>)
    ensures
        is_team_catalog(teams@, drivers@, cars@),
{
    let mut teams: Vec<Team> = Vec::new();
    teams.push(build_team(drivers, cars, "Oracle Red Bull Racing", "001344", "Austrian"));
    teams.push(build_team(drivers, cars, "Mercedes", "C0C0C0", "German"));
    teams.push(build_team(drivers, cars, "Scuderia Ferrari", "FF2800", "Italian"));
    teams.push(build_team(drivers, cars, "McLaren", "FF8700", "British"));
    teams.push(build_team(drivers, cars, "Aston Martin", "006F62", "British"));
    teams.push(build_team(drivers, cars, "Alpine", "005BAA", "French"));
    teams.push(build_team(drivers, cars, "Williams", "005AFF", "British"));
    teams.push(build_team(drivers, cars, "Haas", "FFFFFF", "American"));
    teams.push(build_team(drivers, cars, "Stake F1 Team Kick Sauber", "4CBB17", "Swiss"));
    teams.push(build_team(drivers, cars, "Visa Cash App RB", "0033A0", "Italian"));
    teams
}

} // verus!
