use vstd::prelude::*;

use crate::car::Car;
use crate::driver::Driver;
use crate::text::{push_literal, push_string};

verus! {

/// A team: its metadata, the drivers affiliated with it (normally two), and
/// exactly one car.
#[derive(Debug)]
pub struct Team {
    pub name: String,
    pub team_color: String,
    pub nationality: String,
    pub drivers: Vec<Driver>,
    pub car: Car,
}

/// One indented name line per driver, in roster order.
pub open spec fn driver_lines(drivers: Seq<Driver>) -> Seq<char>
    decreases drivers.len(),
{
    if drivers.len() == 0 {
        Seq::empty()
    } else {
        driver_lines(drivers.drop_last()) + "    - "@ + drivers.last().full_name@ + "\n"@
    }
}

impl Team {
    pub fn new(
        name: String,
        team_color: String,
        nationality: String,
        drivers: Vec<Driver>,
        car: Car,
    ) -> (team: Team)
        ensures
            team.name == name,
            team.team_color == team_color,
            team.nationality == nationality,
            team.drivers == drivers,
            team.car == car,
    {
        Team { name, team_color, nationality, drivers, car }
    }

    /// The text that `info` renders: metadata, the roster, then the car.
    pub open spec fn info_text(&self) -> Seq<char> {
        "Team: "@ + self.name@ + "\nColor: "@ + self.team_color@ + "\nNationality: "@
            + self.nationality@ + "\nDrivers:\n"@ + driver_lines(self.drivers@)
            + self.car.info_text()
    }

    pub fn info(&self) -> (text: String)
        ensures
            text@ == self.info_text(),
    {
        let mut text = String::new();
        push_literal(&mut text, "Team: ");
        push_string(&mut text, &self.name);
        push_literal(&mut text, "\nColor: ");
        push_string(&mut text, &self.team_color);
        push_literal(&mut text, "\nNationality: ");
        push_string(&mut text, &self.nationality);
        push_literal(&mut text, "\nDrivers:\n");
        let ghost header = text@;
        let n = self.drivers.len();
        for i in 0..n
            invariant
                n == self.drivers@.len(),
                text@ == header + driver_lines(self.drivers@.subrange(0, i as int)),
        {
            push_literal(&mut text, "    - ");
            push_string(&mut text, &self.drivers[i].full_name);
            push_literal(&mut text, "\n");
            proof {
                let prefix = self.drivers@.subrange(0, i as int);
                let extended = self.drivers@.subrange(0, i + 1 as int);
                assert(extended.drop_last() =~= prefix);
                assert(extended.last() == self.drivers@[i as int]);
                assert(text@ =~= header + driver_lines(extended));
            }
        }
        proof {
            assert(self.drivers@.subrange(0, n as int) =~= self.drivers@);
        }
        let car_info = self.car.info();
        push_string(&mut text, &car_info);
        proof {
            assert(text@ =~= self.info_text());
        }
        text
    }
}

impl Clone for Team {
    fn clone(&self) -> (res: Team)
        ensures
            res.name == self.name,
            res.team_color == self.team_color,
            res.nationality == self.nationality,
            res.drivers@ == self.drivers@,
            res.car == self.car,
    {
        let res = Team {
            name: self.name.clone(),
            team_color: self.team_color.clone(),
            nationality: self.nationality.clone(),
            drivers: self.drivers.clone(),
            car: self.car.clone(),
        };
        proof {
            assert(res.drivers@ =~= self.drivers@);
        }
        res
    }
}

} // verus!
