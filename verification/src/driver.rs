use vstd::prelude::*;

use crate::text::{push_literal, push_number, push_string};

verus! {

/// A driver on the grid. The four ability attributes are percentages;
/// the catalog keeps them within `0..=100`. The `team_name` field is the
/// affiliation reference that the catalog resolves to a team and its car.
#[derive(Debug)]
pub struct Driver {
    pub first_name: String,
    pub last_name: String,
    pub full_name: String,
    pub name_acronym: String,
    pub age: u8,
    pub country: String,
    pub driver_number: u8,
    pub skill_level: u8,
    pub experience_level: u8,
    pub aggression_level: u8,
    pub consistency_level: u8,
    pub team_name: String,
}

impl Driver {
    /// All ability attributes lie within the conventional `0..=100` band.
    pub open spec fn valid(&self) -> bool {
        &&& self.skill_level <= 100
        &&& self.experience_level <= 100
        &&& self.aggression_level <= 100
        &&& self.consistency_level <= 100
    }

    pub fn new(
        first_name: String,
        last_name: String,
        full_name: String,
        name_acronym: String,
        age: u8,
        country: String,
        driver_number: u8,
        skill_level: u8,
        experience_level: u8,
        aggression_level: u8,
        consistency_level: u8,
        team_name: String,
    ) -> (driver: Driver)
        requires
            skill_level <= 100,
            experience_level <= 100,
            aggression_level <= 100,
            consistency_level <= 100,
        ensures
            driver.first_name == first_name,
            driver.last_name == last_name,
            driver.full_name == full_name,
            driver.name_acronym == name_acronym,
            driver.age == age,
            driver.country == country,
            driver.driver_number == driver_number,
            driver.skill_level == skill_level,
            driver.experience_level == experience_level,
            driver.aggression_level == aggression_level,
            driver.consistency_level == consistency_level,
            driver.team_name == team_name,
            driver.valid(),
    {
        Driver {
            first_name,
            last_name,
            full_name,
            name_acronym,
            age,
            country,
            driver_number,
            skill_level,
            experience_level,
            aggression_level,
            consistency_level,
            team_name,
        }
    }

    /// The text that `info` renders: identity and attributes, one per line.
    pub open spec fn info_text(&self) -> Seq<char> {
        "Driver: "@ + self.full_name@ + " ("@ + self.last_name@ + ")\n  Acronym: "@
            + self.name_acronym@ + "\n  Country: "@ + self.country@ + "\n  Age: "@
            + crate::text::decimal_digits(self.age) + "\n  Number: "@
            + crate::text::decimal_digits(self.driver_number) + "\n  Skill: "@
            + crate::text::decimal_digits(self.skill_level) + "\n  Experience: "@
            + crate::text::decimal_digits(self.experience_level) + "\n  Aggression: "@
            + crate::text::decimal_digits(self.aggression_level) + "\n  Consistency: "@
            + crate::text::decimal_digits(self.consistency_level) + "\n  Team: "@
            + self.team_name@ + "\n"@
    }

    pub fn info(&self) -> (text: String)
        ensures
            text@ == self.info_text(),
    {
        let mut text = String::new();
        push_literal(&mut text, "Driver: ");
        push_string(&mut text, &self.full_name);
        push_literal(&mut text, " (");
        push_string(&mut text, &self.last_name);
        push_literal(&mut text, ")\n  Acronym: ");
        push_string(&mut text, &self.name_acronym);
        push_literal(&mut text, "\n  Country: ");
        push_string(&mut text, &self.country);
        push_literal(&mut text, "\n  Age: ");
        push_number(&mut text, self.age);
        push_literal(&mut text, "\n  Number: ");
        push_number(&mut text, self.driver_number);
        push_literal(&mut text, "\n  Skill: ");
        push_number(&mut text, self.skill_level);
        push_literal(&mut text, "\n  Experience: ");
        push_number(&mut text, self.experience_level);
        push_literal(&mut text, "\n  Aggression: ");
        push_number(&mut text, self.aggression_level);
        push_literal(&mut text, "\n  Consistency: ");
        push_number(&mut text, self.consistency_level);
        push_literal(&mut text, "\n  Team: ");
        push_string(&mut text, &self.team_name);
        push_literal(&mut text, "\n");
        proof {
            assert(text@ =~= self.info_text());
        }
        text
    }
}

impl Clone for Driver {
    fn clone(&self) -> (res: Driver)
        ensures
            res == *self,
    {
        Driver {
            first_name: self.first_name.clone(),
            last_name: self.last_name.clone(),
            full_name: self.full_name.clone(),
            name_acronym: self.name_acronym.clone(),
            age: self.age,
            country: self.country.clone(),
            driver_number: self.driver_number,
            skill_level: self.skill_level,
            experience_level: self.experience_level,
            aggression_level: self.aggression_level,
            consistency_level: self.consistency_level,
            team_name: self.team_name.clone(),
        }
    }
}

} // verus!
