use vstd::prelude::*;

use crate::text::{push_literal, push_number, push_string};

verus! {

/// A car fielded by a team. The four performance attributes are
/// percentages; the catalog keeps them within `0..=100`.
#[derive(Debug)]
pub struct Car {
    pub name: String,
    pub engine_power: u8,
    pub tyre_management: u8,
    pub reliability: u8,
    pub aerodynamics: u8,
}

impl Car {
    /// All performance attributes lie within the conventional `0..=100` band.
    pub open spec fn valid(&self) -> bool {
        &&& self.engine_power <= 100
        &&& self.tyre_management <= 100
        &&& self.reliability <= 100
        &&& self.aerodynamics <= 100
    }

    pub fn new(
        name: String,
        engine_power: u8,
        tyre_management: u8,
        reliability: u8,
        aerodynamics: u8,
    ) -> (car: Car)
        requires
            engine_power <= 100,
            tyre_management <= 100,
            reliability <= 100,
            aerodynamics <= 100,
        ensures
            car.name == name,
            car.engine_power == engine_power,
            car.tyre_management == tyre_management,
            car.reliability == reliability,
            car.aerodynamics == aerodynamics,
            car.valid(),
    {
        Car { name, engine_power, tyre_management, reliability, aerodynamics }
    }

    /// The text that `info` renders: each attribute on an indented line of its own.
    pub open spec fn info_text(&self) -> Seq<char> {
        "Car: "@ + self.name@ + "\n  Engine Power: "@ + crate::text::decimal_digits(
            self.engine_power,
        ) + "\n  Tyre Management: "@ + crate::text::decimal_digits(self.tyre_management)
            + "\n  Reliability: "@ + crate::text::decimal_digits(self.reliability)
            + "\n  Aerodynamics: "@ + crate::text::decimal_digits(self.aerodynamics) + "\n"@
    }

    pub fn info(&self) -> (text: String)
        ensures
            text@ == self.info_text(),
    {
        let mut text = String::new();
        push_literal(&mut text, "Car: ");
        push_string(&mut text, &self.name);
        push_literal(&mut text, "\n  Engine Power: ");
        push_number(&mut text, self.engine_power);
        push_literal(&mut text, "\n  Tyre Management: ");
        push_number(&mut text, self.tyre_management);
        push_literal(&mut text, "\n  Reliability: ");
        push_number(&mut text, self.reliability);
        push_literal(&mut text, "\n  Aerodynamics: ");
        push_number(&mut text, self.aerodynamics);
        push_literal(&mut text, "\n");
        proof {
            assert(text@ =~= self.info_text());
        }
        text
    }
}

impl Clone for Car {
    fn clone(&self) -> (res: Car)
        ensures
            res == *self,
    {
        Car {
            name: self.name.clone(),
            engine_power: self.engine_power,
            tyre_management: self.tyre_management,
            reliability: self.reliability,
            aerodynamics: self.aerodynamics,
        }
    }
}

} // verus!
