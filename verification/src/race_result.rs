use vstd::prelude::*;

use crate::text::{push_literal, push_number, push_string};

verus! {

/// One driver's outcome in one session. `finish_position` is 0 until the
/// ranking engine has processed the list, then 1-based; `finish_time_seconds`
/// is the session time rounded to whole seconds; `dnf` is set only by race
/// sessions.
#[derive(Debug)]
pub struct RaceResult {
    pub driver_name: String,
    pub team_name: String,
    pub finish_position: u8,
    pub finish_time_seconds: u8,
    pub dnf: bool,
}

impl RaceResult {
    pub fn new(
        driver_name: String,
        team_name: String,
        finish_position: u8,
        finish_time_seconds: u8,
        dnf: bool,
    ) -> (result: RaceResult)
        ensures
            result.driver_name == driver_name,
            result.team_name == team_name,
            result.finish_position == finish_position,
            result.finish_time_seconds == finish_time_seconds,
            result.dnf == dnf,
    {
        RaceResult { driver_name, team_name, finish_position, finish_time_seconds, dnf }
    }

    /// The text that `info` renders: every field on a line of its own.
    pub open spec fn info_text(&self) -> Seq<char> {
        "Race Result\n  Driver: "@ + self.driver_name@ + "\n  Team: "@ + self.team_name@
            + "\n  Finish Position: "@ + crate::text::decimal_digits(self.finish_position)
            + "\n  Finish Time: "@ + crate::text::decimal_digits(self.finish_time_seconds) + "s\n  DNF: "@
            + (if self.dnf {
            "Yes"@
        } else {
            "No"@
        }) + "\n"@
    }

    pub fn info(&self) -> (text: String)
        ensures
            text@ == self.info_text(),
    {
        let mut text = String::new();
        push_literal(&mut text, "Race Result\n  Driver: ");
        push_string(&mut text, &self.driver_name);
        push_literal(&mut text, "\n  Team: ");
        push_string(&mut text, &self.team_name);
        push_literal(&mut text, "\n  Finish Position: ");
        push_number(&mut text, self.finish_position);
        push_literal(&mut text, "\n  Finish Time: ");
        push_number(&mut text, self.finish_time_seconds);
        push_literal(&mut text, "s\n  DNF: ");
        if self.dnf {
            push_literal(&mut text, "Yes");
        } else {
            push_literal(&mut text, "No");
        }
        push_literal(&mut text, "\n");
        proof {
            assert(text@ =~= self.info_text());
        }
        text
    }
}

impl Clone for RaceResult {
    fn clone(&self) -> (res: RaceResult)
        ensures
            res == *self,
    {
        RaceResult {
            driver_name: self.driver_name.clone(),
            team_name: self.team_name.clone(),
            finish_position: self.finish_position,
            finish_time_seconds: self.finish_time_seconds,
            dnf: self.dnf,
        }
    }
}

} // verus!
