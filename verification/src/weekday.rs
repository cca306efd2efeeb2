//! Days of the week and their lowercase names.

use vstd::prelude::*;
use vstd::string::StringExecFns;

verus! {

/// A day of the week. Rule slot templates and working hours are keyed by
/// weekday, not by concrete date.
#[derive(Clone, Copy, PartialEq, Eq, Structural, Debug)]
pub enum Weekday {
    Monday,
    Tuesday,
    Wednesday,
    Thursday,
    Friday,
    Saturday,
    Sunday,
}

/// The weekday at position `i` of the week, Monday first.
pub open spec fn weekday_from_index(i: int) -> Weekday {
    if i == 0 {
        Weekday::Monday
    } else if i == 1 {
        Weekday::Tuesday
    } else if i == 2 {
        Weekday::Wednesday
    } else if i == 3 {
        Weekday::Thursday
    } else if i == 4 {
        Weekday::Friday
    } else if i == 5 {
        Weekday::Saturday
    } else {
        Weekday::Sunday
    }
}

impl Weekday {
    /// The lowercase English name, as working-hours tables and slot templates
    /// use it.
    pub open spec fn spec_name(self) -> Seq<char> {
        match self {
            Weekday::Monday => "monday"@,
            Weekday::Tuesday => "tuesday"@,
            Weekday::Wednesday => "wednesday"@,
            Weekday::Thursday => "thursday"@,
            Weekday::Friday => "friday"@,
            Weekday::Saturday => "saturday"@,
            Weekday::Sunday => "sunday"@,
        }
    }

    /// The lowercase name of this weekday.
    pub fn name(self) -> (r: String)
        ensures
            r@ == self.spec_name(),
    {
        match self {
            Weekday::Monday => String::from_str("monday"),
            Weekday::Tuesday => String::from_str("tuesday"),
            Weekday::Wednesday => String::from_str("wednesday"),
            Weekday::Thursday => String::from_str("thursday"),
            Weekday::Friday => String::from_str("friday"),
            Weekday::Saturday => String::from_str("saturday"),
            Weekday::Sunday => String::from_str("sunday"),
        }
    }

    /// The weekday a lowercase name denotes, or `None` for any other string.
    pub open spec fn spec_from_name(s: Seq<char>) -> Option<Weekday> {
        if s == "monday"@ {
            Some(Weekday::Monday)
        } else if s == "tuesday"@ {
            Some(Weekday::Tuesday)
        } else if s == "wednesday"@ {
            Some(Weekday::Wednesday)
        } else if s == "thursday"@ {
            Some(Weekday::Thursday)
        } else if s == "friday"@ {
            Some(Weekday::Friday)
        } else if s == "saturday"@ {
            Some(Weekday::Saturday)
        } else if s == "sunday"@ {
            Some(Weekday::Sunday)
        } else {
            None
        }
    }

    /// Parses a lowercase weekday name.
    pub fn from_name(s: &str) -> (r: Option<Weekday>)
        ensures
            r == Self::spec_from_name(s@),
    {
        let owned = s.to_owned();
        if owned == String::from_str("monday") {
            Some(Weekday::Monday)
        } else if owned == String::from_str("tuesday") {
            Some(Weekday::Tuesday)
        } else if owned == String::from_str("wednesday") {
            Some(Weekday::Wednesday)
        } else if owned == String::from_str("thursday") {
            Some(Weekday::Thursday)
        } else if owned == String::from_str("friday") {
            Some(Weekday::Friday)
        } else if owned == String::from_str("saturday") {
            Some(Weekday::Saturday)
        } else if owned == String::from_str("sunday") {
            Some(Weekday::Sunday)
        } else {
            None
        }
    }
}

} // verus!
