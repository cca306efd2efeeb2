//! Wall-clock times at minute granularity, `HH:MM`, 24-hour, zero-padded.

use vstd::prelude::*;
use vstd::string::StringExecFns;

use crate::text::{append_two_digits, digit_val, is_digit_char, spec_digit, str_chars};

verus! {

/// The `HH:MM` grammar: five characters, both fields zero-padded decimal,
/// hour at most 23, minute at most 59.
pub open spec fn valid_time_chars(s: Seq<char>) -> bool {
    &&& s.len() == 5
    &&& is_digit_char(s[0])
    &&& is_digit_char(s[1])
    &&& s[2] == ':'
    &&& is_digit_char(s[3])
    &&& is_digit_char(s[4])
    &&& digit_val(s[0]) * 10 + digit_val(s[1]) <= 23
    &&& digit_val(s[3]) * 10 + digit_val(s[4]) <= 59
}

/// The time denoted by a string matching [`valid_time_chars`].
pub open spec fn time_of_chars(s: Seq<char>) -> TimeOfDay {
    TimeOfDay {
        hour: (digit_val(s[0]) * 10 + digit_val(s[1])) as u8,
        minute: (digit_val(s[3]) * 10 + digit_val(s[4])) as u8,
    }
}

/// A wall-clock time of day. Valid values satisfy [`TimeOfDay::wf`]:
/// hour in `[0, 23]`, minute in `[0, 59]`.
#[derive(Clone, Copy, PartialEq, Eq, Structural, Debug)]
pub struct TimeOfDay {
    pub hour: u8,
    pub minute: u8,
}

impl TimeOfDay {
    /// Well-formedness: the pair denotes a real wall-clock minute.
    pub open spec fn wf(self) -> bool {
        self.hour <= 23 && self.minute <= 59
    }

    /// Minutes since midnight; the order on times of day is the order on this.
    pub open spec fn spec_minutes(self) -> int {
        self.hour * 60 + self.minute
    }

    /// Whether the pair denotes a real wall-clock minute.
    pub fn is_wf(self) -> (r: bool)
        ensures
            r == self.wf(),
    {
        self.hour <= 23 && self.minute <= 59
    }

    /// Minutes since midnight, as a machine integer.
    pub fn minutes(self) -> (m: u16)
        ensures
            m == self.spec_minutes(),
    {
        (self.hour as u16) * 60 + (self.minute as u16)
    }

    /// The time `m` minutes after midnight.
    pub fn from_minutes(m: u16) -> (t: TimeOfDay)
        requires
            m < 1440,
        ensures
            t == tod_of_minutes(m as int),
            t.wf(),
            t.spec_minutes() == m,
    {
        TimeOfDay { hour: (m / 60) as u8, minute: (m % 60) as u8 }
    }

    /// The time a string of the form `HH:MM` denotes, or `None` when the
    /// string does not match that form. Malformed times are rejected here,
    /// never silently replaced by a default.
    pub fn parse(s: &str) -> (r: Option<TimeOfDay>)
        ensures
            r is Some <==> valid_time_chars(s@),
            r matches Some(t) ==> t == time_of_chars(s@) && t.wf(),
    {
        let cs = str_chars(s);
        if cs.len() != 5 {
            return None;
        }
        let c0: u32 = cs[0] as u32;
        let c1: u32 = cs[1] as u32;
        let c3: u32 = cs[3] as u32;
        let c4: u32 = cs[4] as u32;
        if cs[2] != ':' {
            return None;
        }
        if !(48 <= c0 && c0 <= 57 && 48 <= c1 && c1 <= 57 && 48 <= c3 && c3 <= 57 && 48 <= c4
            && c4 <= 57) {
            return None;
        }
        let hour: u32 = (c0 - 48) * 10 + (c1 - 48);
        let minute: u32 = (c3 - 48) * 10 + (c4 - 48);
        if hour > 23 || minute > 59 {
            return None;
        }
        Some(TimeOfDay { hour: hour as u8, minute: minute as u8 })
    }

    /// The `HH:MM` rendering of a valid time, zero-padded. Parsing the result
    /// gives the time back.
    pub fn format(self) -> (r: String)
        requires
            self.wf(),
        ensures
            r@ == spec_format_time(self),
            valid_time_chars(r@),
            time_of_chars(r@) == self,
    {
        let mut out = String::new();
        append_two_digits(&mut out, self.hour);
        out.append(":");
        append_two_digits(&mut out, self.minute);
        proof {
            reveal_strlit(":");
            assert(out@ =~= spec_format_time(self));
            lemma_format_time_valid(self);
        }
        out
    }
}

/// The time `m` minutes after midnight.
pub open spec fn tod_of_minutes(m: int) -> TimeOfDay {
    TimeOfDay { hour: (m / 60) as u8, minute: (m % 60) as u8 }
}

/// For real wall-clock minute counts the two directions invert each other.
pub proof fn lemma_tod_of_minutes(m: int)
    requires
        0 <= m < 1440,
    ensures
        tod_of_minutes(m).wf(),
        tod_of_minutes(m).spec_minutes() == m,
{
}

/// The five characters of the `HH:MM` rendering of `t`.
pub open spec fn spec_format_time(t: TimeOfDay) -> Seq<char> {
    seq![
        spec_digit(t.hour as int / 10),
        spec_digit(t.hour as int % 10),
        ':',
        spec_digit(t.minute as int / 10),
        spec_digit(t.minute as int % 10),
    ]
}

/// Formatting a valid time yields a valid `HH:MM` string denoting that time.
pub proof fn lemma_format_time_valid(t: TimeOfDay)
    requires
        t.wf(),
    ensures
        valid_time_chars(spec_format_time(t)),
        time_of_chars(spec_format_time(t)) == t,
{
    crate::text::lemma_spec_digit_val(t.hour as int / 10);
    crate::text::lemma_spec_digit_val(t.hour as int % 10);
    crate::text::lemma_spec_digit_val(t.minute as int / 10);
    crate::text::lemma_spec_digit_val(t.minute as int % 10);
}

} // verus!
