//! The engine's data model: buffer policy, working hours, availability rules
//! and the bookable windows the engine emits.

use vstd::prelude::*;
use vstd::string::StringExecFns;

use crate::date::{spec_timestamp_date, Date};
use crate::time_of_day::TimeOfDay;
use crate::weekday::Weekday;

verus! {

/// Idle minutes reserved immediately before and after every booked duration.
/// Buffers surround each generated booking, not the raw availability window.
#[derive(Clone, Copy, PartialEq, Eq, Structural, Debug)]
pub struct BufferTime {
    pub before: u32,
    pub after: u32,
}

/// One open working-hours window within a day, from `start` to `end`.
#[derive(Clone, Copy, PartialEq, Eq, Structural, Debug)]
pub struct TimeSlot {
    pub start: TimeOfDay,
    pub end: TimeOfDay,
}

impl TimeSlot {
    /// Both endpoints are real wall-clock times.
    pub open spec fn wf(self) -> bool {
        self.start.wf() && self.end.wf()
    }

    /// Builds a window from two `HH:MM` strings, rejecting malformed times.
    pub fn parse(start: &str, end: &str) -> (r: Option<TimeSlot>)
        ensures
            r is Some <==> crate::time_of_day::valid_time_chars(start@)
                && crate::time_of_day::valid_time_chars(end@),
            r matches Some(t) ==> t.wf() && t.start == crate::time_of_day::time_of_chars(start@)
                && t.end == crate::time_of_day::time_of_chars(end@),
    {
        match (TimeOfDay::parse(start), TimeOfDay::parse(end)) {
            (Some(s), Some(e)) => Some(TimeSlot { start: s, end: e }),
            _ => None,
        }
    }
}

/// Open working-hours windows for every weekday. A day that is not worked
/// simply has no windows; an absent day and an empty day mean the same thing.
#[derive(Debug)]
pub struct WorkingHours {
    pub monday: Vec<TimeSlot>,
    pub tuesday: Vec<TimeSlot>,
    pub wednesday: Vec<TimeSlot>,
    pub thursday: Vec<TimeSlot>,
    pub friday: Vec<TimeSlot>,
    pub saturday: Vec<TimeSlot>,
    pub sunday: Vec<TimeSlot>,
}

impl WorkingHours {
    /// The windows of weekday `w`.
    pub open spec fn spec_for(self, w: Weekday) -> Seq<TimeSlot> {
        match w {
            Weekday::Monday => self.monday@,
            Weekday::Tuesday => self.tuesday@,
            Weekday::Wednesday => self.wednesday@,
            Weekday::Thursday => self.thursday@,
            Weekday::Friday => self.friday@,
            Weekday::Saturday => self.saturday@,
            Weekday::Sunday => self.sunday@,
        }
    }

    /// The windows of weekday `w`.
    pub fn for_weekday(&self, w: Weekday) -> (r: &Vec<TimeSlot>)
        ensures
            r@ == self.spec_for(w),
    {
        match w {
            Weekday::Monday => &self.monday,
            Weekday::Tuesday => &self.tuesday,
            Weekday::Wednesday => &self.wednesday,
            Weekday::Thursday => &self.thursday,
            Weekday::Friday => &self.friday,
            Weekday::Saturday => &self.saturday,
            Weekday::Sunday => &self.sunday,
        }
    }

    /// A table with no open windows on any day.
    pub fn empty() -> (r: WorkingHours)
        ensures
            forall|w: Weekday| r.spec_for(w).len() == 0,
    {
        WorkingHours {
            monday: Vec::new(),
            tuesday: Vec::new(),
            wednesday: Vec::new(),
            thursday: Vec::new(),
            friday: Vec::new(),
            saturday: Vec::new(),
            sunday: Vec::new(),
        }
    }
}

/// A weekday-scoped availability template, not a concrete dated booking:
/// on each `day_of_week` that a rule covers, the owner is (or is not)
/// available between `start_time` and `end_time`.
#[derive(Clone, Copy, PartialEq, Eq, Structural, Debug)]
pub struct AvailabilitySlot {
    pub day_of_week: Weekday,
    pub start_time: TimeOfDay,
    pub end_time: TimeOfDay,
    pub is_available: bool,
}

impl AvailabilitySlot {
    /// Both endpoints are real wall-clock times. A template whose end does
    /// not lie after its start is allowed; it simply yields no bookings.
    pub open spec fn wf(self) -> bool {
        self.start_time.wf() && self.end_time.wf()
    }

    /// Builds a template from its wire form: a lowercase weekday name and two
    /// `HH:MM` strings. Malformed names or times are rejected.
    pub fn parse(day_of_week: &str, start_time: &str, end_time: &str, is_available: bool) -> (r:
        Option<AvailabilitySlot>)
        ensures
            r is Some <==> Weekday::spec_from_name(day_of_week@) is Some
                && crate::time_of_day::valid_time_chars(start_time@)
                && crate::time_of_day::valid_time_chars(end_time@),
            r matches Some(s) ==> {
                &&& s.wf()
                &&& Some(s.day_of_week) == Weekday::spec_from_name(day_of_week@)
                &&& s.start_time == crate::time_of_day::time_of_chars(start_time@)
                &&& s.end_time == crate::time_of_day::time_of_chars(end_time@)
                &&& s.is_available == is_available
            },
    {
        let day = Weekday::from_name(day_of_week);
        let start = TimeOfDay::parse(start_time);
        let end = TimeOfDay::parse(end_time);
        match (day, start, end) {
            (Some(d), Some(s), Some(e)) => Some(
                AvailabilitySlot { day_of_week: d, start_time: s, end_time: e, is_available },
            ),
            _ => None,
        }
    }
}

/// The mathematical value of an [`AvailabilityRule`].
pub struct RuleModel {
    pub start_date: Date,
    pub end_date: Option<Date>,
    pub is_recurring: bool,
    pub recurrence_pattern: Option<Seq<char>>,
    pub slots: Seq<AvailabilitySlot>,
}

impl RuleModel {
    /// The construction invariant: valid dates, an end no earlier than the
    /// start, no open-ended non-recurring scope, and valid slot times.
    pub open spec fn wf(self) -> bool {
        &&& self.start_date.wf()
        &&& (self.end_date matches Some(e) ==> e.wf() && self.start_date.spec_day_number()
            <= e.spec_day_number())
        &&& (self.end_date is None ==> self.is_recurring)
        &&& forall|i: int| 0 <= i < self.slots.len() ==> (#[trigger] self.slots[i]).wf()
    }

    /// The rule's date scope covers the day `d`: a bounded rule covers the
    /// days between its two dates, an open-ended recurring rule every day
    /// from its start on.
    pub open spec fn covers_day(self, d: Date) -> bool {
        match self.end_date {
            Some(e) => self.start_date.spec_day_number() <= d.spec_day_number()
                <= e.spec_day_number(),
            None => self.is_recurring && self.start_date.spec_day_number()
                <= d.spec_day_number(),
        }
    }

    /// The rule's date scope intersects the range `[range_start, range_end]`.
    pub open spec fn selected_for(self, range_start: Date, range_end: Date) -> bool {
        match self.end_date {
            Some(e) => self.start_date.spec_day_number() <= range_end.spec_day_number()
                && e.spec_day_number() >= range_start.spec_day_number(),
            None => self.is_recurring && self.start_date.spec_day_number()
                <= range_end.spec_day_number(),
        }
    }
}

/// The view of an `Option<String>`.
pub open spec fn opt_string_view(o: Option<String>) -> Option<Seq<char>> {
    match o {
        Some(s) => Some(s@),
        None => None,
    }
}

/// An availability rule: a date scope (bounded, or open-ended and recurring)
/// and the weekday slot templates that apply on every covered day. The
/// recurrence pattern label is stored but never consulted by matching, which
/// is always weekly by weekday.
#[derive(Debug)]
pub struct AvailabilityRule {
    pub start_date: Date,
    pub end_date: Option<Date>,
    pub is_recurring: bool,
    pub recurrence_pattern: Option<String>,
    pub slots: Vec<AvailabilitySlot>,
}

impl View for AvailabilityRule {
    type V = RuleModel;

    open spec fn view(&self) -> RuleModel {
        RuleModel {
            start_date: self.start_date,
            end_date: self.end_date,
            is_recurring: self.is_recurring,
            recurrence_pattern: opt_string_view(self.recurrence_pattern),
            slots: self.slots@,
        }
    }
}

impl Clone for AvailabilityRule {
    /// An exact copy: the copy has the same model as the original.
    fn clone(&self) -> (r: Self)
        ensures
            r@ == self@,
    {
        let mut slots: Vec<AvailabilitySlot> = Vec::new();
        let mut i: usize = 0;
        while i < self.slots.len()
            invariant
                i <= self.slots.len(),
                slots@ == self.slots@.take(i as int),
            decreases self.slots.len() - i,
        {
            slots.push(self.slots[i]);
            proof {
                assert(slots@ =~= self.slots@.take(i as int + 1));
            }
            i = i + 1;
        }
        let recurrence_pattern = match &self.recurrence_pattern {
            Some(s) => Some(s.clone()),
            None => None,
        };
        let r = AvailabilityRule {
            start_date: self.start_date,
            end_date: self.end_date,
            is_recurring: self.is_recurring,
            recurrence_pattern,
            slots,
        };
        proof {
            assert(r.slots@ =~= self.slots@);
        }
        r
    }
}

impl AvailabilityRule {
    /// Whether this rule satisfies the construction invariant. Rules built
    /// by [`AvailabilityRule::new`] always do; a caller that assembles a
    /// rule from stored fields can check it here.
    pub fn is_wf(&self) -> (r: bool)
        ensures
            r == self@.wf(),
    {
        if !self.start_date.is_wf() {
            return false;
        }
        match &self.end_date {
            Some(e) => {
                if !e.is_wf() || !self.start_date.le(e) {
                    return false;
                }
            },
            None => {
                if !self.is_recurring {
                    return false;
                }
            },
        }
        let mut i: usize = 0;
        while i < self.slots.len()
            invariant
                i <= self.slots@.len(),
                forall|k: int| 0 <= k < i ==> (#[trigger] self.slots@[k]).wf(),
            decreases self.slots@.len() - i,
        {
            if !(self.slots[i].start_time.is_wf() && self.slots[i].end_time.is_wf()) {
                proof {
                    assert(!(self@.slots[i as int]).wf());
                }
                return false;
            }
            i = i + 1;
        }
        true
    }

    /// Whether this rule's date scope covers the day `d`.
    pub fn covers_day(&self, d: &Date) -> (r: bool)
        requires
            self@.wf(),
            d.valid_md(),
        ensures
            r == self@.covers_day(*d),
    {
        match &self.end_date {
            Some(e) => self.start_date.le(d) && d.le(e),
            None => self.is_recurring && self.start_date.le(d),
        }
    }

    /// Whether this rule's date scope intersects `[range_start, range_end]`.
    pub fn selected_for(&self, range_start: &Date, range_end: &Date) -> (r: bool)
        requires
            self@.wf(),
            range_start.valid_md(),
            range_end.valid_md(),
        ensures
            r == self@.selected_for(*range_start, *range_end),
    {
        match &self.end_date {
            Some(e) => self.start_date.le(range_end) && range_start.le(e),
            None => self.is_recurring && self.start_date.le(range_end),
        }
    }

    /// Validated construction from wire data: both date strings are RFC 3339
    /// timestamps; a missing end date is only allowed on a recurring rule;
    /// a present end date must not precede the start date. Slot templates are
    /// stored as given; the recurrence pattern is stored uninterpreted.
    pub fn new(
        start_date_str: &str,
        end_date_str: Option<&str>,
        is_recurring: bool,
        recurrence_pattern: Option<String>,
        slots: Vec<AvailabilitySlot>,
    ) -> (r: Result<AvailabilityRule, String>)
        requires
            forall|i: int| 0 <= i < slots@.len() ==> (#[trigger] slots@[i]).wf(),
        ensures
            r is Ok <==> spec_timestamp_date(start_date_str@) is Some && (match end_date_str {
                Some(es) => spec_timestamp_date(es@) matches Some(ed)
                    && spec_timestamp_date(start_date_str@).unwrap().spec_day_number()
                    <= ed.spec_day_number(),
                None => is_recurring,
            }),
            r matches Ok(rule) ==> {
                &&& rule@.start_date == spec_timestamp_date(start_date_str@).unwrap()
                &&& rule@.end_date == (match end_date_str {
                    Some(es) => Some(spec_timestamp_date(es@).unwrap()),
                    None => None::<Date>,
                })
                &&& rule@.is_recurring == is_recurring
                &&& rule@.recurrence_pattern == opt_string_view(recurrence_pattern)
                &&& rule@.slots == slots@
                &&& rule@.wf()
            },
            spec_timestamp_date(start_date_str@) is None ==> (r matches Err(e) && e@
                == "Invalid start date"@),
            spec_timestamp_date(start_date_str@) is Some && (end_date_str matches Some(es)
                && spec_timestamp_date(es@) is None) ==> (r matches Err(e) && e@
                == "Invalid end date"@),
            spec_timestamp_date(start_date_str@) is Some && end_date_str is None && !is_recurring
                ==> (r matches Err(e) && e@ == "An availability rule without an end date must be recurring"@),
            spec_timestamp_date(start_date_str@) matches Some(sd) ==> (end_date_str matches Some(
                es,
            ) ==> (spec_timestamp_date(es@) matches Some(ed) ==> (sd.spec_day_number()
                > ed.spec_day_number() ==> (r matches Err(e) && e@
                == "End date must not be before start date"@)))),
    {
        let start_date = match Date::parse_timestamp(start_date_str) {
            Some(d) => d,
            None => {
                return Err(String::from_str("Invalid start date"));
            },
        };
        let end_date = match end_date_str {
            Some(es) => match Date::parse_timestamp(es) {
                Some(d) => Some(d),
                None => {
                    return Err(String::from_str("Invalid end date"));
                },
            },
            None => None,
        };
        match &end_date {
            Some(e) => {
                if !start_date.le(e) {
                    return Err(String::from_str("End date must not be before start date"));
                }
            },
            None => {
                if !is_recurring {
                    return Err(
                        String::from_str(
                            "An availability rule without an end date must be recurring",
                        ),
                    );
                }
            },
        }
        Ok(AvailabilityRule { start_date, end_date, is_recurring, recurrence_pattern, slots })
    }
}

/// Per-owner calendar policy: the working-hours table and buffer policy the
/// engine consults, along with the owner's display preferences.
#[derive(Debug)]
pub struct CalendarSettings {
    pub timezone: String,
    pub working_hours: WorkingHours,
    pub buffer_time: BufferTime,
    pub default_meeting_duration: i32,
    pub calendar_name: String,
    pub date_format: String,
    pub time_format: String,
}

/// One bookable window the engine emits: a concrete date and the wall-clock
/// bounds of the booking itself, buffers already excluded.
#[derive(Clone, Copy, PartialEq, Eq, Structural, Debug)]
pub struct AvailableTimeSlot {
    pub date: Date,
    pub start_time: TimeOfDay,
    pub end_time: TimeOfDay,
}

} // verus!
