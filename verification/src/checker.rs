//! The conflict checker: validates one proposed, ad-hoc time window against
//! the owner's working hours and then against the availability rules,
//! short-circuiting on the first failing stage and reporting a reason.
//!
//! Unlike generation, this check applies no buffers: the proposed window
//! only has to lie whole inside a working window and inside an available
//! template window.

use vstd::prelude::*;
use vstd::string::StringExecFns;

use crate::date::Date;
use crate::error::AppError;
use crate::model::{AvailabilityRule, AvailabilitySlot, CalendarSettings, RuleModel, TimeSlot};
use crate::selector::rule_models;
use crate::time_of_day::TimeOfDay;

verus! {

/// One proposed time window, in its wire form: a `YYYY-MM-DD` date and two
/// `HH:MM` times.
#[derive(Debug)]
pub struct CheckTimeSlotRequest {
    pub date: String,
    pub start_time: String,
    pub end_time: String,
}

/// The checker's answer: whether the window is bookable, and the reasons it
/// is not.
#[derive(Debug)]
pub struct CheckTimeSlotResponse {
    pub is_available: bool,
    pub conflicts: Option<Vec<String>>,
}

/// Some open working window contains the proposed window whole.
pub open spec fn within_working_hours(hours: Seq<TimeSlot>, start: TimeOfDay, end: TimeOfDay) -> bool {
    exists|k: int|
        0 <= k < hours.len() && (#[trigger] hours[k]).start.spec_minutes() <= start.spec_minutes()
            && end.spec_minutes() <= hours[k].end.spec_minutes()
}

/// The template names the date's weekday, is available, and contains the
/// proposed window whole.
pub open spec fn slot_allows(
    slot: AvailabilitySlot,
    date: Date,
    start: TimeOfDay,
    end: TimeOfDay,
) -> bool {
    &&& slot.day_of_week == date.spec_weekday()
    &&& slot.is_available
    &&& slot.start_time.spec_minutes() <= start.spec_minutes()
    &&& slot.end_time.spec_minutes() >= end.spec_minutes()
}

/// The rule's scope covers the date and one of its templates allows the
/// window.
pub open spec fn rule_allows(rule: RuleModel, date: Date, start: TimeOfDay, end: TimeOfDay) -> bool {
    rule.covers_day(date) && exists|j: int|
        0 <= j < rule.slots.len() && slot_allows(#[trigger] rule.slots[j], date, start, end)
}

/// Some rule allows the window.
pub open spec fn any_rule_allows(
    models: Seq<RuleModel>,
    date: Date,
    start: TimeOfDay,
    end: TimeOfDay,
) -> bool {
    exists|i: int| 0 <= i < models.len() && rule_allows(#[trigger] models[i], date, start, end)
}

/// The proposed window, checked against one rule: the rule's scope must
/// cover the date and one of its available templates for that weekday must
/// contain the window whole.
pub fn is_slot_available_in_rule(
    rule: &AvailabilityRule,
    date: &Date,
    start: TimeOfDay,
    end: TimeOfDay,
) -> (r: bool)
    requires
        rule@.wf(),
        date.valid_md(),
    ensures
        r == rule_allows(rule@, *date, start, end),
{
    if !rule.covers_day(date) {
        return false;
    }
    let weekday = date.weekday();
    let start_minutes = start.minutes();
    let end_minutes = end.minutes();
    let mut j: usize = 0;
    while j < rule.slots.len()
        invariant
            j <= rule@.slots.len(),
            rule@.covers_day(*date),
            forall|k: int| 0 <= k < j ==> !slot_allows(#[trigger] rule@.slots[k], *date, start, end),
            weekday == date.spec_weekday(),
            start_minutes == start.spec_minutes(),
            end_minutes == end.spec_minutes(),
        decreases rule@.slots.len() - j,
    {
        let slot = &rule.slots[j];
        if slot.day_of_week == weekday && slot.is_available && slot.start_time.minutes()
            <= start_minutes && slot.end_time.minutes() >= end_minutes {
            assert(slot_allows(rule@.slots[j as int], *date, start, end));
            return true;
        }
        j = j + 1;
    }
    false
}

/// The two-stage check. Stage one: the date's working hours must be
/// non-empty and some working window must contain the proposed window.
/// Stage two: some rule must allow it. The first failing stage pushes its
/// reason onto `conflicts` and stops; a passing check pushes nothing.
pub fn is_slot_available(
    date: &Date,
    start: TimeOfDay,
    end: TimeOfDay,
    settings: &CalendarSettings,
    rules: &Vec<AvailabilityRule>,
    conflicts: &mut Vec<String>,
) -> (r: bool)
    requires
        date.valid_md(),
        forall|i: int| 0 <= i < rules@.len() ==> (#[trigger] rules@[i])@.wf(),
    ensures
        ({
            let hours = settings.working_hours.spec_for(date.spec_weekday());
            &&& r == (hours.len() > 0 && within_working_hours(hours, start, end)
                && any_rule_allows(rule_models(rules@), *date, start, end))
            &&& (r ==> final(conflicts)@ == old(conflicts)@)
            &&& (!r ==> final(conflicts)@.len() == old(conflicts)@.len() + 1
                && final(conflicts)@.take(old(conflicts)@.len() as int) == old(conflicts)@)
            &&& (hours.len() == 0 ==> final(conflicts)@.last()@
                == "No working hours set for this day"@)
            &&& (hours.len() > 0 && !within_working_hours(hours, start, end)
                ==> final(conflicts)@.last()@ == "Time slot is outside working hours"@)
            &&& (hours.len() > 0 && within_working_hours(hours, start, end) && !any_rule_allows(
                rule_models(rules@),
                *date,
                start,
                end,
            ) ==> final(conflicts)@.last()@
                == "Time slot is not available in your schedule"@)
        }),
{
    let weekday = date.weekday();
    let hours = settings.working_hours.for_weekday(weekday);
    if hours.len() == 0 {
        conflicts.push(String::from_str("No working hours set for this day"));
        proof {
            assert(conflicts@.take(old(conflicts)@.len() as int) =~= old(conflicts)@);
        }
        return false;
    }
    let start_minutes = start.minutes();
    let end_minutes = end.minutes();
    let mut within: bool = false;
    let mut k: usize = 0;
    while k < hours.len()
        invariant
            k <= hours@.len(),
            hours@ == settings.working_hours.spec_for(date.spec_weekday()),
            start_minutes == start.spec_minutes(),
            end_minutes == end.spec_minutes(),
            within == exists|m: int|
                0 <= m < k && (#[trigger] hours@[m]).start.spec_minutes() <= start.spec_minutes()
                    && end.spec_minutes() <= hours@[m].end.spec_minutes(),
        decreases hours@.len() - k,
    {
        let wh = &hours[k];
        if wh.start.minutes() <= start_minutes && end_minutes <= wh.end.minutes() {
            within = true;
        }
        k = k + 1;
    }
    if !within {
        conflicts.push(String::from_str("Time slot is outside working hours"));
        proof {
            assert(conflicts@.take(old(conflicts)@.len() as int) =~= old(conflicts)@);
        }
        return false;
    }
    let mut allowed: bool = false;
    let mut i: usize = 0;
    while i < rules.len()
        invariant
            i <= rules@.len(),
            date.valid_md(),
            forall|m: int| 0 <= m < rules@.len() ==> (#[trigger] rules@[m])@.wf(),
            allowed == exists|m: int|
                0 <= m < i && rule_allows(#[trigger] rule_models(rules@)[m], *date, start, end),
        decreases rules@.len() - i,
    {
        if is_slot_available_in_rule(&rules[i], date, start, end) {
            assert(rule_allows(rule_models(rules@)[i as int], *date, start, end));
            allowed = true;
        }
        i = i + 1;
    }
    if !allowed {
        conflicts.push(String::from_str("Time slot is not available in your schedule"));
        proof {
            assert(conflicts@.take(old(conflicts)@.len() as int) =~= old(conflicts)@);
        }
        return false;
    }
    true
}

/// Validates one proposed window against working hours and the rule set.
/// `is_available` is true only when both stages pass; otherwise exactly one
/// conflict reason is reported, from whichever stage failed first.
pub fn check_time_slot(
    date: &Date,
    start: TimeOfDay,
    end: TimeOfDay,
    settings: &CalendarSettings,
    rules: &Vec<AvailabilityRule>,
) -> (r: CheckTimeSlotResponse)
    requires
        date.valid_md(),
        forall|i: int| 0 <= i < rules@.len() ==> (#[trigger] rules@[i])@.wf(),
    ensures
        ({
            let hours = settings.working_hours.spec_for(date.spec_weekday());
            &&& r.is_available == (hours.len() > 0 && within_working_hours(hours, start, end)
                && any_rule_allows(rule_models(rules@), *date, start, end))
            &&& (r.is_available <==> r.conflicts is None)
            &&& (r.conflicts matches Some(v) ==> v@.len() == 1)
            &&& (hours.len() == 0 ==> (r.conflicts matches Some(v) && v@[0]@
                == "No working hours set for this day"@))
            &&& (hours.len() > 0 && !within_working_hours(hours, start, end) ==> (r.conflicts
                matches Some(v) && v@[0]@ == "Time slot is outside working hours"@))
            &&& (hours.len() > 0 && within_working_hours(hours, start, end) && !any_rule_allows(
                rule_models(rules@),
                *date,
                start,
                end,
            ) ==> (r.conflicts matches Some(v) && v@[0]@
                == "Time slot is not available in your schedule"@))
        }),
{
    let mut conflicts: Vec<String> = Vec::new();
    let is_available = is_slot_available(date, start, end, settings, rules, &mut conflicts);
    if conflicts.len() == 0 {
        CheckTimeSlotResponse { is_available, conflicts: None }
    } else {
        CheckTimeSlotResponse { is_available, conflicts: Some(conflicts) }
    }
}

/// Validates one proposed window given in its wire form. The date must be
/// `YYYY-MM-DD` and both times `HH:MM`; malformed fields are rejected with a
/// typed failure rather than silently defaulted.
pub fn check_time_slot_request(
    req: &CheckTimeSlotRequest,
    settings: &CalendarSettings,
    rules: &Vec<AvailabilityRule>,
) -> (r: Result<CheckTimeSlotResponse, AppError>)
    requires
        forall|i: int| 0 <= i < rules@.len() ==> (#[trigger] rules@[i])@.wf(),
    ensures
        r is Ok <==> crate::date::valid_date_chars(req.date@)
            && crate::time_of_day::valid_time_chars(req.start_time@)
            && crate::time_of_day::valid_time_chars(req.end_time@),
        !crate::date::valid_date_chars(req.date@) ==> (r matches Err(AppError::BadRequest(m))
            && m@ == "Invalid date format"@),
        crate::date::valid_date_chars(req.date@) && !crate::time_of_day::valid_time_chars(
            req.start_time@,
        ) ==> (r matches Err(AppError::BadRequest(m)) && m@ == "Invalid start time format"@),
        crate::date::valid_date_chars(req.date@) && crate::time_of_day::valid_time_chars(
            req.start_time@,
        ) && !crate::time_of_day::valid_time_chars(req.end_time@) ==> (r matches Err(
            AppError::BadRequest(m),
        ) && m@ == "Invalid end time format"@),
        r matches Ok(resp) ==> {
            let date = crate::date::date_of_chars(req.date@);
            let start = crate::time_of_day::time_of_chars(req.start_time@);
            let end = crate::time_of_day::time_of_chars(req.end_time@);
            let hours = settings.working_hours.spec_for(date.spec_weekday());
            &&& resp.is_available == (hours.len() > 0 && within_working_hours(hours, start, end)
                && any_rule_allows(rule_models(rules@), date, start, end))
            &&& (resp.is_available <==> resp.conflicts is None)
            &&& (resp.conflicts matches Some(v) ==> v@.len() == 1)
        },
{
    let date = match Date::parse(req.date.as_str()) {
        Some(d) => d,
        None => {
            return Err(AppError::BadRequest(String::from_str("Invalid date format")));
        },
    };
    let start = match TimeOfDay::parse(req.start_time.as_str()) {
        Some(t) => t,
        None => {
            return Err(AppError::BadRequest(String::from_str("Invalid start time format")));
        },
    };
    let end = match TimeOfDay::parse(req.end_time.as_str()) {
        Some(t) => t,
        None => {
            return Err(AppError::BadRequest(String::from_str("Invalid end time format")));
        },
    };
    Ok(check_time_slot(&date, start, end, settings, rules))
}

} // verus!
