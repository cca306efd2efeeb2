//! The service's request types in their wire shape, their validation, and
//! the availability query itself. Malformed input is rejected with a typed
//! failure before any algorithm runs.

use vstd::prelude::*;
use vstd::string::StringExecFns;

use crate::date::{spec_timestamp_date, Date};
use crate::error::AppError;
use crate::generator::{
    all_emissions, emission_covered, generate, sorted_slots,
};
use crate::model::{
    opt_string_view, AvailabilityRule, AvailabilitySlot, AvailableTimeSlot, BufferTime,
    CalendarSettings, RuleModel, WorkingHours,
};
use crate::selector::rule_models;

verus! {

/// A request to create or replace the owner's calendar settings.
#[derive(Debug)]
pub struct CreateCalendarSettingsRequest {
    pub timezone: String,
    pub working_hours: WorkingHours,
    pub buffer_time: BufferTime,
    pub default_meeting_duration: i32,
    pub calendar_name: String,
    pub date_format: String,
    pub time_format: String,
}

impl CreateCalendarSettingsRequest {
    /// Field validation: the text fields must be non-empty and the default
    /// meeting duration must lie between 15 and 120 minutes. The first
    /// failing field, in declaration order, names the error.
    pub fn validate(&self) -> (r: Result<(), AppError>)
        ensures
            r is Ok <==> self.timezone@.len() >= 1 && 15 <= self.default_meeting_duration <= 120
                && self.calendar_name@.len() >= 1 && self.date_format@.len() >= 1
                && self.time_format@.len() >= 1,
            self.timezone@.len() == 0 ==> (r matches Err(AppError::ValidationError(m)) && m@
                == "Timezone is required"@),
            self.timezone@.len() >= 1 && !(15 <= self.default_meeting_duration <= 120) ==> (r
                matches Err(AppError::ValidationError(m)) && m@
                == "Meeting duration must be between 15 and 120 minutes"@),
            self.timezone@.len() >= 1 && 15 <= self.default_meeting_duration <= 120
                && self.calendar_name@.len() == 0 ==> (r matches Err(AppError::ValidationError(m))
                && m@ == "Calendar name is required"@),
            self.timezone@.len() >= 1 && 15 <= self.default_meeting_duration <= 120
                && self.calendar_name@.len() >= 1 && self.date_format@.len() == 0 ==> (r matches
                Err(AppError::ValidationError(m)) && m@ == "Date format is required"@),
            self.timezone@.len() >= 1 && 15 <= self.default_meeting_duration <= 120
                && self.calendar_name@.len() >= 1 && self.date_format@.len() >= 1
                && self.time_format@.len() == 0 ==> (r matches Err(AppError::ValidationError(m))
                && m@ == "Time format is required"@),
    {
        if self.timezone.as_str().is_empty() {
            return Err(AppError::ValidationError(String::from_str("Timezone is required")));
        }
        if self.default_meeting_duration < 15 || self.default_meeting_duration > 120 {
            return Err(
                AppError::ValidationError(
                    String::from_str("Meeting duration must be between 15 and 120 minutes"),
                ),
            );
        }
        if self.calendar_name.as_str().is_empty() {
            return Err(AppError::ValidationError(String::from_str("Calendar name is required")));
        }
        if self.date_format.as_str().is_empty() {
            return Err(AppError::ValidationError(String::from_str("Date format is required")));
        }
        if self.time_format.as_str().is_empty() {
            return Err(AppError::ValidationError(String::from_str("Time format is required")));
        }
        Ok(())
    }
}

/// One availability rule in its wire shape: RFC 3339 date strings and
/// already-validated slot templates.
#[derive(Debug)]
pub struct CreateAvailabilityRuleRequest {
    pub start_date: String,
    pub end_date: Option<String>,
    pub is_recurring: bool,
    pub recurrence_pattern: Option<String>,
    pub slots: Vec<AvailabilitySlot>,
}

/// The rule request parses and is internally consistent, as
/// [`AvailabilityRule::new`] demands.
pub open spec fn rule_req_ok(q: CreateAvailabilityRuleRequest) -> bool {
    &&& spec_timestamp_date(q.start_date@) is Some
    &&& match q.end_date {
        Some(es) => spec_timestamp_date(es@) matches Some(ed) && spec_timestamp_date(
            q.start_date@,
        ).unwrap().spec_day_number() <= ed.spec_day_number(),
        None => q.is_recurring,
    }
}

/// The message with which a malformed rule request is rejected.
pub open spec fn rule_req_error(q: CreateAvailabilityRuleRequest) -> Seq<char> {
    if spec_timestamp_date(q.start_date@) is None {
        "Invalid start date"@
    } else if q.end_date matches Some(es) && spec_timestamp_date(es@) is None {
        "Invalid end date"@
    } else if q.end_date is None && !q.is_recurring {
        "An availability rule without an end date must be recurring"@
    } else {
        "End date must not be before start date"@
    }
}

/// The rule a well-formed rule request denotes.
pub open spec fn rule_of_request(q: CreateAvailabilityRuleRequest) -> RuleModel {
    RuleModel {
        start_date: spec_timestamp_date(q.start_date@).unwrap(),
        end_date: match q.end_date {
            Some(es) => Some(spec_timestamp_date(es@).unwrap()),
            None => None,
        },
        is_recurring: q.is_recurring,
        recurrence_pattern: opt_string_view(q.recurrence_pattern),
        slots: q.slots@,
    }
}

/// Builds the availability rules of a request, in order, stopping at the
/// first malformed rule with a validation failure carrying that rule's
/// error.
pub fn process_rules(reqs: &Vec<CreateAvailabilityRuleRequest>) -> (r: Result<
    Vec<AvailabilityRule>,
    AppError,
>)
    requires
        forall|i: int, j: int|
            0 <= i < reqs@.len() && 0 <= j < reqs@[i].slots@.len() ==> (#[trigger] reqs@[i].slots@[j]).wf(),
    ensures
        r is Ok <==> (forall|i: int| 0 <= i < reqs@.len() ==> rule_req_ok(#[trigger] reqs@[i])),
        r matches Ok(v) ==> v@.len() == reqs@.len() && (forall|i: int|
            0 <= i < v@.len() ==> (#[trigger] v@[i])@ == rule_of_request(reqs@[i])
                && v@[i]@.wf()),
        r matches Err(e) ==> (e matches AppError::ValidationError(m) && exists|i: int|
            0 <= i < reqs@.len() && !rule_req_ok(#[trigger] reqs@[i]) && (forall|k: int|
                0 <= k < i ==> rule_req_ok(#[trigger] reqs@[k])) && m@ == rule_req_error(
                reqs@[i],
            )),
{
    let mut out: Vec<AvailabilityRule> = Vec::new();
    let mut i: usize = 0;
    while i < reqs.len()
        invariant
            i <= reqs@.len(),
            out@.len() == i,
            forall|m: int, j: int|
                0 <= m < reqs@.len() && 0 <= j < reqs@[m].slots@.len() ==> (#[trigger] reqs@[m].slots@[j]).wf(),
            forall|k: int| 0 <= k < i ==> rule_req_ok(#[trigger] reqs@[k]),
            forall|k: int|
                0 <= k < i ==> (#[trigger] out@[k])@ == rule_of_request(reqs@[k]) && out@[k]@.wf(),
        decreases reqs@.len() - i,
    {
        let q = &reqs[i];
        let end_ref: Option<&str> = match &q.end_date {
            Some(s) => Some(s.as_str()),
            None => None,
        };
        let mut slots_copy: Vec<AvailabilitySlot> = Vec::new();
        let mut j: usize = 0;
        while j < q.slots.len()
            invariant
                j <= q.slots@.len(),
                slots_copy@ == q.slots@.take(j as int),
            decreases q.slots@.len() - j,
        {
            slots_copy.push(q.slots[j]);
            proof {
                assert(slots_copy@ =~= q.slots@.take(j as int + 1));
            }
            j = j + 1;
        }
        proof {
            assert(slots_copy@ =~= q.slots@);
        }
        let recurrence_pattern: Option<String> = match &q.recurrence_pattern {
            Some(s) => Some(s.clone()),
            None => None,
        };
        let ghost rp_view = opt_string_view(recurrence_pattern);
        proof {
            assert(rp_view == opt_string_view(q.recurrence_pattern));
        }
        match AvailabilityRule::new(
            q.start_date.as_str(),
            end_ref,
            q.is_recurring,
            recurrence_pattern,
            slots_copy,
        ) {
            Ok(rule) => {
                proof {
                    assert(rule@ == rule_of_request(reqs@[i as int]));
                }
                out.push(rule);
            },
            Err(m) => {
                proof {
                    assert(m@ == rule_req_error(reqs@[i as int]));
                }
                return Err(AppError::ValidationError(m));
            },
        }
        i = i + 1;
    }
    Ok(out)
}

/// A request to attach availability rules to a calendar.
#[derive(Debug)]
pub struct CreateAvailabilityRequest {
    pub calendar_settings_id: String,
    pub rules: Vec<CreateAvailabilityRuleRequest>,
}

impl CreateAvailabilityRequest {
    /// At least one rule must be given.
    pub fn validate(&self) -> (r: Result<(), AppError>)
        ensures
            r is Ok <==> self.rules@.len() >= 1,
            self.rules@.len() == 0 ==> (r matches Err(AppError::ValidationError(m)) && m@
                == "At least one availability rule is required"@),
    {
        if self.rules.len() == 0 {
            return Err(
                AppError::ValidationError(
                    String::from_str("At least one availability rule is required"),
                ),
            );
        }
        Ok(())
    }
}

/// A request to replace the rules of an existing availability schedule.
#[derive(Debug)]
pub struct UpdateAvailabilityRequest {
    pub rules: Vec<CreateAvailabilityRuleRequest>,
}

impl UpdateAvailabilityRequest {
    /// At least one rule must be given.
    pub fn validate(&self) -> (r: Result<(), AppError>)
        ensures
            r is Ok <==> self.rules@.len() >= 1,
            self.rules@.len() == 0 ==> (r matches Err(AppError::ValidationError(m)) && m@
                == "At least one availability rule is required"@),
    {
        if self.rules.len() == 0 {
            return Err(
                AppError::ValidationError(
                    String::from_str("At least one availability rule is required"),
                ),
            );
        }
        Ok(())
    }
}

/// A named kind of bookable meeting, in its wire shape.
#[derive(Debug)]
pub struct CreateEventTypeRequest {
    pub name: String,
    pub description: Option<String>,
    pub duration: i32,
    pub color: String,
    pub location_type: String,
    pub meeting_link: Option<String>,
    pub questions: Vec<String>,
    pub availability_schedule_id: String,
    pub buffer_time: Option<BufferTime>,
    pub min_booking_notice: Option<i32>,
    pub max_booking_notice: Option<i32>,
    pub is_active: bool,
}

/// One of the three accepted location kinds.
pub open spec fn valid_location_type(s: Seq<char>) -> bool {
    s == "in_person"@ || s == "phone"@ || s == "video"@
}

/// A hex color code: seven characters beginning with `#`.
pub open spec fn valid_color_format(s: Seq<char>) -> bool {
    s.len() == 7 && s[0] == '#'
}

/// The event-type fields every request must carry.
pub open spec fn event_fields_ok(q: CreateEventTypeRequest) -> bool {
    &&& q.name@.len() >= 1
    &&& 15 <= q.duration <= 480
    &&& q.color@.len() >= 1
    &&& q.location_type@.len() >= 1
    &&& q.availability_schedule_id@.len() >= 1
}

/// The message of the first failing event-type field, in declaration order.
pub open spec fn event_field_error(q: CreateEventTypeRequest) -> Seq<char> {
    if q.name@.len() == 0 {
        "Name is required"@
    } else if !(15 <= q.duration <= 480) {
        "Duration must be between 15 and 480 minutes"@
    } else if q.color@.len() == 0 {
        "Color is required"@
    } else if q.location_type@.len() == 0 {
        "Location type is required"@
    } else {
        "Availability schedule ID is required"@
    }
}

impl CreateEventTypeRequest {
    /// Field validation: the text fields must be non-empty and the duration
    /// must lie between 15 and 480 minutes.
    pub fn validate(&self) -> (r: Result<(), AppError>)
        ensures
            r is Ok <==> event_fields_ok(*self),
            !event_fields_ok(*self) ==> (r matches Err(AppError::ValidationError(m)) && m@
                == event_field_error(*self)),
    {
        if self.name.as_str().is_empty() {
            return Err(AppError::ValidationError(String::from_str("Name is required")));
        }
        if self.duration < 15 || self.duration > 480 {
            return Err(
                AppError::ValidationError(
                    String::from_str("Duration must be between 15 and 480 minutes"),
                ),
            );
        }
        if self.color.as_str().is_empty() {
            return Err(AppError::ValidationError(String::from_str("Color is required")));
        }
        if self.location_type.as_str().is_empty() {
            return Err(AppError::ValidationError(String::from_str("Location type is required")));
        }
        if self.availability_schedule_id.as_str().is_empty() {
            return Err(
                AppError::ValidationError(
                    String::from_str("Availability schedule ID is required"),
                ),
            );
        }
        Ok(())
    }
}

/// Full validation of an event-type creation request: the fields, then the
/// location kind, then the meeting link a video event needs, then the color
/// code, failing at the first broken stage.
pub fn validate_create_event_type(req: &CreateEventTypeRequest) -> (r: Result<(), AppError>)
    ensures
        r is Ok <==> event_fields_ok(*req) && valid_location_type(req.location_type@) && (
        req.location_type@ == "video"@ ==> req.meeting_link is Some) && valid_color_format(
            req.color@,
        ),
        !event_fields_ok(*req) ==> (r matches Err(AppError::ValidationError(m)) && m@
            == event_field_error(*req)),
        event_fields_ok(*req) && !valid_location_type(req.location_type@) ==> (r matches Err(
            AppError::BadRequest(m),
        ) && m@ == "Invalid location type"@),
        event_fields_ok(*req) && valid_location_type(req.location_type@) && req.location_type@
            == "video"@ && req.meeting_link is None ==> (r matches Err(AppError::BadRequest(m))
            && m@ == "Meeting link is required for video events"@),
        event_fields_ok(*req) && valid_location_type(req.location_type@) && (req.location_type@
            == "video"@ ==> req.meeting_link is Some) && !valid_color_format(req.color@) ==> (r
            matches Err(AppError::BadRequest(m)) && m@
            == "Invalid color format. Use hex color code (e.g., #FF0000)"@),
{
    match req.validate() {
        Ok(_) => {},
        Err(e) => {
            return Err(e);
        },
    }
    let is_video = req.location_type == String::from_str("video");
    if !(req.location_type == String::from_str("in_person") || req.location_type
        == String::from_str("phone") || is_video) {
        return Err(AppError::BadRequest(String::from_str("Invalid location type")));
    }
    if is_video && req.meeting_link.is_none() {
        return Err(
            AppError::BadRequest(String::from_str("Meeting link is required for video events")),
        );
    }
    let color_chars = crate::text::str_chars(req.color.as_str());
    if !(color_chars.len() == 7 && color_chars[0] == '#') {
        return Err(
            AppError::BadRequest(
                String::from_str("Invalid color format. Use hex color code (e.g., #FF0000)"),
            ),
        );
    }
    Ok(())
}

/// A partial update of an event type: absent fields are left as they are.
#[derive(Debug)]
pub struct UpdateEventTypeRequest {
    pub name: Option<String>,
    pub description: Option<String>,
    pub duration: Option<i32>,
    pub color: Option<String>,
    pub location_type: Option<String>,
    pub meeting_link: Option<String>,
    pub questions: Option<Vec<String>>,
    pub buffer_time: Option<BufferTime>,
    pub min_booking_notice: Option<i32>,
    pub max_booking_notice: Option<i32>,
    pub is_active: Option<bool>,
}

/// Every field that the update carries is acceptable on its own.
pub open spec fn update_fields_ok(q: UpdateEventTypeRequest) -> bool {
    &&& (q.name matches Some(n) ==> n@.len() >= 1)
    &&& (q.duration matches Some(d) ==> 15 <= d <= 480)
    &&& (q.color matches Some(c) ==> c@.len() >= 1)
    &&& (q.location_type matches Some(l) ==> l@.len() >= 1)
}

/// The message of the first failing update field, in declaration order.
pub open spec fn update_field_error(q: UpdateEventTypeRequest) -> Seq<char> {
    if q.name matches Some(n) && n@.len() == 0 {
        "Name is required"@
    } else if q.duration matches Some(d) && !(15 <= d <= 480) {
        "Duration must be between 15 and 480 minutes"@
    } else if q.color matches Some(c) && c@.len() == 0 {
        "Color is required"@
    } else {
        "Location type is required"@
    }
}

impl UpdateEventTypeRequest {
    /// Field validation of the fields the update carries.
    pub fn validate(&self) -> (r: Result<(), AppError>)
        ensures
            r is Ok <==> update_fields_ok(*self),
            !update_fields_ok(*self) ==> (r matches Err(AppError::ValidationError(m)) && m@
                == update_field_error(*self)),
    {
        match &self.name {
            Some(n) => {
                if n.as_str().is_empty() {
                    return Err(AppError::ValidationError(String::from_str("Name is required")));
                }
            },
            None => {},
        }
        match &self.duration {
            Some(d) => {
                if *d < 15 || *d > 480 {
                    return Err(
                        AppError::ValidationError(
                            String::from_str("Duration must be between 15 and 480 minutes"),
                        ),
                    );
                }
            },
            None => {},
        }
        match &self.color {
            Some(c) => {
                if c.as_str().is_empty() {
                    return Err(AppError::ValidationError(String::from_str("Color is required")));
                }
            },
            None => {},
        }
        match &self.location_type {
            Some(l) => {
                if l.as_str().is_empty() {
                    return Err(
                        AppError::ValidationError(String::from_str("Location type is required")),
                    );
                }
            },
            None => {},
        }
        Ok(())
    }
}

/// Full validation of an event-type update: the carried fields, then the
/// location kind if one is given (a video location needs a meeting link),
/// then the color code if one is given.
pub fn validate_update_event_type(req: &UpdateEventTypeRequest) -> (r: Result<(), AppError>)
    ensures
        r is Ok <==> update_fields_ok(*req) && (req.location_type matches Some(l) ==> (
        valid_location_type(l@) && (l@ == "video"@ ==> req.meeting_link is Some))) && (req.color
            matches Some(c) ==> valid_color_format(c@)),
        !update_fields_ok(*req) ==> (r matches Err(AppError::ValidationError(m)) && m@
            == update_field_error(*req)),
        update_fields_ok(*req) ==> (req.location_type matches Some(l) ==> (!valid_location_type(
            l@,
        ) ==> (r matches Err(AppError::BadRequest(m)) && m@ == "Invalid location type"@))),
        update_fields_ok(*req) ==> (req.location_type matches Some(l) ==> (valid_location_type(l@)
            && l@ == "video"@ && req.meeting_link is None ==> (r matches Err(AppError::BadRequest(
            m,
        )) && m@ == "Meeting link is required for video events"@))),
        update_fields_ok(*req) && (req.location_type matches Some(l) ==> (valid_location_type(l@)
            && (l@ == "video"@ ==> req.meeting_link is Some))) ==> (req.color matches Some(c) ==> (
        !valid_color_format(c@) ==> (r matches Err(AppError::BadRequest(m)) && m@
            == "Invalid color format. Use hex color code (e.g., #FF0000)"@))),
{
    match req.validate() {
        Ok(_) => {},
        Err(e) => {
            return Err(e);
        },
    }
    match &req.location_type {
        Some(location_type) => {
            let is_video = *location_type == String::from_str("video");
            if !(*location_type == String::from_str("in_person") || *location_type
                == String::from_str("phone") || is_video) {
                return Err(AppError::BadRequest(String::from_str("Invalid location type")));
            }
            if is_video && req.meeting_link.is_none() {
                return Err(
                    AppError::BadRequest(
                        String::from_str("Meeting link is required for video events"),
                    ),
                );
            }
        },
        None => {},
    }
    match &req.color {
        Some(color) => {
            let color_chars = crate::text::str_chars(color.as_str());
            if !(color_chars.len() == 7 && color_chars[0] == '#') {
                return Err(
                    AppError::BadRequest(
                        String::from_str(
                            "Invalid color format. Use hex color code (e.g., #FF0000)",
                        ),
                    ),
                );
            }
        },
        None => {},
    }
    Ok(())
}

/// An availability query: a date range as RFC 3339 timestamps and the wanted
/// booking duration in minutes.
#[derive(Debug)]
pub struct CheckAvailabilityRequest {
    pub start_date: String,
    pub end_date: String,
    pub duration: i32,
}

/// The query's answer: every bookable window, sorted by date and start.
#[derive(Debug)]
pub struct CheckAvailabilityResponse {
    pub available_slots: Vec<AvailableTimeSlot>,
}

/// Answers an availability query: parses the range, rejects a non-positive
/// duration, and enumerates every bookable window the rules yield inside the
/// range, sorted ascending by `(date, start)`.
pub fn check_availability(
    req: &CheckAvailabilityRequest,
    settings: &CalendarSettings,
    rules: &Vec<AvailabilityRule>,
) -> (r: Result<CheckAvailabilityResponse, AppError>)
    requires
        forall|i: int| 0 <= i < rules@.len() ==> (#[trigger] rules@[i])@.wf(),
    ensures
        r is Ok <==> spec_timestamp_date(req.start_date@) is Some && spec_timestamp_date(
            req.end_date@,
        ) is Some && req.duration >= 1,
        spec_timestamp_date(req.start_date@) is None ==> (r matches Err(AppError::BadRequest(m))
            && m@ == "Invalid start date format"@),
        spec_timestamp_date(req.start_date@) is Some && spec_timestamp_date(req.end_date@) is None
            ==> (r matches Err(AppError::BadRequest(m)) && m@ == "Invalid end date format"@),
        spec_timestamp_date(req.start_date@) is Some && spec_timestamp_date(req.end_date@) is Some
            && req.duration < 1 ==> (r matches Err(AppError::ValidationError(m)) && m@
            == "Duration must be positive"@),
        r matches Ok(resp) ==> {
            let range_start = spec_timestamp_date(req.start_date@).unwrap();
            let range_end = spec_timestamp_date(req.end_date@).unwrap();
            &&& resp.available_slots@.to_multiset() == all_emissions(
                rule_models(rules@),
                range_start,
                range_end,
                req.duration as int,
                settings.buffer_time,
            ).to_multiset()
            &&& sorted_slots(resp.available_slots@)
            &&& forall|k: int|
                0 <= k < resp.available_slots@.len() ==> {
                    let e = #[trigger] resp.available_slots@[k];
                    &&& range_start.spec_day_number() <= e.date.spec_day_number()
                        <= range_end.spec_day_number()
                    &&& emission_covered(rule_models(rules@), req.duration as int, e)
                }
        },
{
    let range_start = match Date::parse_timestamp(req.start_date.as_str()) {
        Some(d) => d,
        None => {
            return Err(AppError::BadRequest(String::from_str("Invalid start date format")));
        },
    };
    let range_end = match Date::parse_timestamp(req.end_date.as_str()) {
        Some(d) => d,
        None => {
            return Err(AppError::BadRequest(String::from_str("Invalid end date format")));
        },
    };
    if req.duration < 1 {
        return Err(AppError::ValidationError(String::from_str("Duration must be positive")));
    }
    let available_slots = generate(
        rules,
        &range_start,
        &range_end,
        req.duration as u32,
        &settings.buffer_time,
    );
    Ok(CheckAvailabilityResponse { available_slots })
}

} // verus!
