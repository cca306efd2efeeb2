use calendar_engine::checker::{check_time_slot, check_time_slot_request, CheckTimeSlotRequest};
use calendar_engine::date::Date;
use calendar_engine::error::AppError;
use calendar_engine::generator::generate;
use calendar_engine::model::{
    AvailabilityRule, AvailabilitySlot, BufferTime, CalendarSettings, TimeSlot, WorkingHours,
};
use calendar_engine::time_of_day::TimeOfDay;

fn settings_with_monday_hours(start: &str, end: &str) -> CalendarSettings {
    let mut hours = WorkingHours::empty();
    hours.monday = vec![TimeSlot::parse(start, end).unwrap()];
    CalendarSettings {
        timezone: "UTC".to_string(),
        working_hours: hours,
        buffer_time: BufferTime { before: 0, after: 0 },
        default_meeting_duration: 30,
        calendar_name: "Work".to_string(),
        date_format: "YYYY-MM-DD".to_string(),
        time_format: "24h".to_string(),
    }
}

fn monday_rule(start: &str, end: &str) -> AvailabilityRule {
    let slots = vec![AvailabilitySlot::parse("monday", start, end, true).unwrap()];
    AvailabilityRule::new("2024-01-01T00:00:00Z", None, true, None, slots).unwrap()
}

fn request(date: &str, start: &str, end: &str) -> CheckTimeSlotRequest {
    CheckTimeSlotRequest {
        date: date.to_string(),
        start_time: start.to_string(),
        end_time: end.to_string(),
    }
}

#[test]
fn outside_working_hours_is_rejected() {
    let settings = settings_with_monday_hours("09:00", "17:00");
    let rules = vec![monday_rule("08:00", "12:00")];
    let resp = check_time_slot_request(&request("2024-06-10", "08:00", "08:30"), &settings, &rules)
        .unwrap();
    assert!(!resp.is_available);
    assert_eq!(resp.conflicts, Some(vec!["Time slot is outside working hours".to_string()]));
}

#[test]
fn uncovered_slot_is_rejected_with_schedule_reason() {
    let settings = settings_with_monday_hours("09:00", "17:00");
    let rules = vec![monday_rule("12:00", "13:00")];
    let resp = check_time_slot_request(&request("2024-06-10", "10:00", "10:30"), &settings, &rules)
        .unwrap();
    assert!(!resp.is_available);
    assert_eq!(
        resp.conflicts,
        Some(vec!["Time slot is not available in your schedule".to_string()])
    );
}

#[test]
fn day_without_working_hours_is_rejected() {
    let settings = settings_with_monday_hours("09:00", "17:00");
    let rules = vec![monday_rule("09:00", "17:00")];
    // 2024-06-11 is a Tuesday; the table has no Tuesday windows.
    let resp = check_time_slot_request(&request("2024-06-11", "10:00", "10:30"), &settings, &rules)
        .unwrap();
    assert!(!resp.is_available);
    assert_eq!(resp.conflicts, Some(vec!["No working hours set for this day".to_string()]));
}

#[test]
fn covered_slot_is_available() {
    let settings = settings_with_monday_hours("09:00", "17:00");
    let rules = vec![monday_rule("09:00", "12:00")];
    let resp = check_time_slot_request(&request("2024-06-10", "10:00", "10:30"), &settings, &rules)
        .unwrap();
    assert!(resp.is_available);
    assert_eq!(resp.conflicts, None);
}

#[test]
fn check_requires_containment_not_equality() {
    let settings = settings_with_monday_hours("00:00", "23:59");
    let rules = vec![monday_rule("09:00", "10:00")];
    let date = Date::parse("2024-06-10").unwrap();
    let whole = check_time_slot(
        &date,
        TimeOfDay::parse("09:00").unwrap(),
        TimeOfDay::parse("10:00").unwrap(),
        &settings,
        &rules,
    );
    assert!(whole.is_available);
    let crossing = check_time_slot(
        &date,
        TimeOfDay::parse("09:30").unwrap(),
        TimeOfDay::parse("10:30").unwrap(),
        &settings,
        &rules,
    );
    assert!(!crossing.is_available);
}

#[test]
fn rule_scope_is_honoured_by_check() {
    let settings = settings_with_monday_hours("09:00", "17:00");
    let slots = vec![AvailabilitySlot::parse("monday", "09:00", "17:00", true).unwrap()];
    let bounded = AvailabilityRule::new(
        "2024-01-01T00:00:00Z",
        Some("2024-05-31T00:00:00Z"),
        false,
        None,
        slots,
    )
    .unwrap();
    let resp = check_time_slot_request(
        &request("2024-06-10", "10:00", "10:30"),
        &settings,
        &vec![bounded],
    )
    .unwrap();
    assert!(!resp.is_available);
    assert_eq!(
        resp.conflicts,
        Some(vec!["Time slot is not available in your schedule".to_string()])
    );
}

#[test]
fn buffers_apply_to_generation_but_not_to_check() {
    // The same 30-minute window: generation with buffers cannot fit a
    // booking, while the ad-hoc check ignores buffers and accepts it.
    let mut settings = settings_with_monday_hours("00:00", "23:59");
    settings.buffer_time = BufferTime { before: 10, after: 10 };
    let rules = vec![monday_rule("09:00", "09:30")];
    let date = Date::parse("2024-06-10").unwrap();
    let generated = generate(&rules, &date, &date, 30, &settings.buffer_time);
    assert_eq!(generated.len(), 0);
    let resp = check_time_slot(
        &date,
        TimeOfDay::parse("09:00").unwrap(),
        TimeOfDay::parse("09:30").unwrap(),
        &settings,
        &rules,
    );
    assert!(resp.is_available);
}

#[test]
fn malformed_check_fields_are_rejected() {
    let settings = settings_with_monday_hours("09:00", "17:00");
    let rules = vec![monday_rule("09:00", "17:00")];
    let e = check_time_slot_request(&request("June 10", "09:00", "09:30"), &settings, &rules)
        .unwrap_err();
    assert!(matches!(e, AppError::BadRequest(m) if m == "Invalid date format"));
    let e = check_time_slot_request(&request("2024-06-10", "9am", "09:30"), &settings, &rules)
        .unwrap_err();
    assert!(matches!(e, AppError::BadRequest(m) if m == "Invalid start time format"));
    let e = check_time_slot_request(&request("2024-06-10", "09:00", "late"), &settings, &rules)
        .unwrap_err();
    assert!(matches!(e, AppError::BadRequest(m) if m == "Invalid end time format"));
}

#[test]
fn error_message_renders_label_and_text() {
    let e = AppError::BadRequest("Invalid date format".to_string());
    assert_eq!(e.message(), "Bad Request: Invalid date format");
    let e = AppError::ValidationError("Timezone is required".to_string());
    assert_eq!(e.message(), "Validation Error: Timezone is required");
}

#[test]
fn error_labels_cover_every_variant() {
    let cases = vec![
        (AppError::InternalServerError("x".to_string()), "Internal Server Error: x"),
        (AppError::BadRequest("x".to_string()), "Bad Request: x"),
        (AppError::Unauthorized("x".to_string()), "Unauthorized: x"),
        (AppError::NotFound("x".to_string()), "Not Found: x"),
        (AppError::DatabaseError("x".to_string()), "Database Error: x"),
        (AppError::EmailError("x".to_string()), "Email Error: x"),
        (AppError::ValidationError("x".to_string()), "Validation Error: x"),
        (AppError::Forbidden("x".to_string()), "Forbidden: x"),
    ];
    for (err, rendered) in cases {
        assert_eq!(err.message(), rendered);
    }
}
