use calendar_engine::date::Date;
use calendar_engine::error::AppError;
use calendar_engine::model::{AvailabilitySlot, BufferTime, CalendarSettings, WorkingHours};
use calendar_engine::requests::{
    check_availability, process_rules, validate_create_event_type, validate_update_event_type,
    CheckAvailabilityRequest, CreateAvailabilityRequest, CreateAvailabilityRuleRequest,
    CreateCalendarSettingsRequest, CreateEventTypeRequest, UpdateEventTypeRequest,
};
use calendar_engine::session::{Claims, Environment};

fn settings_request() -> CreateCalendarSettingsRequest {
    CreateCalendarSettingsRequest {
        timezone: "UTC".to_string(),
        working_hours: WorkingHours::empty(),
        buffer_time: BufferTime { before: 0, after: 0 },
        default_meeting_duration: 30,
        calendar_name: "Work".to_string(),
        date_format: "YYYY-MM-DD".to_string(),
        time_format: "24h".to_string(),
    }
}

fn plain_settings() -> CalendarSettings {
    CalendarSettings {
        timezone: "UTC".to_string(),
        working_hours: WorkingHours::empty(),
        buffer_time: BufferTime { before: 0, after: 0 },
        default_meeting_duration: 30,
        calendar_name: "Work".to_string(),
        date_format: "YYYY-MM-DD".to_string(),
        time_format: "24h".to_string(),
    }
}

fn rule_request(start: &str, end: Option<&str>, recurring: bool) -> CreateAvailabilityRuleRequest {
    CreateAvailabilityRuleRequest {
        start_date: start.to_string(),
        end_date: end.map(|s| s.to_string()),
        is_recurring: recurring,
        recurrence_pattern: None,
        slots: vec![AvailabilitySlot::parse("monday", "09:00", "10:00", true).unwrap()],
    }
}

fn event_type_request() -> CreateEventTypeRequest {
    CreateEventTypeRequest {
        name: "Intro call".to_string(),
        description: None,
        duration: 30,
        color: "#FF0000".to_string(),
        location_type: "phone".to_string(),
        meeting_link: None,
        questions: vec![],
        availability_schedule_id: "abc123".to_string(),
        buffer_time: None,
        min_booking_notice: None,
        max_booking_notice: None,
        is_active: true,
    }
}

#[test]
fn settings_request_validates() {
    assert!(settings_request().validate().is_ok());
    let mut bad = settings_request();
    bad.timezone = String::new();
    let e = bad.validate().unwrap_err();
    assert!(matches!(e, AppError::ValidationError(m) if m == "Timezone is required"));
    let mut bad = settings_request();
    bad.default_meeting_duration = 10;
    let e = bad.validate().unwrap_err();
    assert!(matches!(
        e,
        AppError::ValidationError(m) if m == "Meeting duration must be between 15 and 120 minutes"
    ));
    let mut bad = settings_request();
    bad.calendar_name = String::new();
    let e = bad.validate().unwrap_err();
    assert!(matches!(e, AppError::ValidationError(m) if m == "Calendar name is required"));
}

#[test]
fn availability_request_needs_rules() {
    let ok = CreateAvailabilityRequest {
        calendar_settings_id: "abc".to_string(),
        rules: vec![rule_request("2024-01-01T00:00:00Z", None, true)],
    };
    assert!(ok.validate().is_ok());
    let empty = CreateAvailabilityRequest { calendar_settings_id: "abc".to_string(), rules: vec![] };
    let e = empty.validate().unwrap_err();
    assert!(matches!(
        e,
        AppError::ValidationError(m) if m == "At least one availability rule is required"
    ));
}

#[test]
fn process_rules_builds_all_rules() {
    let reqs = vec![
        rule_request("2024-01-01T00:00:00Z", Some("2024-06-30T00:00:00Z"), false),
        rule_request("2024-07-01T00:00:00Z", None, true),
    ];
    let rules = process_rules(&reqs).unwrap();
    assert_eq!(rules.len(), 2);
    assert_eq!(rules[0].start_date, Date::parse("2024-01-01").unwrap());
    assert_eq!(rules[0].end_date, Some(Date::parse("2024-06-30").unwrap()));
    assert_eq!(rules[1].end_date, None);
}

#[test]
fn process_rules_stops_at_first_bad_rule() {
    let reqs = vec![
        rule_request("2024-01-01T00:00:00Z", None, true),
        rule_request("2024-07-01T00:00:00Z", Some("garbage"), false),
    ];
    let e = process_rules(&reqs).unwrap_err();
    assert!(matches!(e, AppError::ValidationError(m) if m == "Invalid end date"));
}

#[test]
fn check_availability_generates_sorted_slots() {
    let mut reqs = rule_request("2024-01-01T00:00:00Z", None, true);
    reqs.slots = vec![AvailabilitySlot::parse("monday", "09:00", "10:00", true).unwrap()];
    let rules = process_rules(&vec![reqs]).unwrap();
    let query = CheckAvailabilityRequest {
        start_date: "2024-06-10T00:00:00Z".to_string(),
        end_date: "2024-06-10T00:00:00Z".to_string(),
        duration: 30,
    };
    let resp = check_availability(&query, &plain_settings(), &rules).unwrap();
    assert_eq!(resp.available_slots.len(), 2);
    assert_eq!(resp.available_slots[0].start_time.format(), "09:00");
    assert_eq!(resp.available_slots[1].start_time.format(), "09:30");
}

#[test]
fn check_availability_rejects_bad_dates() {
    let rules = vec![];
    let query = CheckAvailabilityRequest {
        start_date: "soon".to_string(),
        end_date: "2024-06-10T00:00:00Z".to_string(),
        duration: 30,
    };
    let e = check_availability(&query, &plain_settings(), &rules).unwrap_err();
    assert!(matches!(e, AppError::BadRequest(m) if m == "Invalid start date format"));
    let query = CheckAvailabilityRequest {
        start_date: "2024-06-10T00:00:00Z".to_string(),
        end_date: "later".to_string(),
        duration: 30,
    };
    let e = check_availability(&query, &plain_settings(), &rules).unwrap_err();
    assert!(matches!(e, AppError::BadRequest(m) if m == "Invalid end date format"));
}

#[test]
fn check_availability_rejects_non_positive_duration() {
    let rules = vec![];
    let query = CheckAvailabilityRequest {
        start_date: "2024-06-10T00:00:00Z".to_string(),
        end_date: "2024-06-10T00:00:00Z".to_string(),
        duration: 0,
    };
    let e = check_availability(&query, &plain_settings(), &rules).unwrap_err();
    assert!(matches!(e, AppError::ValidationError(m) if m == "Duration must be positive"));
}

#[test]
fn event_type_request_accepts_valid_input() {
    assert!(validate_create_event_type(&event_type_request()).is_ok());
    let mut video = event_type_request();
    video.location_type = "video".to_string();
    video.meeting_link = Some("https://example.test/room".to_string());
    assert!(validate_create_event_type(&video).is_ok());
}

#[test]
fn event_type_request_field_errors() {
    let mut bad = event_type_request();
    bad.name = String::new();
    let e = validate_create_event_type(&bad).unwrap_err();
    assert!(matches!(e, AppError::ValidationError(m) if m == "Name is required"));
    let mut bad = event_type_request();
    bad.duration = 500;
    let e = validate_create_event_type(&bad).unwrap_err();
    assert!(matches!(
        e,
        AppError::ValidationError(m) if m == "Duration must be between 15 and 480 minutes"
    ));
}

#[test]
fn event_type_request_location_rules() {
    let mut bad = event_type_request();
    bad.location_type = "carrier_pigeon".to_string();
    let e = validate_create_event_type(&bad).unwrap_err();
    assert!(matches!(e, AppError::BadRequest(m) if m == "Invalid location type"));
    let mut video = event_type_request();
    video.location_type = "video".to_string();
    let e = validate_create_event_type(&video).unwrap_err();
    assert!(matches!(e, AppError::BadRequest(m) if m == "Meeting link is required for video events"));
}

#[test]
fn event_type_request_color_format() {
    let mut bad = event_type_request();
    bad.color = "FF0000".to_string();
    let e = validate_create_event_type(&bad).unwrap_err();
    assert!(matches!(
        e,
        AppError::BadRequest(m) if m == "Invalid color format. Use hex color code (e.g., #FF0000)"
    ));
    let mut bad = event_type_request();
    bad.color = "#FF00".to_string();
    assert!(validate_create_event_type(&bad).is_err());
}

#[test]
fn update_event_type_checks_only_given_fields() {
    let empty = UpdateEventTypeRequest {
        name: None,
        description: None,
        duration: None,
        color: None,
        location_type: None,
        meeting_link: None,
        questions: None,
        buffer_time: None,
        min_booking_notice: None,
        max_booking_notice: None,
        is_active: None,
    };
    assert!(validate_update_event_type(&empty).is_ok());
    let mut update = empty;
    update.location_type = Some("video".to_string());
    let e = validate_update_event_type(&update).unwrap_err();
    assert!(matches!(e, AppError::BadRequest(m) if m == "Meeting link is required for video events"));
    update.meeting_link = Some("https://example.test/room".to_string());
    assert!(validate_update_event_type(&update).is_ok());
    update.color = Some("red".to_string());
    let e = validate_update_event_type(&update).unwrap_err();
    assert!(matches!(
        e,
        AppError::BadRequest(m) if m == "Invalid color format. Use hex color code (e.g., #FF0000)"
    ));
}

#[test]
fn environment_exposes_jwt_secret() {
    let env = Environment {
        mongodb_uri: "mongodb://localhost".to_string(),
        database_name: "calendar".to_string(),
        port: 8080,
        jwt_secret: "SECRET-REDACTED".to_string(),
        email_user: "calendar@example.test".to_string(),
        email_password: "SECRET-REDACTED".to_string(),
    };
    assert_eq!(env.get_jwt_secret(), "SECRET-REDACTED");
}

#[test]
fn claims_carry_identity() {
    let claims = Claims {
        sub: "64f000000000000000000000".to_string(),
        exp: 1_700_000_900,
        iat: 1_700_000_000,
        email: "user@example.test".to_string(),
    };
    assert_eq!(claims.sub.len(), 24);
    assert!(claims.exp > claims.iat);
}
