use calendar_engine::date::Date;
use calendar_engine::model::{AvailabilityRule, AvailabilitySlot, TimeSlot};
use calendar_engine::time_of_day::TimeOfDay;
use calendar_engine::weekday::Weekday;

#[test]
fn parse_time_valid() {
    let t = TimeOfDay::parse("09:05").unwrap();
    assert_eq!(t.hour, 9);
    assert_eq!(t.minute, 5);
    let t = TimeOfDay::parse("23:59").unwrap();
    assert_eq!(t.hour, 23);
    assert_eq!(t.minute, 59);
    let t = TimeOfDay::parse("00:00").unwrap();
    assert_eq!(t.hour, 0);
    assert_eq!(t.minute, 0);
}

#[test]
fn parse_time_rejects_malformed() {
    assert!(TimeOfDay::parse("24:00").is_none());
    assert!(TimeOfDay::parse("09:60").is_none());
    assert!(TimeOfDay::parse("9:00").is_none());
    assert!(TimeOfDay::parse("09-00").is_none());
    assert!(TimeOfDay::parse("09:0a").is_none());
    assert!(TimeOfDay::parse("").is_none());
    assert!(TimeOfDay::parse("09:000").is_none());
}

#[test]
fn format_time_round_trip() {
    let t = TimeOfDay::parse("07:05").unwrap();
    assert_eq!(t.format(), "07:05");
    let again = TimeOfDay::parse(t.format().as_str()).unwrap();
    assert_eq!(again, t);
    assert_eq!(TimeOfDay { hour: 0, minute: 0 }.format(), "00:00");
}

#[test]
fn minutes_round_trip() {
    let t = TimeOfDay::parse("10:30").unwrap();
    assert_eq!(t.minutes(), 630);
    assert_eq!(TimeOfDay::from_minutes(630), t);
}

#[test]
fn parse_date_valid() {
    let d = Date::parse("2024-06-10").unwrap();
    assert_eq!((d.year, d.month, d.day), (2024, 6, 10));
    let leap = Date::parse("2024-02-29").unwrap();
    assert_eq!((leap.year, leap.month, leap.day), (2024, 2, 29));
    let century = Date::parse("2000-02-29").unwrap();
    assert_eq!(century.day, 29);
}

#[test]
fn parse_date_rejects_malformed() {
    assert!(Date::parse("2023-02-29").is_none());
    assert!(Date::parse("1900-02-29").is_none());
    assert!(Date::parse("2024-13-01").is_none());
    assert!(Date::parse("2024-00-10").is_none());
    assert!(Date::parse("2024-06-31").is_none());
    assert!(Date::parse("2024-6-10").is_none());
    assert!(Date::parse("2024/06/10").is_none());
    assert!(Date::parse("").is_none());
}

#[test]
fn format_date_round_trip() {
    let d = Date::parse("2024-06-10").unwrap();
    assert_eq!(d.format(), "2024-06-10");
    let d2 = Date { year: 987, month: 1, day: 2 };
    assert_eq!(d2.format(), "0987-01-02");
    assert_eq!(Date::parse(d2.format().as_str()).unwrap(), d2);
}

#[test]
fn weekday_of_known_dates() {
    assert_eq!(Date::parse("2024-06-10").unwrap().weekday(), Weekday::Monday);
    assert_eq!(Date::parse("2024-01-01").unwrap().weekday(), Weekday::Monday);
    assert_eq!(Date::parse("2000-01-01").unwrap().weekday(), Weekday::Saturday);
    assert_eq!(Date::parse("1970-01-01").unwrap().weekday(), Weekday::Thursday);
    assert_eq!(Date::parse("2024-02-29").unwrap().weekday(), Weekday::Thursday);
    assert_eq!(Date::parse("2025-06-01").unwrap().weekday(), Weekday::Sunday);
}

#[test]
fn weekday_names_round_trip() {
    assert_eq!(Weekday::Monday.name(), "monday");
    assert_eq!(Weekday::Sunday.name(), "sunday");
    assert_eq!(Weekday::from_name("wednesday"), Some(Weekday::Wednesday));
    assert_eq!(Weekday::from_name("Monday"), None);
    assert_eq!(Weekday::from_name("holiday"), None);
}

#[test]
fn successor_handles_rollovers() {
    let d = Date::parse("2024-02-28").unwrap();
    assert_eq!(d.succ(), Date::parse("2024-02-29").unwrap());
    let d = Date::parse("2023-02-28").unwrap();
    assert_eq!(d.succ(), Date::parse("2023-03-01").unwrap());
    let d = Date::parse("2024-12-31").unwrap();
    assert_eq!(d.succ(), Date::parse("2025-01-01").unwrap());
    let d = Date::parse("2024-06-30").unwrap();
    assert_eq!(d.succ(), Date::parse("2024-07-01").unwrap());
}

#[test]
fn date_order_follows_calendar() {
    let a = Date::parse("2024-06-10").unwrap();
    let b = Date::parse("2024-06-11").unwrap();
    let c = Date::parse("2025-01-01").unwrap();
    assert!(a.le(&b));
    assert!(!b.le(&a));
    assert!(b.le(&c));
    assert!(a.le(&a));
}

#[test]
fn timestamp_parse_takes_utc_date() {
    let d = Date::parse_timestamp("2024-06-10T00:00:00Z").unwrap();
    assert_eq!(d, Date::parse("2024-06-10").unwrap());
    // A negative offset pushes the instant past midnight UTC.
    let d = Date::parse_timestamp("2024-06-10T20:00:00-05:00").unwrap();
    assert_eq!(d, Date::parse("2024-06-11").unwrap());
    // A large positive offset pulls it before midnight UTC.
    let d = Date::parse_timestamp("2024-06-10T12:30:00+14:00").unwrap();
    assert_eq!(d, Date::parse("2024-06-09").unwrap());
    assert!(Date::parse_timestamp("2024-06-10").is_none());
    assert!(Date::parse_timestamp("not a date").is_none());
}

#[test]
fn slot_parse_validates_fields() {
    let s = AvailabilitySlot::parse("monday", "09:00", "10:00", true).unwrap();
    assert_eq!(s.day_of_week, Weekday::Monday);
    assert_eq!(s.start_time, TimeOfDay { hour: 9, minute: 0 });
    assert_eq!(s.end_time, TimeOfDay { hour: 10, minute: 0 });
    assert!(s.is_available);
    assert!(AvailabilitySlot::parse("funday", "09:00", "10:00", true).is_none());
    assert!(AvailabilitySlot::parse("monday", "25:00", "10:00", true).is_none());
    assert!(AvailabilitySlot::parse("monday", "09:00", "10:70", true).is_none());
}

#[test]
fn time_slot_parse_validates_fields() {
    let w = TimeSlot::parse("09:00", "17:00").unwrap();
    assert_eq!(w.start, TimeOfDay { hour: 9, minute: 0 });
    assert_eq!(w.end, TimeOfDay { hour: 17, minute: 0 });
    assert!(TimeSlot::parse("09:00", "24:30").is_none());
}

#[test]
fn rule_new_accepts_bounded_and_recurring() {
    let slots = vec![AvailabilitySlot::parse("monday", "09:00", "10:00", true).unwrap()];
    let rule = AvailabilityRule::new(
        "2024-01-01T00:00:00Z",
        Some("2024-12-31T00:00:00Z"),
        false,
        None,
        slots.clone(),
    )
    .unwrap();
    assert_eq!(rule.start_date, Date::parse("2024-01-01").unwrap());
    assert_eq!(rule.end_date, Some(Date::parse("2024-12-31").unwrap()));
    let open_ended = AvailabilityRule::new(
        "2024-01-01T00:00:00Z",
        None,
        true,
        Some("weekly".to_string()),
        slots,
    )
    .unwrap();
    assert_eq!(open_ended.end_date, None);
    assert!(open_ended.is_recurring);
    assert_eq!(open_ended.recurrence_pattern.as_deref(), Some("weekly"));
}

#[test]
fn rule_new_rejects_bad_input() {
    let slots = vec![AvailabilitySlot::parse("monday", "09:00", "10:00", true).unwrap()];
    let e = AvailabilityRule::new("nonsense", None, true, None, slots.clone()).unwrap_err();
    assert_eq!(e, "Invalid start date");
    let e = AvailabilityRule::new("2024-01-01T00:00:00Z", Some("nonsense"), true, None, slots.clone())
        .unwrap_err();
    assert_eq!(e, "Invalid end date");
    let e = AvailabilityRule::new("2024-01-01T00:00:00Z", None, false, None, slots.clone())
        .unwrap_err();
    assert_eq!(e, "An availability rule without an end date must be recurring");
    let e = AvailabilityRule::new(
        "2024-06-10T00:00:00Z",
        Some("2024-06-09T00:00:00Z"),
        false,
        None,
        slots,
    )
    .unwrap_err();
    assert_eq!(e, "End date must not be before start date");
}

#[test]
fn rule_new_normalizes_offsets_to_utc() {
    let slots = vec![AvailabilitySlot::parse("tuesday", "09:00", "10:00", true).unwrap()];
    let rule = AvailabilityRule::new("2024-06-10T20:00:00-05:00", None, true, None, slots).unwrap();
    assert_eq!(rule.start_date, Date::parse("2024-06-11").unwrap());
}

#[test]
fn day_numbers_count_calendar_days() {
    let feb28 = Date::parse("2024-02-28").unwrap();
    let mar01 = Date::parse("2024-03-01").unwrap();
    assert_eq!(mar01.day_number() - feb28.day_number(), 2);
    let feb28_plain = Date::parse("2023-02-28").unwrap();
    let mar01_plain = Date::parse("2023-03-01").unwrap();
    assert_eq!(mar01_plain.day_number() - feb28_plain.day_number(), 1);
    let jan1 = Date::parse("2024-01-01").unwrap();
    let dec31 = Date::parse("2024-12-31").unwrap();
    assert_eq!(dec31.day_number() - jan1.day_number(), 365);
}

#[test]
fn four_digit_year_ceiling() {
    let d = Date::parse("9999-12-31").unwrap();
    assert_eq!(d.year, 9999);
    assert!(Date::parse_timestamp("9999-12-31T23:00:00-02:00").is_none());
    assert!(Date::parse_timestamp("9999-12-31T00:00:00Z").is_some());
}
