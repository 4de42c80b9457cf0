use course_schedule::{
    collect_courses, parse_byday, parse_ics_datetime, parse_rrule, select_courses,
    select_for_weekday, CivilDateTime, Course, DateTimeType, Frequency, ScheduleError, Weekday,
};

fn dt(year: i32, month: u32, day: u32, hour: u32, minute: u32, second: u32) -> CivilDateTime {
    CivilDateTime { year, month, day, hour, minute, second }
}

fn prop(name: &str, value: &str) -> (String, String) {
    (name.to_string(), value.to_string())
}

fn algorithms_props() -> Vec<(String, String)> {
    vec![
        prop("BEGIN", "VEVENT"),
        prop("DTSTART", "20200901T090000"),
        prop("DTEND", "20200901T103000"),
        prop("SUMMARY", "Algorithms"),
        prop("RRULE", "FREQ=WEEKLY;UNTIL=20201215T000000Z;BYDAY=TU,TH"),
        prop("END", "VEVENT"),
    ]
}

fn algorithms() -> Vec<Course> {
    collect_courses(&algorithms_props()).unwrap()
}

fn course_at(summary: &str, hour: u32, minute: u32, days: &str) -> Vec<(String, String)> {
    let start = format!("20200901T{:02}{:02}00", hour, minute);
    let end = format!("20200901T{:02}{:02}00", hour + 1, minute);
    vec![
        prop("DTSTART", &start),
        prop("DTEND", &end),
        prop("SUMMARY", summary),
        prop("RRULE", &format!("FREQ=WEEKLY;UNTIL=20201215T000000Z;BYDAY={}", days)),
    ]
}

#[test]
fn local_datetime_fields() {
    let r = parse_ics_datetime("20200901T093005").unwrap();
    assert_eq!(r, DateTimeType::NaiveType(dt(2020, 9, 1, 9, 30, 5)));
}

#[test]
fn utc_datetime_fields() {
    let r = parse_ics_datetime("20201215T235959Z").unwrap();
    assert_eq!(r, DateTimeType::UtcType(dt(2020, 12, 15, 23, 59, 59)));
}

#[test]
fn same_fields_under_both_tags() {
    let local = parse_ics_datetime("19991231T000102").unwrap();
    let utc = parse_ics_datetime("19991231T000102Z").unwrap();
    assert_eq!(local, DateTimeType::NaiveType(dt(1999, 12, 31, 0, 1, 2)));
    assert_eq!(utc, DateTimeType::UtcType(dt(1999, 12, 31, 0, 1, 2)));
}

#[test]
fn separator_is_not_checked() {
    let r = parse_ics_datetime("20200901X090000").unwrap();
    assert_eq!(r, DateTimeType::NaiveType(dt(2020, 9, 1, 9, 0, 0)));
}

#[test]
fn signed_fields_read_as_integers() {
    assert_eq!(
        parse_ics_datetime("+20001+1T+10000").unwrap(),
        DateTimeType::NaiveType(dt(200, 1, 1, 1, 0, 0))
    );
    assert_eq!(
        parse_ics_datetime("-0010101T000000").unwrap(),
        DateTimeType::NaiveType(dt(-1, 1, 1, 0, 0, 0))
    );
    assert_eq!(parse_ics_datetime("2020-101T000000"), Err(ScheduleError::MalformedDateTime));
    assert_eq!(parse_ics_datetime("20200+01T000000"), Err(ScheduleError::MalformedDateTime));
}

#[test]
fn malformed_fields_rejected() {
    let bad = [
        "2O200901T090000",
        "20201301T090000",
        "20200001T090000",
        "20200932T090000",
        "20200900T090000",
        "20200901T240000",
        "20200901T096000",
        "20200901T090060",
        "20200901T09000a",
    ];
    for s in bad.iter() {
        assert_eq!(parse_ics_datetime(s), Err(ScheduleError::MalformedDateTime), "{}", s);
    }
}

#[test]
fn calendar_validity_follows_leap_years() {
    assert!(parse_ics_datetime("20200229T120000").is_ok());
    assert_eq!(parse_ics_datetime("20190229T120000"), Err(ScheduleError::MalformedDateTime));
    assert_eq!(parse_ics_datetime("19000229T120000"), Err(ScheduleError::MalformedDateTime));
    assert!(parse_ics_datetime("20000229T120000").is_ok());
    assert_eq!(parse_ics_datetime("20200431T120000"), Err(ScheduleError::MalformedDateTime));
}

#[test]
fn wrong_length_rejected() {
    assert_eq!(parse_ics_datetime(""), Err(ScheduleError::MalformedDateTime));
    assert_eq!(parse_ics_datetime("20200901"), Err(ScheduleError::MalformedDateTime));
    assert_eq!(parse_ics_datetime("20200901T0900000"), Err(ScheduleError::MalformedDateTime));
    assert_eq!(parse_ics_datetime("20200901T090000ZZ"), Err(ScheduleError::MalformedDateTime));
}

#[test]
fn weekly_frequency_is_idempotent() {
    let mut c = Course::new();
    parse_rrule("FREQ=WEEKLY", &mut c).unwrap();
    assert_eq!(c.frequency, Some(Frequency::Weekly));
    parse_rrule("FREQ=WEEKLY", &mut c).unwrap();
    assert_eq!(c.frequency, Some(Frequency::Weekly));
    assert!(c.summary.is_none() && c.until.is_none() && c.days.is_none());
}

#[test]
fn other_frequencies_ignored() {
    for v in ["FREQ=DAILY", "FREQ=MONTHLY", "FREQ=weekly", "FREQ="].iter() {
        let mut c = Course::new();
        parse_rrule(v, &mut c).unwrap();
        assert_eq!(c.frequency, None);
    }
}

#[test]
fn rrule_until_and_days() {
    let mut c = Course::new();
    parse_rrule("FREQ=WEEKLY;INTERVAL=2;UNTIL=20201215T000000Z;BYDAY=TU,TH;X=Y", &mut c).unwrap();
    assert_eq!(c.frequency, Some(Frequency::Weekly));
    assert_eq!(c.until, Some(dt(2020, 12, 15, 0, 0, 0)));
    assert_eq!(c.days, Some(vec![Weekday::Tue, Weekday::Thu]));
}

#[test]
fn local_until_dropped() {
    let mut c = Course::new();
    parse_rrule("UNTIL=20201215T000000", &mut c).unwrap();
    assert_eq!(c.until, None);
}

#[test]
fn malformed_until_is_error() {
    let mut c = Course::new();
    assert_eq!(parse_rrule("UNTIL=2020121XT000000Z", &mut c), Err(ScheduleError::MalformedDateTime));
}

#[test]
fn byday_codes() {
    let mut c = Course::new();
    parse_byday("MO,WE,FR", &mut c);
    assert_eq!(c.days, Some(vec![Weekday::Mon, Weekday::Wed, Weekday::Fri]));
    parse_byday("SU,SA,TH,TU,MO", &mut c);
    assert_eq!(
        c.days,
        Some(vec![Weekday::Sun, Weekday::Sat, Weekday::Thu, Weekday::Tue, Weekday::Mon])
    );
}

#[test]
fn byday_unknown_code_gives_empty_set() {
    let mut c = Course::new();
    parse_byday("XX", &mut c);
    assert_eq!(c.days, Some(vec![]));
    parse_rrule("FREQ=WEEKLY;UNTIL=20201215T000000Z", &mut c).unwrap();
    c.summary = Some("Seminar".to_string());
    c.dtstart = Some(dt(2020, 9, 1, 9, 0, 0));
    c.dtend = Some(dt(2020, 9, 1, 10, 0, 0));
    assert!(c.is_complete());
}

#[test]
fn one_course_collected() {
    let courses = algorithms();
    assert_eq!(courses.len(), 1);
    let c = &courses[0];
    assert_eq!(c.summary.as_deref(), Some("Algorithms"));
    assert_eq!(c.dtstart, Some(dt(2020, 9, 1, 9, 0, 0)));
    assert_eq!(c.dtend, Some(dt(2020, 9, 1, 10, 30, 0)));
    assert_eq!(c.frequency, Some(Frequency::Weekly));
    assert_eq!(c.until, Some(dt(2020, 12, 15, 0, 0, 0)));
    assert_eq!(c.days, Some(vec![Weekday::Tue, Weekday::Thu]));
}

#[test]
fn two_groups_give_two_courses() {
    let mut props = course_at("Algorithms", 9, 0, "TU,TH");
    props.extend(course_at("Databases", 13, 15, "MO"));
    let courses = collect_courses(&props).unwrap();
    assert_eq!(courses.len(), 2);
    assert_eq!(courses[0].summary.as_deref(), Some("Algorithms"));
    assert_eq!(courses[1].summary.as_deref(), Some("Databases"));
    assert_eq!(courses[1].dtstart, Some(dt(2020, 9, 1, 13, 15, 0)));
    assert_eq!(courses[1].days, Some(vec![Weekday::Mon]));
}

#[test]
fn incomplete_group_not_captured() {
    let mut props = course_at("Algorithms", 9, 0, "TU");
    props.pop();
    assert_eq!(collect_courses(&props).unwrap().len(), 0);
}

#[test]
fn utc_dtstart_dropped() {
    let props = vec![
        prop("DTSTART", "20200901T090000Z"),
        prop("DTEND", "20200901T103000"),
        prop("SUMMARY", "Algorithms"),
        prop("RRULE", "FREQ=WEEKLY;UNTIL=20201215T000000Z;BYDAY=TU"),
    ];
    assert_eq!(collect_courses(&props).unwrap().len(), 0);
}

#[test]
fn malformed_datetime_fails_whole_stream() {
    let mut props = course_at("Algorithms", 9, 0, "TU");
    props.push(prop("DTSTART", "2020090XT090000"));
    assert_eq!(collect_courses(&props).err(), Some(ScheduleError::MalformedDateTime));
}

#[test]
fn scenario_current_course() {
    let courses = algorithms();
    let now = dt(2020, 9, 8, 9, 45, 0);
    let s = select_courses(&courses, now, now);
    assert_eq!(s.current, vec![0]);
    assert_eq!(s.next, None);
}

#[test]
fn scenario_next_course() {
    let courses = algorithms();
    let now = dt(2020, 9, 8, 8, 0, 0);
    let s = select_courses(&courses, now, now);
    assert!(s.current.is_empty());
    assert_eq!(s.next, Some(0));
    assert_eq!(courses[0].dtstart, Some(dt(2020, 9, 1, 9, 0, 0)));
}

#[test]
fn scenario_after_until() {
    let courses = algorithms();
    let now = dt(2020, 12, 17, 9, 30, 0);
    let s = select_courses(&courses, now, now);
    assert!(s.current.is_empty());
    assert_eq!(s.next, None);
    let early = dt(2020, 12, 16, 8, 0, 0);
    let s = select_for_weekday(&courses, early, early, Weekday::Tue);
    assert!(s.current.is_empty());
    assert_eq!(s.next, None);
}

#[test]
fn scenario_first_day_excluded() {
    let courses = algorithms();
    let now = dt(2020, 9, 1, 9, 30, 0);
    let s = select_courses(&courses, now, now);
    assert!(s.current.is_empty());
}

#[test]
fn other_weekday_matches_nothing() {
    let courses = algorithms();
    let now = dt(2020, 9, 9, 9, 30, 0);
    let s = select_courses(&courses, now, now);
    assert!(s.current.is_empty());
    assert_eq!(s.next, None);
    let s = select_for_weekday(&courses, now, now, Weekday::Thu);
    assert_eq!(s.current, vec![0]);
}

#[test]
fn weekday_taken_from_date() {
    let courses = algorithms();
    let thursday = dt(2020, 9, 10, 10, 0, 0);
    let s = select_courses(&courses, thursday, thursday);
    assert_eq!(s.current, vec![0]);
}

#[test]
fn next_prefers_smaller_delta() {
    let mut props = course_at("Late", 14, 0, "TU");
    props.extend(course_at("Early", 11, 0, "TU"));
    props.extend(course_at("Latest", 16, 0, "TU"));
    let courses = collect_courses(&props).unwrap();
    let now = dt(2020, 9, 8, 10, 0, 0);
    let s = select_courses(&courses, now, now);
    assert_eq!(s.next, Some(1));
}

#[test]
fn next_tie_keeps_first() {
    let mut props = course_at("First", 14, 0, "TU");
    props.extend(course_at("Second", 14, 0, "TU"));
    let courses = collect_courses(&props).unwrap();
    let now = dt(2020, 9, 8, 10, 0, 0);
    let s = select_courses(&courses, now, now);
    assert_eq!(s.next, Some(0));
}

#[test]
fn all_current_courses_reported() {
    let mut props = course_at("A", 9, 0, "TU");
    props.extend(course_at("B", 10, 0, "TU"));
    props.extend(course_at("C", 9, 30, "TU"));
    let courses = collect_courses(&props).unwrap();
    let now = dt(2020, 9, 8, 9, 45, 0);
    let s = select_courses(&courses, now, now);
    assert_eq!(s.current, vec![0, 2]);
    assert_eq!(s.next, Some(1));
}

#[test]
fn empty_schedule_selects_nothing() {
    let now = dt(2020, 9, 8, 9, 45, 0);
    let s = select_courses(&vec![], now, now);
    assert!(s.current.is_empty());
    assert_eq!(s.next, None);
}
