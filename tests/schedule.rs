use jadwal_shalat::{
    day_of, extract_day, CalendarDate, DayEntry, FieldValue, ScheduleError, ScheduleMonth,
};

fn text(s: &str) -> FieldValue {
    FieldValue::Text(s.to_string())
}

fn record(fields: Vec<(&str, FieldValue)>) -> DayEntry {
    DayEntry::Record(fields.into_iter().map(|(k, v)| (k.to_string(), v)).collect())
}

fn month() -> ScheduleMonth {
    ScheduleMonth {
        days: vec![
            (
                "2024-03-15".to_string(),
                record(vec![("tanggal", text("2024-03-15")), ("dawn", text("04:40")), ("noon", text("12:10"))]),
            ),
            ("2024-03-16".to_string(), DayEntry::Null),
            ("2024-03-17".to_string(), DayEntry::NotRecord),
            (
                "2024-03-18".to_string(),
                record(vec![("dawn", text("04:41")), ("tanggal", text("Senin, 18/03/2024")), ("noon", FieldValue::NonText)]),
            ),
        ],
    }
}

#[test]
fn day_record_gives_its_prayer_times_without_the_label() {
    let j = extract_day(&month(), "2024-03-15").unwrap();
    assert_eq!(j.tanggal, "2024-03-15");
    assert_eq!(j.items.len(), 2);
    assert_eq!((j.items[0].name.as_str(), j.items[0].date.as_str()), ("dawn", "04:40"));
    assert_eq!((j.items[1].name.as_str(), j.items[1].date.as_str()), ("noon", "12:10"));
    assert!(j.items.iter().all(|i| i.distance_from_now.is_none()));
}

#[test]
fn non_text_time_becomes_empty() {
    let j = extract_day(&month(), "2024-03-18").unwrap();
    assert_eq!(j.tanggal, "Senin, 18/03/2024");
    assert_eq!(j.items.len(), 2);
    assert_eq!((j.items[0].name.as_str(), j.items[0].date.as_str()), ("dawn", "04:41"));
    assert_eq!((j.items[1].name.as_str(), j.items[1].date.as_str()), ("noon", ""));
}

#[test]
fn null_or_absent_day_has_no_schedule() {
    assert_eq!(extract_day(&month(), "2024-03-16").unwrap_err(), ScheduleError::NoScheduleForDate);
    assert_eq!(extract_day(&month(), "2024-03-20").unwrap_err(), ScheduleError::NoScheduleForDate);
    let empty = ScheduleMonth { days: Vec::new() };
    assert_eq!(extract_day(&empty, "2024-03-15").unwrap_err(), ScheduleError::NoScheduleForDate);
}

#[test]
fn day_that_is_not_a_record_is_malformed() {
    assert_eq!(extract_day(&month(), "2024-03-17").unwrap_err(), ScheduleError::MalformedSchedule);
}

#[test]
fn day_of_finds_the_date_key() {
    let date = CalendarDate {
        year: 2024,
        month: 3,
        day: 15,
    };
    let j = day_of(&month(), &date).unwrap();
    assert_eq!(j.tanggal, "2024-03-15");
    assert_eq!(j.items.len(), 2);
    assert_eq!(date.day_label().unwrap(), "2024-03-15");
    assert_eq!(date.month_label().unwrap(), "2024-03");
}

#[test]
fn day_of_rejects_a_nonexistent_date() {
    let date = CalendarDate {
        year: 2024,
        month: 13,
        day: 1,
    };
    assert_eq!(day_of(&month(), &date).unwrap_err(), ScheduleError::InvalidDate);
    assert!(date.day_label().is_none());
}

#[test]
fn record_without_label_gives_empty_label() {
    let m = ScheduleMonth {
        days: vec![("2024-03-15".to_string(), record(vec![("isya", text("19:15"))]))],
    };
    let j = extract_day(&m, "2024-03-15").unwrap();
    assert_eq!(j.tanggal, "");
    assert_eq!(j.items.len(), 1);
}
