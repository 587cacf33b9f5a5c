use jadwal_shalat::{
    get_prev_next, minute_offset, partition_ranked, sort_jadwal, CalendarDate, JadwalSholat,
    RankError,
};

fn item(name: &str, time: &str) -> JadwalSholat {
    JadwalSholat {
        name: name.to_string(),
        date: time.to_string(),
        distance_from_now: None,
    }
}

fn day() -> CalendarDate {
    CalendarDate {
        year: 2024,
        month: 3,
        day: 15,
    }
}

fn ranked(offset: i64, name: &str, time: &str) -> (i64, String, String) {
    (offset, name.to_string(), time.to_string())
}

const ONE_PM: u32 = 13 * 3600;

#[test]
fn ranks_passed_and_coming_prayers_around_one_pm() {
    let items = vec![item("dawn", "04:40"), item("noon", "12:10"), item("sunset", "18:05")];
    let r = sort_jadwal(&items, day(), ONE_PM).unwrap();
    assert_eq!(r.0, vec![ranked(-500, "dawn", "04:40"), ranked(-50, "noon", "12:10")]);
    assert_eq!(r.1, vec![ranked(305, "sunset", "18:05")]);
    assert_eq!(r.0.last().unwrap().1, "noon");
    assert_eq!(r.1.first().unwrap().1, "sunset");
}

#[test]
fn get_prev_next_gives_the_same_split() {
    let items = vec![item("sunset", "18:05"), item("dawn", "04:40"), item("noon", "12:10")];
    let (prevs, nexts) = get_prev_next(items, day(), ONE_PM).unwrap();
    assert_eq!(prevs, vec![ranked(-500, "dawn", "04:40"), ranked(-50, "noon", "12:10")]);
    assert_eq!(nexts, vec![ranked(305, "sunset", "18:05")]);
}

#[test]
fn an_offset_of_zero_is_still_to_come() {
    let items = vec![item("noon", "12:59"), item("asr", "13:00")];
    let r = sort_jadwal(&items, day(), ONE_PM).unwrap();
    assert_eq!(r.0, vec![ranked(-1, "noon", "12:59")]);
    assert_eq!(r.1, vec![ranked(0, "asr", "13:00")]);
}

#[test]
fn equal_offsets_keep_their_order() {
    let items = vec![item("b", "15:00"), item("a", "15:00"), item("c", "14:00"), item("z", "01:00"), item("y", "01:00")];
    let r = sort_jadwal(&items, day(), ONE_PM).unwrap();
    assert_eq!(r.0, vec![ranked(-720, "z", "01:00"), ranked(-720, "y", "01:00")]);
    assert_eq!(r.1, vec![ranked(60, "c", "14:00"), ranked(120, "b", "15:00"), ranked(120, "a", "15:00")]);
}

#[test]
fn empty_schedule_ranks_to_nothing() {
    let r = sort_jadwal(&Vec::new(), day(), ONE_PM).unwrap();
    assert!(r.0.is_empty());
    assert!(r.1.is_empty());
}

#[test]
fn unreadable_time_is_an_error() {
    let items = vec![item("dawn", "04:40"), item("noon", "")];
    assert_eq!(sort_jadwal(&items, day(), ONE_PM).unwrap_err(), RankError::InvalidTime);
    let items = vec![item("noon", "25:10")];
    assert_eq!(sort_jadwal(&items, day(), ONE_PM).unwrap_err(), RankError::InvalidTime);
}

#[test]
fn nonexistent_day_is_an_error() {
    let items = vec![item("dawn", "04:40")];
    let date = CalendarDate {
        year: 2023,
        month: 2,
        day: 29,
    };
    assert_eq!(sort_jadwal(&items, date, ONE_PM).unwrap_err(), RankError::InvalidDate);
}

#[test]
fn minute_offsets_round_down() {
    assert_eq!(minute_offset(12, 10, ONE_PM), -50);
    assert_eq!(minute_offset(18, 5, ONE_PM), 305);
    assert_eq!(minute_offset(13, 0, ONE_PM + 30), -1);
    assert_eq!(minute_offset(13, 1, ONE_PM + 30), 0);
    assert_eq!(minute_offset(0, 0, 86399), -1440);
    assert_eq!(minute_offset(23, 59, 0), 1439);
}

#[test]
fn partition_sorts_each_side() {
    let input = vec![ranked(5, "a", "x"), ranked(-3, "b", "x"), ranked(0, "c", "x"), ranked(-9, "d", "x"), ranked(2, "e", "x")];
    let r = partition_ranked(input);
    assert_eq!(r.0, vec![ranked(-9, "d", "x"), ranked(-3, "b", "x")]);
    assert_eq!(r.1, vec![ranked(0, "c", "x"), ranked(2, "e", "x"), ranked(5, "a", "x")]);
}

#[test]
fn offsets_stay_within_a_day() {
    let items = vec![item("first", "00:00"), item("last", "23:59")];
    let r = sort_jadwal(&items, day(), 86399).unwrap();
    assert_eq!(r.0, vec![ranked(-1440, "first", "00:00"), ranked(-1, "last", "23:59")]);
    let r = sort_jadwal(&items, day(), 0).unwrap();
    assert_eq!(r.1, vec![ranked(0, "first", "00:00"), ranked(1439, "last", "23:59")]);
}
