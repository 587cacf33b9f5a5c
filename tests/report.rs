use jadwal_shalat::{all_day_lines, coming_text, passed_text, summary_text, SortJadwalResult};

fn ranked(offset: i64, name: &str, time: &str) -> (i64, String, String) {
    (offset, name.to_string(), time.to_string())
}

fn day() -> SortJadwalResult {
    SortJadwalResult(
        vec![ranked(-500, "dawn", "04:40"), ranked(-50, "noon", "12:10")],
        vec![ranked(305, "sunset", "18:05"), ranked(390, "isya", "19:30")],
    )
}

#[test]
fn nearest_times_are_last_passed_and_first_coming() {
    let r = day();
    assert_eq!(r.nearest_past(), Some(&ranked(-50, "noon", "12:10")));
    assert_eq!(r.nearest_future(), Some(&ranked(305, "sunset", "18:05")));
    let empty = SortJadwalResult(Vec::new(), Vec::new());
    assert_eq!(empty.nearest_past(), None);
    assert_eq!(empty.nearest_future(), None);
}

#[test]
fn distance_lines_show_minutes() {
    assert_eq!(passed_text(&ranked(-50, "noon", "12:10")), "noon 12:10 <- 50 minutes ago");
    assert_eq!(coming_text(&ranked(305, "sunset", "18:05")), "sunset 18:05 -> in 305 minutes");
    assert_eq!(coming_text(&ranked(0, "asr", "13:00")), "asr 13:00 -> in 0 minutes");
}

#[test]
fn summary_names_nearest_passed_and_coming() {
    assert_eq!(summary_text(&day()), "noon 12:10 <- 50 minutes ago sunset 18:05 -> in 305 minutes");
    let only_future = SortJadwalResult(Vec::new(), vec![ranked(10, "dawn", "04:40")]);
    assert_eq!(summary_text(&only_future), " dawn 04:40 -> in 10 minutes");
}

#[test]
fn all_day_listing_marks_the_nearest_times() {
    assert_eq!(
        all_day_lines(&day()),
        vec![
            "dawn 04:40".to_string(),
            "noon 12:10 <- 50 minutes ago".to_string(),
            "sunset 18:05 -> in 305 minutes".to_string(),
            "isya 19:30".to_string(),
        ]
    );
    assert!(all_day_lines(&SortJadwalResult(Vec::new(), Vec::new())).is_empty());
}
