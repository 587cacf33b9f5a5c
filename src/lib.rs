//! Prayer-time schedules for Indonesian regions: region catalogs, monthly
//! schedules resolved through a read-through cache, and the ranking of a
//! day's prayer times around a reference clock time.

pub mod calendar;
pub mod markup;
pub mod ranking;
pub mod region;
pub mod report;
pub mod resolve;
pub mod schedule;
pub mod text;

pub use calendar::CalendarDate;
pub use ranking::{
    get_prev_next, minute_offset, partition_ranked, rank_items, sort_jadwal, RankError, Ranked,
    SortJadwalResult,
};
pub use schedule::{
    day_of, extract_day, jadwal_of_record, DayEntry, FieldValue, Jadwal, JadwalSholat, ScheduleError,
    ScheduleMonth,
};
pub use region::{
    build_daerah, find_daerah, lookup_daerah, province_options, regencies_of, region_line, Daerah,
};
pub use resolve::{
    daerah_cache_name, daerah_request_form, generate_jadwal_filename, jadwal_request_form,
    month_cache_name, Outcome, Resolution, ResolveError, SourceError, Step,
};
pub use report::{all_day_lines, coming_text, passed_text, summary_text};
