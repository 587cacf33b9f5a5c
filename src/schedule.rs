use crate::calendar::{date_text, text_of, CalendarDate};
use vstd::prelude::*;

verus! {

/// The value of one field of a day's record in a month document.
#[derive(Debug)]
pub enum FieldValue {
    /// A text value, such as a clock time `HH:MM`.
    Text(String),
    /// A value of any other kind.
    NonText,
}

/// What a month document holds under one day's key.
#[derive(Debug)]
pub enum DayEntry {
    /// An explicit null: no schedule for that day.
    Null,
    /// A record of named fields, in the document's order.
    Record(Vec<(String, FieldValue)>),
    /// A value that is not a record.
    NotRecord,
}

/// One month of schedules for one region, as stored in the cache: each day
/// key (`YYYY-MM-DD`) with what the document holds under it.
#[derive(Debug)]
pub struct ScheduleMonth {
    pub days: Vec<(String, DayEntry)>,
}

/// One named prayer time of a day: its name and its clock time `HH:MM`.
#[derive(Debug)]
pub struct JadwalSholat {
    pub name: String,
    pub date: String,
    pub distance_from_now: Option<i64>,
}

/// One day's schedule: the source's date label and the day's prayer times.
#[derive(Debug)]
pub struct Jadwal {
    pub tanggal: String,
    pub items: Vec<JadwalSholat>,
}

/// Why no schedule could be taken out of a month document.
#[derive(Debug, Clone, Copy, PartialEq, Eq, Structural)]
pub enum ScheduleError {
    /// The requested date does not exist.
    InvalidDate,
    /// The document holds nothing, or null, for the day.
    NoScheduleForDate,
    /// The document holds something other than a record for the day.
    MalformedSchedule,
}

/// The name of the field that holds a day's date label.
pub open spec fn label_field() -> Seq<char> {
    "tanggal"@
}

/// The entry stored under `key`: the first one whose key matches.
pub open spec fn entry_for(days: Seq<(String, DayEntry)>, key: Seq<char>) -> Option<DayEntry>
    decreases days.len(),
{
    if days.len() == 0 {
        None
    } else if days[0].0@ == key {
        Some(days[0].1)
    } else {
        entry_for(days.drop_first(), key)
    }
}

/// A field's value as a clock time: its text, or empty for a non-text value.
pub open spec fn field_text(v: FieldValue) -> Seq<char> {
    match v {
        FieldValue::Text(s) => s@,
        FieldValue::NonText => Seq::empty(),
    }
}

/// The prayer times of a day's record: every field but the date label, as
/// (name, clock time), in the record's order.
pub open spec fn day_events(fields: Seq<(String, FieldValue)>) -> Seq<(Seq<char>, Seq<char>)>
    decreases fields.len(),
{
    if fields.len() == 0 {
        Seq::empty()
    } else if fields.last().0@ == label_field() {
        day_events(fields.drop_last())
    } else {
        day_events(fields.drop_last()).push((fields.last().0@, field_text(fields.last().1)))
    }
}

/// The text of the first date-label field of a record, if there is one.
pub open spec fn first_label(fields: Seq<(String, FieldValue)>) -> Option<Seq<char>>
    decreases fields.len(),
{
    if fields.len() == 0 {
        None
    } else if first_label(fields.drop_last()) is Some {
        first_label(fields.drop_last())
    } else if fields.last().0@ == label_field() {
        Some(field_text(fields.last().1))
    } else {
        None
    }
}

/// A record's date label: the first date-label field's text, else empty.
pub open spec fn day_label_text(fields: Seq<(String, FieldValue)>) -> Seq<char> {
    match first_label(fields) {
        Some(t) => t,
        None => Seq::empty(),
    }
}

/// `items` are the prayer times `events`, one for one, with no distance.
pub open spec fn items_match(items: Seq<JadwalSholat>, events: Seq<(Seq<char>, Seq<char>)>) -> bool {
    &&& items.len() == events.len()
    &&& forall|i: int|
        0 <= i < items.len() ==> {
            &&& #[trigger] items[i].name@ == events[i].0
            &&& items[i].date@ == events[i].1
            &&& items[i].distance_from_now is None
        }
}

/// What `extract_day` gives for the entry found under a key.
pub open spec fn day_result_ok(r: Result<Jadwal, ScheduleError>, entry: Option<DayEntry>) -> bool {
    match entry {
        None => r == Err::<Jadwal, ScheduleError>(ScheduleError::NoScheduleForDate),
        Some(DayEntry::Null) => r == Err::<Jadwal, ScheduleError>(ScheduleError::NoScheduleForDate),
        Some(DayEntry::NotRecord) => r == Err::<Jadwal, ScheduleError>(
            ScheduleError::MalformedSchedule,
        ),
        Some(DayEntry::Record(fields)) => match r {
            Ok(j) => j.tanggal@ == day_label_text(fields@) && items_match(
                j.items@,
                day_events(fields@),
            ),
            Err(_) => false,
        },
    }
}

fn field_time(v: &FieldValue) -> (r: String)
    ensures
        r@ == field_text(*v),
{
    match v {
        FieldValue::Text(s) => s.clone(),
        FieldValue::NonText => String::new(),
    }
}

/// Builds a day's schedule from its record: every field but the date label
/// becomes a prayer time, a non-text value giving an empty clock time.
pub fn jadwal_of_record(fields: &Vec<(String, FieldValue)>) -> (r: Jadwal)
    ensures
        r.tanggal@ == day_label_text(fields@),
        items_match(r.items@, day_events(fields@)),
{
    let label_key = String::from_str("tanggal");
    let mut items: Vec<JadwalSholat> = Vec::new();
    let mut label: Option<String> = None;
    let mut i: usize = 0;
    while i < fields.len()
        invariant
            i <= fields.len(),
            label_key@ == label_field(),
            items_match(items@, day_events(fields@.take(i as int))),
            text_of(label) == first_label(fields@.take(i as int)),
        decreases fields.len() - i,
    {
        let ghost before = fields@.take(i as int);
        proof {
            assert(fields@.take(i + 1).drop_last() =~= before);
            assert(fields@.take(i + 1).last() == fields@[i as int]);
        }
        let field = &fields[i];
        if field.0 == label_key {
            assert(day_events(fields@.take(i + 1)) == day_events(before));
            if label.is_none() {
                label = Some(field_time(&field.1));
            }
        } else {
            let ghost old_items = items@;
            items.push(JadwalSholat { name: field.0.clone(), date: field_time(&field.1), distance_from_now: None });
            proof {
                let ev = day_events(fields@.take(i + 1));
                assert(ev == day_events(before).push((fields@[i as int].0@, field_text(fields@[i as int].1))));
                assert forall|j: int| 0 <= j < items@.len() implies {
                    &&& #[trigger] items@[j].name@ == ev[j].0
                    &&& items@[j].date@ == ev[j].1
                    &&& items@[j].distance_from_now is None
                } by {
                    if j < old_items.len() {
                        assert(items@[j] == old_items[j]);
                        assert(old_items[j].name@ == day_events(before)[j].0);
                        assert(ev[j] == day_events(before)[j]);
                    } else {
                        assert(j == old_items.len());
                        assert(ev[j] == (fields@[i as int].0@, field_text(fields@[i as int].1)));
                    }
                }
            }
        }
        i = i + 1;
    }
    proof {
        assert(fields@.take(fields.len() as int) =~= fields@);
    }
    let tanggal = match label {
        Some(t) => t,
        None => String::new(),
    };
    Jadwal { tanggal, items }
}

/// Takes the schedule of the day stored under `key` out of a month
/// document: absent or null is `NoScheduleForDate`, a value that is not a
/// record is `MalformedSchedule`.
pub fn extract_day(month: &ScheduleMonth, key: &str) -> (r: Result<Jadwal, ScheduleError>)
    ensures
        day_result_ok(r, entry_for(month.days@, key@)),
{
    let key_text = String::from_str(key);
    let mut i: usize = 0;
    proof {
        assert(month.days@.subrange(0, month.days.len() as int) =~= month.days@);
    }
    while i < month.days.len()
        invariant
            i <= month.days.len(),
            key_text@ == key@,
            entry_for(month.days@, key@) == entry_for(month.days@.subrange(i as int, month.days.len() as int), key@),
        decreases month.days.len() - i,
    {
        let ghost rest = month.days@.subrange(i as int, month.days.len() as int);
        proof {
            assert(rest.drop_first() =~= month.days@.subrange(i + 1, month.days.len() as int));
            assert(rest[0] == month.days@[i as int]);
        }
        if month.days[i].0 == key_text {
            return match &month.days[i].1 {
                DayEntry::Null => Err(ScheduleError::NoScheduleForDate),
                DayEntry::NotRecord => Err(ScheduleError::MalformedSchedule),
                DayEntry::Record(fields) => Ok(jadwal_of_record(fields)),
            };
        }
        i = i + 1;
    }
    Err(ScheduleError::NoScheduleForDate)
}

/// Takes the schedule of `date` out of a month document.
pub fn day_of(month: &ScheduleMonth, date: &CalendarDate) -> (r: Result<Jadwal, ScheduleError>)
    ensures
        match date_text(date.year as int, date.month as int, date.day as int, "%Y-%m-%d"@) {
            None => r == Err::<Jadwal, ScheduleError>(ScheduleError::InvalidDate),
            Some(key) => day_result_ok(r, entry_for(month.days@, key)),
        },
{
    match date.day_label() {
        None => Err(ScheduleError::InvalidDate),
        Some(key) => extract_day(month, key.as_str()),
    }
}

} // verus!
