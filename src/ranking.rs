use crate::calendar::{date_text, parse_clock, parsed_clock, CalendarDate};
use crate::schedule::JadwalSholat;
use crate::text::joined;
use vstd::prelude::*;

verus! {

/// Signed whole minutes from a reference clock time to an event's clock
/// time, rounded down: `floor((event - reference) / 60 s)`.
pub open spec fn offset_minutes(hour: int, minute: int, now_seconds: int) -> int {
    ((hour * 60 + minute) * 60 - now_seconds) / 60
}

/// Minutes from the reference time of day (seconds since midnight) to the
/// clock time `hour:minute`, rounded down; negative when it has passed.
pub fn minute_offset(hour: u32, minute: u32, now_seconds: u32) -> (r: i64)
    requires
        hour < 24,
        minute < 60,
        now_seconds < 86400,
    ensures
        r == offset_minutes(hour as int, minute as int, now_seconds as int),
        -1440 <= r <= 1439,
{
    let event_minutes: i64 = (hour as i64) * 60 + minute as i64;
    let now_minutes: i64 = (now_seconds / 60) as i64;
    let rest: u32 = now_seconds % 60;
    let r: i64 = if rest == 0 {
        event_minutes - now_minutes
    } else {
        event_minutes - now_minutes - 1
    };
    proof {
        let e = hour as int * 60 + minute as int;
        let q = now_seconds as int / 60;
        let s = now_seconds as int % 60;
        assert(now_seconds as int == q * 60 + s);
        assert((e * 60 - now_seconds as int) == (e - q - 1) * 60 + (60 - s)) by (nonlinear_arith)
            requires now_seconds as int == q * 60 + s;
        if s == 0 {
            assert(e * 60 - now_seconds as int == (e - q) * 60);
            assert((e * 60 - now_seconds as int) / 60 == e - q) by (nonlinear_arith)
                requires e * 60 - now_seconds as int == (e - q) * 60;
        } else {
            assert((e * 60 - now_seconds as int) / 60 == e - q - 1) by (nonlinear_arith)
                requires e * 60 - now_seconds as int == (e - q - 1) * 60 + (60 - s), 0 < s < 60;
        }
    }
    r
}

/// Every offset of `s` is a difference of two times of day in whole
/// minutes, from -1440 to 1439.
pub open spec fn offsets_within_day(s: Seq<Ranked>) -> bool {
    forall|i: int| 0 <= i < s.len() ==> -1440 <= #[trigger] s[i].0 <= 1439
}

/// One ranked prayer time: its signed minute offset from the reference
/// time, its name and its clock time as written in the schedule.
pub type Ranked = (i64, String, String);

/// The ranked times split around the reference time: those already passed
/// (`.0`) and those still to come (`.1`), each ascending by offset.
#[derive(Debug)]
pub struct SortJadwalResult(pub Vec<Ranked>, pub Vec<Ranked>);

/// The elements of `s` whose offset is `k`, in their order in `s`.
pub open spec fn with_offset(s: Seq<Ranked>, k: int) -> Seq<Ranked>
    decreases s.len(),
{
    if s.len() == 0 {
        Seq::empty()
    } else if s.last().0 == k {
        with_offset(s.drop_last(), k).push(s.last())
    } else {
        with_offset(s.drop_last(), k)
    }
}

/// Offsets never decrease along `s`.
pub open spec fn offsets_ascending(s: Seq<Ranked>) -> bool {
    forall|i: int, j: int| 0 <= i < j < s.len() ==> s[i].0 <= s[j].0
}

/// `r` is the part of `s` with a negative offset, ascending by offset, and
/// elements of equal offset keep their order in `s`.
pub open spec fn is_past_of(r: Seq<Ranked>, s: Seq<Ranked>) -> bool {
    &&& offsets_ascending(r)
    &&& forall|i: int| 0 <= i < r.len() ==> #[trigger] r[i].0 < 0
    &&& forall|k: int|
        #[trigger] with_offset(r, k) == if k < 0 {
            with_offset(s, k)
        } else {
            Seq::empty()
        }
}

/// `r` is the part of `s` with an offset of zero or more, ascending by
/// offset, and elements of equal offset keep their order in `s`.
pub open spec fn is_future_of(r: Seq<Ranked>, s: Seq<Ranked>) -> bool {
    &&& offsets_ascending(r)
    &&& forall|i: int| 0 <= i < r.len() ==> #[trigger] r[i].0 >= 0
    &&& forall|k: int|
        #[trigger] with_offset(r, k) == if k >= 0 {
            with_offset(s, k)
        } else {
            Seq::empty()
        }
}

proof fn lemma_with_offset_concat(a: Seq<Ranked>, b: Seq<Ranked>, k: int)
    ensures
        with_offset(a + b, k) == with_offset(a, k) + with_offset(b, k),
    decreases b.len(),
{
    if b.len() == 0 {
        assert(a + b =~= a);
        assert(with_offset(b, k) =~= Seq::<Ranked>::empty());
        assert(with_offset(a, k) + with_offset(b, k) =~= with_offset(a, k));
    } else {
        lemma_with_offset_concat(a, b.drop_last(), k);
        assert((a + b).drop_last() =~= a + b.drop_last());
        assert((a + b).last() == b.last());
        if b.last().0 == k {
            assert(with_offset(a, k) + with_offset(b.drop_last(), k).push(b.last()) =~= (
            with_offset(a, k) + with_offset(b.drop_last(), k)).push(b.last()));
        }
    }
}

proof fn lemma_with_offset_absent(s: Seq<Ranked>, k: int)
    requires
        forall|i: int| 0 <= i < s.len() ==> s[i].0 != k,
    ensures
        with_offset(s, k) == Seq::<Ranked>::empty(),
    decreases s.len(),
{
    if s.len() > 0 {
        lemma_with_offset_absent(s.drop_last(), k);
    }
}

proof fn lemma_with_offset_single(e: Ranked, k: int)
    ensures
        with_offset(seq![e], k) == if e.0 == k {
            seq![e]
        } else {
            Seq::<Ranked>::empty()
        },
{
    assert(seq![e].drop_last() =~= Seq::<Ranked>::empty());
    assert(seq![e].last() == e);
    assert(with_offset(seq![e].drop_last(), k) =~= Seq::<Ranked>::empty());
    if e.0 == k {
        assert(Seq::<Ranked>::empty().push(e) =~= seq![e]);
    }
}

proof fn lemma_with_offset_contains(s: Seq<Ranked>, k: int, x: Ranked)
    ensures
        with_offset(s, k).contains(x) <==> (s.contains(x) && x.0 == k),
    decreases s.len(),
{
    if s.len() > 0 {
        let front = s.drop_last();
        lemma_with_offset_contains(front, k, x);
        assert(s =~= front.push(s.last()));
        if s.contains(x) && x != s.last() {
            let j = choose|j: int| 0 <= j < s.len() && s[j] == x;
            assert(j < front.len());
            assert(front[j] == x);
        }
        if front.contains(x) {
            let j = choose|j: int| 0 <= j < front.len() && front[j] == x;
            assert(s[j] == x);
        }
        if s.last().0 == k {
            let w = with_offset(front, k);
            assert(w.push(s.last())[w.len() as int] == s.last());
            if w.contains(x) {
                let j = choose|j: int| 0 <= j < w.len() && w[j] == x;
                assert(w.push(s.last())[j] == x);
            }
            if w.push(s.last()).contains(x) && x != s.last() {
                let j = choose|j: int| 0 <= j < w.len() + 1 && w.push(s.last())[j] == x;
                assert(w[j] == x);
            }
        }
    }
}

/// Inserting `e` behind every element of offset at most its own keeps the
/// order ascending and appends `e` to the elements of its offset.
proof fn lemma_insert_by_offset(out: Seq<Ranked>, p: int, e: Ranked)
    requires
        offsets_ascending(out),
        0 <= p <= out.len(),
        forall|i: int| 0 <= i < p ==> out[i].0 <= e.0,
        forall|i: int| p <= i < out.len() ==> out[i].0 > e.0,
    ensures
        offsets_ascending(out.insert(p, e)),
        forall|k: int|
            #[trigger] with_offset(out.insert(p, e), k) == with_offset(out, k) + if e.0 == k {
                seq![e]
            } else {
                Seq::<Ranked>::empty()
            },
{
    let ins = out.insert(p, e);
    let front = out.subrange(0, p);
    let back = out.subrange(p, out.len() as int);
    assert(out =~= front + back);
    assert(ins =~= front + seq![e] + back);
    assert forall|k: int|
        #[trigger] with_offset(ins, k) == with_offset(out, k) + if e.0 == k {
            seq![e]
        } else {
            Seq::<Ranked>::empty()
        } by {
        lemma_with_offset_concat(front + seq![e], back, k);
        lemma_with_offset_concat(front, seq![e], k);
        lemma_with_offset_concat(front, back, k);
        lemma_with_offset_single(e, k);
        if e.0 == k {
            lemma_with_offset_absent(back, k);
            assert(with_offset(front, k) + seq![e] + Seq::<Ranked>::empty() =~= with_offset(front, k)
                + Seq::<Ranked>::empty() + seq![e]);
        } else {
            assert(with_offset(front, k) + Seq::<Ranked>::empty() + with_offset(back, k) =~= with_offset(
                front,
                k,
            ) + with_offset(back, k) + Seq::<Ranked>::empty());
        }
    }
}

/// Inserts `e` after every element whose offset is at most `e`'s.
fn insert_by_offset(out: &mut Vec<Ranked>, e: Ranked)
    requires
        offsets_ascending(old(out)@),
    ensures
        offsets_ascending(final(out)@),
        exists|p: int| 0 <= p <= old(out)@.len() && final(out)@ == old(out)@.insert(p, e),
        forall|k: int|
            #[trigger] with_offset(final(out)@, k) == with_offset(old(out)@, k) + if e.0 == k {
                seq![e]
            } else {
                Seq::<Ranked>::empty()
            },
{
    let mut p: usize = out.len();
    while p > 0 && out[p - 1].0 > e.0
        invariant
            p <= out.len(),
            offsets_ascending(out@),
            forall|i: int| p <= i < out.len() ==> out[i].0 > e.0,
        decreases p,
    {
        p = p - 1;
    }
    proof {
        assert forall|i: int| 0 <= i < p implies out@[i].0 <= e.0 by {
            if i < p - 1 {
                assert(out@[i].0 <= out@[p - 1].0);
            }
        }
        lemma_insert_by_offset(out@, p as int, e);
    }
    out.insert(p, e);
}

/// Splits ranked times into those already passed (negative offset) and
/// those to come (offset zero or more), each sorted ascending by offset;
/// times of equal offset keep their given order.
pub fn partition_ranked(ranked: Vec<Ranked>) -> (r: SortJadwalResult)
    ensures
        is_past_of(r.0@, ranked@),
        is_future_of(r.1@, ranked@),
{
    let ghost all = ranked@;
    let mut rest = ranked;
    let mut prevs: Vec<Ranked> = Vec::new();
    let mut nexts: Vec<Ranked> = Vec::new();
    while rest.len() > 0
        invariant
            rest.len() <= all.len(),
            rest@ == all.subrange(all.len() - rest.len(), all.len() as int),
            is_past_of(prevs@, all.take(all.len() - rest.len())),
            is_future_of(nexts@, all.take(all.len() - rest.len())),
        decreases rest.len(),
    {
        let ghost i = all.len() - rest.len();
        let ghost old_prevs = prevs@;
        let ghost old_nexts = nexts@;
        let e = rest.remove(0);
        proof {
            assert(e == all[i]);
            assert(all.take(i + 1).drop_last() =~= all.take(i));
            assert(all.take(i + 1).last() == e);
            assert(rest@ =~= all.subrange(i + 1, all.len() as int));
        }
        if e.0 >= 0 {
            insert_by_offset(&mut nexts, e);
            proof {
                let p = choose|p: int| 0 <= p <= old_nexts.len() && nexts@ == old_nexts.insert(p, e);
                assert forall|j: int| 0 <= j < nexts@.len() implies #[trigger] nexts@[j].0 >= 0 by {
                    if j > p {
                        assert(nexts@[j] == old_nexts[j - 1]);
                    } else if j < p {
                        assert(nexts@[j] == old_nexts[j]);
                    }
                }
            }
        } else {
            insert_by_offset(&mut prevs, e);
            proof {
                let p = choose|p: int| 0 <= p <= old_prevs.len() && prevs@ == old_prevs.insert(p, e);
                assert forall|j: int| 0 <= j < prevs@.len() implies #[trigger] prevs@[j].0 < 0 by {
                    if j > p {
                        assert(prevs@[j] == old_prevs[j - 1]);
                    } else if j < p {
                        assert(prevs@[j] == old_prevs[j]);
                    }
                }
            }
        }
        proof {
            let t = all.take(i + 1);
            assert forall|k: int| #[trigger] with_offset(t, k) == with_offset(all.take(i), k) + if e.0 == k {
                seq![e]
            } else {
                Seq::<Ranked>::empty()
            } by {
                if e.0 != k {
                    assert(with_offset(all.take(i), k) + Seq::<Ranked>::empty() =~= with_offset(all.take(i), k));
                }
            }
            assert forall|k: int| #[trigger] with_offset(prevs@, k) == if k < 0 {
                with_offset(t, k)
            } else {
                Seq::<Ranked>::empty()
            } by {
                assert(with_offset(old_prevs, k) == if k < 0 {
                    with_offset(all.take(i), k)
                } else {
                    Seq::<Ranked>::empty()
                });
                if e.0 >= 0 && e.0 == k {
                    assert(Seq::<Ranked>::empty() + Seq::<Ranked>::empty() =~= Seq::<Ranked>::empty());
                }
                if e.0 != k {
                    assert(with_offset(old_prevs, k) + Seq::<Ranked>::empty() =~= with_offset(old_prevs, k));
                    assert(with_offset(all.take(i), k) + Seq::<Ranked>::empty() =~= with_offset(all.take(i), k));
                }
            }
            assert forall|k: int| #[trigger] with_offset(nexts@, k) == if k >= 0 {
                with_offset(t, k)
            } else {
                Seq::<Ranked>::empty()
            } by {
                assert(with_offset(old_nexts, k) == if k >= 0 {
                    with_offset(all.take(i), k)
                } else {
                    Seq::<Ranked>::empty()
                });
                if e.0 < 0 && e.0 == k {
                    assert(Seq::<Ranked>::empty() + Seq::<Ranked>::empty() =~= Seq::<Ranked>::empty());
                }
                if e.0 != k {
                    assert(with_offset(old_nexts, k) + Seq::<Ranked>::empty() =~= with_offset(old_nexts, k));
                    assert(with_offset(all.take(i), k) + Seq::<Ranked>::empty() =~= with_offset(all.take(i), k));
                }
            }
        }
    }
    proof {
        assert(all.take(all.len() as int) =~= all);
    }
    SortJadwalResult(prevs, nexts)
}


/// A prayer time whose offset is exactly zero is among those to come and
/// never among those passed.
pub proof fn lemma_zero_offset_is_to_come(
    ranked: Seq<Ranked>,
    past: Seq<Ranked>,
    future: Seq<Ranked>,
    i: int,
)
    requires
        is_past_of(past, ranked),
        is_future_of(future, ranked),
        0 <= i < ranked.len(),
        ranked[i].0 == 0,
    ensures
        future.contains(ranked[i]),
        !past.contains(ranked[i]),
{
    let x = ranked[i];
    assert(ranked.contains(x));
    lemma_with_offset_contains(ranked, 0, x);
    assert(with_offset(future, 0) == with_offset(ranked, 0));
    lemma_with_offset_contains(future, 0, x);
    if past.contains(x) {
        let j = choose|j: int| 0 <= j < past.len() && past[j] == x;
        assert(past[j].0 < 0);
    }
}

/// The passed and the coming parts of a ranking hold only ranked times, so
/// their offsets lie within a day where those of the ranking do.
proof fn lemma_split_within_day(ranked: Seq<Ranked>, past: Seq<Ranked>, future: Seq<Ranked>)
    requires
        is_past_of(past, ranked),
        is_future_of(future, ranked),
        offsets_within_day(ranked),
    ensures
        offsets_within_day(past),
        offsets_within_day(future),
{
    assert forall|i: int| 0 <= i < past.len() implies -1440 <= #[trigger] past[i].0 <= 1439 by {
        let x = past[i];
        assert(past.contains(x));
        lemma_with_offset_contains(past, x.0 as int, x);
        lemma_with_offset_contains(ranked, x.0 as int, x);
        let j = choose|j: int| 0 <= j < ranked.len() && ranked[j] == x;
        assert(-1440 <= ranked[j].0 <= 1439);
    }
    assert forall|i: int| 0 <= i < future.len() implies -1440 <= #[trigger] future[i].0 <= 1439 by {
        let x = future[i];
        assert(future.contains(x));
        lemma_with_offset_contains(future, x.0 as int, x);
        lemma_with_offset_contains(ranked, x.0 as int, x);
        let j = choose|j: int| 0 <= j < ranked.len() && ranked[j] == x;
        assert(-1440 <= ranked[j].0 <= 1439);
    }
}

/// Why a day's prayer times could not be ranked.
#[derive(Debug, Clone, Copy, PartialEq, Eq, Structural)]
pub enum RankError {
    /// The day does not exist.
    InvalidDate,
    /// A prayer time does not read as `HH:MM`.
    InvalidTime,
}

/// The strftime pattern in which a day and a clock time are read together.
pub open spec fn stamp_pattern() -> Seq<char> {
    "%Y-%m-%d %H:%M"@
}

/// The text that a prayer time is read from: the day's label, a space and
/// the clock time.
pub open spec fn stamp_text(label: Seq<char>, time: Seq<char>) -> Seq<char> {
    label + " "@ + time
}

/// Every prayer time of `items` reads on the day labelled `label`.
pub open spec fn all_read(items: Seq<JadwalSholat>, label: Seq<char>) -> bool {
    forall|i: int|
        0 <= i < items.len() ==> (#[trigger] parsed_clock(
            stamp_text(label, items[i].date@),
            stamp_pattern(),
        )) is Some
}

/// A prayer time with its offset from the reference time `now_seconds`.
pub open spec fn ranked_of(item: JadwalSholat, label: Seq<char>, now_seconds: int) -> Ranked {
    let c = parsed_clock(stamp_text(label, item.date@), stamp_pattern())->Some_0;
    (offset_minutes(c.0 as int, c.1 as int, now_seconds) as i64, item.name, item.date)
}

/// Each prayer time with its offset, in the given order.
pub open spec fn ranked_items(items: Seq<JadwalSholat>, label: Seq<char>, now_seconds: int) -> Seq<
    Ranked,
> {
    items.map_values(|item: JadwalSholat| ranked_of(item, label, now_seconds))
}

/// The prayer times of `date` with their offsets, or why they have none.
pub open spec fn ranking_input(items: Seq<JadwalSholat>, date: CalendarDate, now_seconds: int) -> Result<
    Seq<Ranked>,
    RankError,
> {
    match date_text(date.year as int, date.month as int, date.day as int, "%Y-%m-%d"@) {
        None => Err(RankError::InvalidDate),
        Some(label) => if all_read(items, label) {
            Ok(ranked_items(items, label, now_seconds))
        } else {
            Err(RankError::InvalidTime)
        },
    }
}

/// Gives each prayer time its offset from the reference time of day
/// (seconds since midnight); `None` where a clock time does not read on the
/// day labelled `label`.
pub fn rank_items(items: &Vec<JadwalSholat>, label: &str, now_seconds: u32) -> (r: Option<
    Vec<Ranked>,
>)
    requires
        now_seconds < 86400,
    ensures
        r is Some <==> all_read(items@, label@),
        r matches Some(v) ==> v@ == ranked_items(items@, label@, now_seconds as int),
        r matches Some(v) ==> offsets_within_day(v@),
{
    let prefix = joined(label, " ");
    let mut out: Vec<Ranked> = Vec::new();
    let mut i: usize = 0;
    while i < items.len()
        invariant
            i <= items.len(),
            now_seconds < 86400,
            prefix@ == label@ + " "@,
            all_read(items@.take(i as int), label@),
            out@ == ranked_items(items@.take(i as int), label@, now_seconds as int),
            offsets_within_day(out@),
        decreases items.len() - i,
    {
        let item = &items[i];
        let text = joined(prefix.as_str(), item.date.as_str());
        match parse_clock(text.as_str(), "%Y-%m-%d %H:%M") {
            None => {
                proof {
                    assert(text@ == stamp_text(label@, items@[i as int].date@));
                    assert(parsed_clock(stamp_text(label@, items@[i as int].date@), stamp_pattern())
                        is None);
                }
                return None;
            },
            Some(c) => {
                let offset = minute_offset(c.0, c.1, now_seconds);
                out.push((offset, item.name.clone(), item.date.clone()));
                proof {
                    let t = items@.take(i + 1);
                    assert(t =~= items@.take(i as int).push(items@[i as int]));
                    assert forall|j: int| 0 <= j < t.len() implies (#[trigger] parsed_clock(
                        stamp_text(label@, t[j].date@),
                        stamp_pattern(),
                    )) is Some by {
                        if j < i {
                            assert(t[j] == items@.take(i as int)[j]);
                        }
                    }
                    assert(out@ =~= ranked_items(t, label@, now_seconds as int));
                }
            },
        }
        i = i + 1;
    }
    proof {
        assert(items@.take(items.len() as int) =~= items@);
    }
    Some(out)
}

/// Ranks a day's prayer times around the reference time of day
/// (`now_seconds`, seconds since midnight): only clock times are compared,
/// the day serves to read them. Passed times come first, then those to
/// come, each ascending by offset; an offset of zero counts as to come.
pub fn sort_jadwal(items: &Vec<JadwalSholat>, date: CalendarDate, now_seconds: u32) -> (r: Result<
    SortJadwalResult,
    RankError,
>)
    requires
        now_seconds < 86400,
    ensures
        match ranking_input(items@, date, now_seconds as int) {
            Err(e) => r == Err::<SortJadwalResult, RankError>(e),
            Ok(ranked) => {
                &&& r matches Ok(res) && is_past_of(res.0@, ranked) && is_future_of(res.1@, ranked)
                &&& offsets_within_day(ranked)
            },
        },
        r matches Ok(res) ==> offsets_within_day(res.0@) && offsets_within_day(res.1@),
{
    let label = match date.day_label() {
        None => {
            return Err(RankError::InvalidDate);
        },
        Some(l) => l,
    };
    match rank_items(items, label.as_str(), now_seconds) {
        None => Err(RankError::InvalidTime),
        Some(ranked) => {
            let res = partition_ranked(ranked);
            proof {
                lemma_split_within_day(ranked@, res.0@, res.1@);
            }
            Ok(res)
        },
    }
}

/// As `sort_jadwal`, for owned prayer times, giving the passed and the
/// coming times as a pair.
pub fn get_prev_next(items: Vec<JadwalSholat>, date: CalendarDate, now_seconds: u32) -> (r: Result<
    (Vec<Ranked>, Vec<Ranked>),
    RankError,
>)
    requires
        now_seconds < 86400,
    ensures
        match ranking_input(items@, date, now_seconds as int) {
            Err(e) => r == Err::<(Vec<Ranked>, Vec<Ranked>), RankError>(e),
            Ok(ranked) => {
                &&& r matches Ok(res) && is_past_of(res.0@, ranked) && is_future_of(res.1@, ranked)
                &&& offsets_within_day(ranked)
            },
        },
        r matches Ok(res) ==> offsets_within_day(res.0@) && offsets_within_day(res.1@),
{
    match sort_jadwal(&items, date, now_seconds) {
        Err(e) => Err(e),
        Ok(SortJadwalResult(prevs, nexts)) => Ok((prevs, nexts)),
    }
}

} // verus!
