use crate::calendar::{date_text, CalendarDate};
use crate::markup::pairs_text;
use crate::region::Daerah;
use crate::text::{decimal, decimal_text, joined, lower_of, lowercase};
use vstd::prelude::*;

verus! {

/// Why the remote source gave no document.
#[derive(Debug, Clone, Copy, PartialEq, Eq, Structural)]
pub enum SourceError {
    /// The request did not get through.
    TransportError,
    /// The answer could not be read.
    ParseError,
}

/// Why a resolution failed.
#[derive(Debug, Clone, Copy, PartialEq, Eq, Structural)]
pub enum ResolveError {
    /// The remote source could not be reached.
    TransportError,
    /// The remote source's answer could not be read.
    ParseError,
    /// The cached document could not be read; it is not repaired.
    MalformedCache,
}

/// What the caller of a resolution must do next.
#[derive(Debug, Clone, Copy, PartialEq, Eq, Structural)]
pub enum Step {
    /// Read the document from the cache.
    ReadCache,
    /// Ask the remote source for the document.
    CallSource,
    /// Write the pending document to the cache.
    WriteCache,
    /// Hand the resolved document on.
    Deliver,
    /// Give up with the resolution's error.
    Abort,
}

/// What came of the step that the caller took.
#[derive(Debug)]
pub enum Outcome<D> {
    /// The cache holds the document.
    CacheHit(D),
    /// The cache holds no document under the key.
    CacheMiss,
    /// The cache holds something that does not read as the document.
    CacheUnreadable,
    /// The remote source gave the document.
    Fetched(D),
    /// The remote source failed.
    FetchFailed(SourceError),
    /// The document was written to the cache.
    Written,
    /// Writing the document to the cache failed.
    WriteFailed,
}

/// A read-through resolution of one document: the cache first, the remote
/// source on a miss, whose answer is then written to the cache.
#[derive(Debug)]
pub enum Resolution<D> {
    /// Waiting for the cache read.
    ReadingCache,
    /// Waiting for the remote source.
    Fetching,
    /// Waiting for the cache write of the fetched document.
    Storing(D),
    /// The document is resolved.
    Resolved(D),
    /// The resolution failed.
    Failed(ResolveError),
}

/// The step that a resolution waits on in each state.
pub open spec fn awaited<D>(s: Resolution<D>) -> Step {
    match s {
        Resolution::ReadingCache => Step::ReadCache,
        Resolution::Fetching => Step::CallSource,
        Resolution::Storing(_) => Step::WriteCache,
        Resolution::Resolved(_) => Step::Deliver,
        Resolution::Failed(_) => Step::Abort,
    }
}

/// The error of a resolution whose remote source failed.
pub open spec fn source_failure(e: SourceError) -> ResolveError {
    match e {
        SourceError::TransportError => ResolveError::TransportError,
        SourceError::ParseError => ResolveError::ParseError,
    }
}

/// The next state of a resolution after an outcome; an outcome that the
/// state does not wait on leaves it as it is.
pub open spec fn next_state<D>(s: Resolution<D>, e: Outcome<D>) -> Resolution<D> {
    match s {
        Resolution::ReadingCache => match e {
            Outcome::CacheHit(d) => Resolution::Resolved(d),
            Outcome::CacheMiss => Resolution::Fetching,
            Outcome::CacheUnreadable => Resolution::Failed(ResolveError::MalformedCache),
            _ => s,
        },
        Resolution::Fetching => match e {
            Outcome::Fetched(d) => Resolution::Storing(d),
            Outcome::FetchFailed(f) => Resolution::Failed(source_failure(f)),
            _ => s,
        },
        Resolution::Storing(d) => match e {
            Outcome::Written => Resolution::Resolved(d),
            Outcome::WriteFailed => Resolution::Resolved(d),
            _ => s,
        },
        _ => s,
    }
}

/// The state and the steps taken after each outcome of `events` in turn.
pub open spec fn run<D>(s: Resolution<D>, events: Seq<Outcome<D>>) -> (Resolution<D>, Seq<Step>)
    decreases events.len(),
{
    if events.len() == 0 {
        (s, Seq::empty())
    } else {
        let t = next_state(s, events[0]);
        let rest = run(t, events.drop_first());
        (rest.0, seq![awaited(t)] + rest.1)
    }
}

impl<D> Resolution<D> {
    /// A new resolution and its first step: read the cache.
    pub fn start() -> (r: (Resolution<D>, Step))
        ensures
            r.0 == Resolution::<D>::ReadingCache,
            r.1 == Step::ReadCache,
    {
        (Resolution::ReadingCache, Step::ReadCache)
    }

    /// Takes the outcome of the last step, giving the next state and the
    /// step the caller must take.
    pub fn advance(self, event: Outcome<D>) -> (r: (Resolution<D>, Step))
        ensures
            r.0 == next_state(self, event),
            r.1 == awaited(r.0),
    {
        let next = match self {
            Resolution::ReadingCache => match event {
                Outcome::CacheHit(d) => Resolution::Resolved(d),
                Outcome::CacheMiss => Resolution::Fetching,
                Outcome::CacheUnreadable => Resolution::Failed(ResolveError::MalformedCache),
                _ => Resolution::ReadingCache,
            },
            Resolution::Fetching => match event {
                Outcome::Fetched(d) => Resolution::Storing(d),
                Outcome::FetchFailed(SourceError::TransportError) => Resolution::Failed(
                    ResolveError::TransportError,
                ),
                Outcome::FetchFailed(SourceError::ParseError) => Resolution::Failed(
                    ResolveError::ParseError,
                ),
                _ => Resolution::Fetching,
            },
            Resolution::Storing(d) => match event {
                Outcome::Written => Resolution::Resolved(d),
                Outcome::WriteFailed => Resolution::Resolved(d),
                _ => Resolution::Storing(d),
            },
            other => other,
        };
        let step = match &next {
            Resolution::ReadingCache => Step::ReadCache,
            Resolution::Fetching => Step::CallSource,
            Resolution::Storing(_) => Step::WriteCache,
            Resolution::Resolved(_) => Step::Deliver,
            Resolution::Failed(_) => Step::Abort,
        };
        (next, step)
    }

    /// The fetched document waiting to be written to the cache.
    pub fn pending(&self) -> (r: Option<&D>)
        ensures
            match *self {
                Resolution::Storing(d) => r matches Some(p) && *p == d,
                _ => r is None,
            },
    {
        match self {
            Resolution::Storing(d) => Some(d),
            _ => None,
        }
    }

    /// The resolved document or the failure; `None` while unfinished.
    pub fn into_result(self) -> (r: Option<Result<D, ResolveError>>)
        ensures
            match self {
                Resolution::Resolved(d) => r == Some(Ok::<D, ResolveError>(d)),
                Resolution::Failed(e) => r == Some(Err::<D, ResolveError>(e)),
                _ => r is None,
            },
    {
        match self {
            Resolution::Resolved(d) => Some(Ok(d)),
            Resolution::Failed(e) => Some(Err(e)),
            _ => None,
        }
    }
}

/// A resolution whose cache holds the document delivers it at once,
/// without calling the remote source or writing the cache. The cache is left
/// as it was, so a second resolution reads and delivers the same document.
pub proof fn lemma_cached_document_resolves_alike<D>(d: D)
    ensures
        run(Resolution::ReadingCache, seq![Outcome::CacheHit(d)]) == (
            Resolution::Resolved(d),
            seq![Step::Deliver],
        ),
        !run(Resolution::ReadingCache, seq![Outcome::CacheHit(d)]).1.contains(Step::CallSource),
        !run(Resolution::ReadingCache, seq![Outcome::CacheHit(d)]).1.contains(Step::WriteCache),
{
    let events = seq![Outcome::CacheHit(d)];
    assert(events.len() == 1 && events[0] == Outcome::CacheHit(d));
    assert(events.drop_first() =~= Seq::<Outcome<D>>::empty());
    let end = run(Resolution::<D>::Resolved(d), Seq::<Outcome<D>>::empty());
    assert(end == (Resolution::<D>::Resolved(d), Seq::<Step>::empty()));
    let steps = run(Resolution::ReadingCache, events).1;
    assert(steps =~= seq![Step::Deliver]);
    assert(steps[0] == Step::Deliver);
}

/// On a cache miss the remote source is called exactly once and its
/// document is written to the cache exactly once, and delivered, whether
/// or not the write succeeds.
pub proof fn lemma_miss_fetches_once_and_stores_once<D>(d: D, written: bool)
    ensures
        ({
            let events = seq![
                Outcome::CacheMiss,
                Outcome::Fetched(d),
                if written {
                    Outcome::Written
                } else {
                    Outcome::WriteFailed
                },
            ];
            &&& run(Resolution::ReadingCache, events) == (
                Resolution::Resolved(d),
                seq![Step::CallSource, Step::WriteCache, Step::Deliver],
            )
            &&& run(Resolution::ReadingCache, events.take(2)).0 == Resolution::Storing(d)
        }),
{
    let put = if written {
        Outcome::Written
    } else {
        Outcome::WriteFailed
    };
    let events = seq![Outcome::CacheMiss, Outcome::Fetched(d), put];
    assert(events.len() == 3);
    assert(events[0] == Outcome::<D>::CacheMiss);
    let e1 = events.drop_first();
    assert(e1 =~= seq![Outcome::Fetched(d), put]);
    assert(e1[0] == Outcome::Fetched(d));
    let e2 = e1.drop_first();
    assert(e2 =~= seq![put]);
    assert(e2[0] == put);
    let e3 = e2.drop_first();
    assert(e3 =~= Seq::<Outcome<D>>::empty());
    let r3 = run(Resolution::<D>::Resolved(d), e3);
    assert(r3 == (Resolution::<D>::Resolved(d), Seq::<Step>::empty()));
    let r2 = run(Resolution::Storing(d), e2);
    assert(r2.1 =~= seq![Step::Deliver]);
    let r1 = run(Resolution::<D>::Fetching, e1);
    assert(r1.1 =~= seq![Step::WriteCache, Step::Deliver]);
    let r0 = run(Resolution::<D>::ReadingCache, events);
    assert(r0.1 =~= seq![Step::CallSource, Step::WriteCache, Step::Deliver]);
    let two = events.take(2);
    assert(two.len() == 2 && two[0] == Outcome::<D>::CacheMiss);
    assert(two.drop_first() =~= seq![Outcome::Fetched(d)]);
    let one = two.drop_first();
    assert(one[0] == Outcome::Fetched(d));
    assert(one.drop_first() =~= Seq::<Outcome<D>>::empty());
    let s1 = run(Resolution::Storing(d), one.drop_first());
    assert(s1.0 == Resolution::Storing(d));
    let s2 = run(Resolution::<D>::Fetching, one);
    assert(s2.0 == Resolution::Storing(d));
}

/// The cache name of the region catalog.
pub fn daerah_cache_name() -> (r: String)
    ensures
        r@ == "bimas-daerah.json"@,
{
    String::from_str("bimas-daerah.json")
}

/// The cache name of a region's month `bulan` (`YYYY-MM`):
/// `<provinsi>-<kabupaten>-<bulan>.json`, with the names lower-cased.
pub fn generate_jadwal_filename(daerah: &Daerah, bulan: &str) -> (r: String)
    ensures
        r@ == lower_of(daerah.provinsi@) + "-"@ + lower_of(daerah.kabupaten@) + "-"@ + bulan@
            + ".json"@,
{
    let provinsi = lowercase(daerah.provinsi.as_str());
    let kabupaten = lowercase(daerah.kabupaten.as_str());
    let a = joined(provinsi.as_str(), "-");
    let b = joined(a.as_str(), kabupaten.as_str());
    let c = joined(b.as_str(), "-");
    let d = joined(c.as_str(), bulan);
    joined(d.as_str(), ".json")
}

/// The cache name of the month of `date` for a region; `None` where the
/// date does not exist.
pub fn month_cache_name(daerah: &Daerah, date: CalendarDate) -> (r: Option<String>)
    ensures
        match date_text(date.year as int, date.month as int, date.day as int, "%Y-%m"@) {
            None => r is None,
            Some(bulan) => r matches Some(n) && n@ == lower_of(daerah.provinsi@) + "-"@
                + lower_of(daerah.kabupaten@) + "-"@ + bulan + ".json"@,
        },
{
    match date.month_label() {
        None => None,
        Some(bulan) => Some(generate_jadwal_filename(daerah, bulan.as_str())),
    }
}

/// The form of the request for a province's regencies.
pub fn daerah_request_form(provinsi_token: &str) -> (r: Vec<(String, String)>)
    ensures
        pairs_text(r@) == seq![("x"@, provinsi_token@)],
{
    let mut form: Vec<(String, String)> = Vec::new();
    form.push((String::from_str("x"), String::from_str(provinsi_token)));
    proof {
        assert(pairs_text(form@) =~= seq![("x"@, provinsi_token@)]);
    }
    form
}

/// The form of the request for one month of a region's schedule: the two
/// tokens, then the month and the year in decimal.
pub fn jadwal_request_form(daerah: &Daerah, date: CalendarDate) -> (r: Vec<(String, String)>)
    ensures
        pairs_text(r@) == seq![
            ("x"@, daerah.provinsi_token@),
            ("y"@, daerah.kabupaten_token@),
            ("bln"@, decimal_text(date.month as int)),
            ("thn"@, decimal_text(date.year as int)),
        ],
{
    let mut form: Vec<(String, String)> = Vec::new();
    form.push((String::from_str("x"), daerah.provinsi_token.clone()));
    form.push((String::from_str("y"), daerah.kabupaten_token.clone()));
    form.push((String::from_str("bln"), decimal(date.month as i128)));
    form.push((String::from_str("thn"), decimal(date.year as i128)));
    proof {
        assert(pairs_text(form@) =~= seq![
            ("x"@, daerah.provinsi_token@),
            ("y"@, daerah.kabupaten_token@),
            ("bln"@, decimal_text(date.month as int)),
            ("thn"@, decimal_text(date.year as int)),
        ]);
    }
    form
}

} // verus!
