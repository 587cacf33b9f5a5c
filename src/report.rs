use crate::ranking::{Ranked, SortJadwalResult};
use crate::text::{decimal, decimal_text, joined};
use vstd::prelude::*;

verus! {

/// A prayer time as `<name> <time>`.
pub open spec fn plain_line(r: Ranked) -> Seq<char> {
    r.1@ + " "@ + r.2@
}

/// The most recently passed prayer time: `<name> <time> <- <n> minutes ago`.
pub open spec fn passed_line(r: Ranked) -> Seq<char> {
    plain_line(r) + " <- "@ + decimal_text(-(r.0 as int)) + " minutes ago"@
}

/// The next prayer time: `<name> <time> -> in <n> minutes`.
pub open spec fn coming_line(r: Ranked) -> Seq<char> {
    plain_line(r) + " -> in "@ + decimal_text(r.0 as int) + " minutes"@
}

/// The line of one prayer time in the whole day's listing: the nearest one
/// (by name) in its own form, the others plain.
pub open spec fn listed_line(r: Ranked, nearest: Option<Ranked>, passed: bool) -> Seq<char> {
    match nearest {
        Some(n) => if r.1@ == n.1@ {
            if passed {
                passed_line(r)
            } else {
                coming_line(r)
            }
        } else {
            plain_line(r)
        },
        None => plain_line(r),
    }
}

/// The last element of a sequence, if any.
pub open spec fn last_of(s: Seq<Ranked>) -> Option<Ranked> {
    if s.len() == 0 {
        None
    } else {
        Some(s.last())
    }
}

/// The first element of a sequence, if any.
pub open spec fn first_of(s: Seq<Ranked>) -> Option<Ranked> {
    if s.len() == 0 {
        None
    } else {
        Some(s[0])
    }
}

impl SortJadwalResult {
    /// The most recently passed prayer time: the last of the passed ones.
    pub fn nearest_past(&self) -> (r: Option<&Ranked>)
        ensures
            match last_of(self.0@) {
                Some(x) => r matches Some(p) && *p == x,
                None => r is None,
            },
    {
        if self.0.len() == 0 {
            None
        } else {
            Some(&self.0[self.0.len() - 1])
        }
    }

    /// The next prayer time: the first of those to come.
    pub fn nearest_future(&self) -> (r: Option<&Ranked>)
        ensures
            match first_of(self.1@) {
                Some(x) => r matches Some(p) && *p == x,
                None => r is None,
            },
    {
        if self.1.len() == 0 {
            None
        } else {
            Some(&self.1[0])
        }
    }
}

fn plain_text(r: &Ranked) -> (t: String)
    ensures
        t@ == plain_line(*r),
{
    let a = joined(r.1.as_str(), " ");
    joined(a.as_str(), r.2.as_str())
}

/// The line of the most recently passed prayer time.
pub fn passed_text(r: &Ranked) -> (t: String)
    ensures
        t@ == passed_line(*r),
{
    let a = plain_text(r);
    let b = joined(a.as_str(), " <- ");
    let n = decimal(-(r.0 as i128));
    let c = joined(b.as_str(), n.as_str());
    joined(c.as_str(), " minutes ago")
}

/// The line of the next prayer time.
pub fn coming_text(r: &Ranked) -> (t: String)
    ensures
        t@ == coming_line(*r),
{
    let a = plain_text(r);
    let b = joined(a.as_str(), " -> in ");
    let n = decimal(r.0 as i128);
    let c = joined(b.as_str(), n.as_str());
    joined(c.as_str(), " minutes")
}

/// The one-line summary: the most recently passed prayer time and the next
/// one, each left empty where there is none.
pub fn summary_text(result: &SortJadwalResult) -> (t: String)
    ensures
        t@ == (match last_of(result.0@) {
            Some(p) => passed_line(p),
            None => Seq::empty(),
        }) + " "@ + (match first_of(result.1@) {
            Some(n) => coming_line(n),
            None => Seq::empty(),
        }),
{
    let past = match result.nearest_past() {
        Some(p) => passed_text(p),
        None => String::new(),
    };
    let future = match result.nearest_future() {
        Some(n) => coming_text(n),
        None => String::new(),
    };
    let a = joined(past.as_str(), " ");
    joined(a.as_str(), future.as_str())
}

fn listed_text(r: &Ranked, nearest: Option<&Ranked>, passed: bool) -> (t: String)
    ensures
        t@ == listed_line(
            *r,
            match nearest {
                Some(n) => Some(*n),
                None => None,
            },
            passed,
        ),
{
    match nearest {
        Some(n) => {
            if r.1 == n.1 {
                if passed {
                    passed_text(r)
                } else {
                    coming_text(r)
                }
            } else {
                plain_text(r)
            }
        },
        None => plain_text(r),
    }
}

/// The whole day's listing: the passed prayer times, then those to come,
/// the most recently passed and the next one marked with their distance.
pub fn all_day_lines(result: &SortJadwalResult) -> (lines: Vec<String>)
    ensures
        lines@.len() == result.0@.len() + result.1@.len(),
        forall|i: int|
            0 <= i < result.0@.len() ==> #[trigger] lines@[i]@ == listed_line(
                result.0@[i],
                last_of(result.0@),
                true,
            ),
        forall|i: int|
            0 <= i < result.1@.len() ==> #[trigger] lines@[result.0@.len() + i]@ == listed_line(
                result.1@[i],
                first_of(result.1@),
                false,
            ),
{
    let past = result.nearest_past();
    let future = result.nearest_future();
    let mut lines: Vec<String> = Vec::new();
    let mut i: usize = 0;
    while i < result.0.len()
        invariant
            i <= result.0.len(),
            lines@.len() == i,
            match last_of(result.0@) {
                Some(x) => past matches Some(p) && *p == x,
                None => past is None,
            },
            forall|j: int|
                0 <= j < i ==> #[trigger] lines@[j]@ == listed_line(
                    result.0@[j],
                    last_of(result.0@),
                    true,
                ),
        decreases result.0.len() - i,
    {
        lines.push(listed_text(&result.0[i], past, true));
        i = i + 1;
    }
    let mut k: usize = 0;
    while k < result.1.len()
        invariant
            k <= result.1.len(),
            lines@.len() == result.0@.len() + k,
            match first_of(result.1@) {
                Some(x) => future matches Some(p) && *p == x,
                None => future is None,
            },
            forall|j: int|
                0 <= j < result.0@.len() ==> #[trigger] lines@[j]@ == listed_line(
                    result.0@[j],
                    last_of(result.0@),
                    true,
                ),
            forall|j: int|
                0 <= j < k ==> #[trigger] lines@[result.0@.len() + j]@ == listed_line(
                    result.1@[j],
                    first_of(result.1@),
                    false,
                ),
        decreases result.1.len() - k,
    {
        lines.push(listed_text(&result.1[k], future, false));
        k = k + 1;
    }
    lines
}

} // verus!
