//! Modification times, the age window and the order by recency.

use crate::entry::{entry_views, RawEntry, RawEntryView};
use crate::views::{ok_view, opt_count, opt_view};
use vstd::prelude::*;

verus! {

/// The seconds in a day.
pub const NUM_SECONDS_IN_DAY: u64 = 86400;

/// The nanoseconds in a second.
pub const NANOS_PER_SECOND: u128 = 1_000_000_000;

/// A point in time: the nanoseconds that have passed since the Unix epoch.
#[derive(Clone, Copy, Debug, PartialEq, Eq, Structural)]
pub struct Timestamp {
    nanos: u128,
}

impl View for Timestamp {
    type V = int;

    closed spec fn view(&self) -> int {
        self.nanos as int
    }
}

/// Why no cutoff could be computed.
#[derive(Clone, Copy, Debug, PartialEq, Eq, Structural)]
pub enum AgeError {
    /// The window reaches back beyond the earliest time that can be
    /// represented.
    TooBig,
}

/// The nanoseconds in `days` days.
pub open spec fn nanos_in_days(days: int) -> int {
    days * 86400 * 1_000_000_000
}

/// The earliest modification time that is still within `max_age_days` of
/// `now`, if the epoch is not passed on the way back.
pub open spec fn cutoff(now: int, max_age_days: int) -> Option<int> {
    if nanos_in_days(max_age_days) <= now {
        Some(now - nanos_in_days(max_age_days))
    } else {
        None
    }
}

/// The cutoff, or the error that says that there is none.
pub open spec fn cutoff_or_error(now: int, max_age_days: int) -> Result<int, AgeError> {
    match cutoff(now, max_age_days) {
        Some(t) => Ok(t),
        None => Err(AgeError::TooBig),
    }
}

impl Timestamp {
    /// The time `secs` whole seconds after the epoch.
    pub fn from_secs(secs: u64) -> (r: Timestamp)
        ensures
            r@ == secs * 1_000_000_000,
    {
        Timestamp { nanos: secs as u128 * NANOS_PER_SECOND }
    }

    /// The time `nanos` nanoseconds after the epoch.
    pub fn from_nanos(nanos: u128) -> (r: Timestamp)
        ensures
            r@ == nanos,
    {
        Timestamp { nanos }
    }

    /// The nanoseconds from the epoch to this time.
    pub fn as_nanos(&self) -> (r: u128)
        ensures
            r == self@,
    {
        self.nanos
    }
}

/// The cutoff of the age window: the time `max_age_days` days before `now`.
/// A window that reaches back beyond the epoch is an error; the cutoff is
/// never clamped.
pub fn get_min_system_time_from_max_age_days(now: Timestamp, max_age_days: u32) -> (r: Result<
    Timestamp,
    AgeError,
>)
    ensures
        ok_view(r) == cutoff_or_error(now@, max_age_days as int),
{
    let seconds: u64 = (max_age_days as u64) * NUM_SECONDS_IN_DAY;
    let window: u128 = (seconds as u128) * NANOS_PER_SECOND;
    if window <= now.nanos {
        Ok(Timestamp { nanos: now.nanos - window })
    } else {
        Err(AgeError::TooBig)
    }
}

/// How recent an entry is: its modification time, and -1, which lies before
/// every time since the epoch, where it has none.
pub open spec fn recency(e: RawEntryView) -> int {
    match e.modified_at {
        Some(t) => t,
        None => -1,
    }
}

/// Whether the entry passes the age window: it does unless a cutoff is set
/// and the entry was last modified before it.
pub open spec fn is_recent_enough(e: RawEntryView, min: Option<int>) -> bool {
    match (min, e.modified_at) {
        (Some(m), Some(t)) => t >= m,
        _ => true,
    }
}

/// The test of the age window with the cutoff `min`.
pub open spec fn recent_enough(min: Option<int>) -> spec_fn(RawEntryView) -> bool {
    |e: RawEntryView| is_recent_enough(e, min)
}

/// The entries that pass the age window, in their order.
pub open spec fn within_age(entries: Seq<RawEntryView>, min: Option<int>) -> Seq<RawEntryView> {
    entries.filter(recent_enough(min))
}

/// `sorted` with `e` put behind every entry that is at least as recent.
pub open spec fn insert_by_recency(sorted: Seq<RawEntryView>, e: RawEntryView) -> Seq<
    RawEntryView,
>
    decreases sorted.len(),
{
    if sorted.len() == 0 {
        seq![e]
    } else if recency(sorted.last()) >= recency(e) {
        sorted.push(e)
    } else {
        insert_by_recency(sorted.drop_last(), e).push(sorted.last())
    }
}

/// The entries with the most recent first; entries of one recency keep their
/// order.
pub open spec fn recent_first(entries: Seq<RawEntryView>) -> Seq<RawEntryView>
    decreases entries.len(),
{
    if entries.len() == 0 {
        entries
    } else {
        insert_by_recency(recent_first(entries.drop_last()), entries.last())
    }
}

/// The first `limit` entries, or all of them where there are fewer or no
/// limit is set.
pub open spec fn limited(entries: Seq<RawEntryView>, limit: Option<int>) -> Seq<RawEntryView> {
    match limit {
        Some(n) => if 0 <= n < entries.len() {
            entries.take(n)
        } else {
            entries
        },
        None => entries,
    }
}

/// Whether `a` is less recent than `b`.
fn is_older(a: &RawEntry, b: &RawEntry) -> (r: bool)
    ensures
        r == (recency(a@) < recency(b@)),
{
    match (a.modified_at, b.modified_at) {
        (Some(x), Some(y)) => x.nanos < y.nanos,
        (None, Some(_)) => true,
        _ => false,
    }
}

/// Keeps the entries that were modified at or after `min`; entries without
/// a modification time pass, and so do all where no cutoff is set.
pub fn filter_by_age(entries: &Vec<RawEntry>, min: Option<Timestamp>) -> (r: Vec<RawEntry>)
    ensures
        entry_views(r@) == within_age(entry_views(entries@), opt_view(min)),
{
    let mut out: Vec<RawEntry> = Vec::new();
    let mut i: usize = 0;
    proof {
        reveal(Seq::filter);
        assert(entry_views(entries@).take(0) =~= Seq::<RawEntryView>::empty());
        assert(entry_views(out@) =~= Seq::<RawEntryView>::empty());
    }
    while i < entries.len()
        invariant
            i <= entries.len(),
            entry_views(out@) == within_age(entry_views(entries@).take(i as int), opt_view(min)),
        decreases entries.len() - i,
    {
        let e = entries[i].clone();
        let keep: bool = match (min, e.modified_at) {
            (Some(m), Some(t)) => t.nanos >= m.nanos,
            _ => true,
        };
        let ghost before = out@;
        proof {
            let seen = entry_views(entries@).take(i as int);
            assert(entry_views(entries@).take(i + 1) =~= seen.push(e@));
            seen.lemma_filter_push(e@, recent_enough(opt_view(min)));
        }
        if keep {
            out.push(e);
            assert(entry_views(out@) =~= entry_views(before).push(e@));
        }
        i += 1;
    }
    assert(entry_views(entries@).take(entries.len() as int) =~= entry_views(entries@));
    out
}

/// Sorts the entries by modification time, the latest first. Entries of one
/// time, and entries without a time, which come last, keep their order.
pub fn sort_by_recency(entries: &Vec<RawEntry>) -> (r: Vec<RawEntry>)
    ensures
        entry_views(r@) == recent_first(entry_views(entries@)),
        is_recent_first_of(entry_views(r@), entry_views(entries@)),
{
    let mut out: Vec<RawEntry> = Vec::new();
    let mut i: usize = 0;
    proof {
        assert(entry_views(entries@).take(0) =~= Seq::<RawEntryView>::empty());
        assert(entry_views(out@) =~= Seq::<RawEntryView>::empty());
    }
    while i < entries.len()
        invariant
            i <= entries.len(),
            entry_views(out@) == recent_first(entry_views(entries@).take(i as int)),
        decreases entries.len() - i,
    {
        let e = entries[i].clone();
        let ghost sorted = entry_views(out@);
        let mut j: usize = out.len();
        proof {
            assert(sorted.take(j as int) =~= sorted);
            assert(sorted.skip(j as int) =~= Seq::<RawEntryView>::empty());
        }
        while j > 0 && is_older(&out[j - 1], &e)
            invariant
                j <= out.len(),
                sorted == entry_views(out@),
                insert_by_recency(sorted, e@) == insert_by_recency(sorted.take(j as int), e@)
                    + sorted.skip(j as int),
            decreases j,
        {
            proof {
                let head = sorted.take(j as int);
                assert(head.last() == sorted[j - 1]);
                assert(head.drop_last() =~= sorted.take(j - 1));
                let shorter = insert_by_recency(sorted.take(j - 1), e@);
                assert(insert_by_recency(head, e@) == shorter.push(sorted[j - 1]));
                assert(shorter.push(sorted[j - 1]) + sorted.skip(j as int) =~= shorter
                    + sorted.skip(j - 1));
            }
            j -= 1;
        }
        proof {
            let head = sorted.take(j as int);
            if j > 0 {
                assert(head.last() == sorted[j - 1]);
            }
            assert(insert_by_recency(head, e@) == head.push(e@));
            assert(head.push(e@) + sorted.skip(j as int) =~= sorted.insert(j as int, e@));
            let seen = entry_views(entries@).take(i as int);
            let next = entry_views(entries@).take(i + 1);
            assert(next.drop_last() =~= seen);
            assert(next.last() == e@);
        }
        let ghost before = out@;
        out.insert(j, e);
        assert(entry_views(out@) =~= entry_views(before).insert(j as int, e@));
        i += 1;
    }
    proof {
        assert(entry_views(entries@).take(entries.len() as int) =~= entry_views(entries@));
        lemma_recent_first_is_the_order_of_recency(entry_views(entries@), entry_views(out@));
    }
    out
}

/// Keeps the first `limit` entries; all of them where no limit is set.
pub fn take_limit(entries: &Vec<RawEntry>, limit: Option<usize>) -> (r: Vec<RawEntry>)
    ensures
        entry_views(r@) == limited(entry_views(entries@), opt_count(limit)),
{
    let n: usize = match limit {
        Some(n) => if n < entries.len() {
            n
        } else {
            entries.len()
        },
        None => entries.len(),
    };
    let mut out: Vec<RawEntry> = Vec::new();
    let mut i: usize = 0;
    while i < n
        invariant
            i <= n <= entries.len(),
            entry_views(out@) == entry_views(entries@).take(i as int),
        decreases n - i,
    {
        let e = entries[i].clone();
        let ghost before = out@;
        out.push(e);
        assert(entry_views(out@) =~= entry_views(before).push(e@));
        assert(entry_views(entries@).take(i + 1) =~= entry_views(entries@).take(i as int).push(
            e@,
        ));
        i += 1;
    }
    assert(entry_views(entries@).take(entries.len() as int) =~= entry_views(entries@));
    out
}

/// Whether each entry is at least as recent as all that follow it.
pub open spec fn is_descending(entries: Seq<RawEntryView>) -> bool {
    forall|i: int, j: int|
        0 <= i < j < entries.len() ==> recency(#[trigger] entries[i]) >= recency(
            #[trigger] entries[j],
        )
}

/// The test for the entries of recency `t`.
pub open spec fn has_recency(t: int) -> spec_fn(RawEntryView) -> bool {
    |e: RawEntryView| recency(e) == t
}

/// The entries of recency `t`, in their order.
pub open spec fn at_recency(entries: Seq<RawEntryView>, t: int) -> Seq<RawEntryView> {
    entries.filter(has_recency(t))
}

proof fn lemma_insert_len(sorted: Seq<RawEntryView>, e: RawEntryView)
    ensures
        insert_by_recency(sorted, e).len() == sorted.len() + 1,
    decreases sorted.len(),
{
    if sorted.len() > 0 && recency(sorted.last()) < recency(e) {
        lemma_insert_len(sorted.drop_last(), e);
    }
}

proof fn lemma_insert_keeps_bound(sorted: Seq<RawEntryView>, e: RawEntryView, bound: int)
    requires
        recency(e) >= bound,
        forall|i: int| 0 <= i < sorted.len() ==> recency(#[trigger] sorted[i]) >= bound,
    ensures
        insert_by_recency(sorted, e).len() == sorted.len() + 1,
        forall|i: int|
            0 <= i < insert_by_recency(sorted, e).len() ==> recency(
                #[trigger] insert_by_recency(sorted, e)[i],
            ) >= bound,
    decreases sorted.len(),
{
    if sorted.len() > 0 && recency(sorted.last()) < recency(e) {
        let head = sorted.drop_last();
        assert forall|i: int| 0 <= i < head.len() implies recency(#[trigger] head[i]) >= bound by {
            assert(head[i] == sorted[i]);
        }
        lemma_insert_keeps_bound(head, e, bound);
    }
}

proof fn lemma_insert_keeps_descending(sorted: Seq<RawEntryView>, e: RawEntryView)
    requires
        is_descending(sorted),
    ensures
        is_descending(insert_by_recency(sorted, e)),
    decreases sorted.len(),
{
    let r = insert_by_recency(sorted, e);
    if sorted.len() == 0 {
    } else if recency(sorted.last()) >= recency(e) {
        assert forall|i: int, j: int| 0 <= i < j < r.len() implies recency(#[trigger] r[i])
            >= recency(#[trigger] r[j]) by {
            if j == r.len() - 1 {
                assert(r[i] == sorted[i]);
                if i < sorted.len() - 1 {
                    assert(recency(sorted[i]) >= recency(sorted[sorted.len() - 1]));
                }
            } else {
                assert(r[i] == sorted[i] && r[j] == sorted[j]);
            }
        }
    } else {
        let head = sorted.drop_last();
        let last = sorted.last();
        assert(is_descending(head)) by {
            assert forall|i: int, j: int| 0 <= i < j < head.len() implies recency(
                #[trigger] head[i],
            ) >= recency(#[trigger] head[j]) by {
                assert(head[i] == sorted[i] && head[j] == sorted[j]);
            }
        }
        lemma_insert_keeps_descending(head, e);
        assert forall|i: int| 0 <= i < head.len() implies recency(#[trigger] head[i]) >= recency(
            last,
        ) by {
            assert(head[i] == sorted[i]);
            assert(recency(sorted[i]) >= recency(sorted[sorted.len() - 1]));
        }
        lemma_insert_keeps_bound(head, e, recency(last));
        let inner = insert_by_recency(head, e);
        assert forall|i: int, j: int| 0 <= i < j < r.len() implies recency(#[trigger] r[i])
            >= recency(#[trigger] r[j]) by {
            assert(r[i] == inner[i]);
            if j < r.len() - 1 {
                assert(r[j] == inner[j]);
            }
        }
    }
}

proof fn lemma_insert_at_recency(sorted: Seq<RawEntryView>, e: RawEntryView, t: int)
    ensures
        at_recency(insert_by_recency(sorted, e), t) == if recency(e) == t {
            at_recency(sorted, t).push(e)
        } else {
            at_recency(sorted, t)
        },
    decreases sorted.len(),
{
    let pred = has_recency(t);
    if sorted.len() == 0 {
        assert(seq![e] =~= sorted.push(e));
        sorted.lemma_filter_push(e, pred);
    } else if recency(sorted.last()) >= recency(e) {
        sorted.lemma_filter_push(e, pred);
    } else {
        let head = sorted.drop_last();
        let last = sorted.last();
        lemma_insert_at_recency(head, e, t);
        insert_by_recency(head, e).lemma_filter_push(last, pred);
        assert(head.push(last) =~= sorted);
        head.lemma_filter_push(last, pred);
    }
}

/// Sorting by recency keeps every entry: as many come out as went in.
pub proof fn lemma_recent_first_len(entries: Seq<RawEntryView>)
    ensures
        recent_first(entries).len() == entries.len(),
    decreases entries.len(),
{
    if entries.len() > 0 {
        lemma_recent_first_len(entries.drop_last());
        lemma_insert_len(recent_first(entries.drop_last()), entries.last());
    }
}

/// Sorting by recency gives a descending order: no entry comes before one
/// that was modified later.
pub proof fn lemma_recent_first_is_descending(entries: Seq<RawEntryView>)
    ensures
        is_descending(recent_first(entries)),
    decreases entries.len(),
{
    if entries.len() > 0 {
        lemma_recent_first_is_descending(entries.drop_last());
        lemma_insert_keeps_descending(recent_first(entries.drop_last()), entries.last());
    }
}

/// Sorting by recency is stable: for every time, the entries of that time
/// come out as they went in, the same ones in the same order.
pub proof fn lemma_recent_first_is_stable(entries: Seq<RawEntryView>, t: int)
    ensures
        at_recency(recent_first(entries), t) == at_recency(entries, t),
    decreases entries.len(),
{
    reveal(Seq::filter);
    if entries.len() > 0 {
        let head = entries.drop_last();
        let last = entries.last();
        lemma_recent_first_is_stable(head, t);
        lemma_insert_at_recency(recent_first(head), last, t);
        assert(head.push(last) =~= entries);
        head.lemma_filter_push(last, has_recency(t));
    }
}

/// Whether `sorted` is `entries` in the order of recency: it is descending,
/// and for every recency it holds the entries of that recency as `entries`
/// does, the same ones in the same order.
pub open spec fn is_recent_first_of(sorted: Seq<RawEntryView>, entries: Seq<RawEntryView>) -> bool {
    &&& is_descending(sorted)
    &&& forall|t: int| #[trigger] at_recency(sorted, t) == at_recency(entries, t)
}

proof fn lemma_at_recency_of_tail(s: Seq<RawEntryView>, t: int)
    requires
        s.len() > 0,
    ensures
        at_recency(s, t) == if recency(s[0]) == t {
            seq![s[0]] + at_recency(s.drop_first(), t)
        } else {
            at_recency(s.drop_first(), t)
        },
{
    s.drop_first().lemma_filter_prepend(s[0], has_recency(t));
    assert(seq![s[0]] + s.drop_first() =~= s);
    assert(Seq::<RawEntryView>::empty() + at_recency(s.drop_first(), t) =~= at_recency(
        s.drop_first(),
        t,
    ));
}

proof fn lemma_descending_tail(s: Seq<RawEntryView>)
    requires
        is_descending(s),
        s.len() > 0,
    ensures
        is_descending(s.drop_first()),
{
    let tail = s.drop_first();
    assert forall|i: int, j: int| 0 <= i < j < tail.len() implies recency(#[trigger] tail[i])
        >= recency(#[trigger] tail[j]) by {
        assert(tail[i] == s[i + 1] && tail[j] == s[j + 1]);
    }
}

/// The most recent of `b` is no more recent than that of `a`, where `a`
/// holds the entries of every recency that `b` holds.
proof fn lemma_first_is_bounded(a: Seq<RawEntryView>, b: Seq<RawEntryView>)
    requires
        is_descending(a),
        b.len() > 0,
        forall|t: int| #[trigger] at_recency(a, t) == at_recency(b, t),
    ensures
        a.len() > 0,
        recency(b[0]) <= recency(a[0]),
{
    let t = recency(b[0]);
    lemma_at_recency_of_tail(b, t);
    let x = at_recency(b, t)[0];
    assert(x == b[0]);
    assert(at_recency(a, t) == at_recency(b, t));
    assert(at_recency(a, t)[0] == x);
    assert(at_recency(a, t).contains(x));
    a.lemma_filter_contains_rev(has_recency(t), x);
    let k = choose|k: int| 0 <= k < a.len() && a[k] == x;
    if k > 0 {
        assert(recency(a[0]) >= recency(a[k]));
    }
}

proof fn lemma_order_of_recency_is_unique(a: Seq<RawEntryView>, b: Seq<RawEntryView>)
    requires
        is_descending(a),
        is_descending(b),
        forall|t: int| #[trigger] at_recency(a, t) == at_recency(b, t),
    ensures
        a == b,
    decreases a.len(),
{
    if a.len() == 0 {
        if b.len() > 0 {
            lemma_first_is_bounded(a, b);
        }
        assert(a =~= b);
    } else {
        lemma_first_is_bounded(b, a);
        lemma_first_is_bounded(a, b);
        let m = recency(a[0]);
        assert(recency(b[0]) == m);
        lemma_at_recency_of_tail(a, m);
        lemma_at_recency_of_tail(b, m);
        assert(at_recency(a, m)[0] == a[0]);
        assert(at_recency(b, m)[0] == b[0]);
        assert(at_recency(a, m) == at_recency(b, m));
        assert(a[0] == b[0]);
        let x = a.drop_first();
        let y = b.drop_first();
        lemma_descending_tail(a);
        lemma_descending_tail(b);
        assert forall|t: int| #[trigger] at_recency(x, t) == at_recency(y, t) by {
            lemma_at_recency_of_tail(a, t);
            lemma_at_recency_of_tail(b, t);
            assert(at_recency(a, t) == at_recency(b, t));
            if t == m {
                assert((seq![a[0]] + at_recency(x, t)).drop_first() =~= at_recency(x, t));
                assert((seq![b[0]] + at_recency(y, t)).drop_first() =~= at_recency(y, t));
            }
        }
        lemma_order_of_recency_is_unique(x, y);
        assert(seq![a[0]] + x =~= a);
        assert(seq![b[0]] + y =~= b);
    }
}

/// Sorting by recency gives the one order of recency: `recent_first(entries)`
/// is `entries` in the order of recency, and whatever else is, equals it.
pub proof fn lemma_recent_first_is_the_order_of_recency(
    entries: Seq<RawEntryView>,
    sorted: Seq<RawEntryView>,
)
    ensures
        is_recent_first_of(recent_first(entries), entries),
        is_recent_first_of(sorted, entries) ==> sorted == recent_first(entries),
{
    lemma_recent_first_is_descending(entries);
    assert forall|t: int| #[trigger]
        at_recency(recent_first(entries), t) == at_recency(entries, t) by {
        lemma_recent_first_is_stable(entries, t);
    }
    if is_recent_first_of(sorted, entries) {
        assert forall|t: int| #[trigger]
            at_recency(sorted, t) == at_recency(recent_first(entries), t) by {
            assert(at_recency(sorted, t) == at_recency(entries, t));
        }
        lemma_order_of_recency_is_unique(sorted, recent_first(entries));
    }
}

/// The age window is inclusive: with a cutoff for `max_age_days` before
/// `now`, an entry with a modification time passes exactly when that time
/// lies no more than `max_age_days` days before `now`.
pub proof fn lemma_age_window(now: int, max_age_days: int, e: RawEntryView)
    requires
        cutoff(now, max_age_days) is Some,
        e.modified_at is Some,
    ensures
        is_recent_enough(e, cutoff(now, max_age_days)) <==> now - e.modified_at->0
            <= nanos_in_days(max_age_days),
{
}

} // verus!
