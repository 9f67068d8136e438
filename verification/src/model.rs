//! Mathematical model of photos and albums: the abstract value of a photo,
//! the sort invariant, and the half-open interval query at the level of
//! sequences.

use vstd::prelude::*;

verus! {

/// Abstract value of a photo: its identity, display name and capture time.
/// Capture time is an absolute instant, measured in seconds since the Unix
/// epoch in UTC.
pub ghost struct PhotoModel {
    pub id: u64,
    pub name: Seq<char>,
    pub date_time: i64,
}

/// The album invariant: photos are sorted ascending by capture time.
pub open spec fn sorted_by_time(s: Seq<PhotoModel>) -> bool {
    forall|i: int, j: int| 0 <= i <= j < s.len() ==> s[i].date_time <= s[j].date_time
}

/// Whether a photo's capture time falls in the half-open interval
/// `[start, end)`.
pub open spec fn in_window(p: PhotoModel, start: i64, end: i64) -> bool {
    start <= p.date_time < end
}

/// The photos of `s` whose capture time falls in `[start, end)`, in their
/// original order.
pub open spec fn photos_in(s: Seq<PhotoModel>, start: i64, end: i64) -> Seq<PhotoModel> {
    s.filter(|p: PhotoModel| in_window(p, start, end))
}

/// Index of the first photo at or after instant `t`, scanning forward from
/// index `from`; `s.len()` if the scan runs off the end.
pub open spec fn scan_from(s: Seq<PhotoModel>, t: i64, from: int) -> int
    decreases s.len() - from,
{
    if from < 0 || from >= s.len() {
        from
    } else if s[from].date_time >= t {
        from
    } else {
        scan_from(s, t, from + 1)
    }
}

/// The contiguous subrange that the two forward scans select: from the first
/// photo at or after `start` up to the first photo at or after `end`. On a
/// sequence sorted by capture time this is exactly `photos_in`
/// (`lemma_sorted_scan_is_filter`); on any other sequence it still describes
/// the scans' outcome.
pub open spec fn range_scan(s: Seq<PhotoModel>, start: i64, end: i64) -> Seq<PhotoModel> {
    let lo = scan_from(s, start, 0);
    let hi = scan_from(s, end, lo);
    s.subrange(lo, hi)
}

pub proof fn lemma_scan_from_bounds(s: Seq<PhotoModel>, t: i64, from: int)
    requires
        0 <= from <= s.len(),
    ensures
        from <= scan_from(s, t, from) <= s.len(),
        forall|k: int| from <= k < scan_from(s, t, from) ==> (#[trigger] s[k]).date_time < t,
        scan_from(s, t, from) < s.len() ==> s[scan_from(s, t, from)].date_time >= t,
    decreases s.len() - from,
{
    if from < s.len() && s[from].date_time < t {
        lemma_scan_from_bounds(s, t, from + 1);
    }
}

/// The scan's result is the unique index with the stop properties.
pub proof fn lemma_scan_from_unique(s: Seq<PhotoModel>, t: i64, from: int, i: int)
    requires
        0 <= from <= i <= s.len(),
        forall|k: int| from <= k < i ==> (#[trigger] s[k]).date_time < t,
        i < s.len() ==> s[i].date_time >= t,
    ensures
        scan_from(s, t, from) == i,
    decreases i - from,
{
    if from < i {
        lemma_scan_from_unique(s, t, from + 1, i);
    }
}

proof fn lemma_filter_all_hold(s: Seq<PhotoModel>, pred: spec_fn(PhotoModel) -> bool)
    requires
        forall|k: int| 0 <= k < s.len() ==> pred(#[trigger] s[k]),
    ensures
        s.filter(pred) == s,
    decreases s.len(),
{
    reveal(Seq::filter);
    if s.len() > 0 {
        assert(forall|k: int| 0 <= k < s.drop_last().len() ==> pred(#[trigger] s.drop_last()[k]));
        lemma_filter_all_hold(s.drop_last(), pred);
        assert(pred(s.last()));
        assert(s.drop_last().push(s.last()) =~= s);
    }
}

proof fn lemma_filter_none_hold(s: Seq<PhotoModel>, pred: spec_fn(PhotoModel) -> bool)
    requires
        forall|k: int| 0 <= k < s.len() ==> !pred(#[trigger] s[k]),
    ensures
        s.filter(pred) == Seq::<PhotoModel>::empty(),
    decreases s.len(),
{
    reveal(Seq::filter);
    if s.len() > 0 {
        assert(forall|k: int| 0 <= k < s.drop_last().len() ==> !pred(#[trigger] s.drop_last()[k]));
        lemma_filter_none_hold(s.drop_last(), pred);
        assert(!pred(s.last()));
    }
}

/// An element of a filtered sequence is an element of the original.
pub proof fn lemma_filter_element_of(s: Seq<PhotoModel>, pred: spec_fn(PhotoModel) -> bool, k: int)
    requires
        0 <= k < s.filter(pred).len(),
    ensures
        s.contains(s.filter(pred)[k]),
    decreases s.len(),
{
    reveal(Seq::filter);
    if s.len() > 0 {
        let rest = s.drop_last().filter(pred);
        if pred(s.last()) && k == rest.len() {
            assert(s.filter(pred)[k] == s.last());
            assert(s[s.len() - 1] == s.last());
        } else {
            lemma_filter_element_of(s.drop_last(), pred, k);
            let x = s.drop_last().filter(pred)[k];
            let i = choose|i: int| 0 <= i < s.drop_last().len() && s.drop_last()[i] == x;
            assert(s[i] == x);
        }
    }
}

/// On a sequence sorted by capture time, the subrange that the two scans
/// select is exactly the set of photos whose capture time falls in
/// `[start, end)`.
pub proof fn lemma_sorted_scan_is_filter(s: Seq<PhotoModel>, start: i64, end: i64)
    requires
        sorted_by_time(s),
    ensures
        range_scan(s, start, end) == photos_in(s, start, end),
{
    let pred = |p: PhotoModel| in_window(p, start, end);
    let lo = scan_from(s, start, 0);
    lemma_scan_from_bounds(s, start, 0);
    let hi = scan_from(s, end, lo);
    lemma_scan_from_bounds(s, end, lo);
    let a = s.subrange(0, lo);
    let b = s.subrange(lo, hi);
    let c = s.subrange(hi, s.len() as int);
    assert(s =~= (a + b) + c);
    Seq::filter_distributes_over_add(a + b, c, pred);
    Seq::filter_distributes_over_add(a, b, pred);
    assert(forall|k: int| 0 <= k < a.len() ==> !pred(#[trigger] a[k])) by {
        assert(forall|k: int| 0 <= k < a.len() ==> a[k] == s[k]);
    }
    lemma_filter_none_hold(a, pred);
    assert(forall|k: int| 0 <= k < b.len() ==> pred(#[trigger] b[k])) by {
        assert(forall|k: int| 0 <= k < b.len() ==> b[k] == s[lo + k]);
        assert(forall|k: int| 0 <= k < b.len() ==> s[lo].date_time <= (#[trigger] b[k]).date_time);
    }
    lemma_filter_all_hold(b, pred);
    assert(forall|k: int| 0 <= k < c.len() ==> !pred(#[trigger] c[k])) by {
        assert(forall|k: int| 0 <= k < c.len() ==> c[k] == s[hi + k]);
        assert(forall|k: int| 0 <= k < c.len() ==> s[hi].date_time <= (#[trigger] c[k]).date_time);
    }
    lemma_filter_none_hold(c, pred);
    assert(photos_in(s, start, end) == Seq::<PhotoModel>::empty() + b + Seq::<PhotoModel>::empty());
    assert(Seq::<PhotoModel>::empty() + b + Seq::<PhotoModel>::empty() =~= b);
}

} // verus!
