//! Laws of the range and holiday queries, stated and proved over the
//! sequence-level model that the queries' contracts use.

use vstd::prelude::*;

use crate::holiday::holiday_photos_spec;
use crate::holiday::holiday_scan;
use crate::holiday::month_start_instant;
use crate::model::in_window;
use crate::model::lemma_filter_element_of;
use crate::model::lemma_scan_from_bounds;
use crate::model::lemma_sorted_scan_is_filter;
use crate::model::photos_in;
use crate::model::range_scan;
use crate::model::scan_from;
use crate::model::sorted_by_time;
use crate::model::PhotoModel;
use vstd::seq_lib::group_filter_ensures;

verus! {

/// Half-open boundary law: with instants one second apart at the finest,
/// the window `[t, t + 1)` selects exactly the photos captured at instant
/// `t`, and any window that ends at `t` excludes every photo captured at
/// `t`.
pub proof fn lemma_half_open_boundary(s: Seq<PhotoModel>, t: i64)
    requires
        sorted_by_time(s),
        t < i64::MAX,
    ensures
        photos_in(s, t, (t + 1) as i64) == s.filter(|p: PhotoModel| p.date_time == t),
        forall|lo: i64, k: int|
            0 <= k < photos_in(s, lo, t).len() ==> (#[trigger] photos_in(s, lo, t)[k]).date_time
                != t,
{
    let w = |p: PhotoModel| in_window(p, t, (t + 1) as i64);
    let e = |p: PhotoModel| p.date_time == t;
    assert(w =~= e);
    assert forall|lo: i64, k: int| 0 <= k < photos_in(s, lo, t).len() implies (#[trigger] photos_in(
        s,
        lo,
        t,
    )[k]).date_time != t by {
        broadcast use group_filter_ensures;

        assert(in_window(photos_in(s, lo, t)[k], lo, t));
    }
}

/// Monotonic containment: widening the interval never removes a photo from
/// the result, and — read with the wide and the narrow window exchanged —
/// narrowing never adds one.
pub proof fn lemma_monotonic_containment(
    s: Seq<PhotoModel>,
    start_wide: i64,
    end_wide: i64,
    start_narrow: i64,
    end_narrow: i64,
)
    requires
        start_wide <= start_narrow,
        end_narrow <= end_wide,
    ensures
        forall|k: int|
            0 <= k < photos_in(s, start_narrow, end_narrow).len() ==> photos_in(
                s,
                start_wide,
                end_wide,
            ).contains(#[trigger] photos_in(s, start_narrow, end_narrow)[k]),
{
    let narrow = |p: PhotoModel| in_window(p, start_narrow, end_narrow);
    let wide = |p: PhotoModel| in_window(p, start_wide, end_wide);
    assert forall|k: int| 0 <= k < photos_in(s, start_narrow, end_narrow).len() implies photos_in(
        s,
        start_wide,
        end_wide,
    ).contains(#[trigger] photos_in(s, start_narrow, end_narrow)[k]) by {
        broadcast use group_filter_ensures;

        lemma_filter_element_of(s, narrow, k);
        let x = photos_in(s, start_narrow, end_narrow)[k];
        assert(narrow(x));
        let i = choose|i: int| 0 <= i < s.len() && s[i] == x;
        assert(wide(s[i]));
    }
}

/// Empty and inverted intervals: whenever `start >= end`, the query selects
/// nothing — both as the filter over any photo sequence and as the two
/// forward scans over any photo sequence, sorted or not.
pub proof fn lemma_inverted_interval_empty(s: Seq<PhotoModel>, start: i64, end: i64)
    requires
        end <= start,
    ensures
        photos_in(s, start, end) == Seq::<PhotoModel>::empty(),
        range_scan(s, start, end) == Seq::<PhotoModel>::empty(),
{
    broadcast use group_filter_ensures;

    assert(photos_in(s, start, end) =~= Seq::<PhotoModel>::empty()) by {
        if photos_in(s, start, end).len() > 0 {
            assert(in_window(photos_in(s, start, end)[0], start, end));
        }
    }
    let lo = scan_from(s, start, 0);
    lemma_scan_from_bounds(s, start, 0);
    assert(scan_from(s, end, lo) == lo);
    assert(range_scan(s, start, end) =~= Seq::<PhotoModel>::empty());
}

/// Holiday decomposition: the holiday selection of `year` is exactly the
/// June window's query result followed by the December window's query
/// result, both in the scan form and, on a sorted sequence, in the filter
/// form that `Album::get_photos` guarantees.
pub proof fn lemma_holiday_decomposition(s: Seq<PhotoModel>, year: i32)
    requires
        sorted_by_time(s),
        year < i32::MAX,
    ensures
        holiday_photos_spec(s, year) == photos_in(
            s,
            month_start_instant(year, 6),
            month_start_instant(year, 7),
        ) + photos_in(s, month_start_instant(year, 12), month_start_instant((year + 1) as i32, 1)),
        holiday_scan(s, year) == holiday_photos_spec(s, year),
{
    lemma_sorted_scan_is_filter(s, month_start_instant(year, 6), month_start_instant(year, 7));
    lemma_sorted_scan_is_filter(
        s,
        month_start_instant(year, 12),
        month_start_instant((year + 1) as i32, 1),
    );
}

} // verus!
