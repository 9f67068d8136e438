//! The derived holiday query: the photos from June and December of a given
//! year, June first, as an independently owned sequence.

use vstd::prelude::*;

use crate::album::models;
use crate::album::Album;
use crate::album::Photo;
use crate::model::photos_in;
use crate::model::range_scan;
use crate::model::sorted_by_time;
use crate::model::PhotoModel;

verus! {

/// The first calendar year whose dates chrono's `NaiveDate` represents.
pub const MIN_CALENDAR_YEAR: i32 = -262143;

/// The last calendar year whose dates chrono's `NaiveDate` represents.
pub const MAX_CALENDAR_YEAR: i32 = 262142;

/// The instant (seconds since the Unix epoch, UTC) of midnight at the start
/// of the first day of `month` in `year`, as chrono computes it on the
/// proleptic Gregorian calendar.
pub uninterp spec fn month_start_instant(year: i32, month: u32) -> i64;

/// Relies on chrono's `NaiveDate::from_ymd_opt`, `NaiveDate::and_hms_opt`
/// and `DateTime::timestamp`: the Unix timestamp of midnight UTC on the
/// first day of a month is computed from the year and the month alone.
/// `from_ymd_opt` returns `None` exactly when the date is invalid or the
/// year falls outside the years `NaiveDate` represents; the first day of a
/// real month at midnight is always valid, so for a month in `1..=12` and a
/// year in that range the chain returns `Some`.
#[verifier::external_body]
fn month_start_timestamp(year: i32, month: u32) -> (r: Option<i64>)
    ensures
        r matches Some(t) ==> t == month_start_instant(year, month),
        (1 <= month <= 12 && MIN_CALENDAR_YEAR <= year <= MAX_CALENDAR_YEAR) ==> r is Some,
{
    let date = chrono::NaiveDate::from_ymd_opt(year, month, 1)?;
    let time = date.and_hms_opt(0, 0, 0)?;
    Some(time.and_utc().timestamp())
}

/// The holiday selection of `year` over a photo sequence: the photos of the
/// June window `[June 1, July 1)` followed by those of the December window
/// `[December 1, January 1 of the next year)`.
pub open spec fn holiday_photos_spec(s: Seq<PhotoModel>, year: i32) -> Seq<PhotoModel> {
    photos_in(s, month_start_instant(year, 6), month_start_instant(year, 7)) + photos_in(
        s,
        month_start_instant(year, 12),
        month_start_instant((year + 1) as i32, 1),
    )
}

/// The holiday selection as the two forward scans compute it; equal to
/// `holiday_photos_spec` whenever the sequence is sorted by capture time.
pub open spec fn holiday_scan(s: Seq<PhotoModel>, year: i32) -> Seq<PhotoModel> {
    range_scan(s, month_start_instant(year, 6), month_start_instant(year, 7)) + range_scan(
        s,
        month_start_instant(year, 12),
        month_start_instant((year + 1) as i32, 1),
    )
}

/// Appends a clone of every photo of `src` to `out`.
fn append_photos(out: &mut Vec<Photo>, src: &[Photo])
    ensures
        final(out)@ == old(out)@ + src@,
{
    let n = src.len();
    let mut k: usize = 0;
    while k < n
        invariant
            0 <= k <= n,
            n == src@.len(),
            out@ == old(out)@ + src@.subrange(0, k as int),
        decreases n - k,
    {
        out.push(src[k].clone());
        proof {
            assert(old(out)@ + src@.subrange(0, k + 1) =~= (old(out)@ + src@.subrange(
                0,
                k as int,
            )).push(src@[k as int]));
        }
        k = k + 1;
    }
    proof {
        assert(src@.subrange(0, n as int) =~= src@);
    }
}

/// Collects into one owned sequence the album's photos in
/// `[june_start, july_start)` followed by its photos in
/// `[dec_start, jan_start)`. The two window queries are exactly those of
/// `Album::get_photos`; this function does the concatenation of the holiday
/// query once the window bounds are known.
pub fn photos_in_two_windows(
    album: &Album,
    june_start: i64,
    july_start: i64,
    dec_start: i64,
    jan_start: i64,
) -> (r: Vec<Photo>)
    ensures
        models(r@) == range_scan(album.photos_model(), june_start, july_start) + range_scan(
            album.photos_model(),
            dec_start,
            jan_start,
        ),
        sorted_by_time(album.photos_model()) ==> models(r@) == photos_in(
            album.photos_model(),
            june_start,
            july_start,
        ) + photos_in(album.photos_model(), dec_start, jan_start),
{
    let mut photos: Vec<Photo> = Vec::new();

    let june_photos = album.get_photos(june_start, july_start);
    append_photos(&mut photos, june_photos);

    let december_photos = album.get_photos(dec_start, jan_start);
    append_photos(&mut photos, december_photos);

    proof {
        assert(models(photos@) =~= models(june_photos@) + models(december_photos@));
    }
    photos
}

/// Gets the photos from June and December of `year`: the June window's
/// photos first, then the December window's, each in their original order,
/// as a newly allocated sequence independent of the album.
///
/// The window bounds — midnight UTC on June 1, July 1 and December 1 of
/// `year` and on January 1 of the following year — are computed by chrono.
/// For every year whose windows chrono can represent the result is exactly
/// the two windows' photos; for the remaining years, whose windows have no
/// representable bounds, it is empty.
pub fn get_holiday_photos(album: &Album, year: i32) -> (r: Vec<Photo>)
    ensures
        models(r@) == holiday_scan(album.photos_model(), year) || r@ == Seq::<Photo>::empty(),
        (MIN_CALENDAR_YEAR <= year < MAX_CALENDAR_YEAR) ==> models(r@) == holiday_scan(
            album.photos_model(),
            year,
        ),
        sorted_by_time(album.photos_model()) ==> (models(r@) == holiday_photos_spec(
            album.photos_model(),
            year,
        ) || r@ == Seq::<Photo>::empty()),
        (sorted_by_time(album.photos_model()) && MIN_CALENDAR_YEAR <= year < MAX_CALENDAR_YEAR)
            ==> models(r@) == holiday_photos_spec(album.photos_model(), year),
{
    if year == i32::MAX {
        return Vec::new();
    }
    let june = month_start_timestamp(year, 6);
    let july = month_start_timestamp(year, 7);
    let dec = month_start_timestamp(year, 12);
    let jan = month_start_timestamp(year + 1, 1);
    match (june, july, dec, jan) {
        (Some(june_start), Some(july_start), Some(dec_start), Some(jan_start)) => {
            let r = photos_in_two_windows(album, june_start, july_start, dec_start, jan_start);
            proof {
                if sorted_by_time(album.photos_model()) {
                    crate::model::lemma_sorted_scan_is_filter(
                        album.photos_model(),
                        june_start,
                        july_start,
                    );
                    crate::model::lemma_sorted_scan_is_filter(
                        album.photos_model(),
                        dec_start,
                        jan_start,
                    );
                }
            }
            r
        },
        _ => Vec::new(),
    }
}

} // verus!
