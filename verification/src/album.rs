//! The photo and album records and the half-open range query over an
//! album's time-ordered photo sequence.

use vstd::prelude::*;

use crate::model::in_window;
use crate::model::photos_in;
use crate::model::range_scan;
use crate::model::scan_from;
use crate::model::sorted_by_time;
use crate::model::lemma_scan_from_unique;
use crate::model::lemma_sorted_scan_is_filter;
use crate::model::PhotoModel;
use vstd::slice::slice_subrange;

verus! {

/// A photo taken at a particular time using a camera.
/// Has a non-unique name given by the user. `date_time` is the capture
/// instant in seconds since the Unix epoch, UTC.
#[derive(Debug, PartialEq, Eq)]
pub struct Photo {
    pub id: u64,
    pub name: String,
    pub date_time: i64,
}

impl View for Photo {
    type V = PhotoModel;

    open spec fn view(&self) -> PhotoModel {
        PhotoModel { id: self.id, name: self.name@, date_time: self.date_time }
    }
}

impl Clone for Photo {
    /// A clone is equal to the original in every field.
    fn clone(&self) -> (r: Self)
        ensures
            r == *self,
    {
        Photo { id: self.id, name: self.name.clone(), date_time: self.date_time }
    }
}

/// The abstract values of a sequence of photos.
pub open spec fn models(s: Seq<Photo>) -> Seq<PhotoModel> {
    s.map_values(|p: Photo| p@)
}

/// An album: a collection of photos sorted by capture time.
/// Has a non-unique name given by the user. The sort invariant is supplied
/// by the caller; the album never sorts and never checks it.
#[derive(Debug, PartialEq, Eq)]
pub struct Album {
    pub id: u64,
    pub name: String,
    pub photos: Vec<Photo>,
}

impl Album {
    /// The abstract sequence of this album's photos.
    pub open spec fn photos_model(&self) -> Seq<PhotoModel> {
        models(self.photos@)
    }

    /// Returns the photos in the half-open time interval `[start, end)`, as
    /// a borrowed view into the album's own sequence.
    ///
    /// The result is the contiguous block found by two forward scans: from
    /// the first photo at or after `start` up to the first photo at or after
    /// `end`. When the photos are sorted by capture time — the album
    /// invariant — that block holds exactly the photos whose capture time
    /// falls in `[start, end)`, in their original order.
    pub fn get_photos(&self, start: i64, end: i64) -> (r: &[Photo])
        ensures
            r@ == self.photos@.subrange(
                scan_from(self.photos_model(), start, 0),
                scan_from(self.photos_model(), end, scan_from(self.photos_model(), start, 0)),
            ),
            models(r@) == range_scan(self.photos_model(), start, end),
            sorted_by_time(self.photos_model()) ==> models(r@) == photos_in(
                self.photos_model(),
                start,
                end,
            ),
    {
        let ghost s = self.photos_model();
        let n = self.photos.len();

        let mut i: usize = 0;
        while i < n && self.photos[i].date_time < start
            invariant
                0 <= i <= n,
                n == self.photos.len(),
                s == self.photos_model(),
                forall|k: int| 0 <= k < i ==> (#[trigger] s[k]).date_time < start,
            decreases n - i,
        {
            i = i + 1;
        }
        proof {
            lemma_scan_from_unique(s, start, 0, i as int);
        }

        let mut j: usize = i;
        while j < n && self.photos[j].date_time < end
            invariant
                i <= j <= n,
                n == self.photos.len(),
                s == self.photos_model(),
                forall|k: int| i <= k < j ==> (#[trigger] s[k]).date_time < end,
            decreases n - j,
        {
            j = j + 1;
        }
        proof {
            lemma_scan_from_unique(s, end, i as int, j as int);
        }

        let r = slice_subrange(self.photos.as_slice(), i, j);
        proof {
            assert(models(r@) =~= s.subrange(i as int, j as int));
            if sorted_by_time(s) {
                lemma_sorted_scan_is_filter(s, start, end);
            }
        }
        r
    }
}

} // verus!
