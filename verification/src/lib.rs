//! A photo album modelled as a time-ordered collection of photos, with a
//! half-open range query and a derived holiday (June/December) query.

mod album;
mod holiday;
mod laws;
mod model;

pub use laws::lemma_half_open_boundary;
pub use laws::lemma_holiday_decomposition;
pub use laws::lemma_inverted_interval_empty;
pub use laws::lemma_monotonic_containment;

pub use holiday::get_holiday_photos;
pub use holiday::MAX_CALENDAR_YEAR;
pub use holiday::MIN_CALENDAR_YEAR;
pub use holiday::holiday_photos_spec;
pub use holiday::holiday_scan;
pub use holiday::month_start_instant;
pub use holiday::photos_in_two_windows;

pub use album::models;
pub use album::Album;
pub use album::Photo;
pub use model::in_window;
pub use model::lemma_sorted_scan_is_filter;
pub use model::photos_in;
pub use model::range_scan;
pub use model::scan_from;
pub use model::sorted_by_time;
pub use model::PhotoModel;
