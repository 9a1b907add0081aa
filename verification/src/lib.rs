//! Reconciles per-track rating and identity metadata across a local media
//! catalog, an external content store, and the filesystem.
//!
//! The library derives a cross-source identity key from a track's filename,
//! looks that key up among external records, and applies a deterministic
//! classification policy that turns the combined signals into findings an
//! operator can act on.

use vstd::prelude::*;

pub mod lookup;
pub mod parse;
pub mod policy;
pub mod runner;
pub mod search;
pub mod song;
pub mod week;

pub use lookup::find_record;
pub use lookup::record_matches_id;
pub use policy::ExternalRecord;
pub use policy::Finding;
pub use policy::reconcile;
pub use runner::LookupOutcome;
pub use runner::TrackObservation;
pub use runner::observe_song;
pub use runner::reconcile_track;
pub use runner::run_batch;

pub use parse::FilenameParts;
pub use parse::parse_filename;

pub use song::ProviderItem;
pub use song::Song;
pub use song::all_songs;
pub use song::rating_from_raw;
pub use week::week_label;
pub use week::year_week;

verus! {

/// A decimal digit as used in ordinals and external ids.
pub open spec fn is_digit(c: char) -> bool {
    '0' <= c && c <= '9'
}

/// Every character of `s` is a decimal digit.
pub open spec fn all_digits(s: Seq<char>) -> bool {
    forall|i: int| 0 <= i < s.len() ==> is_digit(#[trigger] s[i])
}

} // verus!
