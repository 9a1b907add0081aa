//! The normalized in-memory description of one track from the local catalog.

use vstd::prelude::*;
use vstd::string::*;

use crate::parse::{parse_filename, spec_parse};
use crate::search::{find_first, first_match_from, lemma_found_when_occurs, matches_at};

verus! {

/// The cloud-sync root prefix stripped from paths for display.
pub open spec fn icloud_prefix() -> Seq<char> {
    "/Mobile Documents/com~apple~CloudDocs"@
}

/// What `Song::relative_path` returns: everything after the first occurrence
/// of the cloud-sync prefix, or the whole path when the prefix is absent.
pub open spec fn relative_path_spec(path: Seq<char>) -> Seq<char> {
    let i = first_match_from(path, icloud_prefix(), 0);
    if i >= 0 {
        path.subrange(i + icloud_prefix().len(), path.len() as int)
    } else {
        path
    }
}

/// The last index `<= q` at which `s` holds a path separator, or `-1` when
/// there is none.
pub open spec fn last_slash_from(s: Seq<char>, q: int) -> int
    decreases q + 1,
{
    if q < 0 {
        -1
    } else if s[q] == '/' {
        q
    } else {
        last_slash_from(s, q - 1)
    }
}

/// The final path segment: everything after the last `'/'`, or the whole
/// string when it has none.
pub open spec fn basename(s: Seq<char>) -> Seq<char> {
    s.subrange(last_slash_from(s, s.len() - 1) + 1, s.len() as int)
}

/// Extracts the final path segment of `path`.
fn basename_of(path: &str) -> (r: &str)
    ensures
        r@ == basename(path@),
{
    let n = path.unicode_len();
    if n == 0 {
        assert(path@ =~= basename(path@));
        return path;
    }
    let mut q: usize = n - 1;
    loop
        invariant
            n == path@.len(),
            n >= 1,
            q <= n - 1,
            last_slash_from(path@, n - 1) == last_slash_from(path@, q as int),
        decreases q,
    {
        if path.get_char(q) == '/' {
            return path.substring_char(q + 1, n);
        }
        if q == 0 {
            proof {
                assert(last_slash_from(path@, -1) == -1);
                assert(last_slash_from(path@, 0) == -1);
                assert(path@ =~= path@.subrange(0, n as int));
            }
            return path;
        }
        q = q - 1;
    }
}

/// One track as seen by the local media catalog: its absolute path and its
/// 0–5 star rating. Rating 0 means "unrated", not "rated zero stars".
#[derive(Debug, Clone, PartialEq, Eq)]
pub struct Song {
    pub path: String,
    pub rating: usize,
}

/// The mathematical model of a [`Song`].
pub struct SongV {
    pub path: Seq<char>,
    pub rating: int,
}

impl View for Song {
    type V = SongV;

    open spec fn view(&self) -> SongV {
        SongV { path: self.path@, rating: self.rating as int }
    }
}

/// What one item of the media-library provider exposes, as plain values: an
/// optional file path, the raw 0–100 rating, and whether that rating was
/// inferred by the provider rather than set by the user.
#[derive(Debug, Clone, PartialEq, Eq)]
pub struct ProviderItem {
    pub path: Option<String>,
    pub raw_rating: usize,
    pub rating_computed: bool,
}

/// The mathematical model of a [`ProviderItem`].
pub struct ProviderItemV {
    pub path: Option<Seq<char>>,
    pub raw_rating: int,
    pub rating_computed: bool,
}

impl View for ProviderItem {
    type V = ProviderItemV;

    open spec fn view(&self) -> ProviderItemV {
        ProviderItemV {
            path: match self.path {
                Some(p) => Some(p@),
                None => None,
            },
            raw_rating: self.raw_rating as int,
            rating_computed: self.rating_computed,
        }
    }
}

/// The song one provider item yields: none when the provider computed the
/// rating (such items leave the working set entirely) or when the item has
/// no locatable file — this library applies the strict construction policy
/// and drops unlocatable items rather than keeping them with an absent path.
pub open spec fn song_of_item(item: ProviderItemV) -> Option<SongV> {
    if item.rating_computed {
        None
    } else {
        match item.path {
            Some(p) => Some(SongV { path: p, rating: item.raw_rating / 20 }),
            None => None,
        }
    }
}

/// The working set a whole provider enumeration yields, in provider order.
pub open spec fn songs_of_items(items: Seq<ProviderItemV>) -> Seq<SongV>
    decreases items.len(),
{
    if items.len() == 0 {
        seq![]
    } else {
        let rest = songs_of_items(items.drop_last());
        match song_of_item(items.last()) {
            Some(sv) => rest.push(sv),
            None => rest,
        }
    }
}

/// The views of a sequence of songs.
pub open spec fn song_views(s: Seq<Song>) -> Seq<SongV> {
    s.map_values(|song: Song| song@)
}

impl Song {
    /// Builds the track record for one provider item whose rating the user
    /// set: the raw rating scaled to 0–5, and the item's path. An item
    /// without a locatable file yields `None` (the strict policy).
    pub fn from_item(item: &ProviderItem) -> (r: Option<Song>)
        requires
            !item.rating_computed,
        ensures
            match r {
                Some(song) => song_of_item(item@) == Some(song@),
                None => song_of_item(item@) is None,
            },
    {
        match &item.path {
            Some(p) => Some(Song { path: p.clone(), rating: rating_from_raw(item.raw_rating) }),
            None => None,
        }
    }
}

/// Builds the working set from a full provider enumeration: items whose
/// rating the provider computed are excluded, items without a locatable file
/// are dropped, and every kept item becomes a track record in provider
/// order.
pub fn all_songs(items: &Vec<ProviderItem>) -> (r: Vec<Song>)
    ensures
        song_views(r@) == songs_of_items(items@.map_values(|it: ProviderItem| it@)),
{
    let ghost all = items@.map_values(|it: ProviderItem| it@);
    let mut out: Vec<Song> = Vec::new();
    let mut i: usize = 0;
    while i < items.len()
        invariant
            i <= items@.len(),
            all == items@.map_values(|it: ProviderItem| it@),
            all.len() == items@.len(),
            song_views(out@) == songs_of_items(all.take(i as int)),
        decreases items@.len() - i,
    {
        proof {
            assert(all.take(i + 1).drop_last() =~= all.take(i as int));
            assert(all.take(i + 1).last() == all[i as int]);
        }
        let item = &items[i];
        if !item.rating_computed {
            match Song::from_item(item) {
                Some(song) => {
                    out.push(song);
                    proof {
                        assert(song_views(out@) =~= songs_of_items(all.take(i + 1)));
                    }
                },
                None => {
                    proof {
                        assert(song_views(out@) =~= songs_of_items(all.take(i + 1)));
                    }
                },
            }
        } else {
            proof {
                assert(song_views(out@) =~= songs_of_items(all.take(i + 1)));
            }
        }
        i += 1;
    }
    proof {
        assert(all.take(items@.len() as int) =~= all);
    }
    out
}

impl Song {
    /// The display form of this song's path: the suffix after the first
    /// occurrence of the cloud-sync prefix when that prefix is present, and
    /// the full path otherwise.
    pub fn relative_path(&self) -> (r: &str)
        ensures
            r@ == relative_path_spec(self.path@),
            first_match_from(self.path@, icloud_prefix(), 0) == -1 ==> r@ == self.path@,
            forall|i: int|
                matches_at(self.path@, icloud_prefix(), i) ==> r@ == self.path@.subrange(
                    first_match_from(self.path@, icloud_prefix(), 0) + icloud_prefix().len(),
                    self.path@.len() as int,
                ),
    {
        let pat = "/Mobile Documents/com~apple~CloudDocs";
        proof {
            lemma_found_when_occurs(self.path@, pat@);
        }
        match find_first(self.path.as_str(), pat) {
            Some(i) => {
                let n = self.path.as_str().unicode_len();
                let m = pat.unicode_len();
                self.path.as_str().substring_char(i + m, n)
            },
            None => self.path.as_str(),
        }
    }

    /// The cross-source identity key of this song: the digit run of the
    /// trailing bracketed token of its filename — the final path segment —
    /// or `None` when that segment does not have the canonical shape.
    /// Directories play no part: a separator that appears only in a
    /// directory name yields no key.
    pub fn deezer_id(&self) -> (r: Option<String>)
        ensures
            match spec_parse(basename(self.path@)) {
                Some(sp) => r matches Some(id) && id@ == sp.external_id,
                None => r is None,
            },
    {
        let name = basename_of(self.path.as_str());
        match parse_filename(name) {
            Some(parts) => Some(parts.external_id),
            None => None,
        }
    }
}

/// Scales a raw provider rating (0–100, in practice a multiple of 20) down to
/// the 0–5 scale used everywhere inside this library. Integer division
/// truncates any raw value that is not a multiple of 20.
pub fn rating_from_raw(raw: usize) -> (r: usize)
    ensures
        r == raw / 20,
        raw <= 100 ==> r <= 5,
{
    raw / 20
}

} // verus!
