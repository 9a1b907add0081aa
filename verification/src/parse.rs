//! The filename key parser.
//!
//! A track filename is expected to have the shape
//! `[<ordinal>. ]<title> -- <artist> [<external_id>].mp3`: an optional leading
//! ordinal (digits, a dot, a space), free-text title and artist separated by
//! the literal token `" -- "`, and a trailing bracketed run of digits — the
//! external id — immediately before the `.mp3` suffix. Matching is anchored at
//! both ends; any deviation yields no match rather than a partial result.
//!
//! Because title and artist are free text, a filename can be split in more
//! than one way. The parser resolves the ambiguity the way a greedy,
//! backtracking matcher does: the bracketed id is the digit run directly
//! before the final `].mp3`, the separator chosen is the last occurrence, and
//! the ordinal is taken whenever the name starts with one and a separator
//! remains to its right.

use vstd::prelude::*;
use vstd::string::*;

use crate::all_digits;
use crate::is_digit;
use crate::search::matches_at;

verus! {

/// The title/artist separator token.
pub open spec fn sep() -> Seq<char> {
    seq![' ', '-', '-', ' ']
}

/// The mandatory filename extension.
pub open spec fn mp3_suffix() -> Seq<char> {
    seq!['.', 'm', 'p', '3']
}

/// The start of the longest run of digit characters of `s` that ends just
/// before index `e` (equal to `e` when `s[e - 1]` is not a digit).
pub open spec fn digit_run_start(s: Seq<char>, e: int) -> int
    decreases e,
{
    if 0 < e <= s.len() && is_digit(s[e - 1]) {
        digit_run_start(s, e - 1)
    } else {
        e
    }
}

/// The end of the run of digit characters of `s` that starts at index `i`
/// (equal to `i` when `s[i]` is not a digit).
pub open spec fn lead_digits_end(s: Seq<char>, i: int) -> int
    decreases s.len() - i,
{
    if 0 <= i < s.len() && is_digit(s[i]) {
        lead_digits_end(s, i + 1)
    } else {
        i
    }
}

/// The last index `p` with `1 <= p <= q` at which the separator occurs in
/// `h`, or `-1` when there is none. Index 0 is excluded: a match there would
/// leave an empty title.
pub open spec fn last_sep_from(h: Seq<char>, q: int) -> int
    decreases q,
{
    if q < 1 {
        -1
    } else if matches_at(h, sep(), q) {
        q
    } else {
        last_sep_from(h, q - 1)
    }
}

/// The four captures of a successfully parsed filename, at the
/// specification level.
pub struct SpecParts {
    /// Leading ordinal digits, when the filename starts with `"<digits>. "`.
    pub ordinal: Option<Seq<char>>,
    /// Free text before the separator; never empty.
    pub title: Seq<char>,
    /// Free text between the separator and the bracketed id; absent when that
    /// stretch is empty.
    pub artist: Option<Seq<char>>,
    /// The digit run of the trailing `[...]`; never empty.
    pub external_id: Seq<char>,
}

/// Parses the head of a filename (everything before `" [<id>].mp3"`) into
/// ordinal, title and artist, pairing them with the already-extracted id.
pub open spec fn spec_parse_head(h: Seq<char>, id: Seq<char>) -> Option<SpecParts> {
    let hn = h.len() as int;
    let d = lead_digits_end(h, 0);
    if 1 <= d && d + 2 <= hn && h[d] == '.' && h[d + 1] == ' ' && last_sep_from(
        h.subrange(d + 2, hn),
        hn - d - 6,
    ) >= 1 {
        let r = h.subrange(d + 2, hn);
        let rn = r.len() as int;
        let p = last_sep_from(r, rn - 4);
        Some(
            SpecParts {
                ordinal: Some(h.subrange(0, d)),
                title: r.subrange(0, p),
                artist: if p + 4 < rn {
                    Some(r.subrange(p + 4, rn))
                } else {
                    None
                },
                external_id: id,
            },
        )
    } else if last_sep_from(h, hn - 4) >= 1 {
        let p = last_sep_from(h, hn - 4);
        Some(
            SpecParts {
                ordinal: None,
                title: h.subrange(0, p),
                artist: if p + 4 < hn {
                    Some(h.subrange(p + 4, hn))
                } else {
                    None
                },
                external_id: id,
            },
        )
    } else {
        None
    }
}

/// Parses a whole filename: `Some` exactly on the canonical shape, with the
/// captures a greedy matcher would produce.
pub open spec fn spec_parse(s: Seq<char>) -> Option<SpecParts> {
    let n = s.len() as int;
    if n >= 5 && s[n - 5] == ']' && s.subrange(n - 4, n) == mp3_suffix() {
        let j = n - 5;
        let k = digit_run_start(s, j);
        if 2 <= k && k < j && s[k - 1] == '[' && s[k - 2] == ' ' {
            spec_parse_head(s.subrange(0, k - 2), s.subrange(k, j))
        } else {
            None
        }
    } else {
        None
    }
}

/// The digit run found by `digit_run_start` really is one: it consists of
/// digits, and it cannot be extended to the left.
proof fn lemma_digit_run_start_props(s: Seq<char>, e: int)
    requires
        0 <= e <= s.len(),
    ensures
        0 <= digit_run_start(s, e) <= e,
        forall|i: int| digit_run_start(s, e) <= i < e ==> is_digit(#[trigger] s[i]),
        digit_run_start(s, e) > 0 ==> !is_digit(s[digit_run_start(s, e) - 1]),
    decreases e,
{
    if 0 < e && is_digit(s[e - 1]) {
        lemma_digit_run_start_props(s, e - 1);
    }
}

/// `digit_run_start` finds exactly the boundary of a known digit run.
proof fn lemma_digit_run_start_exact(s: Seq<char>, e: int, m: int)
    requires
        0 <= m <= e <= s.len(),
        forall|i: int| m <= i < e ==> is_digit(#[trigger] s[i]),
        m > 0 ==> !is_digit(s[m - 1]),
    ensures
        digit_run_start(s, e) == m,
    decreases e - m,
{
    if e > m {
        lemma_digit_run_start_exact(s, e - 1, m);
    }
}

/// The leading digit stretch found by `lead_digits_end` consists of digits
/// and cannot be extended to the right.
proof fn lemma_lead_digits_props(s: Seq<char>, i: int)
    requires
        0 <= i <= s.len(),
    ensures
        i <= lead_digits_end(s, i) <= s.len(),
        forall|j: int| i <= j < lead_digits_end(s, i) ==> is_digit(#[trigger] s[j]),
        lead_digits_end(s, i) < s.len() ==> !is_digit(s[lead_digits_end(s, i)]),
    decreases s.len() - i,
{
    if i < s.len() && is_digit(s[i]) {
        lemma_lead_digits_props(s, i + 1);
    }
}

/// What a successful backward separator search guarantees, and what a failed
/// one rules out.
proof fn lemma_last_sep_props(h: Seq<char>, q: int)
    ensures
        last_sep_from(h, q) == -1 ==> forall|u: int|
            1 <= u <= q ==> !matches_at(h, sep(), u),
        last_sep_from(h, q) >= 0 ==> 1 <= last_sep_from(h, q) <= q && matches_at(
            h,
            sep(),
            last_sep_from(h, q),
        ),
    decreases q,
{
    if q >= 1 && !matches_at(h, sep(), q) {
        lemma_last_sep_props(h, q - 1);
    }
}

/// A known separator occurrence bounds the backward search from below.
proof fn lemma_last_sep_at_least(h: Seq<char>, q: int, u: int)
    requires
        1 <= u <= q,
        matches_at(h, sep(), u),
    ensures
        last_sep_from(h, q) >= u,
    decreases q,
{
    if q > u && !matches_at(h, sep(), q) {
        lemma_last_sep_at_least(h, q - 1, u);
    }
}

/// The four captures of a successfully parsed filename: ordinal, title,
/// artist and external id, by position.
#[derive(Debug, Clone, PartialEq, Eq)]
pub struct FilenameParts {
    pub ordinal: Option<String>,
    pub title: String,
    pub artist: Option<String>,
    pub external_id: String,
}

impl View for FilenameParts {
    type V = SpecParts;

    open spec fn view(&self) -> SpecParts {
        SpecParts {
            ordinal: match self.ordinal {
                Some(o) => Some(o@),
                None => None,
            },
            title: self.title@,
            artist: match self.artist {
                Some(a) => Some(a@),
                None => None,
            },
            external_id: self.external_id@,
        }
    }
}

/// Reassembles captures into the filename they came from.
pub open spec fn recompose(
    ordinal: Option<Seq<char>>,
    title: Seq<char>,
    artist: Option<Seq<char>>,
    id: Seq<char>,
) -> Seq<char> {
    (match ordinal {
        Some(o) => o + seq!['.', ' '],
        None => seq![],
    }) + title + sep() + (match artist {
        Some(a) => a,
        None => seq![],
    }) + seq![' ', '['] + id + seq![']'] + mp3_suffix()
}

/// The given captures are one valid reading of `s` in the canonical shape
/// `[<ordinal>. ]<title> -- <artist> [<external_id>].mp3`.
pub open spec fn is_decomposition(
    s: Seq<char>,
    ordinal: Option<Seq<char>>,
    title: Seq<char>,
    artist: Option<Seq<char>>,
    id: Seq<char>,
) -> bool {
    &&& title.len() >= 1
    &&& id.len() >= 1
    &&& all_digits(id)
    &&& (ordinal matches Some(o) ==> o.len() >= 1 && all_digits(o))
    &&& (artist matches Some(a) ==> a.len() >= 1)
    &&& s == recompose(ordinal, title, artist, id)
}

/// `s` has the canonical shape: some reading of it decomposes it.
pub open spec fn matches_shape(s: Seq<char>) -> bool {
    exists|ordinal: Option<Seq<char>>, title: Seq<char>, artist: Option<Seq<char>>, id: Seq<char>|
        is_decomposition(s, ordinal, title, artist, id)
}

/// Soundness of the parser: whenever it succeeds, its captures are a valid
/// reading of the filename — in particular, the fourth capture is the digit
/// run of the bracketed token immediately preceding the `.mp3` suffix.
pub proof fn lemma_parse_sound(s: Seq<char>)
    ensures
        spec_parse(s) matches Some(p) ==> is_decomposition(
            s,
            p.ordinal,
            p.title,
            p.artist,
            p.external_id,
        ),
        spec_parse(s) is Some ==> matches_shape(s),
{
    if spec_parse(s) is Some {
        let n = s.len() as int;
        let j = n - 5;
        let k = digit_run_start(s, j);
        let h = s.subrange(0, k - 2);
        let id = s.subrange(k, j);
        lemma_digit_run_start_props(s, j);
        assert(all_digits(id));
        assert(id.len() >= 1);
        let p = spec_parse(s)->Some_0;
        assert(spec_parse_head(h, id) == Some(p));
        lemma_parse_head_sound(h, id);
        assert(h == recompose_head(p.ordinal, p.title, p.artist));
        assert(s =~= h + seq![' ', '['] + id + seq![']'] + mp3_suffix());
        assert(recompose(p.ordinal, p.title, p.artist, p.external_id) =~= recompose_head(
            p.ordinal,
            p.title,
            p.artist,
        ) + seq![' ', '['] + p.external_id + seq![']'] + mp3_suffix());
        assert(is_decomposition(s, p.ordinal, p.title, p.artist, p.external_id));
    }
}

/// The head part of a recomposition: everything before `" [<id>].mp3"`.
pub open spec fn recompose_head(
    ordinal: Option<Seq<char>>,
    title: Seq<char>,
    artist: Option<Seq<char>>,
) -> Seq<char> {
    (match ordinal {
        Some(o) => o + seq!['.', ' '],
        None => seq![],
    }) + title + sep() + (match artist {
        Some(a) => a,
        None => seq![],
    })
}

/// Soundness of the head parser: its captures reassemble into the head, the
/// title is never empty, and ordinal and artist obey their shape.
proof fn lemma_parse_head_sound(h: Seq<char>, id: Seq<char>)
    ensures
        spec_parse_head(h, id) matches Some(p) ==> {
            &&& h == recompose_head(p.ordinal, p.title, p.artist)
            &&& p.title.len() >= 1
            &&& (p.ordinal matches Some(o) ==> o.len() >= 1 && all_digits(o))
            &&& (p.artist matches Some(a) ==> a.len() >= 1)
            &&& p.external_id == id
        },
{
    let hn = h.len() as int;
    let d = lead_digits_end(h, 0);
    lemma_lead_digits_props(h, 0);
    if 1 <= d && d + 2 <= hn && h[d] == '.' && h[d + 1] == ' ' && last_sep_from(
        h.subrange(d + 2, hn),
        hn - d - 6,
    ) >= 1 {
        let r = h.subrange(d + 2, hn);
        let rn = r.len() as int;
        let p = last_sep_from(r, rn - 4);
        lemma_last_sep_props(r, rn - 4);
        assert(matches_at(r, sep(), p));
        let ordinal = h.subrange(0, d);
        let title = r.subrange(0, p);
        let artist_part = if p + 4 < rn {
            r.subrange(p + 4, rn)
        } else {
            Seq::<char>::empty()
        };
        assert(r.subrange(p, p + 4) == sep());
        assert(r =~= title + sep() + artist_part) by {
            assert(forall|x: int|
                p <= x < p + 4 ==> r[x] == #[trigger] sep()[x - p]) by {
                assert(forall|y: int|
                    0 <= y < 4 ==> r.subrange(p, p + 4)[y] == #[trigger] r[p + y]);
            }
        }
        assert(h =~= ordinal + seq!['.', ' '] + r);
        assert(h =~= recompose_head(Some(ordinal), title, if p + 4 < rn {
            Some(artist_part)
        } else {
            None
        }));
    } else if last_sep_from(h, hn - 4) >= 1 {
        let p = last_sep_from(h, hn - 4);
        lemma_last_sep_props(h, hn - 4);
        assert(matches_at(h, sep(), p));
        let title = h.subrange(0, p);
        let artist_part = if p + 4 < hn {
            h.subrange(p + 4, hn)
        } else {
            Seq::<char>::empty()
        };
        assert(h.subrange(p, p + 4) == sep());
        assert(h =~= title + sep() + artist_part) by {
            assert(forall|x: int|
                p <= x < p + 4 ==> h[x] == #[trigger] sep()[x - p]) by {
                assert(forall|y: int|
                    0 <= y < 4 ==> h.subrange(p, p + 4)[y] == #[trigger] h[p + y]);
            }
        }
        assert(h =~= recompose_head(None, title, if p + 4 < hn {
            Some(artist_part)
        } else {
            None
        }));
    }
}

/// Completeness of the parser: on every filename of the canonical shape it
/// succeeds, and — since the trailing bracketed digit run is the same under
/// every reading — its fourth capture is that digit run.
pub proof fn lemma_parse_complete(
    s: Seq<char>,
    ordinal: Option<Seq<char>>,
    title: Seq<char>,
    artist: Option<Seq<char>>,
    id: Seq<char>,
)
    requires
        is_decomposition(s, ordinal, title, artist, id),
    ensures
        spec_parse(s) is Some,
        spec_parse(s) matches Some(p) ==> p.external_id == id,
{
    let pre = recompose_head(ordinal, title, artist);
    assert(s =~= pre + seq![' ', '['] + id + seq![']'] + mp3_suffix());
    let n = s.len() as int;
    let prelen = pre.len() as int;
    assert(prelen >= 5);
    let j = n - 5;
    let m = prelen + 2;
    assert(s[n - 5] == ']');
    assert(s.subrange(n - 4, n) =~= mp3_suffix());
    assert(forall|i: int| m <= i < j ==> is_digit(#[trigger] s[i])) by {
        assert(forall|i: int| m <= i < j ==> s[i] == id[i - m]);
    }
    assert(s[m - 1] == '[');
    assert(!is_digit('['));
    lemma_digit_run_start_exact(s, j, m);
    assert(digit_run_start(s, j) == m);
    assert(s[m - 2] == ' ');
    assert(s.subrange(0, m - 2) =~= pre);
    assert(s.subrange(m, j) =~= id);
    lemma_parse_head_complete(pre, ordinal, title, artist, id);
}

/// Completeness of the head parser: every recomposed head parses, with the
/// given id carried through unchanged.
proof fn lemma_parse_head_complete(
    h: Seq<char>,
    ordinal: Option<Seq<char>>,
    title: Seq<char>,
    artist: Option<Seq<char>>,
    id: Seq<char>,
)
    requires
        h == recompose_head(ordinal, title, artist),
        title.len() >= 1,
        ordinal matches Some(o) ==> o.len() >= 1 && all_digits(o),
        artist matches Some(a) ==> a.len() >= 1,
    ensures
        spec_parse_head(h, id) is Some,
        spec_parse_head(h, id) matches Some(p) ==> p.external_id == id,
{
    let hn = h.len() as int;
    let olen: int = match ordinal {
        Some(o) => o.len() as int + 2,
        None => 0,
    };
    let p0 = olen + title.len();
    assert(h.subrange(p0, p0 + 4) =~= sep());
    assert(matches_at(h, sep(), p0));
    assert(1 <= p0 && p0 + 4 <= hn);
    let d = lead_digits_end(h, 0);
    if 1 <= d && d + 2 <= hn && h[d] == '.' && h[d + 1] == ' ' && last_sep_from(
        h.subrange(d + 2, hn),
        hn - d - 6,
    ) >= 1 {
        assert(spec_parse_head(h, id) is Some);
    } else {
        lemma_last_sep_at_least(h, hn - 4, p0);
        assert(last_sep_from(h, hn - 4) >= 1);
        assert(spec_parse_head(h, id) is Some);
    }
}

/// Whether `c` is a decimal digit.
pub fn is_digit_char(c: char) -> (b: bool)
    ensures
        b == is_digit(c),
{
    c >= '0' && c <= '9'
}

/// Finds the last occurrence of the separator in `h` at an index `>= 1`.
fn find_last_sep(h: &str) -> (r: Option<usize>)
    ensures
        match r {
            Some(p) => last_sep_from(h@, h@.len() - 4) == p && 1 <= p && matches_at(
                h@,
                sep(),
                p as int,
            ),
            None => last_sep_from(h@, h@.len() - 4) == -1,
        },
{
    let hn = h.unicode_len();
    if hn < 5 {
        return None;
    }
    let mut q: usize = hn - 4;
    loop
        invariant
            hn == h@.len(),
            hn >= 5,
            1 <= q <= hn - 4,
            last_sep_from(h@, hn - 4) == last_sep_from(h@, q as int),
        decreases q,
    {
        if h.get_char(q) == ' ' && h.get_char(q + 1) == '-' && h.get_char(q + 2) == '-'
            && h.get_char(q + 3) == ' ' {
            assert(h@.subrange(q as int, q + 4) =~= sep());
            return Some(q);
        }
        proof {
            if matches_at(h@, sep(), q as int) {
                assert(sep()[0] == ' ' && sep()[1] == '-' && sep()[2] == '-' && sep()[3] == ' ');
                assert(h@.subrange(q as int, q + 4)[0] == h@[q as int]);
                assert(h@.subrange(q as int, q + 4)[1] == h@[q + 1]);
                assert(h@.subrange(q as int, q + 4)[2] == h@[q + 2]);
                assert(h@.subrange(q as int, q + 4)[3] == h@[q + 3]);
            }
            assert(!matches_at(h@, sep(), q as int));
        }
        if q == 1 {
            proof {
                assert(last_sep_from(h@, 0) == -1);
                assert(last_sep_from(h@, 1) == -1);
            }
            return None;
        }
        q = q - 1;
    }
}

/// Extracts the four captures from a filename of the canonical shape
/// `[<ordinal>. ]<title> -- <artist> [<external_id>].mp3`, or returns `None`
/// when the filename deviates from that shape in any way.
pub fn parse_filename(filename: &str) -> (r: Option<FilenameParts>)
    ensures
        r is Some <==> spec_parse(filename@) is Some,
        r matches Some(p) ==> spec_parse(filename@) == Some(p@),
{
    let s = filename;
    let n = s.unicode_len();
    if n < 5 {
        return None;
    }
    if s.get_char(n - 5) != ']' {
        return None;
    }
    if s.get_char(n - 4) != '.' || s.get_char(n - 3) != 'm' || s.get_char(n - 2) != 'p'
        || s.get_char(n - 1) != '3' {
        proof {
            if s@.subrange(n - 4, n as int) == mp3_suffix() {
                assert(s@.subrange(n - 4, n as int)[0] == s@[n - 4]);
                assert(s@.subrange(n - 4, n as int)[1] == s@[n - 3]);
                assert(s@.subrange(n - 4, n as int)[2] == s@[n - 2]);
                assert(s@.subrange(n - 4, n as int)[3] == s@[n - 1]);
            }
        }
        return None;
    }
    assert(s@.subrange(n - 4, n as int) =~= mp3_suffix());
    let j = n - 5;
    let mut k = j;
    while k > 0 && is_digit_char(s.get_char(k - 1))
        invariant
            n == s@.len(),
            n >= 5,
            j == n - 5,
            k <= j,
            digit_run_start(s@, j as int) == digit_run_start(s@, k as int),
        decreases k,
    {
        k = k - 1;
    }
    assert(digit_run_start(s@, k as int) == k as int);
    if k == j || k < 2 {
        return None;
    }
    if s.get_char(k - 1) != '[' || s.get_char(k - 2) != ' ' {
        return None;
    }
    let id = s.substring_char(k, j).to_owned();
    let h = s.substring_char(0, k - 2);
    let hn = k - 2;
    assert(h@ == s@.subrange(0, k - 2));
    let mut d: usize = 0;
    while d < hn && is_digit_char(h.get_char(d))
        invariant
            hn == h@.len(),
            d <= hn,
            lead_digits_end(h@, 0) == lead_digits_end(h@, d as int),
        decreases hn - d,
    {
        d = d + 1;
    }
    assert(lead_digits_end(h@, 0) == d as int);
    if d >= 1 && d + 2 <= hn && h.get_char(d) == '.' && h.get_char(d + 1) == ' ' {
        let r_part = h.substring_char(d + 2, hn);
        match find_last_sep(r_part) {
            Some(p) => {
                let rn = hn - (d + 2);
                let title = r_part.substring_char(0, p);
                let artist = if p + 4 < rn {
                    Some(r_part.substring_char(p + 4, rn).to_owned())
                } else {
                    None
                };
                let ordinal = Some(h.substring_char(0, d).to_owned());
                let parts = FilenameParts { ordinal, title: title.to_owned(), artist, external_id: id };
                return Some(parts);
            },
            None => {},
        }
    }
    match find_last_sep(h) {
        Some(p) => {
            let title = h.substring_char(0, p);
            let artist = if p + 4 < hn {
                Some(h.substring_char(p + 4, hn).to_owned())
            } else {
                None
            };
            let parts = FilenameParts { ordinal: None, title: title.to_owned(), artist, external_id: id };
            Some(parts)
        },
        None => None,
    }
}

} // verus!
