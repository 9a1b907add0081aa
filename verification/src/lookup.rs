//! Cross-source lookup: matching an identity key against external records.
//!
//! The external content store embeds the same bracketed numeric id in its own
//! filename field. A record matches a key when that field contains the token
//! `[<id>]`. When several records match, the first one wins; this library
//! keeps that policy explicit rather than disambiguating further.

use vstd::prelude::*;
use vstd::string::*;

use crate::policy::{ExternalRecord, ExternalRecordV};
use crate::search::{find_first, first_match_from, lemma_found_when_occurs, matches_at};

verus! {

/// The token form of an identity key: the id in square brackets.
pub open spec fn bracketed(id: Seq<char>) -> Seq<char> {
    seq!['['] + id + seq![']']
}

/// The record's filename field contains the bracketed form of `id`.
pub open spec fn record_matches(rec: ExternalRecordV, id: Seq<char>) -> bool {
    exists|i: int| matches_at(rec.filename_field, bracketed(id), i)
}

/// Decides whether one external record matches the identity key
/// `external_id`: its filename field must contain `[<external_id>]`.
pub fn record_matches_id(rec: &ExternalRecord, external_id: &str) -> (b: bool)
    ensures
        b == record_matches(rec@, external_id@),
{
    let token = String::from_str("[").concat(external_id).concat("]");
    proof {
        reveal_strlit("[");
        reveal_strlit("]");
        assert(token@ =~= bracketed(external_id@));
        lemma_found_when_occurs(rec.filename_field@, token@);
    }
    let field = rec.filename_field.as_str();
    let pat = token.as_str();
    assert(field@ == rec@.filename_field);
    assert(pat@ == bracketed(external_id@));
    let r = find_first(field, pat);
    match r {
        Some(i) => {
            assert(matches_at(field@, pat@, i as int));
            assert(record_matches(rec@, external_id@));
            true
        },
        None => {
            assert(first_match_from(field@, pat@, 0) == -1);
            assert(!record_matches(rec@, external_id@));
            false
        },
    }
}

/// Finds the first external record that matches `external_id`, the way the
/// store's own "contains token" query would, and `None` when no record
/// matches.
pub fn find_record<'a>(records: &'a Vec<ExternalRecord>, external_id: &str) -> (r: Option<
    &'a ExternalRecord,
>)
    ensures
        match r {
            Some(rec) => (exists|i: int|
                0 <= i < records@.len() && *rec == records@[i] && record_matches(
                    records@[i]@,
                    external_id@,
                ) && forall|k: int|
                    0 <= k < i ==> !record_matches(#[trigger] records@[k]@, external_id@)),
            None => forall|k: int|
                0 <= k < records@.len() ==> !record_matches(#[trigger] records@[k]@, external_id@),
        },
{
    let mut i: usize = 0;
    while i < records.len()
        invariant
            i <= records@.len(),
            forall|k: int| 0 <= k < i ==> !record_matches(#[trigger] records@[k]@, external_id@),
        decreases records@.len() - i,
    {
        let rec = &records[i];
        if record_matches_id(rec, external_id) {
            return Some(rec);
        }
        i += 1;
    }
    None
}

} // verus!
