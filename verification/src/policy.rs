//! The reconciliation policy.
//!
//! A pure decision function turns the per-track signals — does the file
//! exist, what is the local rating, was an external record found, is there an
//! identity key at all — into zero or more findings. The rules, in precedence
//! order:
//!
//! 1. the file does not exist on disk: `MissingFile`, terminal for the track;
//! 2. the file exists and the local rating is 1: `LowRatingCandidate`, a flag
//!    for operator review, terminal for the track;
//! 3. the file exists, an external record was found, the local rating is
//!    positive and the external rating is 0: `UnratedInExternalStore`;
//! 4. the file exists, an external record was found, the local rating is
//!    positive and the two ratings differ: `RatingMismatch`;
//! 5. the file exists, an identity key is present, and the lookup found
//!    nothing: `NotFoundInExternalStore`;
//! 6. no identity key: no external-store finding;
//! 7. existence unknown (the check failed): no finding at all — the track is
//!    skipped, not reported missing.

use vstd::prelude::*;

verus! {

/// One record of the external content store: its internal id, the filename
/// field the identity key is matched against, and a 0–5 rating.
#[derive(Debug, Clone, PartialEq, Eq)]
pub struct ExternalRecord {
    pub id: String,
    pub filename_field: String,
    pub rating: usize,
}

/// The mathematical model of an [`ExternalRecord`].
pub struct ExternalRecordV {
    pub id: Seq<char>,
    pub filename_field: Seq<char>,
    pub rating: int,
}

impl View for ExternalRecord {
    type V = ExternalRecordV;

    open spec fn view(&self) -> ExternalRecordV {
        ExternalRecordV {
            id: self.id@,
            filename_field: self.filename_field@,
            rating: self.rating as int,
        }
    }
}

/// One unit of reported discrepancy or status produced by the policy.
#[derive(Debug, Clone, PartialEq, Eq)]
pub enum Finding {
    /// The local and external ratings are both set and differ.
    RatingMismatch { path: String, local_rating: usize, external_rating: usize },
    /// Locally rated, but the external record carries no rating.
    UnratedInExternalStore { path: String, local_rating: usize },
    /// The identity key matched no record of the external store.
    NotFoundInExternalStore { path: String, external_id: String },
    /// The catalog points at a file that is not on disk.
    MissingFile { path: String },
    /// Rated 1 locally: a candidate for the operator's deletion review.
    LowRatingCandidate { path: String, local_rating: usize },
    /// The embedded tags of the file could not be read.
    TagReadFailure { path: String },
}

/// The mathematical model of a [`Finding`].
pub enum FindingV {
    RatingMismatch { path: Seq<char>, local_rating: int, external_rating: int },
    UnratedInExternalStore { path: Seq<char>, local_rating: int },
    NotFoundInExternalStore { path: Seq<char>, external_id: Seq<char> },
    MissingFile { path: Seq<char> },
    LowRatingCandidate { path: Seq<char>, local_rating: int },
    TagReadFailure { path: Seq<char> },
}

impl View for Finding {
    type V = FindingV;

    open spec fn view(&self) -> FindingV {
        match self {
            Finding::RatingMismatch { path, local_rating, external_rating } => (
            FindingV::RatingMismatch {
                path: path@,
                local_rating: *local_rating as int,
                external_rating: *external_rating as int,
            }),
            Finding::UnratedInExternalStore { path, local_rating } => (
            FindingV::UnratedInExternalStore { path: path@, local_rating: *local_rating as int }),
            Finding::NotFoundInExternalStore { path, external_id } => (
            FindingV::NotFoundInExternalStore { path: path@, external_id: external_id@ }),
            Finding::MissingFile { path } => FindingV::MissingFile { path: path@ },
            Finding::LowRatingCandidate { path, local_rating } => (
            FindingV::LowRatingCandidate { path: path@, local_rating: *local_rating as int }),
            Finding::TagReadFailure { path } => FindingV::TagReadFailure { path: path@ },
        }
    }
}

/// The views of a sequence of findings.
pub open spec fn views_of(s: Seq<Finding>) -> Seq<FindingV> {
    s.map_values(|f: Finding| f@)
}

/// The view of an optional external record.
pub open spec fn opt_record_view(o: Option<&ExternalRecord>) -> Option<ExternalRecordV> {
    match o {
        Some(r) => Some(r@),
        None => None,
    }
}

/// The view of an optional string slice.
pub open spec fn opt_str_view(o: Option<&str>) -> Option<Seq<char>> {
    match o {
        Some(s) => Some(s@),
        None => None,
    }
}

/// The findings the policy owes for one track, given its signals.
pub open spec fn reconcile_spec(
    path: Seq<char>,
    exists: Option<bool>,
    local: int,
    external: Option<ExternalRecordV>,
    external_id: Option<Seq<char>>,
) -> Seq<FindingV> {
    match exists {
        None => seq![],
        Some(false) => seq![FindingV::MissingFile { path }],
        Some(true) => if local == 1 {
            seq![FindingV::LowRatingCandidate { path, local_rating: 1 }]
        } else {
            match external_id {
                None => seq![],
                Some(id) => match external {
                    None => seq![FindingV::NotFoundInExternalStore { path, external_id: id }],
                    Some(rec) => if local > 0 && rec.rating == 0 {
                        seq![FindingV::UnratedInExternalStore { path, local_rating: local }]
                    } else if local > 0 && rec.rating != local {
                        seq![
                            FindingV::RatingMismatch {
                                path,
                                local_rating: local,
                                external_rating: rec.rating,
                            },
                        ]
                    } else {
                        seq![]
                    },
                },
            }
        },
    }
}

/// Applies the decision table to one track's signals.
///
/// `exists` is `None` when the existence check itself failed; `external` is
/// the record the lookup found, `None` when the lookup ran and found nothing;
/// `external_id` is the track's identity key, `None` when the filename
/// yielded none (a failed lookup is handed in as `external_id == None`, which
/// suppresses the external-store rules while keeping the file-level ones).
pub fn reconcile(
    path: &str,
    exists: Option<bool>,
    local_rating: usize,
    external: Option<&ExternalRecord>,
    external_id: Option<&str>,
) -> (r: Vec<Finding>)
    ensures
        views_of(r@) == reconcile_spec(
            path@,
            exists,
            local_rating as int,
            opt_record_view(external),
            opt_str_view(external_id),
        ),
        r@.len() <= 1,
{
    let mut out: Vec<Finding> = Vec::new();
    match exists {
        None => {},
        Some(false) => {
            out.push(Finding::MissingFile { path: path.to_owned() });
        },
        Some(true) => {
            if local_rating == 1 {
                out.push(Finding::LowRatingCandidate { path: path.to_owned(), local_rating });
            } else {
                match external_id {
                    None => {},
                    Some(id) => {
                        match external {
                            None => {
                                out.push(
                                    Finding::NotFoundInExternalStore {
                                        path: path.to_owned(),
                                        external_id: id.to_owned(),
                                    },
                                );
                            },
                            Some(rec) => {
                                if local_rating > 0 && rec.rating == 0 {
                                    out.push(
                                        Finding::UnratedInExternalStore {
                                            path: path.to_owned(),
                                            local_rating,
                                        },
                                    );
                                } else if local_rating > 0 && rec.rating != local_rating {
                                    out.push(
                                        Finding::RatingMismatch {
                                            path: path.to_owned(),
                                            local_rating,
                                            external_rating: rec.rating,
                                        },
                                    );
                                }
                            },
                        }
                    },
                }
            }
        },
    }
    proof {
        assert(views_of(out@) =~= reconcile_spec(
            path@,
            exists,
            local_rating as int,
            opt_record_view(external),
            opt_str_view(external_id),
        ));
    }
    out
}

/// What reading the embedded tags of a file produced for the recognized
/// rating source.
#[derive(Debug, Clone, Copy, PartialEq, Eq)]
pub enum TagRead {
    /// The tag container could not be read.
    Unreadable,
    /// The tags were read but carry no rating for the recognized source.
    NoRating,
    /// The rating the tags carry for the recognized source.
    Rating(usize),
}

/// The write-back proposed when a tag rating disagrees with the local one:
/// the local rating, and a week stamp for the grouping field.
#[derive(Debug, Clone, PartialEq, Eq)]
pub struct TagUpdate {
    pub rating: usize,
    pub grouping: String,
}

/// The tag-layer check: compares the local rating with the rating embedded
/// in the file's tags.
///
/// An unreadable tag container becomes a `TagReadFailure` — reported, never
/// fatal. A tag rating that disagrees with the local one becomes a
/// `RatingMismatch` scoped to the tags, together with a proposed write-back
/// of the local rating and the given week stamp. Agreement, or a tag set
/// without a rating, yields nothing.
pub fn reconcile_tags(path: &str, local_rating: usize, tag: TagRead, week_stamp: &str) -> (r: (
    Vec<Finding>,
    Option<TagUpdate>,
))
    ensures
        match tag {
            TagRead::Unreadable => views_of(r.0@) == seq![FindingV::TagReadFailure { path: path@ }]
                && r.1 is None,
            TagRead::NoRating => r.0@.len() == 0 && r.1 is None,
            TagRead::Rating(t) => if t != local_rating {
                views_of(r.0@) == seq![
                    FindingV::RatingMismatch {
                        path: path@,
                        local_rating: local_rating as int,
                        external_rating: t as int,
                    },
                ] && (r.1 matches Some(u) && u.rating == local_rating && u.grouping@
                    == week_stamp@)
            } else {
                r.0@.len() == 0 && r.1 is None
            },
        },
{
    let mut out: Vec<Finding> = Vec::new();
    match tag {
        TagRead::Unreadable => {
            out.push(Finding::TagReadFailure { path: path.to_owned() });
            proof {
                assert(views_of(out@) =~= seq![FindingV::TagReadFailure { path: path@ }]);
            }
            (out, None)
        },
        TagRead::NoRating => (out, None),
        TagRead::Rating(t) => {
            if t != local_rating {
                out.push(
                    Finding::RatingMismatch {
                        path: path.to_owned(),
                        local_rating,
                        external_rating: t,
                    },
                );
                let update = TagUpdate { rating: local_rating, grouping: week_stamp.to_owned() };
                proof {
                    assert(views_of(out@) =~= seq![
                        FindingV::RatingMismatch {
                            path: path@,
                            local_rating: local_rating as int,
                            external_rating: t as int,
                        },
                    ]);
                }
                (out, Some(update))
            } else {
                (out, None)
            }
        },
    }
}

/// The policy is pure: identical inputs always yield the identical sequence
/// of findings, and hence the same multiset — no ordering effect can
/// distinguish two runs over the same signals.
pub proof fn lemma_reconcile_deterministic(
    path: Seq<char>,
    exists: Option<bool>,
    local: int,
    external: Option<ExternalRecordV>,
    external_id: Option<Seq<char>>,
    path2: Seq<char>,
    exists2: Option<bool>,
    local2: int,
    external2: Option<ExternalRecordV>,
    external_id2: Option<Seq<char>>,
)
    requires
        path == path2,
        exists == exists2,
        local == local2,
        external == external2,
        external_id == external_id2,
    ensures
        reconcile_spec(path, exists, local, external, external_id) == reconcile_spec(
            path2,
            exists2,
            local2,
            external2,
            external_id2,
        ),
        reconcile_spec(path, exists, local, external, external_id).to_multiset()
            == reconcile_spec(path2, exists2, local2, external2, external_id2).to_multiset(),
{
}

} // verus!
