//! The batch runner: fans the reconciliation policy out over the full track
//! set and collects every finding.
//!
//! Findings of different tracks are independent; the runner guarantees no
//! ordering between them, and a per-track failure (a lookup that errored, an
//! existence check that failed) never aborts the batch — the track is skipped
//! or reported, and the run continues.

use vstd::prelude::*;
use vstd::seq_lib::lemma_flatten_concat;
use vstd::seq_lib::lemma_multiset_commutative;
use vstd::seq_lib::lemma_seq_union_to_multiset_commutative;
use vstd::seq_lib::to_multiset_contains;
use vstd::seq_lib::to_multiset_len;
use vstd::seq_lib::to_multiset_remove;

use crate::lookup::{find_record, record_matches};
use crate::parse::spec_parse;
use crate::policy::{
    reconcile, reconcile_spec, views_of, ExternalRecord, ExternalRecordV, Finding, FindingV,
};
use crate::song::{basename, Song};

verus! {

/// How the external-store lookup for one track ended.
#[derive(Debug, Clone, PartialEq, Eq)]
pub enum LookupOutcome {
    /// The store returned a record for the track's identity key.
    Found(ExternalRecord),
    /// The store ran the query and had no matching record.
    NotFound,
    /// The query itself failed; nothing is known about the store's content.
    Failed,
}

/// The mathematical model of a [`LookupOutcome`].
pub enum LookupOutcomeV {
    Found(ExternalRecordV),
    NotFound,
    Failed,
}

impl View for LookupOutcome {
    type V = LookupOutcomeV;

    open spec fn view(&self) -> LookupOutcomeV {
        match self {
            LookupOutcome::Found(rec) => LookupOutcomeV::Found(rec@),
            LookupOutcome::NotFound => LookupOutcomeV::NotFound,
            LookupOutcome::Failed => LookupOutcomeV::Failed,
        }
    }
}

/// Everything the policy needs to know about one track: the gathered
/// signals, with all acquisition (filesystem, store, provider) already done.
#[derive(Debug, Clone, PartialEq, Eq)]
pub struct TrackObservation {
    /// The track's absolute path.
    pub path: String,
    /// Whether the file exists on disk; `None` when the check itself failed.
    pub exists: Option<bool>,
    /// The local 0–5 rating.
    pub local_rating: usize,
    /// The identity key parsed from the filename, when there is one.
    pub external_id: Option<String>,
    /// What the external-store lookup produced.
    pub lookup: LookupOutcome,
}

/// The mathematical model of a [`TrackObservation`].
pub struct TrackObservationV {
    pub path: Seq<char>,
    pub exists: Option<bool>,
    pub local_rating: int,
    pub external_id: Option<Seq<char>>,
    pub lookup: LookupOutcomeV,
}

impl View for TrackObservation {
    type V = TrackObservationV;

    open spec fn view(&self) -> TrackObservationV {
        TrackObservationV {
            path: self.path@,
            exists: self.exists,
            local_rating: self.local_rating as int,
            external_id: match self.external_id {
                Some(id) => Some(id@),
                None => None,
            },
            lookup: self.lookup@,
        }
    }
}

/// The views of a sequence of observations.
pub open spec fn obs_views(s: Seq<TrackObservation>) -> Seq<TrackObservationV> {
    s.map_values(|o: TrackObservation| o@)
}

/// The findings one observed track owes. A failed lookup withholds the
/// identity key from the policy, so the external-store rules stay silent for
/// that track while the file-level rules still apply.
pub open spec fn track_findings(o: TrackObservationV) -> Seq<FindingV> {
    match o.lookup {
        LookupOutcomeV::Found(rec) => reconcile_spec(
            o.path,
            o.exists,
            o.local_rating,
            Some(rec),
            o.external_id,
        ),
        LookupOutcomeV::NotFound => reconcile_spec(
            o.path,
            o.exists,
            o.local_rating,
            None,
            o.external_id,
        ),
        LookupOutcomeV::Failed => reconcile_spec(o.path, o.exists, o.local_rating, None, None),
    }
}

/// The findings of a whole batch: each track's findings, in track order.
pub open spec fn batch_findings(s: Seq<TrackObservationV>) -> Seq<FindingV> {
    s.map_values(|o: TrackObservationV| track_findings(o)).flatten()
}

/// Gathers the observation for one song: derives its identity key from the
/// filename (the final path segment), looks the key up among the external
/// records (first match wins), and pairs both with the given existence
/// signal. Only the existence check itself — the one I/O step — stays with
/// the caller.
pub fn observe_song(song: &Song, present: Option<bool>, store: &Vec<ExternalRecord>) -> (r:
    TrackObservation)
    ensures
        r.path@ == song.path@,
        r.exists == present,
        r.local_rating == song.rating,
        match spec_parse(basename(song.path@)) {
            Some(sp) => r@.external_id == Some(sp.external_id),
            None => r@.external_id is None,
        },
        match r@.external_id {
            Some(id) => match r@.lookup {
                LookupOutcomeV::Found(recv) => exists|i: int|
                    0 <= i < store@.len() && recv == #[trigger] store@[i]@ && record_matches(
                        store@[i]@,
                        id,
                    ) && (forall|k: int|
                        0 <= k < i ==> !record_matches(#[trigger] store@[k]@, id)),
                LookupOutcomeV::NotFound => forall|k: int|
                    0 <= k < store@.len() ==> !record_matches(#[trigger] store@[k]@, id),
                LookupOutcomeV::Failed => false,
            },
            None => r@.lookup is NotFound,
        },
{
    let external_id = song.deezer_id();
    let lookup = match &external_id {
        Some(id) => match find_record(store, id.as_str()) {
            Some(rec) => LookupOutcome::Found(
                ExternalRecord {
                    id: rec.id.clone(),
                    filename_field: rec.filename_field.clone(),
                    rating: rec.rating,
                },
            ),
            None => LookupOutcome::NotFound,
        },
        None => LookupOutcome::NotFound,
    };
    TrackObservation {
        path: song.path.clone(),
        exists: present,
        local_rating: song.rating,
        external_id,
        lookup,
    }
}

/// Applies the policy to one observed track.
pub fn reconcile_track(obs: &TrackObservation) -> (r: Vec<Finding>)
    ensures
        views_of(r@) == track_findings(obs@),
        r@.len() <= 1,
{
    let path = obs.path.as_str();
    let external_id = match &obs.external_id {
        Some(id) => Some(id.as_str()),
        None => None,
    };
    match &obs.lookup {
        LookupOutcome::Found(rec) => reconcile(
            path,
            obs.exists,
            obs.local_rating,
            Some(rec),
            external_id,
        ),
        LookupOutcome::NotFound => reconcile(path, obs.exists, obs.local_rating, None, external_id),
        LookupOutcome::Failed => reconcile(path, obs.exists, obs.local_rating, None, None),
    }
}

/// Runs the policy over every observed track and returns the union of all
/// findings, in track order.
pub fn run_batch(tracks: &Vec<TrackObservation>) -> (r: Vec<Finding>)
    ensures
        views_of(r@) == batch_findings(obs_views(tracks@)),
{
    let ghost all = obs_views(tracks@).map_values(|o: TrackObservationV| track_findings(o));
    let mut out: Vec<Finding> = Vec::new();
    let mut i: usize = 0;
    while i < tracks.len()
        invariant
            i <= tracks@.len(),
            all == obs_views(tracks@).map_values(|o: TrackObservationV| track_findings(o)),
            all.len() == tracks@.len(),
            views_of(out@) == all.take(i as int).flatten(),
        decreases tracks@.len() - i,
    {
        let mut fs = reconcile_track(&tracks[i]);
        proof {
            assert(all.take(i as int).push(all[i as int]) =~= all.take(i + 1));
            assert(all[i as int] == track_findings(obs_views(tracks@)[i as int]));
            all.take(i as int).lemma_flatten_push(views_of(fs@));
            assert(views_of(out@ + fs@) =~= views_of(out@) + views_of(fs@));
        }
        out.append(&mut fs);
        i += 1;
    }
    proof {
        assert(all.take(tracks@.len() as int) =~= all);
    }
    out
}

/// Running the batch twice over an unchanged data source produces the same
/// multiset of findings: the policy is deterministic, so even the sequences
/// coincide.
pub proof fn lemma_batch_idempotent(a: Seq<TrackObservationV>, b: Seq<TrackObservationV>)
    requires
        a == b,
    ensures
        batch_findings(a) == batch_findings(b),
        batch_findings(a).to_multiset() == batch_findings(b).to_multiset(),
{
}

/// The strongest form of order independence: any reordering of the track
/// set — any two batches that observe the same tracks, however scheduled —
/// yields the same multiset of findings.
pub proof fn lemma_batch_permutation(a: Seq<TrackObservationV>, b: Seq<TrackObservationV>)
    requires
        a.to_multiset() == b.to_multiset(),
    ensures
        batch_findings(a).to_multiset() == batch_findings(b).to_multiset(),
    decreases a.len(),
{
    let f = |o: TrackObservationV| track_findings(o);
    if a.len() == 0 {
        to_multiset_len(a);
        to_multiset_len(b);
        assert(b.len() == 0);
    } else {
        let x = a.last();
        let a2 = a.drop_last();
        assert(a[a.len() - 1] == x);
        assert(a.contains(x));
        to_multiset_contains(a, x);
        to_multiset_contains(b, x);
        assert(b.contains(x));
        let i = choose|i: int| 0 <= i < b.len() && b[i] == x;
        let b2 = b.remove(i);
        assert(a2 =~= a.remove(a.len() - 1));
        to_multiset_remove(a, a.len() - 1);
        to_multiset_remove(b, i);
        assert(a2.to_multiset() == b2.to_multiset());
        lemma_batch_permutation(a2, b2);
        // The last track of `a` contributes its findings on top of the rest.
        assert(a.map_values(f) =~= a2.map_values(f).push(f(x)));
        a2.map_values(f).lemma_flatten_push(f(x));
        assert(batch_findings(a) == batch_findings(a2) + f(x));
        lemma_multiset_commutative(batch_findings(a2), f(x));
        // Track `i` of `b` contributes the same findings amid the rest.
        let u = b.subrange(0, i);
        let w = b.subrange(i + 1, b.len() as int);
        assert(b.map_values(f) =~= (u.map_values(f) + seq![f(x)]) + w.map_values(f));
        lemma_flatten_concat(u.map_values(f) + seq![f(x)], w.map_values(f));
        lemma_flatten_concat(u.map_values(f), seq![f(x)]);
        seq![f(x)].lemma_flatten_singleton();
        assert(batch_findings(b) =~= u.map_values(f).flatten() + f(x) + w.map_values(f).flatten());
        assert(b2.map_values(f) =~= u.map_values(f) + w.map_values(f));
        lemma_flatten_concat(u.map_values(f), w.map_values(f));
        assert(batch_findings(b2) == u.map_values(f).flatten() + w.map_values(f).flatten());
        // Multiset arithmetic turns both sides into rest-plus-contribution.
        lemma_multiset_commutative(u.map_values(f).flatten() + f(x), w.map_values(f).flatten());
        lemma_multiset_commutative(u.map_values(f).flatten(), f(x));
        lemma_multiset_commutative(u.map_values(f).flatten(), w.map_values(f).flatten());
        assert(batch_findings(b).to_multiset() =~= batch_findings(b2).to_multiset().add(
            f(x).to_multiset(),
        ));
        assert(batch_findings(a).to_multiset() =~= batch_findings(a2).to_multiset().add(
            f(x).to_multiset(),
        ));
    }
}

/// Findings of different tracks are independent and commutative: processing
/// two stretches of the track set in either order yields the same multiset
/// of findings.
pub proof fn lemma_batch_order_independent(a: Seq<TrackObservationV>, b: Seq<TrackObservationV>)
    ensures
        batch_findings(a + b).to_multiset() == batch_findings(b + a).to_multiset(),
{
    let f = |o: TrackObservationV| track_findings(o);
    assert((a + b).map_values(f) =~= a.map_values(f) + b.map_values(f));
    assert((b + a).map_values(f) =~= b.map_values(f) + a.map_values(f));
    lemma_flatten_concat(a.map_values(f), b.map_values(f));
    lemma_flatten_concat(b.map_values(f), a.map_values(f));
    lemma_seq_union_to_multiset_commutative(
        a.map_values(f).flatten(),
        b.map_values(f).flatten(),
    );
}

} // verus!
