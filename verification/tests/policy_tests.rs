use trackrec::policy::{reconcile_tags, TagRead};
use trackrec::{all_songs, rating_from_raw, reconcile, ExternalRecord, Finding, ProviderItem, Song};

fn record(rating: usize) -> ExternalRecord {
    ExternalRecord {
        id: "37".to_string(),
        filename_field: "a -- b [918205852].mp3".to_string(),
        rating,
    }
}

#[test]
fn rating_scale() {
    assert_eq!(0, rating_from_raw(0));
    assert_eq!(1, rating_from_raw(20));
    assert_eq!(2, rating_from_raw(40));
    assert_eq!(3, rating_from_raw(60));
    assert_eq!(4, rating_from_raw(80));
    assert_eq!(5, rating_from_raw(100));
}

#[test]
fn working_set_construction() {
    let items = vec![
        // Kept: user-set rating, locatable file.
        ProviderItem {
            path: Some("/m/a [1].mp3".to_string()),
            raw_rating: 60,
            rating_computed: false,
        },
        // Dropped: the provider computed this rating.
        ProviderItem {
            path: Some("/m/b [2].mp3".to_string()),
            raw_rating: 80,
            rating_computed: true,
        },
        // Dropped under the strict policy: no locatable file.
        ProviderItem { path: None, raw_rating: 100, rating_computed: false },
        // Kept, unrated.
        ProviderItem {
            path: Some("/m/c [3].mp3".to_string()),
            raw_rating: 0,
            rating_computed: false,
        },
    ];
    let songs = all_songs(&items);
    assert_eq!(
        vec![
            Song { path: "/m/a [1].mp3".to_string(), rating: 3 },
            Song { path: "/m/c [3].mp3".to_string(), rating: 0 },
        ],
        songs
    );
}

#[test]
fn equal_ratings_yield_nothing() {
    let rec = record(3);
    let findings = reconcile("/m/a.mp3", Some(true), 3, Some(&rec), Some("918205852"));
    assert!(findings.is_empty());
}

#[test]
fn unrated_in_external_store() {
    let rec = record(0);
    let findings = reconcile("/m/a.mp3", Some(true), 4, Some(&rec), Some("918205852"));
    assert_eq!(1, findings.len());
    assert_eq!(
        Finding::UnratedInExternalStore { path: "/m/a.mp3".to_string(), local_rating: 4 },
        findings[0]
    );
    assert!(!findings.iter().any(|f| matches!(f, Finding::RatingMismatch { .. })));
}

#[test]
fn rating_mismatch() {
    let rec = record(5);
    let findings = reconcile("/m/a.mp3", Some(true), 2, Some(&rec), Some("918205852"));
    assert_eq!(1, findings.len());
    assert_eq!(
        Finding::RatingMismatch {
            path: "/m/a.mp3".to_string(),
            local_rating: 2,
            external_rating: 5,
        },
        findings[0]
    );
}

#[test]
fn missing_file_is_terminal() {
    let rec = record(5);
    let findings = reconcile("/m/a.mp3", Some(false), 1, Some(&rec), Some("918205852"));
    assert_eq!(1, findings.len());
    assert_eq!(Finding::MissingFile { path: "/m/a.mp3".to_string() }, findings[0]);
}

#[test]
fn low_rating_candidate_whatever_the_store_says() {
    for rec_rating in [0, 1, 3] {
        let rec = record(rec_rating);
        let findings = reconcile("/m/a.mp3", Some(true), 1, Some(&rec), Some("918205852"));
        assert_eq!(1, findings.len());
        assert_eq!(
            Finding::LowRatingCandidate { path: "/m/a.mp3".to_string(), local_rating: 1 },
            findings[0]
        );
    }
    let findings = reconcile("/m/a.mp3", Some(true), 1, None, None);
    assert_eq!(1, findings.len());
    assert_eq!(
        Finding::LowRatingCandidate { path: "/m/a.mp3".to_string(), local_rating: 1 },
        findings[0]
    );
}

#[test]
fn not_found_in_external_store() {
    let findings = reconcile("/m/a.mp3", Some(true), 3, None, Some("918205852"));
    assert_eq!(1, findings.len());
    assert_eq!(
        Finding::NotFoundInExternalStore {
            path: "/m/a.mp3".to_string(),
            external_id: "918205852".to_string(),
        },
        findings[0]
    );
}

#[test]
fn no_key_no_external_finding() {
    let findings = reconcile("/m/a.mp3", Some(true), 3, None, None);
    assert!(findings.is_empty());
}

#[test]
fn unknown_existence_skips_the_track() {
    let rec = record(5);
    let findings = reconcile("/m/a.mp3", None, 2, Some(&rec), Some("918205852"));
    assert!(findings.is_empty());
}

#[test]
fn locally_unrated_yields_nothing() {
    let rec = record(4);
    let findings = reconcile("/m/a.mp3", Some(true), 0, Some(&rec), Some("918205852"));
    assert!(findings.is_empty());
}

#[test]
fn reconcile_is_deterministic() {
    let rec = record(5);
    let a = reconcile("/m/a.mp3", Some(true), 2, Some(&rec), Some("918205852"));
    let b = reconcile("/m/a.mp3", Some(true), 2, Some(&rec), Some("918205852"));
    assert_eq!(a, b);
}

#[test]
fn tag_unreadable_is_reported() {
    let (findings, update) = reconcile_tags("/m/a.mp3", 3, TagRead::Unreadable, "2550");
    assert_eq!(1, findings.len());
    assert_eq!(Finding::TagReadFailure { path: "/m/a.mp3".to_string() }, findings[0]);
    assert!(update.is_none());
}

#[test]
fn tag_disagreement_proposes_update() {
    let (findings, update) = reconcile_tags("/m/a.mp3", 3, TagRead::Rating(2), "2550");
    assert_eq!(1, findings.len());
    assert_eq!(
        Finding::RatingMismatch {
            path: "/m/a.mp3".to_string(),
            local_rating: 3,
            external_rating: 2,
        },
        findings[0]
    );
    let update = update.unwrap();
    assert_eq!(3, update.rating);
    assert_eq!("2550", update.grouping);
}

#[test]
fn tag_agreement_is_silent() {
    let (findings, update) = reconcile_tags("/m/a.mp3", 3, TagRead::Rating(3), "2550");
    assert!(findings.is_empty());
    assert!(update.is_none());
    let (findings, update) = reconcile_tags("/m/a.mp3", 3, TagRead::NoRating, "2550");
    assert!(findings.is_empty());
    assert!(update.is_none());
}
