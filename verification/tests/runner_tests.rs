use trackrec::week_label;
use trackrec::year_week;
use trackrec::{
    find_record, observe_song, record_matches_id, run_batch, ExternalRecord, Finding,
    LookupOutcome, Song, TrackObservation,
};

fn store() -> Vec<ExternalRecord> {
    vec![
        ExternalRecord {
            id: "1".to_string(),
            filename_field: "29. 2020 Souls -- Aaaron [918205852].mp3".to_string(),
            rating: 3,
        },
        ExternalRecord {
            id: "2".to_string(),
            filename_field: "a -- b [42].mp3".to_string(),
            rating: 0,
        },
        ExternalRecord {
            id: "3".to_string(),
            filename_field: "duplicate -- token [42].mp3".to_string(),
            rating: 5,
        },
    ]
}

#[test]
fn record_matching_is_by_bracketed_token() {
    let records = store();
    assert!(record_matches_id(&records[0], "918205852"));
    // A bare substring is not enough: the brackets must be there.
    assert!(!record_matches_id(&records[0], "918205853"));
    assert!(!record_matches_id(&records[1], "4"));
    assert!(record_matches_id(&records[1], "42"));
}

#[test]
fn find_record_first_match_wins() {
    let records = store();
    let found = find_record(&records, "42").unwrap();
    assert_eq!("2", found.id);
    let found = find_record(&records, "918205852").unwrap();
    assert_eq!("1", found.id);
    assert!(find_record(&records, "7").is_none());
}

fn observations() -> Vec<TrackObservation> {
    vec![
        // Clean track: ratings agree.
        TrackObservation {
            path: "/m/agree.mp3".to_string(),
            exists: Some(true),
            local_rating: 3,
            external_id: Some("918205852".to_string()),
            lookup: LookupOutcome::Found(ExternalRecord {
                id: "1".to_string(),
                filename_field: "29. 2020 Souls -- Aaaron [918205852].mp3".to_string(),
                rating: 3,
            }),
        },
        // Ratings differ.
        TrackObservation {
            path: "/m/differ.mp3".to_string(),
            exists: Some(true),
            local_rating: 2,
            external_id: Some("42".to_string()),
            lookup: LookupOutcome::Found(ExternalRecord {
                id: "2".to_string(),
                filename_field: "a -- b [42].mp3".to_string(),
                rating: 5,
            }),
        },
        // Gone from disk.
        TrackObservation {
            path: "/m/gone.mp3".to_string(),
            exists: Some(false),
            local_rating: 4,
            external_id: None,
            lookup: LookupOutcome::NotFound,
        },
        // Lookup failed: skipped, no external finding.
        TrackObservation {
            path: "/m/flaky.mp3".to_string(),
            exists: Some(true),
            local_rating: 4,
            external_id: Some("7".to_string()),
            lookup: LookupOutcome::Failed,
        },
    ]
}

#[test]
fn observe_song_derives_key_and_looks_it_up() {
    let song = Song {
        path: "/m/29. 2020 Souls -- Aaaron [918205852].mp3".to_string(),
        rating: 2,
    };
    let obs = observe_song(&song, Some(true), &store());
    assert_eq!(song.path, obs.path);
    assert_eq!(Some(true), obs.exists);
    assert_eq!(2, obs.local_rating);
    assert_eq!(Some("918205852".to_string()), obs.external_id);
    match &obs.lookup {
        LookupOutcome::Found(rec) => assert_eq!("1", rec.id),
        other => panic!("expected a found record, got {:?}", other),
    }
    // No identity key: the lookup is not even attempted.
    let unkeyed = Song { path: "/m/plain.mp3".to_string(), rating: 2 };
    let obs = observe_song(&unkeyed, Some(true), &store());
    assert_eq!(None, obs.external_id);
    assert_eq!(LookupOutcome::NotFound, obs.lookup);
    // A key that matches nothing.
    let missing = Song { path: "/m/a -- b [555].mp3".to_string(), rating: 2 };
    let obs = observe_song(&missing, Some(true), &store());
    assert_eq!(Some("555".to_string()), obs.external_id);
    assert_eq!(LookupOutcome::NotFound, obs.lookup);
}

#[test]
fn batch_collects_independent_findings() {
    let findings = run_batch(&observations());
    assert_eq!(2, findings.len());
    assert!(findings.contains(&Finding::RatingMismatch {
        path: "/m/differ.mp3".to_string(),
        local_rating: 2,
        external_rating: 5,
    }));
    assert!(findings.contains(&Finding::MissingFile { path: "/m/gone.mp3".to_string() }));
}

#[test]
fn batch_is_idempotent() {
    let first = run_batch(&observations());
    let second = run_batch(&observations());
    assert_eq!(first, second);
}

#[test]
fn week_stamp_format() {
    assert_eq!("2550", week_label(2025, 50));
    assert_eq!("0705", week_label(2007, 5));
    assert_eq!("0001", week_label(1900, 1));
}

#[test]
fn current_week_stamp_is_four_digits() {
    let stamp = year_week();
    assert_eq!(4, stamp.len());
    assert!(stamp.chars().all(|c| c.is_ascii_digit()));
    // The week part comes from the clock but always lies in 01..=53.
    let week: u32 = stamp[2..].parse().unwrap();
    assert!((1..=53).contains(&week));
}
