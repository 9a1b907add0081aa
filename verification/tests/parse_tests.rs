use trackrec::{parse_filename, Song};

#[test]
fn test_deezer_id() {
    let song = Song {
        path: "/Users/bas/Library/Mobile Documents/com~apple~CloudDocs/Music/discover/DW202123/29. 2020 Souls -- Aaaron [918205852].mp3".to_string(),
        rating: 3,
    };
    let id = song.deezer_id().unwrap();
    assert_eq!("918205852", id);
}

#[test]
fn parse_full_shape() {
    let parts = parse_filename("29. 2020 Souls -- Aaaron [918205852].mp3").unwrap();
    assert_eq!(Some("29".to_string()), parts.ordinal);
    assert_eq!("2020 Souls", parts.title);
    assert_eq!(Some("Aaaron".to_string()), parts.artist);
    assert_eq!("918205852", parts.external_id);
}

#[test]
fn parse_without_ordinal() {
    let parts = parse_filename("Some Song -- Some Artist [42].mp3").unwrap();
    assert_eq!(None, parts.ordinal);
    assert_eq!("Some Song", parts.title);
    assert_eq!(Some("Some Artist".to_string()), parts.artist);
    assert_eq!("42", parts.external_id);
}

#[test]
fn parse_without_artist() {
    let parts = parse_filename("Title --  [123].mp3").unwrap();
    assert_eq!(None, parts.ordinal);
    assert_eq!("Title", parts.title);
    assert_eq!(None, parts.artist);
    assert_eq!("123", parts.external_id);
}

#[test]
fn parse_separator_in_title_picks_last() {
    let parts = parse_filename("a -- b -- c [9].mp3").unwrap();
    assert_eq!("a -- b", parts.title);
    assert_eq!(Some("c".to_string()), parts.artist);
    assert_eq!("9", parts.external_id);
}

#[test]
fn parse_ordinal_without_separator_after_it_falls_back() {
    // "1." starts like an ordinal, but the only separator then sits in the
    // ordinal-free reading; the title absorbs the digits.
    let parts = parse_filename("1. -- b [7].mp3").unwrap();
    assert_eq!(None, parts.ordinal);
    assert_eq!("1.", parts.title);
    assert_eq!(Some("b".to_string()), parts.artist);
    assert_eq!("7", parts.external_id);
}

#[test]
fn parse_rejects_deviations() {
    // Wrong separator.
    assert!(parse_filename("Title - Artist [123].mp3").is_none());
    // Non-digit id.
    assert!(parse_filename("Title -- Artist [12a3].mp3").is_none());
    // Empty id.
    assert!(parse_filename("Title -- Artist [].mp3").is_none());
    // Missing brackets.
    assert!(parse_filename("Title -- Artist 123.mp3").is_none());
    // No space before the bracketed id.
    assert!(parse_filename("Title -- Artist[123].mp3").is_none());
    // Wrong extension.
    assert!(parse_filename("Title -- Artist [123].mp4").is_none());
    assert!(parse_filename("Title -- Artist [123].mp3x").is_none());
    // No separator at all.
    assert!(parse_filename("Title Artist [123].mp3").is_none());
    // Empty title.
    assert!(parse_filename(" -- Artist [123].mp3").is_none());
}

#[test]
fn parse_matches_whatever_string_it_is_given() {
    // The parser is anchored to its input as a whole; handed a full path,
    // the free-text title simply absorbs the directories. Key derivation
    // feeds it the final path segment only (see the deezer_id tests).
    let parts = parse_filename(
        "/Users/bas/Music/29. 2020 Souls -- Aaaron [918205852].mp3",
    )
    .unwrap();
    assert_eq!("918205852", parts.external_id);
    assert_eq!(Some("Aaaron".to_string()), parts.artist);
}

#[test]
fn deezer_id_absent_on_nonconforming_path() {
    let song = Song { path: "/tmp/notes.txt".to_string(), rating: 0 };
    assert!(song.deezer_id().is_none());
}

#[test]
fn deezer_id_keys_off_the_final_segment_only() {
    // The separator appears only in a directory name; the filename itself
    // does not conform, so there is no key.
    let song = Song { path: "/a -- b/c [1].mp3".to_string(), rating: 0 };
    assert!(song.deezer_id().is_none());
    // A conforming filename yields its key no matter what directories
    // precede it.
    let song = Song { path: "/a -- b/29. c -- d [7].mp3".to_string(), rating: 0 };
    assert_eq!(Some("7".to_string()), song.deezer_id());
    // A bare filename without any separator works too.
    let song = Song { path: "c -- d [8].mp3".to_string(), rating: 0 };
    assert_eq!(Some("8".to_string()), song.deezer_id());
}

#[test]
fn relative_path_strips_cloud_prefix() {
    let song = Song {
        path: "/Users/bas/Library/Mobile Documents/com~apple~CloudDocs/Music/discover/DW202123/29. 2020 Souls -- Aaaron [918205852].mp3".to_string(),
        rating: 3,
    };
    assert_eq!(
        "/Music/discover/DW202123/29. 2020 Souls -- Aaaron [918205852].mp3",
        song.relative_path()
    );
}

#[test]
fn relative_path_no_op_without_prefix() {
    let song = Song { path: "/srv/music/a -- b [1].mp3".to_string(), rating: 2 };
    assert_eq!("/srv/music/a -- b [1].mp3", song.relative_path());
}
