use project_invoicer::music::{
    artwork_file_name, extract_metadata, failure_message, generate_id, get_timestamp, id_after,
    id_from_millis, import_music_files, read_millis, song_from_probe, ArtworkKind, AudioProbe,
    ProbedFile, TagFields,
};

fn s(text: &str) -> String {
    text.to_string()
}

fn tagged() -> AudioProbe {
    AudioProbe {
        duration_bits: 181.25f64.to_bits(),
        tag: Some(TagFields {
            title: Some(s("Song")),
            artist: None,
            album: Some(s("Album")),
            genre: Some(s("Jazz")),
            year: Some(1999),
            track: Some(3),
        }),
    }
}

#[test]
fn id_is_the_clock_in_decimal() {
    assert_eq!(id_from_millis(0), "0");
    assert_eq!(id_from_millis(7), "7");
    assert_eq!(id_from_millis(10), "10");
    assert_eq!(id_from_millis(1700000000123), "1700000000123");
    assert_eq!(id_from_millis(u128::MAX), u128::MAX.to_string());
    let id = generate_id();
    assert!(id.len() >= 13);
    assert!(id.chars().all(|c| c.is_ascii_digit()));
    assert!(id.parse::<u128>().unwrap() > 1_600_000_000_000);
}

#[test]
fn timestamp_is_rfc3339_in_utc() {
    let before = chrono::Utc::now();
    let stamp = get_timestamp();
    let after = chrono::Utc::now();
    assert!(stamp.chars().count() >= 25);
    assert!(stamp.ends_with("+00:00"));
    let read = chrono::DateTime::parse_from_rfc3339(&stamp).unwrap();
    assert!(before <= read && read <= after);
    assert_eq!(&stamp[4..5], "-");
    assert_eq!(&stamp[10..11], "T");
}

#[test]
fn tags_fill_the_song_and_defaults_the_rest() {
    let song = song_from_probe(&s("/m/a.mp3"), &s("a"), &tagged(), s("1"), s("now"));
    assert_eq!(song.name, "Song");
    assert_eq!(song.artist, "Unknown Artist");
    assert_eq!(song.album, "Album");
    assert_eq!(song.genre.as_deref(), Some("Jazz"));
    assert_eq!(song.year, Some(1999));
    assert_eq!(song.track_number, Some(3));
    assert_eq!(f64::from_bits(song.duration_bits), 181.25);
    assert_eq!(song.path, "/m/a.mp3");
    assert_eq!(song.id, "1");
    assert_eq!(song.date_added, "now");
    assert_eq!(song.play_count, 0);
    assert_eq!(song.artist_id, None);
    assert_eq!(song.album_id, None);
    assert_eq!(song.last_played, None);
}

#[test]
fn untagged_file_falls_back_on_its_name() {
    let probe = AudioProbe { duration_bits: 0, tag: None };
    let song = song_from_probe(&s("/m/b.flac"), &s("b"), &probe, s("2"), s("now"));
    assert_eq!(song.name, "b");
    assert_eq!(song.artist, "Unknown Artist");
    assert_eq!(song.album, "Unknown Album");
    assert_eq!(song.genre, None);
    assert_eq!(song.year, None);
    assert_eq!(song.track_number, None);
    let bare = AudioProbe {
        duration_bits: 0,
        tag: Some(TagFields {
            title: None,
            artist: Some(s("X")),
            album: None,
            genre: None,
            year: None,
            track: None,
        }),
    };
    let song = song_from_probe(&s("/m/c.ogg"), &s("c"), &bare, s("3"), s("now"));
    assert_eq!(song.name, "c");
    assert_eq!(song.artist, "X");
    assert_eq!(song.album, "Unknown Album");
}

#[test]
fn unreadable_file_keeps_its_reason() {
    let file = ProbedFile {
        path: s("/m/x.mp3"),
        file_name: s("x"),
        probe: Err(s("Failed to open file: gone")),
    };
    assert_eq!(extract_metadata(&file).unwrap_err(), "Failed to open file: gone");
    let file = ProbedFile { path: s("/m/a.mp3"), file_name: s("a"), probe: Ok(tagged()) };
    let song = extract_metadata(&file).unwrap();
    assert_eq!(song.name, "Song");
    assert!(song.id.chars().all(|c| c.is_ascii_digit()));
    assert!(song.date_added.ends_with("+00:00"));
}

#[test]
fn import_counts_every_file_once() {
    let files = vec![
        ProbedFile { path: s("/m/a.mp3"), file_name: s("a"), probe: Ok(tagged()) },
        ProbedFile { path: s("/m/x.mp3"), file_name: s("x"), probe: Err(s("Failed to read file: bad")) },
        ProbedFile {
            path: s("/m/b.mp3"),
            file_name: s("b"),
            probe: Ok(AudioProbe { duration_bits: 0, tag: None }),
        },
        ProbedFile { path: s("/m/y.mp3"), file_name: s("y"), probe: Err(s("no")) },
    ];
    let result = import_music_files(files);
    assert!(!result.success);
    assert_eq!(result.imported_count, 2);
    assert_eq!(result.failed_count, 2);
    assert_eq!(
        result.errors,
        vec![
            s("Failed to import /m/x.mp3: Failed to read file: bad"),
            s("Failed to import /m/y.mp3: no"),
        ]
    );
    assert_eq!(result.songs.len(), 2);
    assert_eq!(result.songs[0].name, "Song");
    assert_eq!(result.songs[0].path, "/m/a.mp3");
    assert_eq!(result.songs[1].name, "b");
    assert_eq!(result.songs[1].path, "/m/b.mp3");
}

#[test]
fn import_of_nothing_succeeds() {
    let result = import_music_files(Vec::new());
    assert!(result.success);
    assert_eq!(result.imported_count, 0);
    assert_eq!(result.failed_count, 0);
    assert!(result.errors.is_empty());
    assert!(result.songs.is_empty());
    assert_eq!(failure_message(&s("p"), &s("e")), "Failed to import p: e");
}

#[test]
fn artwork_goes_by_kind_and_id() {
    assert_eq!(artwork_file_name("42", "png"), "42.png");
    assert_eq!(artwork_file_name("", ""), ".");
    assert_eq!(ArtworkKind::Artist.folder(), "artists");
    assert_eq!(ArtworkKind::Playlist.folder(), "playlists");
    assert_eq!(ArtworkKind::Album.folder(), "albums");
}

#[test]
fn ids_of_one_run_differ() {
    let files: Vec<ProbedFile> = (0..200)
        .map(|i| ProbedFile {
            path: format!("/m/{}.mp3", i),
            file_name: format!("{}", i),
            probe: Ok(AudioProbe { duration_bits: 0, tag: None }),
        })
        .collect();
    let result = import_music_files(files);
    assert_eq!(result.songs.len(), 200);
    let numbers: Vec<u128> = result.songs.iter().map(|s| s.id.parse().unwrap()).collect();
    for pair in numbers.windows(2) {
        assert!(pair[0] < pair[1]);
    }
    assert!(numbers[0] > 1_600_000_000_000);
    assert!(result.songs.iter().all(|s| s.date_added.ends_with("+00:00")));
}

#[test]
fn next_id_follows_the_clock_or_the_last_id() {
    assert_eq!(id_after(None, 5, u128::MAX), 5);
    assert_eq!(id_after(Some(5), 9, u128::MAX), 9);
    assert_eq!(id_after(Some(5), 5, u128::MAX), 6);
    assert_eq!(id_after(Some(5), 3, u128::MAX), 6);
    assert_eq!(id_after(Some(5), 9, 7), 7);
    assert_eq!(id_after(None, 9, 7), 7);
    assert_eq!(id_after(Some(u128::MAX - 1), 0, u128::MAX), u128::MAX);
    assert!(read_millis() > 1_600_000_000_000);
}
