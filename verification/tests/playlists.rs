use project_invoicer::library::{Library, LibraryError};
use project_invoicer::music::Song;

fn s(text: &str) -> String {
    text.to_string()
}

fn song(id: &str, path: &str) -> Song {
    Song {
        id: s(id),
        name: s(id),
        artist: s("Unknown Artist"),
        album: s("Unknown Album"),
        duration_bits: 1.5f64.to_bits(),
        path: s(path),
        genre: None,
        year: None,
        track_number: None,
        artist_id: None,
        album_id: None,
        date_added: s("t"),
        play_count: 0,
        last_played: None,
    }
}

fn library() -> Library {
    let mut lib = Library::new();
    lib.add_song(song("s1", "/m/1.mp3")).unwrap();
    lib.add_song(song("s2", "/m/2.mp3")).unwrap();
    lib.add_song(song("s3", "/m/3.mp3")).unwrap();
    lib.insert_playlist(s("p1"), s("t"), s("One"), None, None, None, None).unwrap();
    lib.insert_playlist(s("p2"), s("t"), s("Two"), None, None, None, None).unwrap();
    lib
}

#[test]
fn adding_a_member_twice_adds_it_once() {
    let mut lib = library();
    lib.add_member(&s("p1"), &s("s1")).unwrap();
    assert_eq!(lib.list_members(&s("p1")), vec![s("s1")]);
    lib.add_member(&s("p1"), &s("s1")).unwrap();
    assert_eq!(lib.list_members(&s("p1")), vec![s("s1")]);
}

#[test]
fn members_come_back_in_the_order_added() {
    let mut lib = library();
    lib.add_member(&s("p2"), &s("s3")).unwrap();
    lib.add_member(&s("p1"), &s("s2")).unwrap();
    lib.add_member(&s("p2"), &s("s1")).unwrap();
    lib.add_member(&s("p1"), &s("s1")).unwrap();
    assert_eq!(lib.list_members(&s("p1")), vec![s("s2"), s("s1")]);
    assert_eq!(lib.list_members(&s("p2")), vec![s("s3"), s("s1")]);
    assert_eq!(lib.get_playlist(&s("p1")).unwrap().song_ids, vec![s("s2"), s("s1")]);
}

#[test]
fn unknown_song_or_playlist_is_refused() {
    let mut lib = library();
    assert_eq!(lib.add_member(&s("p1"), &s("ghost")).unwrap_err(), LibraryError::UnknownSong);
    assert_eq!(lib.add_member(&s("ghost"), &s("s1")).unwrap_err(), LibraryError::UnknownPlaylist);
    assert!(lib.list_members(&s("p1")).is_empty());
    assert_eq!(LibraryError::UnknownSong.message(), "constraint violation: song does not exist");
    assert_eq!(
        LibraryError::UnknownPlaylist.message(),
        "constraint violation: playlist does not exist"
    );
}

#[test]
fn removing_a_member_leaves_the_others_in_order() {
    let mut lib = library();
    lib.add_member(&s("p1"), &s("s1")).unwrap();
    lib.add_member(&s("p1"), &s("s2")).unwrap();
    lib.add_member(&s("p1"), &s("s3")).unwrap();
    lib.remove_member(&s("p1"), &s("s2"));
    assert_eq!(lib.list_members(&s("p1")), vec![s("s1"), s("s3")]);
    lib.remove_member(&s("p1"), &s("s2"));
    assert_eq!(lib.list_members(&s("p1")), vec![s("s1"), s("s3")]);
    lib.add_member(&s("p1"), &s("s2")).unwrap();
    assert_eq!(lib.list_members(&s("p1")), vec![s("s1"), s("s3"), s("s2")]);
    lib.remove_member(&s("p1"), &s("s2"));
    lib.remove_member(&s("p1"), &s("s3"));
    lib.add_member(&s("p1"), &s("s3")).unwrap();
    lib.add_member(&s("p1"), &s("s2")).unwrap();
    assert_eq!(lib.list_members(&s("p1")), vec![s("s1"), s("s3"), s("s2")]);
}

#[test]
fn deleting_a_song_takes_it_out_of_playlists() {
    let mut lib = library();
    lib.add_member(&s("p1"), &s("s1")).unwrap();
    lib.add_member(&s("p1"), &s("s2")).unwrap();
    lib.add_member(&s("p2"), &s("s1")).unwrap();
    lib.delete_song(&s("s1"));
    assert!(lib.get_song(&s("s1")).is_none());
    assert_eq!(lib.list_members(&s("p1")), vec![s("s2")]);
    assert!(lib.list_members(&s("p2")).is_empty());
    assert_eq!(lib.add_member(&s("p2"), &s("s1")).unwrap_err(), LibraryError::UnknownSong);
}

#[test]
fn deleting_a_playlist_keeps_the_songs() {
    let mut lib = library();
    lib.add_member(&s("p1"), &s("s1")).unwrap();
    lib.delete_playlist(&s("p1"));
    assert!(lib.get_playlist(&s("p1")).is_none());
    assert!(lib.list_members(&s("p1")).is_empty());
    assert_eq!(lib.get_song(&s("s1")).unwrap().path, "/m/1.mp3");
    lib.insert_playlist(s("p1"), s("t2"), s("Again"), None, None, None, None).unwrap();
    assert!(lib.get_playlist(&s("p1")).unwrap().song_ids.is_empty());
}

#[test]
fn songs_are_unique_by_id_and_path() {
    let mut lib = library();
    assert_eq!(lib.add_song(song("s1", "/m/9.mp3")).unwrap_err(), LibraryError::DuplicateId);
    assert_eq!(lib.add_song(song("s9", "/m/1.mp3")).unwrap_err(), LibraryError::DuplicatePath);
    assert_eq!(
        lib.insert_playlist(s("p1"), s("t"), s("Dup"), None, None, None, None).unwrap_err(),
        LibraryError::DuplicateId
    );
    assert_eq!(
        LibraryError::DuplicatePath.message(),
        "constraint violation: a song with this file path already exists"
    );
    assert_eq!(
        LibraryError::DuplicateId.message(),
        "constraint violation: a row with this id already exists"
    );
    assert_eq!(LibraryError::PositionsExhausted.message(), "playlist is full: no position is left");
}

#[test]
fn created_playlist_is_empty_and_stamped() {
    let mut lib = Library::new();
    let p = lib
        .create_playlist(s("Mix"), Some(s("d")), Some(s("#fff")), None, None)
        .unwrap();
    assert!(p.song_ids.is_empty());
    assert!(!p.id.is_empty());
    assert!(p.id.chars().all(|c| c.is_ascii_digit()));
    assert!(p.date_created.contains('T'));
    let read = lib.get_playlist(&p.id).unwrap();
    assert_eq!(read.name, "Mix");
    assert_eq!(read.description.as_deref(), Some("d"));
    assert_eq!(read.color.as_deref(), Some("#fff"));
    assert_eq!(read.date_created, p.date_created);
}
