//! The music library: songs, playlists, and which songs each playlist plays
//! in which order, held in memory under the rules of its relational model.

use vstd::prelude::*;
use vstd::string::*;
use crate::database::{copy_opt, opt_text};
use crate::library_model::{LibraryView, MemberView, PlaylistRowView, max_position};
use crate::calendar::is_utc_stamp;
use crate::model::Text;
use crate::music::{
    Playlist, PlaylistView, Song, SongView, generate_id, get_timestamp, is_clock_id,
};

verus! {

/// Why the library refused an operation.
#[derive(Debug, Clone, Copy, PartialEq, Eq, Structural)]
pub enum LibraryError {
    /// A row of this id exists already.
    DuplicateId,
    /// Another song lies at this file path.
    DuplicatePath,
    /// No playlist of this id exists.
    UnknownPlaylist,
    /// No song of this id exists.
    UnknownSong,
    /// The playlist has used up the positions that the library can count.
    PositionsExhausted,
}

impl LibraryError {
    /// The message of each refusal.
    pub open spec fn message_text(self) -> Text {
        match self {
            LibraryError::DuplicateId => "constraint violation: a row with this id already exists"@,
            LibraryError::DuplicatePath => "constraint violation: a song with this file path already exists"@,
            LibraryError::UnknownPlaylist => "constraint violation: playlist does not exist"@,
            LibraryError::UnknownSong => "constraint violation: song does not exist"@,
            LibraryError::PositionsExhausted => "playlist is full: no position is left"@,
        }
    }

    /// The refusal in words.
    pub fn message(&self) -> (text: String)
        ensures
            text@ == self.message_text(),
    {
        match self {
            LibraryError::DuplicateId => String::from_str(
                "constraint violation: a row with this id already exists",
            ),
            LibraryError::DuplicatePath => String::from_str(
                "constraint violation: a song with this file path already exists",
            ),
            LibraryError::UnknownPlaylist => String::from_str(
                "constraint violation: playlist does not exist",
            ),
            LibraryError::UnknownSong => String::from_str(
                "constraint violation: song does not exist",
            ),
            LibraryError::PositionsExhausted => String::from_str(
                "playlist is full: no position is left",
            ),
        }
    }
}

struct PlaylistRow {
    id: String,
    name: String,
    description: Option<String>,
    color: Option<String>,
    artwork_path: Option<String>,
    artist_id: Option<String>,
    date_created: String,
}

impl View for PlaylistRow {
    type V = PlaylistRowView;

    closed spec fn view(&self) -> PlaylistRowView {
        PlaylistRowView {
            id: self.id@,
            name: self.name@,
            description: opt_text(self.description),
            color: opt_text(self.color),
            artwork_path: opt_text(self.artwork_path),
            artist_id: opt_text(self.artist_id),
            date_created: self.date_created@,
        }
    }
}

impl DeepView for PlaylistRow {
    type V = PlaylistRowView;

    closed spec fn deep_view(&self) -> PlaylistRowView {
        self@
    }
}

struct Member {
    playlist_id: String,
    song_id: String,
    position: u64,
}

impl View for Member {
    type V = MemberView;

    closed spec fn view(&self) -> MemberView {
        MemberView {
            playlist_id: self.playlist_id@,
            song_id: self.song_id@,
            position: self.position as int,
        }
    }
}

impl DeepView for Member {
    type V = MemberView;

    closed spec fn deep_view(&self) -> MemberView {
        self@
    }
}

impl Clone for Member {
    fn clone(&self) -> (copy: Self)
        ensures
            copy == *self,
    {
        Member {
            playlist_id: self.playlist_id.clone(),
            song_id: self.song_id.clone(),
            position: self.position,
        }
    }
}

impl Clone for PlaylistRow {
    fn clone(&self) -> (copy: Self)
        ensures
            copy == *self,
    {
        PlaylistRow {
            id: self.id.clone(),
            name: self.name.clone(),
            description: copy_opt(&self.description),
            color: copy_opt(&self.color),
            artwork_path: copy_opt(&self.artwork_path),
            artist_id: copy_opt(&self.artist_id),
            date_created: self.date_created.clone(),
        }
    }
}

/// The tables of the music library.
pub struct Library {
    songs: Vec<Song>,
    playlists: Vec<PlaylistRow>,
    members: Vec<Member>,
}

impl View for Library {
    type V = LibraryView;

    closed spec fn view(&self) -> LibraryView {
        LibraryView {
            songs: self.songs.deep_view(),
            playlists: self.playlists.deep_view(),
            members: self.members.deep_view(),
        }
    }
}

/// Why a song may not join the library, if anything stands against it.
pub open spec fn song_refusal(library: LibraryView, id: Text, path: Text) -> Option<LibraryError> {
    if library.has_song(id) {
        Some(LibraryError::DuplicateId)
    } else if library.has_path(path) {
        Some(LibraryError::DuplicatePath)
    } else {
        None
    }
}

/// Why a song may not join a playlist, if anything stands against it.
pub open spec fn member_refusal(library: LibraryView, playlist_id: Text, song_id: Text) -> Option<
    LibraryError,
> {
    if !library.has_playlist(playlist_id) {
        Some(LibraryError::UnknownPlaylist)
    } else if !library.has_song(song_id) {
        Some(LibraryError::UnknownSong)
    } else if !library.has_member(playlist_id, song_id) && library.next_position(playlist_id)
        > u64::MAX {
        Some(LibraryError::PositionsExhausted)
    } else {
        None
    }
}

impl Library {
    /// A library without rows.
    pub fn new() -> (library: Library)
        ensures
            library@ == LibraryView::empty(),
            library@.wf(),
    {
        let library = Library { songs: Vec::new(), playlists: Vec::new(), members: Vec::new() };
        assert(library@.songs =~= Seq::empty());
        assert(library@.playlists =~= Seq::empty());
        assert(library@.members =~= Seq::empty());
        library
    }

    fn find_song(&self, id: &String) -> (found: Option<usize>)
        ensures
            match found {
                Some(i) => i < self.songs.len() && self@.songs[i as int].id == id@,
                None => !self@.has_song(id@),
            },
    {
        let mut i: usize = 0;
        while i < self.songs.len()
            invariant
                i <= self.songs.len(),
                forall|k: int| 0 <= k < i ==> (#[trigger] self@.songs[k]).id != id@,
            decreases self.songs.len() - i,
        {
            if self.songs[i].id == *id {
                return Some(i);
            }
            i = i + 1;
        }
        None
    }

    fn path_known(&self, path: &String) -> (known: bool)
        ensures
            known == self@.has_path(path@),
    {
        let mut i: usize = 0;
        while i < self.songs.len()
            invariant
                i <= self.songs.len(),
                forall|k: int| 0 <= k < i ==> (#[trigger] self@.songs[k]).path != path@,
            decreases self.songs.len() - i,
        {
            if self.songs[i].path == *path {
                assert(self@.songs[i as int].path == path@);
                return true;
            }
            i = i + 1;
        }
        false
    }

    fn find_playlist(&self, id: &String) -> (found: Option<usize>)
        ensures
            match found {
                Some(i) => i < self.playlists.len() && self@.playlists[i as int].id == id@,
                None => !self@.has_playlist(id@),
            },
    {
        let mut i: usize = 0;
        while i < self.playlists.len()
            invariant
                i <= self.playlists.len(),
                forall|k: int| 0 <= k < i ==> (#[trigger] self@.playlists[k]).id != id@,
            decreases self.playlists.len() - i,
        {
            if self.playlists[i].id == *id {
                return Some(i);
            }
            i = i + 1;
        }
        None
    }

    fn is_member(&self, playlist_id: &String, song_id: &String) -> (yes: bool)
        ensures
            yes == self@.has_member(playlist_id@, song_id@),
    {
        let mut i: usize = 0;
        while i < self.members.len()
            invariant
                i <= self.members.len(),
                forall|k: int|
                    0 <= k < i ==> !((#[trigger] self@.members[k]).playlist_id == playlist_id@
                        && self@.members[k].song_id == song_id@),
            decreases self.members.len() - i,
        {
            if self.members[i].playlist_id == *playlist_id && self.members[i].song_id == *song_id {
                assert(self@.members[i as int].playlist_id == playlist_id@);
                return true;
            }
            i = i + 1;
        }
        false
    }

    /// The greatest position in use in a playlist, if it has members.
    fn last_position(&self, playlist_id: &String) -> (last: Option<u64>)
        ensures
            max_position(self@.members, playlist_id@) == match last {
                Some(p) => p as int,
                None => -1,
            },
    {
        let ghost all = self@.members;
        let mut last: Option<u64> = None;
        let mut i: usize = 0;
        assert(all.take(0) =~= Seq::empty());
        while i < self.members.len()
            invariant
                i <= self.members.len(),
                all == self@.members,
                max_position(all.take(i as int), playlist_id@) == match last {
                    Some(p) => p as int,
                    None => -1,
                },
            decreases self.members.len() - i,
        {
            assert(all.take(i + 1).drop_last() =~= all.take(i as int));
            assert(all.take(i + 1).last() == all[i as int]);
            if self.members[i].playlist_id == *playlist_id {
                let here = self.members[i].position;
                last = match last {
                    Some(p) => if here > p {
                        Some(here)
                    } else {
                        Some(p)
                    },
                    None => Some(here),
                };
            }
            i = i + 1;
        }
        assert(all.take(i as int) =~= all);
        last
    }

    /// The memberships other than that of one song in one playlist.
    fn members_without_pair(&self, playlist_id: &String, song_id: &String) -> (out: Vec<Member>)
        ensures
            out.deep_view() == self@.members.filter(
                |m: MemberView| !(m.playlist_id == playlist_id@ && m.song_id == song_id@),
            ),
    {
        let ghost keep = |m: MemberView| !(m.playlist_id == playlist_id@ && m.song_id == song_id@);
        let ghost rows = self@.members;
        let mut out: Vec<Member> = Vec::new();
        let mut i: usize = 0;
        assert(rows.take(0) =~= Seq::empty());
        assert(rows.take(0).filter(keep) =~= Seq::empty()) by {
            reveal(Seq::filter);
        }
        assert(out.deep_view() =~= Seq::empty());
        while i < self.members.len()
            invariant
                i <= self.members.len(),
                rows == self@.members,
                keep == |m: MemberView| !(m.playlist_id == playlist_id@ && m.song_id == song_id@),
                out.deep_view() == rows.take(i as int).filter(keep),
            decreases self.members.len() - i,
        {
            let ghost before = out.deep_view();
            assert(rows.take(i + 1) =~= rows.take(i as int).push(rows[i as int]));
            proof {
                rows.take(i as int).lemma_filter_push(rows[i as int], keep);
            }
            if !(self.members[i].playlist_id == *playlist_id && self.members[i].song_id
                == *song_id) {
                out.push(self.members[i].clone());
                assert(out.deep_view() =~= before.push(rows[i as int]));
            }
            i = i + 1;
        }
        assert(rows.take(i as int) =~= rows);
        out
    }

    /// The memberships of songs other than `id`.
    fn members_without_song(&self, id: &String) -> (out: Vec<Member>)
        ensures
            out.deep_view() == self@.members.filter(|m: MemberView| m.song_id != id@),
    {
        let ghost keep = |m: MemberView| m.song_id != id@;
        let ghost rows = self@.members;
        let mut out: Vec<Member> = Vec::new();
        let mut i: usize = 0;
        assert(rows.take(0) =~= Seq::empty());
        assert(rows.take(0).filter(keep) =~= Seq::empty()) by {
            reveal(Seq::filter);
        }
        assert(out.deep_view() =~= Seq::empty());
        while i < self.members.len()
            invariant
                i <= self.members.len(),
                rows == self@.members,
                keep == |m: MemberView| m.song_id != id@,
                out.deep_view() == rows.take(i as int).filter(keep),
            decreases self.members.len() - i,
        {
            let ghost before = out.deep_view();
            assert(rows.take(i + 1) =~= rows.take(i as int).push(rows[i as int]));
            proof {
                rows.take(i as int).lemma_filter_push(rows[i as int], keep);
            }
            if self.members[i].song_id != *id {
                out.push(self.members[i].clone());
                assert(out.deep_view() =~= before.push(rows[i as int]));
            }
            i = i + 1;
        }
        assert(rows.take(i as int) =~= rows);
        out
    }

    /// The memberships in playlists other than `id`.
    fn members_without_playlist(&self, id: &String) -> (out: Vec<Member>)
        ensures
            out.deep_view() == self@.members.filter(|m: MemberView| m.playlist_id != id@),
    {
        let ghost keep = |m: MemberView| m.playlist_id != id@;
        let ghost rows = self@.members;
        let mut out: Vec<Member> = Vec::new();
        let mut i: usize = 0;
        assert(rows.take(0) =~= Seq::empty());
        assert(rows.take(0).filter(keep) =~= Seq::empty()) by {
            reveal(Seq::filter);
        }
        assert(out.deep_view() =~= Seq::empty());
        while i < self.members.len()
            invariant
                i <= self.members.len(),
                rows == self@.members,
                keep == |m: MemberView| m.playlist_id != id@,
                out.deep_view() == rows.take(i as int).filter(keep),
            decreases self.members.len() - i,
        {
            let ghost before = out.deep_view();
            assert(rows.take(i + 1) =~= rows.take(i as int).push(rows[i as int]));
            proof {
                rows.take(i as int).lemma_filter_push(rows[i as int], keep);
            }
            if self.members[i].playlist_id != *id {
                out.push(self.members[i].clone());
                assert(out.deep_view() =~= before.push(rows[i as int]));
            }
            i = i + 1;
        }
        assert(rows.take(i as int) =~= rows);
        out
    }

    /// The songs other than `id`.
    fn songs_except(&self, id: &String) -> (out: Vec<Song>)
        ensures
            out.deep_view() == self@.songs.filter(|s: SongView| s.id != id@),
    {
        let ghost keep = |s: SongView| s.id != id@;
        let ghost rows = self@.songs;
        let mut out: Vec<Song> = Vec::new();
        let mut i: usize = 0;
        assert(rows.take(0) =~= Seq::empty());
        assert(rows.take(0).filter(keep) =~= Seq::empty()) by {
            reveal(Seq::filter);
        }
        assert(out.deep_view() =~= Seq::empty());
        while i < self.songs.len()
            invariant
                i <= self.songs.len(),
                rows == self@.songs,
                keep == |s: SongView| s.id != id@,
                out.deep_view() == rows.take(i as int).filter(keep),
            decreases self.songs.len() - i,
        {
            let ghost before = out.deep_view();
            assert(rows.take(i + 1) =~= rows.take(i as int).push(rows[i as int]));
            proof {
                rows.take(i as int).lemma_filter_push(rows[i as int], keep);
            }
            if self.songs[i].id != *id {
                out.push(self.songs[i].clone());
                assert(out.deep_view() =~= before.push(rows[i as int]));
            }
            i = i + 1;
        }
        assert(rows.take(i as int) =~= rows);
        out
    }

    /// The playlists other than `id`.
    fn playlists_except(&self, id: &String) -> (out: Vec<PlaylistRow>)
        ensures
            out.deep_view() == self@.playlists.filter(|p: PlaylistRowView| p.id != id@),
    {
        let ghost keep = |p: PlaylistRowView| p.id != id@;
        let ghost rows = self@.playlists;
        let mut out: Vec<PlaylistRow> = Vec::new();
        let mut i: usize = 0;
        assert(rows.take(0) =~= Seq::empty());
        assert(rows.take(0).filter(keep) =~= Seq::empty()) by {
            reveal(Seq::filter);
        }
        assert(out.deep_view() =~= Seq::empty());
        while i < self.playlists.len()
            invariant
                i <= self.playlists.len(),
                rows == self@.playlists,
                keep == |p: PlaylistRowView| p.id != id@,
                out.deep_view() == rows.take(i as int).filter(keep),
            decreases self.playlists.len() - i,
        {
            let ghost before = out.deep_view();
            assert(rows.take(i + 1) =~= rows.take(i as int).push(rows[i as int]));
            proof {
                rows.take(i as int).lemma_filter_push(rows[i as int], keep);
            }
            if self.playlists[i].id != *id {
                out.push(self.playlists[i].clone());
                assert(out.deep_view() =~= before.push(rows[i as int]));
            }
            i = i + 1;
        }
        assert(rows.take(i as int) =~= rows);
        out
    }

    /// Adds a song. Refused if a song of its id exists or another song lies
    /// at its file path.
    pub fn add_song(&mut self, song: Song) -> (result: Result<(), LibraryError>)
        requires
            old(self)@.wf(),
        ensures
            final(self)@.wf(),
            match result {
                Ok(_) => song_refusal(old(self)@, song@.id, song@.path) is None && final(self)@
                    == old(self)@.with_song(song@),
                Err(e) => song_refusal(old(self)@, song@.id, song@.path) == Some(e) && final(self)@
                    == old(self)@,
            },
    {
        if self.find_song(&song.id).is_some() {
            return Err(LibraryError::DuplicateId);
        }
        if self.path_known(&song.path) {
            return Err(LibraryError::DuplicatePath);
        }
        proof {
            old(self)@.lemma_with_song_wf(song@);
        }
        self.songs.push(song);
        assert(self@.songs =~= old(self)@.songs.push(song@));
        Ok(())
    }

    /// The song of the given id, if there is one.
    pub fn get_song(&self, id: &String) -> (found: Option<Song>)
        requires
            self@.wf(),
        ensures
            match found {
                Some(song) => self@.has_song(id@) && song@ == self@.song(id@),
                None => !self@.has_song(id@),
            },
    {
        match self.find_song(id) {
            Some(i) => {
                proof {
                    self@.lemma_song_at(i as int);
                }
                Some(self.songs[i].clone())
            },
            None => None,
        }
    }

    /// Adds an empty playlist under the given id and creation stamp, unless
    /// a playlist of that id exists.
    pub fn insert_playlist(
        &mut self,
        id: String,
        now: String,
        name: String,
        description: Option<String>,
        color: Option<String>,
        artwork_path: Option<String>,
        artist_id: Option<String>,
    ) -> (result: Result<Playlist, LibraryError>)
        requires
            old(self)@.wf(),
        ensures
            final(self)@.wf(),
            match result {
                Ok(playlist) => {
                    &&& !old(self)@.has_playlist(id@)
                    &&& playlist@ == (PlaylistView {
                        id: id@,
                        name: name@,
                        description: opt_text(description),
                        color: opt_text(color),
                        artwork_path: opt_text(artwork_path),
                        song_ids: Seq::empty(),
                        artist_id: opt_text(artist_id),
                        date_created: now@,
                    })
                    &&& final(self)@ == old(self)@.with_playlist(
                        PlaylistRowView {
                            id: id@,
                            name: name@,
                            description: opt_text(description),
                            color: opt_text(color),
                            artwork_path: opt_text(artwork_path),
                            artist_id: opt_text(artist_id),
                            date_created: now@,
                        },
                    )
                },
                Err(e) => {
                    &&& e == LibraryError::DuplicateId
                    &&& old(self)@.has_playlist(id@)
                    &&& final(self)@ == old(self)@
                },
            },
    {
        if self.find_playlist(&id).is_some() {
            return Err(LibraryError::DuplicateId);
        }
        let row = PlaylistRow { id, name, description, color, artwork_path, artist_id, date_created: now };
        let playlist = Playlist {
            id: row.id.clone(),
            name: row.name.clone(),
            description: copy_opt(&row.description),
            color: copy_opt(&row.color),
            artwork_path: copy_opt(&row.artwork_path),
            song_ids: Vec::new(),
            artist_id: copy_opt(&row.artist_id),
            date_created: row.date_created.clone(),
        };
        assert(playlist@.song_ids =~= Seq::empty());
        proof {
            old(self)@.lemma_with_playlist_wf(row@);
        }
        self.playlists.push(row);
        assert(self@.playlists =~= old(self)@.playlists.push(row@));
        Ok(playlist)
    }

    /// Creates an empty playlist with a new identifier, stamped with the
    /// current time. Identifier and stamp come from the clock, so the
    /// contract leaves them open.
    pub fn create_playlist(
        &mut self,
        name: String,
        description: Option<String>,
        color: Option<String>,
        artwork_path: Option<String>,
        artist_id: Option<String>,
    ) -> (result: Result<Playlist, LibraryError>)
        requires
            old(self)@.wf(),
        ensures
            final(self)@.wf(),
            old(self)@.playlists.len() == 0 ==> result is Ok,
            result matches Ok(playlist) ==> is_utc_stamp(playlist@.date_created) && is_clock_id(
                playlist@.id,
            ),
            match result {
                Ok(playlist) => {
                    &&& !old(self)@.has_playlist(playlist@.id)
                    &&& playlist@ == (PlaylistView {
                        id: playlist@.id,
                        name: name@,
                        description: opt_text(description),
                        color: opt_text(color),
                        artwork_path: opt_text(artwork_path),
                        song_ids: Seq::empty(),
                        artist_id: opt_text(artist_id),
                        date_created: playlist@.date_created,
                    })
                    &&& final(self)@ == old(self)@.with_playlist(
                        PlaylistRowView {
                            id: playlist@.id,
                            name: name@,
                            description: opt_text(description),
                            color: opt_text(color),
                            artwork_path: opt_text(artwork_path),
                            artist_id: opt_text(artist_id),
                            date_created: playlist@.date_created,
                        },
                    )
                },
                Err(e) => e == LibraryError::DuplicateId && final(self)@ == old(self)@,
            },
    {
        let id = generate_id();
        let now = get_timestamp();
        self.insert_playlist(id, now, name, description, color, artwork_path, artist_id)
    }

    /// The songs of a playlist in playing order: by position, lowest first.
    /// A playlist without members, or an id that names no playlist, gives
    /// the empty list.
    pub fn list_members(&self, playlist_id: &String) -> (song_ids: Vec<String>)
        ensures
            song_ids.deep_view() == self@.song_ids_of(playlist_id@),
    {
        let ghost of = |m: MemberView| m.playlist_id == playlist_id@;
        let ghost rows = self@.members;
        let mut out: Vec<String> = Vec::new();
        let mut i: usize = 0;
        assert(rows.take(0) =~= Seq::empty());
        assert(rows.take(0).filter(of) =~= Seq::empty()) by {
            reveal(Seq::filter);
        }
        assert(out.deep_view() =~= rows.take(0).filter(of).map_values(|m: MemberView| m.song_id));
        while i < self.members.len()
            invariant
                i <= self.members.len(),
                rows == self@.members,
                of == |m: MemberView| m.playlist_id == playlist_id@,
                out.deep_view() == rows.take(i as int).filter(of).map_values(
                    |m: MemberView| m.song_id,
                ),
            decreases self.members.len() - i,
        {
            let ghost before = out.deep_view();
            assert(rows.take(i + 1) =~= rows.take(i as int).push(rows[i as int]));
            proof {
                rows.take(i as int).lemma_filter_push(rows[i as int], of);
            }
            if self.members[i].playlist_id == *playlist_id {
                out.push(self.members[i].song_id.clone());
                assert(out.deep_view() =~= before.push(rows[i as int].song_id));
                assert(out.deep_view() =~= rows.take(i + 1).filter(of).map_values(
                    |m: MemberView| m.song_id,
                ));
            }
            i = i + 1;
        }
        assert(rows.take(i as int) =~= rows);
        out
    }

    /// The playlist of the given id, if there is one, with its songs as the
    /// memberships give them at the moment of reading.
    pub fn get_playlist(&self, id: &String) -> (found: Option<Playlist>)
        requires
            self@.wf(),
        ensures
            match found {
                Some(playlist) => {
                    &&& self@.has_playlist(id@)
                    &&& playlist@ == (PlaylistView {
                        id: id@,
                        name: self@.playlist(id@).name,
                        description: self@.playlist(id@).description,
                        color: self@.playlist(id@).color,
                        artwork_path: self@.playlist(id@).artwork_path,
                        song_ids: self@.song_ids_of(id@),
                        artist_id: self@.playlist(id@).artist_id,
                        date_created: self@.playlist(id@).date_created,
                    })
                },
                None => !self@.has_playlist(id@),
            },
    {
        match self.find_playlist(id) {
            Some(i) => {
                proof {
                    self@.lemma_playlist_at(i as int);
                }
                let row = &self.playlists[i];
                Some(
                    Playlist {
                        id: row.id.clone(),
                        name: row.name.clone(),
                        description: copy_opt(&row.description),
                        color: copy_opt(&row.color),
                        artwork_path: copy_opt(&row.artwork_path),
                        song_ids: self.list_members(id),
                        artist_id: copy_opt(&row.artist_id),
                        date_created: row.date_created.clone(),
                    },
                )
            },
            None => None,
        }
    }

    /// Adds a song to a playlist, behind the songs that are in it.
    ///
    /// The song gets the position one beyond the greatest in use, zero in an
    /// empty playlist. A song that is a member already stays where it is and
    /// nothing changes. Refused if the playlist or the song does not exist.
    pub fn add_member(&mut self, playlist_id: &String, song_id: &String) -> (result: Result<
        (),
        LibraryError,
    >)
        requires
            old(self)@.wf(),
        ensures
            final(self)@.wf(),
            match result {
                Ok(_) => member_refusal(old(self)@, playlist_id@, song_id@) is None && final(self)@
                    == old(self)@.with_member(playlist_id@, song_id@),
                Err(e) => member_refusal(old(self)@, playlist_id@, song_id@) == Some(e)
                    && final(self)@ == old(self)@,
            },
    {
        if self.find_playlist(playlist_id).is_none() {
            return Err(LibraryError::UnknownPlaylist);
        }
        if self.find_song(song_id).is_none() {
            return Err(LibraryError::UnknownSong);
        }
        if self.is_member(playlist_id, song_id) {
            return Ok(());
        }
        let position: u64 = match self.last_position(playlist_id) {
            Some(last) => {
                if last == u64::MAX {
                    return Err(LibraryError::PositionsExhausted);
                }
                last + 1
            },
            None => 0,
        };
        let member = Member {
            playlist_id: playlist_id.clone(),
            song_id: song_id.clone(),
            position,
        };
        proof {
            old(self)@.lemma_with_member_wf(playlist_id@, song_id@);
        }
        self.members.push(member);
        assert(self@.members =~= old(self)@.members.push(member@));
        Ok(())
    }

    /// Takes a song out of a playlist; nothing changes if it is no member.
    /// The songs that stay keep their positions.
    pub fn remove_member(&mut self, playlist_id: &String, song_id: &String)
        requires
            old(self)@.wf(),
        ensures
            final(self)@.wf(),
            final(self)@ == old(self)@.without_member(playlist_id@, song_id@),
    {
        let members = self.members_without_pair(playlist_id, song_id);
        proof {
            old(self)@.lemma_without_member_wf(playlist_id@, song_id@);
        }
        self.members = members;
    }

    /// Deletes a song and its memberships; nothing changes if no song has
    /// the id.
    pub fn delete_song(&mut self, id: &String)
        requires
            old(self)@.wf(),
        ensures
            final(self)@.wf(),
            final(self)@ == old(self)@.without_song(id@),
    {
        let members = self.members_without_song(id);
        let songs = self.songs_except(id);
        proof {
            old(self)@.lemma_without_song_wf(id@);
        }
        self.songs = songs;
        self.members = members;
    }

    /// Deletes a playlist and its memberships; nothing changes if no
    /// playlist has the id.
    pub fn delete_playlist(&mut self, id: &String)
        requires
            old(self)@.wf(),
        ensures
            final(self)@.wf(),
            final(self)@ == old(self)@.without_playlist(id@),
    {
        let members = self.members_without_playlist(id);
        let playlists = self.playlists_except(id);
        proof {
            old(self)@.lemma_without_playlist_wf(id@);
        }
        self.playlists = playlists;
        self.members = members;
    }
}

} // verus!
