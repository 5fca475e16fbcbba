//! The relational model of the music library: songs, playlists, and the
//! membership of songs in playlists with its playing order.

use vstd::prelude::*;
use crate::model::{Text, lemma_filter_rows, lemma_filter_pairwise};
use crate::music::SongView;

verus! {

/// A playlist as the library keeps it: without its songs, which are read
/// from the memberships whenever the playlist is read.
pub struct PlaylistRowView {
    pub id: Text,
    pub name: Text,
    pub description: Option<Text>,
    pub color: Option<Text>,
    pub artwork_path: Option<Text>,
    pub artist_id: Option<Text>,
    pub date_created: Text,
}

/// One song's place in one playlist.
pub struct MemberView {
    pub playlist_id: Text,
    pub song_id: Text,
    pub position: int,
}

pub struct LibraryView {
    pub songs: Seq<SongView>,
    pub playlists: Seq<PlaylistRowView>,
    pub members: Seq<MemberView>,
}

/// The greatest position among the members of the playlist `playlist_id`,
/// or -1 where it has none.
pub open spec fn max_position(members: Seq<MemberView>, playlist_id: Text) -> int
    decreases members.len(),
{
    if members.len() == 0 {
        -1
    } else {
        let earlier = max_position(members.drop_last(), playlist_id);
        if members.last().playlist_id == playlist_id && members.last().position > earlier {
            members.last().position
        } else {
            earlier
        }
    }
}

/// No member of the playlist stands beyond `max_position`, which is -1 only
/// where the playlist is empty or all its positions are negative.
pub proof fn lemma_max_position_bounds(members: Seq<MemberView>, playlist_id: Text)
    ensures
        max_position(members, playlist_id) >= -1,
        forall|i: int|
            0 <= i < members.len() && (#[trigger] members[i]).playlist_id == playlist_id
                ==> members[i].position <= max_position(members, playlist_id),
        (forall|i: int| 0 <= i < members.len() ==> (#[trigger] members[i]).playlist_id != playlist_id)
            ==> max_position(members, playlist_id) == -1,
    decreases members.len(),
{
    if members.len() > 0 {
        let front = members.drop_last();
        lemma_max_position_bounds(front, playlist_id);
        assert forall|i: int|
            0 <= i < members.len() && (#[trigger] members[i]).playlist_id
                == playlist_id implies members[i].position <= max_position(members, playlist_id) by {
            if i < members.len() - 1 {
                assert(front[i] == members[i]);
            }
        }
        if forall|i: int| 0 <= i < members.len() ==> (#[trigger] members[i]).playlist_id != playlist_id {
            assert forall|i: int| 0 <= i < front.len() implies (#[trigger] front[i]).playlist_id
                != playlist_id by {
                assert(front[i] == members[i]);
            }
            assert(members[members.len() - 1].playlist_id != playlist_id);
        }
    }
}

impl LibraryView {
    pub open spec fn empty() -> LibraryView {
        LibraryView { songs: Seq::empty(), playlists: Seq::empty(), members: Seq::empty() }
    }

    pub open spec fn has_song(self, id: Text) -> bool {
        exists|i: int| 0 <= i < self.songs.len() && (#[trigger] self.songs[i]).id == id
    }

    /// Some song lies at the file path `path`.
    pub open spec fn has_path(self, path: Text) -> bool {
        exists|i: int| 0 <= i < self.songs.len() && (#[trigger] self.songs[i]).path == path
    }

    pub open spec fn has_playlist(self, id: Text) -> bool {
        exists|i: int| 0 <= i < self.playlists.len() && (#[trigger] self.playlists[i]).id == id
    }

    /// The song `song_id` is a member of the playlist `playlist_id`.
    pub open spec fn has_member(self, playlist_id: Text, song_id: Text) -> bool {
        exists|i: int|
            0 <= i < self.members.len() && (#[trigger] self.members[i]).playlist_id == playlist_id
                && self.members[i].song_id == song_id
    }

    pub open spec fn song_index(self, id: Text) -> int {
        choose|i: int| 0 <= i < self.songs.len() && (#[trigger] self.songs[i]).id == id
    }

    pub open spec fn playlist_index(self, id: Text) -> int {
        choose|i: int| 0 <= i < self.playlists.len() && (#[trigger] self.playlists[i]).id == id
    }

    /// The row of the song `id`; meaningful where `has_song(id)`.
    pub open spec fn song(self, id: Text) -> SongView {
        self.songs[self.song_index(id)]
    }

    /// The row of the playlist `id`; meaningful where `has_playlist(id)`.
    pub open spec fn playlist(self, id: Text) -> PlaylistRowView {
        self.playlists[self.playlist_index(id)]
    }

    /// The memberships of one playlist, in the order in which they are kept.
    pub open spec fn members_of(self, playlist_id: Text) -> Seq<MemberView> {
        self.members.filter(|m: MemberView| m.playlist_id == playlist_id)
    }

    /// The songs of one playlist in playing order.
    pub open spec fn song_ids_of(self, playlist_id: Text) -> Seq<Text> {
        self.members_of(playlist_id).map_values(|m: MemberView| m.song_id)
    }

    /// The position that the next member of the playlist gets: one beyond
    /// the greatest in use, zero in an empty playlist.
    pub open spec fn next_position(self, playlist_id: Text) -> int {
        max_position(self.members, playlist_id) + 1
    }

    /// An id names one song and one playlist, a path one song, and a song is
    /// a member of a playlist at most once.
    pub open spec fn keys_unique(self) -> bool {
        &&& forall|i: int, j: int|
            0 <= i < j < self.songs.len() ==> (#[trigger] self.songs[i]).id != (
            #[trigger] self.songs[j]).id
        &&& forall|i: int, j: int|
            0 <= i < j < self.songs.len() ==> (#[trigger] self.songs[i]).path != (
            #[trigger] self.songs[j]).path
        &&& forall|i: int, j: int|
            0 <= i < j < self.playlists.len() ==> (#[trigger] self.playlists[i]).id != (
            #[trigger] self.playlists[j]).id
        &&& forall|i: int, j: int|
            0 <= i < j < self.members.len() ==> !((#[trigger] self.members[i]).playlist_id == (
            #[trigger] self.members[j]).playlist_id && self.members[i].song_id
                == self.members[j].song_id)
    }

    /// Every membership names a playlist and a song that exist.
    pub open spec fn references_resolve(self) -> bool {
        forall|i: int|
            0 <= i < self.members.len() ==> self.has_playlist(
                (#[trigger] self.members[i]).playlist_id,
            ) && self.has_song(self.members[i].song_id)
    }

    /// Within a playlist the memberships are kept in playing order:
    /// positions start at zero or above and grow strictly.
    pub open spec fn positions_ascend(self) -> bool {
        &&& forall|i: int| 0 <= i < self.members.len() ==> (#[trigger] self.members[i]).position >= 0
        &&& forall|i: int, j: int|
            0 <= i < j < self.members.len() && (#[trigger] self.members[i]).playlist_id == (
            #[trigger] self.members[j]).playlist_id ==> self.members[i].position
                < self.members[j].position
    }

    /// The rules that every state of the library obeys.
    pub open spec fn wf(self) -> bool {
        &&& self.keys_unique()
        &&& self.references_resolve()
        &&& self.positions_ascend()
    }

    pub open spec fn with_song(self, row: SongView) -> LibraryView {
        LibraryView { songs: self.songs.push(row), ..self }
    }

    pub open spec fn with_playlist(self, row: PlaylistRowView) -> LibraryView {
        LibraryView { playlists: self.playlists.push(row), ..self }
    }

    /// The library after `song_id` was added to `playlist_id`: unchanged if
    /// it is a member already, else with the song behind the others.
    pub open spec fn with_member(self, playlist_id: Text, song_id: Text) -> LibraryView {
        if self.has_member(playlist_id, song_id) {
            self
        } else {
            LibraryView {
                members: self.members.push(
                    MemberView {
                        playlist_id: playlist_id,
                        song_id: song_id,
                        position: self.next_position(playlist_id),
                    },
                ),
                ..self
            }
        }
    }

    /// The library after `song_id` was taken out of `playlist_id`. The
    /// members that stay keep their positions.
    pub open spec fn without_member(self, playlist_id: Text, song_id: Text) -> LibraryView {
        LibraryView {
            members: self.members.filter(
                |m: MemberView| !(m.playlist_id == playlist_id && m.song_id == song_id),
            ),
            ..self
        }
    }

    /// Deleting a song takes it out of every playlist.
    pub open spec fn without_song(self, id: Text) -> LibraryView {
        LibraryView {
            songs: self.songs.filter(|s: SongView| s.id != id),
            members: self.members.filter(|m: MemberView| m.song_id != id),
            ..self
        }
    }

    /// Deleting a playlist deletes its memberships; the songs stay.
    pub open spec fn without_playlist(self, id: Text) -> LibraryView {
        LibraryView {
            playlists: self.playlists.filter(|p: PlaylistRowView| p.id != id),
            members: self.members.filter(|m: MemberView| m.playlist_id != id),
            ..self
        }
    }

    pub proof fn lemma_song_at(self, i: int)
        requires
            self.keys_unique(),
            0 <= i < self.songs.len(),
        ensures
            self.has_song(self.songs[i].id),
            self.song(self.songs[i].id) == self.songs[i],
    {
        let id = self.songs[i].id;
        let k = self.song_index(id);
        assert(0 <= k < self.songs.len() && self.songs[k].id == id);
        if k < i {
            assert(self.songs[k].id != self.songs[i].id);
        } else if i < k {
            assert(self.songs[i].id != self.songs[k].id);
        }
    }

    pub proof fn lemma_playlist_at(self, i: int)
        requires
            self.keys_unique(),
            0 <= i < self.playlists.len(),
        ensures
            self.has_playlist(self.playlists[i].id),
            self.playlist(self.playlists[i].id) == self.playlists[i],
    {
        let id = self.playlists[i].id;
        let k = self.playlist_index(id);
        assert(0 <= k < self.playlists.len() && self.playlists[k].id == id);
        if k < i {
            assert(self.playlists[k].id != self.playlists[i].id);
        } else if i < k {
            assert(self.playlists[i].id != self.playlists[k].id);
        }
    }

    /// Adding a song of a new id and a new path keeps the rules.
    pub proof fn lemma_with_song_wf(self, row: SongView)
        requires
            self.wf(),
            !self.has_song(row.id),
            !self.has_path(row.path),
        ensures
            self.with_song(row).wf(),
    {
        let next = self.with_song(row);
        assert forall|i: int, j: int| 0 <= i < j < next.songs.len() implies (
        #[trigger] next.songs[i]).id != (#[trigger] next.songs[j]).id && next.songs[i].path
            != next.songs[j].path by {
            assert(next.songs[i] == self.songs[i]);
            if j < self.songs.len() {
                assert(next.songs[j] == self.songs[j]);
            }
        }
        assert forall|id: Text| self.has_song(id) implies next.has_song(id) by {
            let k = self.song_index(id);
            assert(next.songs[k].id == id);
        }
    }

    /// Adding a playlist of a new id keeps the rules.
    pub proof fn lemma_with_playlist_wf(self, row: PlaylistRowView)
        requires
            self.wf(),
            !self.has_playlist(row.id),
        ensures
            self.with_playlist(row).wf(),
    {
        let next = self.with_playlist(row);
        assert forall|i: int, j: int| 0 <= i < j < next.playlists.len() implies (
        #[trigger] next.playlists[i]).id != (#[trigger] next.playlists[j]).id by {
            assert(next.playlists[i] == self.playlists[i]);
            if j < self.playlists.len() {
                assert(next.playlists[j] == self.playlists[j]);
            }
        }
        assert forall|id: Text| self.has_playlist(id) implies next.has_playlist(id) by {
            let k = self.playlist_index(id);
            assert(next.playlists[k].id == id);
        }
    }

    /// Adding a song that exists to a playlist that exists keeps the rules.
    pub proof fn lemma_with_member_wf(self, playlist_id: Text, song_id: Text)
        requires
            self.wf(),
            self.has_playlist(playlist_id),
            self.has_song(song_id),
        ensures
            self.with_member(playlist_id, song_id).wf(),
    {
        let next = self.with_member(playlist_id, song_id);
        lemma_max_position_bounds(self.members, playlist_id);
        if !self.has_member(playlist_id, song_id) {
            assert forall|i: int| 0 <= i < next.members.len() implies next.has_playlist(
                (#[trigger] next.members[i]).playlist_id,
            ) && next.has_song(next.members[i].song_id) && next.members[i].position >= 0 by {
                if i < self.members.len() {
                    assert(next.members[i] == self.members[i]);
                }
            }
            assert forall|i: int, j: int| 0 <= i < j < next.members.len() implies !((
            #[trigger] next.members[i]).playlist_id == (#[trigger] next.members[j]).playlist_id
                && next.members[i].song_id == next.members[j].song_id) && (
            next.members[i].playlist_id == next.members[j].playlist_id ==> next.members[i].position
                < next.members[j].position) by {
                assert(next.members[i] == self.members[i]);
                if j < self.members.len() {
                    assert(next.members[j] == self.members[j]);
                }
            }
        }
    }

    /// Taking a song out of a playlist keeps the rules, and afterwards it is
    /// no member.
    pub proof fn lemma_without_member_wf(self, playlist_id: Text, song_id: Text)
        requires
            self.wf(),
        ensures
            self.without_member(playlist_id, song_id).wf(),
            !self.without_member(playlist_id, song_id).has_member(playlist_id, song_id),
    {
        let keep = |m: MemberView| !(m.playlist_id == playlist_id && m.song_id == song_id);
        self.lemma_members_filtered_wf(keep);
        let next = self.without_member(playlist_id, song_id);
        lemma_filter_rows(self.members, keep);
        if next.has_member(playlist_id, song_id) {
            let k = choose|k: int|
                0 <= k < next.members.len() && (#[trigger] next.members[k]).playlist_id
                    == playlist_id && next.members[k].song_id == song_id;
            assert(next.members.contains(next.members[k]));
        }
    }

    /// Dropping memberships keeps the rules for the memberships that stay.
    pub proof fn lemma_members_filtered_wf(self, keep: spec_fn(MemberView) -> bool)
        requires
            self.wf(),
        ensures
            (LibraryView { members: self.members.filter(keep), ..self }).wf(),
    {
        let next = LibraryView { members: self.members.filter(keep), ..self };
        lemma_filter_rows(self.members, keep);
        let apart = |a: MemberView, b: MemberView|
            !(a.playlist_id == b.playlist_id && a.song_id == b.song_id);
        let ahead = |a: MemberView, b: MemberView|
            a.playlist_id == b.playlist_id ==> a.position < b.position;
        lemma_filter_pairwise(self.members, keep, apart);
        lemma_filter_pairwise(self.members, keep, ahead);
        assert forall|i: int, j: int| 0 <= i < j < next.members.len() implies !((
        #[trigger] next.members[i]).playlist_id == (#[trigger] next.members[j]).playlist_id
            && next.members[i].song_id == next.members[j].song_id) && (next.members[i].playlist_id
            == next.members[j].playlist_id ==> next.members[i].position
            < next.members[j].position) by {
            assert(apart(next.members[i], next.members[j]));
            assert(ahead(next.members[i], next.members[j]));
        }
        assert forall|i: int| 0 <= i < next.members.len() implies next.has_playlist(
            (#[trigger] next.members[i]).playlist_id,
        ) && next.has_song(next.members[i].song_id) && next.members[i].position >= 0 by {
            assert(next.members.contains(next.members[i]));
            assert(self.members.contains(next.members[i]));
            let m = choose|m: int| 0 <= m < self.members.len() && self.members[m] == next.members[i];
            assert(self.has_playlist(self.members[m].playlist_id));
        }
    }

    /// Deleting a song keeps the rules: no playlist still names it.
    pub proof fn lemma_without_song_wf(self, id: Text)
        requires
            self.wf(),
        ensures
            self.without_song(id).wf(),
            !self.without_song(id).has_song(id),
    {
        let keep_m = |m: MemberView| m.song_id != id;
        let keep_s = |s: SongView| s.id != id;
        self.lemma_members_filtered_wf(keep_m);
        let mid = LibraryView { members: self.members.filter(keep_m), ..self };
        let next = self.without_song(id);
        lemma_filter_rows(self.songs, keep_s);
        lemma_filter_rows(self.members, keep_m);
        let differ_id = |a: SongView, b: SongView| a.id != b.id;
        let differ_path = |a: SongView, b: SongView| a.path != b.path;
        lemma_filter_pairwise(self.songs, keep_s, differ_id);
        lemma_filter_pairwise(self.songs, keep_s, differ_path);
        assert forall|i: int, j: int| 0 <= i < j < next.songs.len() implies (
        #[trigger] next.songs[i]).id != (#[trigger] next.songs[j]).id && next.songs[i].path
            != next.songs[j].path by {
            assert(differ_id(next.songs[i], next.songs[j]));
            assert(differ_path(next.songs[i], next.songs[j]));
        }
        if next.has_song(id) {
            let k = choose|k: int| 0 <= k < next.songs.len() && (#[trigger] next.songs[k]).id == id;
            assert(next.songs.contains(next.songs[k]));
        }
        assert forall|i: int| 0 <= i < next.members.len() implies next.has_playlist(
            (#[trigger] next.members[i]).playlist_id,
        ) && next.has_song(next.members[i].song_id) by {
            assert(mid.members[i] == next.members[i]);
            assert(mid.has_song(mid.members[i].song_id));
            assert(next.members.contains(next.members[i]));
            let k = self.song_index(next.members[i].song_id);
            assert(self.songs.contains(self.songs[k]));
            assert(next.songs.contains(self.songs[k]));
            let n = choose|n: int| 0 <= n < next.songs.len() && next.songs[n] == self.songs[k];
            assert(next.songs[n].id == next.members[i].song_id);
        }
    }

    /// Deleting a playlist keeps the rules: none of its memberships is left.
    pub proof fn lemma_without_playlist_wf(self, id: Text)
        requires
            self.wf(),
        ensures
            self.without_playlist(id).wf(),
            !self.without_playlist(id).has_playlist(id),
            self.without_playlist(id).members_of(id) == Seq::<MemberView>::empty(),
    {
        let keep_m = |m: MemberView| m.playlist_id != id;
        let keep_p = |p: PlaylistRowView| p.id != id;
        self.lemma_members_filtered_wf(keep_m);
        let mid = LibraryView { members: self.members.filter(keep_m), ..self };
        let next = self.without_playlist(id);
        lemma_filter_rows(self.playlists, keep_p);
        lemma_filter_rows(self.members, keep_m);
        let differ_id = |a: PlaylistRowView, b: PlaylistRowView| a.id != b.id;
        lemma_filter_pairwise(self.playlists, keep_p, differ_id);
        assert forall|i: int, j: int| 0 <= i < j < next.playlists.len() implies (
        #[trigger] next.playlists[i]).id != (#[trigger] next.playlists[j]).id by {
            assert(differ_id(next.playlists[i], next.playlists[j]));
        }
        if next.has_playlist(id) {
            let k = choose|k: int|
                0 <= k < next.playlists.len() && (#[trigger] next.playlists[k]).id == id;
            assert(next.playlists.contains(next.playlists[k]));
        }
        assert forall|i: int| 0 <= i < next.members.len() implies next.has_playlist(
            (#[trigger] next.members[i]).playlist_id,
        ) && next.has_song(next.members[i].song_id) by {
            assert(mid.members[i] == next.members[i]);
            assert(mid.has_playlist(mid.members[i].playlist_id));
            assert(next.members.contains(next.members[i]));
            let k = self.playlist_index(next.members[i].playlist_id);
            assert(self.playlists.contains(self.playlists[k]));
            assert(next.playlists.contains(self.playlists[k]));
            let n = choose|n: int|
                0 <= n < next.playlists.len() && next.playlists[n] == self.playlists[k];
            assert(next.playlists[n].id == next.members[i].playlist_id);
        }
        let of = |m: MemberView| m.playlist_id == id;
        lemma_filter_rows(next.members, of);
        if next.members.filter(of).len() > 0 {
            let m = next.members.filter(of)[0];
            assert(next.members.filter(of).contains(m));
            assert(next.members.contains(m));
        }
        assert(next.members_of(id) =~= Seq::<MemberView>::empty());
    }
}

} // verus!
