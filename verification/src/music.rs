//! The records of the music library, identifiers and stamps for them, and
//! the bookkeeping of an import run.

use vstd::prelude::*;
use vstd::string::*;
use crate::ambient::{since_unix_epoch, system_now, whole_millis};
use crate::calendar::is_utc_stamp;
use crate::stamps::{clock_stamp, reading_text};
use crate::database::{copy_opt, opt_text};
use crate::text::{decimal, decimal_string, lemma_decimal_injective};

verus! {

/// A song. `duration_bits` carries the length in seconds as the bit pattern
/// of an IEEE 754 double.
#[derive(Debug)]
pub struct Song {
    pub id: String,
    pub name: String,
    pub artist: String,
    pub album: String,
    pub duration_bits: u64,
    pub path: String,
    pub genre: Option<String>,
    pub year: Option<u32>,
    pub track_number: Option<u32>,
    pub artist_id: Option<String>,
    pub album_id: Option<String>,
    pub date_added: String,
    pub play_count: u32,
    pub last_played: Option<String>,
}

pub struct SongView {
    pub id: Seq<char>,
    pub name: Seq<char>,
    pub artist: Seq<char>,
    pub album: Seq<char>,
    pub duration_bits: u64,
    pub path: Seq<char>,
    pub genre: Option<Seq<char>>,
    pub year: Option<u32>,
    pub track_number: Option<u32>,
    pub artist_id: Option<Seq<char>>,
    pub album_id: Option<Seq<char>>,
    pub date_added: Seq<char>,
    pub play_count: u32,
    pub last_played: Option<Seq<char>>,
}

impl View for Song {
    type V = SongView;

    open spec fn view(&self) -> SongView {
        SongView {
            id: self.id@,
            name: self.name@,
            artist: self.artist@,
            album: self.album@,
            duration_bits: self.duration_bits,
            path: self.path@,
            genre: opt_text(self.genre),
            year: self.year,
            track_number: self.track_number,
            artist_id: opt_text(self.artist_id),
            album_id: opt_text(self.album_id),
            date_added: self.date_added@,
            play_count: self.play_count,
            last_played: opt_text(self.last_played),
        }
    }
}

impl DeepView for Song {
    type V = SongView;

    open spec fn deep_view(&self) -> SongView {
        self@
    }
}

impl Clone for Song {
    fn clone(&self) -> (copy: Self)
        ensures
            copy == *self,
    {
        Song {
            id: self.id.clone(),
            name: self.name.clone(),
            artist: self.artist.clone(),
            album: self.album.clone(),
            duration_bits: self.duration_bits,
            path: self.path.clone(),
            genre: copy_opt(&self.genre),
            year: self.year,
            track_number: self.track_number,
            artist_id: copy_opt(&self.artist_id),
            album_id: copy_opt(&self.album_id),
            date_added: self.date_added.clone(),
            play_count: self.play_count,
            last_played: copy_opt(&self.last_played),
        }
    }
}

/// A performer in the music library.
#[derive(Debug)]
pub struct Artist {
    pub id: String,
    pub name: String,
    pub genre: Option<String>,
    pub bio: Option<String>,
    pub image_path: Option<String>,
    pub artwork_path: Option<String>,
}

pub struct ArtistView {
    pub id: Seq<char>,
    pub name: Seq<char>,
    pub genre: Option<Seq<char>>,
    pub bio: Option<Seq<char>>,
    pub image_path: Option<Seq<char>>,
    pub artwork_path: Option<Seq<char>>,
}

impl View for Artist {
    type V = ArtistView;

    open spec fn view(&self) -> ArtistView {
        ArtistView {
            id: self.id@,
            name: self.name@,
            genre: opt_text(self.genre),
            bio: opt_text(self.bio),
            image_path: opt_text(self.image_path),
            artwork_path: opt_text(self.artwork_path),
        }
    }
}

impl Clone for Artist {
    fn clone(&self) -> (copy: Self)
        ensures
            copy == *self,
    {
        Artist {
            id: self.id.clone(),
            name: self.name.clone(),
            genre: copy_opt(&self.genre),
            bio: copy_opt(&self.bio),
            image_path: copy_opt(&self.image_path),
            artwork_path: copy_opt(&self.artwork_path),
        }
    }
}

/// An album of one performer.
#[derive(Debug)]
pub struct Album {
    pub id: String,
    pub name: String,
    pub artist_id: String,
    pub artist_name: String,
    pub year: Option<u32>,
    pub cover_path: Option<String>,
}

pub struct AlbumView {
    pub id: Seq<char>,
    pub name: Seq<char>,
    pub artist_id: Seq<char>,
    pub artist_name: Seq<char>,
    pub year: Option<u32>,
    pub cover_path: Option<Seq<char>>,
}

impl View for Album {
    type V = AlbumView;

    open spec fn view(&self) -> AlbumView {
        AlbumView {
            id: self.id@,
            name: self.name@,
            artist_id: self.artist_id@,
            artist_name: self.artist_name@,
            year: self.year,
            cover_path: opt_text(self.cover_path),
        }
    }
}

impl Clone for Album {
    fn clone(&self) -> (copy: Self)
        ensures
            copy == *self,
    {
        Album {
            id: self.id.clone(),
            name: self.name.clone(),
            artist_id: self.artist_id.clone(),
            artist_name: self.artist_name.clone(),
            year: self.year,
            cover_path: copy_opt(&self.cover_path),
        }
    }
}

/// A playlist as handed to callers: its own fields and the ids of its songs
/// in playing order.
#[derive(Debug)]
pub struct Playlist {
    pub id: String,
    pub name: String,
    pub description: Option<String>,
    pub color: Option<String>,
    pub artwork_path: Option<String>,
    pub song_ids: Vec<String>,
    pub artist_id: Option<String>,
    pub date_created: String,
}

pub struct PlaylistView {
    pub id: Seq<char>,
    pub name: Seq<char>,
    pub description: Option<Seq<char>>,
    pub color: Option<Seq<char>>,
    pub artwork_path: Option<Seq<char>>,
    pub song_ids: Seq<Seq<char>>,
    pub artist_id: Option<Seq<char>>,
    pub date_created: Seq<char>,
}

impl View for Playlist {
    type V = PlaylistView;

    open spec fn view(&self) -> PlaylistView {
        PlaylistView {
            id: self.id@,
            name: self.name@,
            description: opt_text(self.description),
            color: opt_text(self.color),
            artwork_path: opt_text(self.artwork_path),
            song_ids: self.song_ids.deep_view(),
            artist_id: opt_text(self.artist_id),
            date_created: self.date_created@,
        }
    }
}

/// Whether a text is an identifier drawn from the clock: a count of
/// milliseconds in decimal.
pub open spec fn is_clock_id(id: Seq<char>) -> bool {
    exists|millis: u128| id == #[trigger] decimal(millis as nat)
}

/// The identifier that goes with a reading of the clock: the milliseconds
/// since 1970-01-01T00:00:00Z in decimal.
pub fn id_from_millis(millis: u128) -> (id: String)
    ensures
        id@ == decimal(millis as nat),
{
    decimal_string(millis)
}

/// The milliseconds since 1970-01-01T00:00:00Z that the clock reads; zero
/// for a clock that stands before 1970.
pub fn read_millis() -> (millis: u128) {
    let now = system_now();
    match since_unix_epoch(&now) {
        Some(elapsed) => whole_millis(&elapsed),
        None => 0,
    }
}

/// A new identifier, drawn from the clock.
///
/// Which reading the clock gives is left open; the identifier is that
/// reading in decimal. A clock that stands before 1970 reads as zero. Two
/// readings of a clock may agree: who issues several identifiers holds on to
/// the last and takes the next from `id_after`.
pub fn generate_id() -> (id: String)
    ensures
        is_clock_id(id@),
{
    let millis = read_millis();
    let id = id_from_millis(millis);
    assert(id@ == decimal(millis as nat));
    id
}

/// The number of the identifier that follows `last` when the clock reads
/// `reading`: the reading, or the number after `last` where the clock has
/// not gone on since; and `ceiling` where that would be beyond it.
pub open spec fn id_number_after(last: Option<u128>, reading: u128, ceiling: u128) -> int {
    let wanted = match last {
        Some(l) => if reading > l {
            reading as int
        } else {
            l + 1
        },
        None => reading as int,
    };
    if wanted > ceiling {
        ceiling as int
    } else {
        wanted
    }
}

/// Takes the number of the next identifier, greater than the last one.
pub fn id_after(last: Option<u128>, reading: u128, ceiling: u128) -> (next: u128)
    requires
        last matches Some(l) ==> l < ceiling,
    ensures
        next == id_number_after(last, reading, ceiling),
        last matches Some(l) ==> next > l,
        next <= ceiling,
{
    let wanted: u128 = match last {
        Some(l) => if reading > l {
            reading
        } else {
            l + 1
        },
        None => reading,
    };
    if wanted > ceiling {
        ceiling
    } else {
        wanted
    }
}

/// The current instant in UTC as RFC 3339 text.
///
/// Which reading the clock gives is left open; the text is that reading as
/// chrono writes it, has the shape of every such stamp and ends in the
/// offset of UTC. A clock that stands before 1970 reads as the epoch.
pub fn get_timestamp() -> (stamp: String)
    ensures
        is_utc_stamp(stamp@),
        exists|secs: int, nanos: int| stamp@ == #[trigger] reading_text(secs, nanos),
{
    clock_stamp()
}

/// Summary of an import run.
#[derive(Debug)]
pub struct ImportResult {
    pub success: bool,
    pub imported_count: usize,
    pub failed_count: usize,
    pub errors: Vec<String>,
    pub songs: Vec<Song>,
}

/// What the tags of an audio file say, field by field.
#[derive(Debug)]
pub struct TagFields {
    pub title: Option<String>,
    pub artist: Option<String>,
    pub album: Option<String>,
    pub genre: Option<String>,
    pub year: Option<u32>,
    pub track: Option<u32>,
}

pub struct TagFieldsView {
    pub title: Option<Seq<char>>,
    pub artist: Option<Seq<char>>,
    pub album: Option<Seq<char>>,
    pub genre: Option<Seq<char>>,
    pub year: Option<u32>,
    pub track: Option<u32>,
}

impl View for TagFields {
    type V = TagFieldsView;

    open spec fn view(&self) -> TagFieldsView {
        TagFieldsView {
            title: opt_text(self.title),
            artist: opt_text(self.artist),
            album: opt_text(self.album),
            genre: opt_text(self.genre),
            year: self.year,
            track: self.track,
        }
    }
}

/// What reading an audio file gave: its length in seconds, as the bit
/// pattern of an IEEE 754 double, and its tags if it has any.
#[derive(Debug)]
pub struct AudioProbe {
    pub duration_bits: u64,
    pub tag: Option<TagFields>,
}

pub struct AudioProbeView {
    pub duration_bits: u64,
    pub tag: Option<TagFieldsView>,
}

impl View for AudioProbe {
    type V = AudioProbeView;

    open spec fn view(&self) -> AudioProbeView {
        AudioProbeView {
            duration_bits: self.duration_bits,
            tag: match self.tag {
                Some(t) => Some(t@),
                None => None,
            },
        }
    }
}

/// One file of an import run: its path, the name to fall back on for an
/// untitled song, and what reading it gave or why it could not be read.
#[derive(Debug)]
pub struct ProbedFile {
    pub path: String,
    pub file_name: String,
    pub probe: Result<AudioProbe, String>,
}

pub struct ProbedFileView {
    pub path: Seq<char>,
    pub file_name: Seq<char>,
    pub probe: Result<AudioProbeView, Seq<char>>,
}

impl View for ProbedFile {
    type V = ProbedFileView;

    open spec fn view(&self) -> ProbedFileView {
        ProbedFileView {
            path: self.path@,
            file_name: self.file_name@,
            probe: match self.probe {
                Ok(p) => Ok(p@),
                Err(e) => Err(e@),
            },
        }
    }
}

impl DeepView for ProbedFile {
    type V = ProbedFileView;

    open spec fn deep_view(&self) -> ProbedFileView {
        self@
    }
}

/// A text if there is one, else the fallback.
pub open spec fn text_or(value: Option<Seq<char>>, fallback: Seq<char>) -> Seq<char> {
    match value {
        Some(s) => s,
        None => fallback,
    }
}

/// The song that stands for a file that was read: title, performer and album
/// from its tags, with the file's name, "Unknown Artist" and "Unknown Album"
/// in place of what the tags lack; never played, and tied to no performer or
/// album row yet.
pub open spec fn song_row(
    path: Seq<char>,
    file_name: Seq<char>,
    probe: AudioProbeView,
    id: Seq<char>,
    date_added: Seq<char>,
) -> SongView {
    SongView {
        id: id,
        name: match probe.tag {
            Some(t) => text_or(t.title, file_name),
            None => file_name,
        },
        artist: match probe.tag {
            Some(t) => text_or(t.artist, "Unknown Artist"@),
            None => "Unknown Artist"@,
        },
        album: match probe.tag {
            Some(t) => text_or(t.album, "Unknown Album"@),
            None => "Unknown Album"@,
        },
        duration_bits: probe.duration_bits,
        path: path,
        genre: match probe.tag {
            Some(t) => t.genre,
            None => None,
        },
        year: match probe.tag {
            Some(t) => t.year,
            None => None,
        },
        track_number: match probe.tag {
            Some(t) => t.track,
            None => None,
        },
        artist_id: None,
        album_id: None,
        date_added: date_added,
        play_count: 0,
        last_played: None,
    }
}

/// The line that reports a file that could not be read.
pub open spec fn failure_line(path: Seq<char>, reason: Seq<char>) -> Seq<char> {
    "Failed to import "@ + path + ": "@ + reason
}

/// The failure lines of a run, in the order of the files.
pub open spec fn failure_lines(files: Seq<ProbedFileView>) -> Seq<Seq<char>>
    decreases files.len(),
{
    if files.len() == 0 {
        Seq::empty()
    } else {
        let earlier = failure_lines(files.drop_last());
        match files.last().probe {
            Ok(_) => earlier,
            Err(reason) => earlier.push(failure_line(files.last().path, reason)),
        }
    }
}

/// The files of a run that were read, in their order.
pub open spec fn files_read(files: Seq<ProbedFileView>) -> Seq<ProbedFileView> {
    files.filter(|f: ProbedFileView| f.probe is Ok)
}

/// Copies a string if there is one, else takes the fallback.
fn copy_or(value: &Option<String>, fallback: &str) -> (text: String)
    ensures
        text@ == text_or(opt_text(*value), fallback@),
{
    match value {
        Some(s) => s.clone(),
        None => String::from_str(fallback),
    }
}

/// Builds the song that stands for a file that was read.
pub fn song_from_probe(
    path: &String,
    file_name: &String,
    probe: &AudioProbe,
    id: String,
    date_added: String,
) -> (song: Song)
    ensures
        song@ == song_row(path@, file_name@, probe@, id@, date_added@),
{
    match &probe.tag {
        Some(tag) => Song {
            id,
            name: copy_or(&tag.title, file_name.as_str()),
            artist: copy_or(&tag.artist, "Unknown Artist"),
            album: copy_or(&tag.album, "Unknown Album"),
            duration_bits: probe.duration_bits,
            path: path.clone(),
            genre: copy_opt(&tag.genre),
            year: tag.year,
            track_number: tag.track,
            artist_id: None,
            album_id: None,
            date_added,
            play_count: 0,
            last_played: None,
        },
        None => Song {
            id,
            name: file_name.clone(),
            artist: String::from_str("Unknown Artist"),
            album: String::from_str("Unknown Album"),
            duration_bits: probe.duration_bits,
            path: path.clone(),
            genre: None,
            year: None,
            track_number: None,
            artist_id: None,
            album_id: None,
            date_added,
            play_count: 0,
            last_played: None,
        },
    }
}

/// Turns what reading a file gave into a song with a new identifier, added
/// now; a file that could not be read keeps its reason.
pub fn extract_metadata(file: &ProbedFile) -> (result: Result<Song, String>)
    ensures
        match (file@.probe, result) {
            (Ok(probe), Ok(song)) => song@ == song_row(
                file@.path,
                file@.file_name,
                probe,
                song@.id,
                song@.date_added,
            ),
            (Err(reason), Err(e)) => e@ == reason,
            _ => false,
        },
        result matches Ok(song) ==> is_utc_stamp(song@.date_added) && is_clock_id(song@.id),
{
    match &file.probe {
        Ok(probe) => Ok(
            song_from_probe(&file.path, &file.file_name, probe, generate_id(), get_timestamp()),
        ),
        Err(reason) => Err(reason.clone()),
    }
}

/// Builds the line that reports a file that could not be read.
pub fn failure_message(path: &String, reason: &String) -> (line: String)
    ensures
        line@ == failure_line(path@, reason@),
{
    let mut line = String::from_str("Failed to import ");
    line.append(path.as_str());
    line.append(": ");
    line.append(reason.as_str());
    line
}

/// Sums up an import run.
///
/// Every file counts once, as imported or as failed. The songs are those of
/// the files that were read, in their order, each added now under an
/// identifier of its own; the errors are the failure lines of the others, in
/// their order. The run succeeded if no file failed.
pub fn import_music_files(files: Vec<ProbedFile>) -> (result: ImportResult)
    ensures
        result.success == (result.failed_count == 0),
        result.imported_count == result.songs@.len(),
        result.failed_count == result.errors@.len(),
        result.imported_count + result.failed_count == files@.len(),
        result.errors.deep_view() == failure_lines(files.deep_view()),
        result.songs@.len() == files_read(files.deep_view()).len(),
        forall|k: int|
            0 <= k < result.songs@.len() ==> (#[trigger] result.songs@[k])@ == song_row(
                files_read(files.deep_view())[k].path,
                files_read(files.deep_view())[k].file_name,
                files_read(files.deep_view())[k].probe->Ok_0,
                result.songs@[k]@.id,
                result.songs@[k]@.date_added,
            ),
        forall|k: int|
            0 <= k < result.songs@.len() ==> is_utc_stamp(
                (#[trigger] result.songs@[k])@.date_added,
            ),
        forall|j: int, k: int|
            0 <= j < k < result.songs@.len() ==> (#[trigger] result.songs@[j])@.id != (
            #[trigger] result.songs@[k])@.id,
        forall|k: int| 0 <= k < result.songs@.len() ==> is_clock_id((#[trigger] result.songs@[k])@.id),
{
    let ghost all = files.deep_view();
    let ghost read = |f: ProbedFileView| f.probe is Ok;
    let ghost mut issued: Seq<nat> = Seq::empty();
    let mut last: Option<u128> = None;
    let mut songs: Vec<Song> = Vec::new();
    let mut errors: Vec<String> = Vec::new();
    let mut i: usize = 0;
    assert(all.take(0) =~= Seq::empty());
    assert(all.take(0).filter(read) =~= Seq::empty()) by {
        reveal(Seq::filter);
    }
    assert(errors.deep_view() =~= failure_lines(all.take(0)));
    while i < files.len()
        invariant
            i <= files.len(),
            all == files.deep_view(),
            read == |f: ProbedFileView| f.probe is Ok,
            songs@.len() + errors@.len() == i,
            errors.deep_view() == failure_lines(all.take(i as int)),
            songs@.len() == all.take(i as int).filter(read).len(),
            forall|k: int|
                0 <= k < songs@.len() ==> (#[trigger] songs@[k])@ == song_row(
                    all.take(i as int).filter(read)[k].path,
                    all.take(i as int).filter(read)[k].file_name,
                    all.take(i as int).filter(read)[k].probe->Ok_0,
                    songs@[k]@.id,
                    songs@[k]@.date_added,
                ),
            forall|k: int| 0 <= k < songs@.len() ==> is_utc_stamp((#[trigger] songs@[k])@.date_added),
            issued.len() == songs@.len(),
            forall|k: int|
                0 <= k < songs@.len() ==> (#[trigger] songs@[k])@.id == decimal(issued[k]),
            issued.len() > 0 ==> last is Some,
            forall|k: int| 0 <= k < issued.len() ==> #[trigger] issued[k] <= last->0,
            forall|j: int, k: int| 0 <= j < k < issued.len() ==> issued[j] < issued[k],
            last matches Some(l) ==> l <= u128::MAX - (files.len() - i),
        decreases files.len() - i,
    {
        let ghost lines = errors.deep_view();
        assert(all.take(i + 1).drop_last() =~= all.take(i as int));
        assert(all.take(i + 1) =~= all.take(i as int).push(all[i as int]));
        proof {
            all.take(i as int).lemma_filter_push(all[i as int], read);
        }
        match &files[i].probe {
            Ok(probe) => {
                let room: u128 = (files.len() - 1 - i) as u128;
                let number = id_after(last, read_millis(), u128::MAX - room);
                let song = song_from_probe(
                    &files[i].path,
                    &files[i].file_name,
                    probe,
                    id_from_millis(number),
                    get_timestamp(),
                );
                let ghost earlier = issued;
                songs.push(song);
                last = Some(number);
                proof {
                    issued = earlier.push(number as nat);
                    assert forall|k: int| 0 <= k < issued.len() implies #[trigger] issued[k]
                        <= number by {
                        if k < earlier.len() {
                            assert(issued[k] == earlier[k]);
                        }
                    }
                    assert forall|j: int, k: int| 0 <= j < k < issued.len() implies issued[j]
                        < issued[k] by {
                        assert(issued[j] == earlier[j]);
                        if k < earlier.len() {
                            assert(issued[k] == earlier[k]);
                        }
                    }
                }
            },
            Err(reason) => {
                errors.push(failure_message(&files[i].path, reason));
                assert(errors.deep_view() =~= lines.push(
                    failure_line(all[i as int].path, reason@),
                ));
            },
        }
        i = i + 1;
    }
    assert(all.take(i as int) =~= all);
    assert forall|j: int, k: int| 0 <= j < k < songs@.len() implies (#[trigger] songs@[j])@.id != (
    #[trigger] songs@[k])@.id by {
        if songs@[j]@.id == songs@[k]@.id {
            lemma_decimal_injective(issued[j], issued[k]);
        }
    }
    assert forall|k: int| 0 <= k < songs@.len() implies is_clock_id((#[trigger] songs@[k])@.id) by {
        let millis = issued[k] as u128;
        assert(songs@[k]@.id == decimal(millis as nat));
    }
    let failed_count = errors.len();
    ImportResult {
        success: failed_count == 0,
        imported_count: songs.len(),
        failed_count,
        errors,
        songs,
    }
}

/// What a piece of artwork shows.
#[derive(Debug, Clone, Copy, PartialEq, Eq, Structural)]
pub enum ArtworkKind {
    Artist,
    Playlist,
    Album,
}

impl ArtworkKind {
    /// The folder, below the artwork folder, that keeps artwork of this kind.
    pub open spec fn folder_text(self) -> Seq<char> {
        match self {
            ArtworkKind::Artist => "artists"@,
            ArtworkKind::Playlist => "playlists"@,
            ArtworkKind::Album => "albums"@,
        }
    }

    /// The folder, below the artwork folder, that keeps artwork of this kind.
    pub fn folder(&self) -> (name: String)
        ensures
            name@ == self.folder_text(),
    {
        match self {
            ArtworkKind::Artist => String::from_str("artists"),
            ArtworkKind::Playlist => String::from_str("playlists"),
            ArtworkKind::Album => String::from_str("albums"),
        }
    }
}

/// The name of the file that keeps the artwork of one record: the record's
/// id and the extension of the image, joined by a point.
pub fn artwork_file_name(id: &str, extension: &str) -> (name: String)
    ensures
        name@ == id@ + "."@ + extension@,
{
    let mut name = String::from_str(id);
    name.append(".");
    name.append(extension);
    name
}

} // verus!
