//! The records the library keeps in its database and the decisions taken
//! around them: albums grouped from songs, directories checked before they
//! are added, the directory a song path belongs to, and whether a song's
//! stored tags are out of date.

use vstd::prelude::*;
use vstd::std_specs::iter::IteratorSpec;
use crate::metadata::{ItemKey, Metadata, clone_opt, opt_view};
use crate::paths::{path_is_absolute, path_starts_with, spec_path_starts_with, is_absolute_spec};
use crate::strmap::str_eq;
use crate::ids::new_uuid_string;
use crate::clock::now_unix_nanos;
use crate::text::{chars_of, str_trim, trim_spec};
use crate::metadata::Error as MetadataError;
use crate::metadata::metadata_error_message;
use crate::text::str_concat;

verus! {

/// A directory songs are kept in. `name` is its identifier.
#[derive(Debug, Clone)]
pub struct Directory {
    pub name: String,
    pub path: String,
    pub display_name: Option<String>,
}

/// A directory to add.
#[derive(Debug, Clone)]
pub struct NewDirectory {
    /// The path of the directory.
    pub path: String,
    /// The display name of the directory, only used in the UI.
    pub display_name: Option<String>,
}

/// A song as stored; times are Unix timestamps in nanoseconds.
#[derive(Debug, Clone, Default)]
pub struct Song {
    pub id: String,
    pub path: String,
    pub title: Option<String>,
    pub artist: Option<String>,
    pub album: Option<String>,
    pub album_artist: Option<String>,
    pub genre: Option<String>,
    pub track_number: Option<String>,
    pub disc_number: Option<String>,
    pub year: Option<String>,
    pub mood: Option<String>,
    pub added_at: Option<i128>,
    pub updated_at: Option<i128>,
    pub file_created_at: Option<i128>,
    pub directory_id: String,
}

/// A song to add.
#[derive(Debug, Clone, Default)]
pub struct NewSong {
    pub path: String,
    pub title: Option<String>,
    pub artist: Option<String>,
    pub album: Option<String>,
    pub album_artist: Option<String>,
    pub genre: Option<String>,
    pub track_number: Option<String>,
    pub disc_number: Option<String>,
    pub year: Option<String>,
    pub mood: Option<String>,
    pub file_created_at: Option<i128>,
}

/// New tag values of a stored song.
#[derive(Debug, Clone, Default)]
pub struct UpdatedSong {
    pub title: Option<String>,
    pub artist: Option<String>,
    pub album: Option<String>,
    pub album_artist: Option<String>,
    pub genre: Option<String>,
    pub track_number: Option<String>,
    pub disc_number: Option<String>,
    pub year: Option<String>,
    pub mood: Option<String>,
}

/// A collection of songs sharing an album title.
#[derive(Debug, Clone)]
pub struct Album {
    pub title: String,
    pub artist: Option<String>,
    pub tracks: Vec<Song>,
}

/// The value of a field in optional metadata.
pub open spec fn meta_field(metadata: Option<Metadata>, k: ItemKey) -> Option<Seq<char>> {
    match metadata {
        Some(m) => m.field(k),
        None => None,
    }
}

/// Reads one field of optional metadata.
fn field_of(metadata: Option<&Metadata>, k: ItemKey) -> (r: Option<String>)
    requires
        metadata matches Some(m) ==> m.wf(),
    ensures
        opt_view(r) == meta_field(match metadata { Some(m) => Some(*m), None => None }, k),
{
    match metadata {
        Some(m) => match m.get(&k) {
            Some(v) => Some(v.clone()),
            None => None,
        },
        None => None,
    }
}

/// `s` is the record of a file at `path` with the tags `metadata` and the
/// creation time `created`.
pub open spec fn new_song_of(s: NewSong, path: Seq<char>, metadata: Option<Metadata>, created: Option<i128>) -> bool {
    &&& s.path@ == path
    &&& s.file_created_at == created
    &&& opt_view(s.title) == meta_field(metadata, ItemKey::Title)
    &&& opt_view(s.artist) == meta_field(metadata, ItemKey::Artist)
    &&& opt_view(s.album) == meta_field(metadata, ItemKey::Album)
    &&& opt_view(s.album_artist) == meta_field(metadata, ItemKey::AlbumArtist)
    &&& opt_view(s.genre) == meta_field(metadata, ItemKey::Genre)
    &&& opt_view(s.track_number) == meta_field(metadata, ItemKey::TrackNumber)
    &&& opt_view(s.disc_number) == meta_field(metadata, ItemKey::DiscNumber)
    &&& opt_view(s.year) == meta_field(metadata, ItemKey::Year)
    &&& opt_view(s.mood) == meta_field(metadata, ItemKey::Mood)
}

/// `u` holds the tag values of `metadata`.
pub open spec fn updated_song_of(u: UpdatedSong, metadata: Option<Metadata>) -> bool {
    &&& opt_view(u.title) == meta_field(metadata, ItemKey::Title)
    &&& opt_view(u.artist) == meta_field(metadata, ItemKey::Artist)
    &&& opt_view(u.album) == meta_field(metadata, ItemKey::Album)
    &&& opt_view(u.album_artist) == meta_field(metadata, ItemKey::AlbumArtist)
    &&& opt_view(u.genre) == meta_field(metadata, ItemKey::Genre)
    &&& opt_view(u.track_number) == meta_field(metadata, ItemKey::TrackNumber)
    &&& opt_view(u.disc_number) == meta_field(metadata, ItemKey::DiscNumber)
    &&& opt_view(u.year) == meta_field(metadata, ItemKey::Year)
    &&& opt_view(u.mood) == meta_field(metadata, ItemKey::Mood)
}

impl NewSong {
    /// The song record for a file at `path` with the given tags.
    pub fn from_file(path: String, metadata: Option<&Metadata>, file_created_at: Option<i128>) -> (s: NewSong)
        requires
            metadata matches Some(m) ==> m.wf(),
        ensures
            new_song_of(s, path@, match metadata { Some(m) => Some(*m), None => None }, file_created_at),
    {
        NewSong {
            path,
            title: field_of(metadata, ItemKey::Title),
            artist: field_of(metadata, ItemKey::Artist),
            album: field_of(metadata, ItemKey::Album),
            album_artist: field_of(metadata, ItemKey::AlbumArtist),
            genre: field_of(metadata, ItemKey::Genre),
            track_number: field_of(metadata, ItemKey::TrackNumber),
            disc_number: field_of(metadata, ItemKey::DiscNumber),
            year: field_of(metadata, ItemKey::Year),
            mood: field_of(metadata, ItemKey::Mood),
            file_created_at,
        }
    }
}

impl UpdatedSong {
    /// The tag values of a stored song taken from (optional) metadata.
    pub fn from_metadata(metadata: Option<&Metadata>) -> (s: UpdatedSong)
        requires
            metadata matches Some(m) ==> m.wf(),
        ensures
            updated_song_of(s, match metadata { Some(m) => Some(*m), None => None }),
    {
        UpdatedSong {
            title: field_of(metadata, ItemKey::Title),
            artist: field_of(metadata, ItemKey::Artist),
            album: field_of(metadata, ItemKey::Album),
            album_artist: field_of(metadata, ItemKey::AlbumArtist),
            genre: field_of(metadata, ItemKey::Genre),
            track_number: field_of(metadata, ItemKey::TrackNumber),
            disc_number: field_of(metadata, ItemKey::DiscNumber),
            year: field_of(metadata, ItemKey::Year),
            mood: field_of(metadata, ItemKey::Mood),
        }
    }
}

/// Whether two optional strings differ.
fn opt_differs(a: &Option<String>, b: &Option<String>) -> (r: bool)
    ensures
        r == (opt_view(*a) != opt_view(*b)),
{
    match (a, b) {
        (Some(x), Some(y)) => !str_eq(x.as_str(), y.as_str()),
        (None, None) => false,
        _ => true,
    }
}

/// Whether the stored values of a song disagree with the tags read from
/// its file or with the file's creation time.
pub open spec fn song_changed_spec(song: Song, metadata: Option<Metadata>, created_at: Option<i128>) -> bool {
    ||| opt_view(song.title) != meta_field(metadata, ItemKey::Title)
    ||| opt_view(song.album) != meta_field(metadata, ItemKey::Album)
    ||| opt_view(song.album_artist) != meta_field(metadata, ItemKey::AlbumArtist)
    ||| opt_view(song.disc_number) != meta_field(metadata, ItemKey::DiscNumber)
    ||| opt_view(song.artist) != meta_field(metadata, ItemKey::Artist)
    ||| opt_view(song.year) != meta_field(metadata, ItemKey::Year)
    ||| opt_view(song.track_number) != meta_field(metadata, ItemKey::TrackNumber)
    ||| opt_view(song.genre) != meta_field(metadata, ItemKey::Genre)
    ||| opt_view(song.mood) != meta_field(metadata, ItemKey::Mood)
    ||| song.file_created_at != created_at
}

/// Whether a stored song is out of date with respect to the tags of its
/// file (absent tags count as all fields unset) and its creation time.
pub fn song_metadata_changed(song: &Song, metadata: Option<&Metadata>, created_at: Option<i128>) -> (r: bool)
    requires
        metadata matches Some(m) ==> m.wf(),
    ensures
        r == song_changed_spec(*song, match metadata { Some(m) => Some(*m), None => None }, created_at),
{
    let u = UpdatedSong::from_metadata(metadata);
    opt_differs(&song.title, &u.title)
        || opt_differs(&song.album, &u.album)
        || opt_differs(&song.album_artist, &u.album_artist)
        || opt_differs(&song.disc_number, &u.disc_number)
        || opt_differs(&song.artist, &u.artist)
        || opt_differs(&song.year, &u.year)
        || opt_differs(&song.track_number, &u.track_number)
        || opt_differs(&song.genre, &u.genre)
        || opt_differs(&song.mood, &u.mood)
        || song.file_created_at != created_at
}

/// `prefix` is a prefix of `s`.
pub open spec fn is_prefix(prefix: Seq<char>, s: Seq<char>) -> bool {
    prefix.len() <= s.len() && s.take(prefix.len() as int) == prefix
}

/// `str::starts_with` for a string prefix.
pub fn str_starts_with(s: &str, prefix: &str) -> (r: bool)
    ensures
        r == is_prefix(prefix@, s@),
{
    let a = chars_of(s);
    let b = chars_of(prefix);
    if b.len() > a.len() {
        return false;
    }
    let mut i: usize = 0;
    while i < b.len()
        invariant
            a@ == s@,
            b@ == prefix@,
            b.len() <= a.len(),
            i <= b.len(),
            a@.take(i as int) == b@.take(i as int),
        decreases b.len() - i,
    {
        if a[i] != b[i] {
            assert(s@.take(prefix@.len() as int)[i as int] != prefix@[i as int]);
            return false;
        }
        assert(a@.take(i + 1) =~= a@.take(i as int).push(a@[i as int]));
        assert(b@.take(i + 1) =~= b@.take(i as int).push(b@[i as int]));
        i = i + 1;
    }
    assert(b@.take(b.len() as int) =~= b@);
    true
}

/// The first of the directory paths that `path` starts with (as a string).
pub fn find_directory_for_path(dir_paths: &Vec<String>, path: &str) -> (r: Option<usize>)
    ensures
        match r {
            Some(i) => i < dir_paths@.len() && is_prefix(dir_paths@[i as int]@, path@)
                && forall|j: int| 0 <= j < i ==> !is_prefix(#[trigger] dir_paths@[j]@, path@),
            None => forall|j: int| 0 <= j < dir_paths@.len() ==> !is_prefix(#[trigger] dir_paths@[j]@, path@),
        },
{
    let mut i: usize = 0;
    while i < dir_paths.len()
        invariant
            i <= dir_paths@.len(),
            forall|j: int| 0 <= j < i ==> !is_prefix(#[trigger] dir_paths@[j]@, path@),
        decreases dir_paths.len() - i,
    {
        if str_starts_with(path, dir_paths[i].as_str()) {
            return Some(i);
        }
        i = i + 1;
    }
    None
}

/// Errors about directories.
#[derive(Debug, Clone, PartialEq, Eq)]
pub enum DatabaseDirectoryError {
    NotFound,
    NameEmpty,
    PathEmpty,
    PathDoesNotExist(String),
    PathNotDirectory(String),
    PathNotAbsolute(String),
    PathIsSubdirectory(String),
    PathAlreadyAdded,
    PathNotUtf8,
}

/// The HTTP status a directory error is answered with.
pub open spec fn directory_error_status(e: DatabaseDirectoryError) -> u16 {
    match e {
        DatabaseDirectoryError::NotFound => 404,
        DatabaseDirectoryError::PathAlreadyAdded | DatabaseDirectoryError::PathIsSubdirectory(_) => 409,
        _ => 400,
    }
}

/// The message of a directory error.
pub open spec fn directory_error_message(e: DatabaseDirectoryError) -> Seq<char> {
    match e {
        DatabaseDirectoryError::NotFound => "Directory not found"@,
        DatabaseDirectoryError::NameEmpty => "Name is empty"@,
        DatabaseDirectoryError::PathEmpty => "Path is empty"@,
        DatabaseDirectoryError::PathDoesNotExist(p) => "Path \""@ + p@ + "\" does not exist"@,
        DatabaseDirectoryError::PathNotDirectory(p) => "Path \""@ + p@ + "\" is not a directory"@,
        DatabaseDirectoryError::PathNotAbsolute(p) => "Path \""@ + p@ + "\" is not absolute"@,
        DatabaseDirectoryError::PathIsSubdirectory(p) => "Path \""@ + p@ + "\" is a subdirectory of an existing directory"@,
        DatabaseDirectoryError::PathAlreadyAdded => "Directory already exists"@,
        DatabaseDirectoryError::PathNotUtf8 => "Path is not a valid UTF-8 string"@,
    }
}

/// `"Path \"" + p + rest`.
fn quoted_path(p: &String, rest: &str) -> (r: String)
    ensures
        r@ == "Path \""@ + p@ + rest@,
{
    String::from_str("Path \"").concat(p.as_str()).concat(rest)
}

impl DatabaseDirectoryError {
    /// The HTTP status code of the error: 404 for a missing directory, 409
    /// for a path that clashes with a stored one, 400 otherwise.
    pub fn status_code(&self) -> (r: u16)
        ensures
            r == directory_error_status(*self),
    {
        match self {
            DatabaseDirectoryError::NotFound => 404,
            DatabaseDirectoryError::PathAlreadyAdded | DatabaseDirectoryError::PathIsSubdirectory(_) => 409,
            _ => 400,
        }
    }

    /// The human readable message of the error.
    pub fn message(&self) -> (r: String)
        ensures
            r@ == directory_error_message(*self),
    {
        match self {
            DatabaseDirectoryError::NotFound => String::from_str("Directory not found"),
            DatabaseDirectoryError::NameEmpty => String::from_str("Name is empty"),
            DatabaseDirectoryError::PathEmpty => String::from_str("Path is empty"),
            DatabaseDirectoryError::PathDoesNotExist(p) => quoted_path(p, "\" does not exist"),
            DatabaseDirectoryError::PathNotDirectory(p) => quoted_path(p, "\" is not a directory"),
            DatabaseDirectoryError::PathNotAbsolute(p) => quoted_path(p, "\" is not absolute"),
            DatabaseDirectoryError::PathIsSubdirectory(p) => quoted_path(p, "\" is a subdirectory of an existing directory"),
            DatabaseDirectoryError::PathAlreadyAdded => String::from_str("Directory already exists"),
            DatabaseDirectoryError::PathNotUtf8 => String::from_str("Path is not a valid UTF-8 string"),
        }
    }
}

/// Errors about songs and albums.
#[derive(Debug, Clone, PartialEq, Eq)]
pub enum DatabaseSongError {
    AlbumNotFound,
    SongNotFound,
    SongAlreadyExists,
    Metadata(MetadataError),
    PathNotFound,
    PathDoesntContainDirectory,
}

/// The HTTP status a song error is answered with.
pub open spec fn song_error_status(e: DatabaseSongError) -> u16 {
    match e {
        DatabaseSongError::SongAlreadyExists => 409,
        DatabaseSongError::Metadata(_) => 500,
        DatabaseSongError::PathNotFound | DatabaseSongError::PathDoesntContainDirectory => 400,
        DatabaseSongError::AlbumNotFound | DatabaseSongError::SongNotFound => 404,
    }
}

impl DatabaseSongError {
    /// The HTTP status code of the error.
    pub fn status_code(&self) -> (r: u16)
        ensures
            r == song_error_status(*self),
    {
        match self {
            DatabaseSongError::SongAlreadyExists => 409,
            DatabaseSongError::Metadata(_) => 500,
            DatabaseSongError::PathNotFound | DatabaseSongError::PathDoesntContainDirectory => 400,
            DatabaseSongError::AlbumNotFound | DatabaseSongError::SongNotFound => 404,
        }
    }

    /// The human readable message of the error.
    pub fn message(&self) -> (r: String)
        ensures
            r@ == song_error_message(*self),
    {
        match self {
            DatabaseSongError::AlbumNotFound => String::from_str("Album not found"),
            DatabaseSongError::SongNotFound => String::from_str("Song not found"),
            DatabaseSongError::SongAlreadyExists => String::from_str("Song already exists"),
            DatabaseSongError::Metadata(e) => str_concat("Metadata error: ", e.message().as_str()),
            DatabaseSongError::PathNotFound => String::from_str("Song path doesn't exist in any directories"),
            DatabaseSongError::PathDoesntContainDirectory => String::from_str("Song path doesn't contain directory"),
        }
    }
}

/// The message of a song error.
pub open spec fn song_error_message(e: DatabaseSongError) -> Seq<char> {
    match e {
        DatabaseSongError::AlbumNotFound => "Album not found"@,
        DatabaseSongError::SongNotFound => "Song not found"@,
        DatabaseSongError::SongAlreadyExists => "Song already exists"@,
        DatabaseSongError::Metadata(m) => "Metadata error: "@ + metadata_error_message(m),
        DatabaseSongError::PathNotFound => "Song path doesn't exist in any directories"@,
        DatabaseSongError::PathDoesntContainDirectory => "Song path doesn't contain directory"@,
    }
}

/// Errors of the database layer; `Sqlx` carries the message of a failed query.
#[derive(Debug, Clone, PartialEq, Eq)]
pub enum DatabaseError {
    Song(DatabaseSongError),
    Directory(DatabaseDirectoryError),
    Sqlx(String),
}

impl DatabaseError {
    /// The HTTP status code of the error: that of the song or directory
    /// error it wraps, 500 for a failed query.
    pub fn status_code(&self) -> (r: u16)
        ensures
            r == match *self {
                DatabaseError::Song(e) => song_error_status(e),
                DatabaseError::Directory(e) => directory_error_status(e),
                DatabaseError::Sqlx(_) => 500u16,
            },
    {
        match self {
            DatabaseError::Song(e) => e.status_code(),
            DatabaseError::Directory(e) => e.status_code(),
            DatabaseError::Sqlx(_) => 500,
        }
    }

    /// The human readable message of the error: that of the error it wraps.
    pub fn message(&self) -> (r: String)
        ensures
            r@ == match *self {
                DatabaseError::Song(e) => song_error_message(e),
                DatabaseError::Directory(e) => directory_error_message(e),
                DatabaseError::Sqlx(m) => m@,
            },
    {
        match self {
            DatabaseError::Song(e) => e.message(),
            DatabaseError::Directory(e) => e.message(),
            DatabaseError::Sqlx(m) => m.clone(),
        }
    }
}

impl Album {
    /// The album of a non-empty list of tracks: title and artist are the
    /// album and album artist of the first track.
    pub fn from_tracks(tracks: Vec<Song>) -> (a: Album)
        requires
            tracks@.len() > 0,
            tracks@[0].album is Some,
        ensures
            a.title@ == tracks@[0].album->0@,
            opt_view(a.artist) == opt_view(tracks@[0].album_artist),
            a.tracks@ == tracks@,
    {
        let title = match &tracks[0].album {
            Some(t) => t.clone(),
            None => String::new(),
        };
        let artist = clone_opt(&tracks[0].album_artist);
        Album { title, artist, tracks }
    }
}

/// The album made of the tracks found for a title: `AlbumNotFound` when
/// there are none.
pub fn album_from_query(tracks: Vec<Song>) -> (r: Result<Album, DatabaseSongError>)
    requires
        tracks@.len() > 0 ==> tracks@[0].album is Some,
    ensures
        tracks@.len() == 0 <==> r == Err::<Album, DatabaseSongError>(DatabaseSongError::AlbumNotFound),
        r matches Ok(a) ==> a.title@ == tracks@[0].album->0@
            && opt_view(a.artist) == opt_view(tracks@[0].album_artist) && a.tracks@ == tracks@,
{
    if tracks.len() == 0 {
        Err(DatabaseSongError::AlbumNotFound)
    } else {
        Ok(Album::from_tracks(tracks))
    }
}

/// The distinct album titles of the tracks, in order of first appearance.
pub open spec fn album_titles(tracks: Seq<Song>) -> Seq<Seq<char>>
    decreases tracks.len(),
{
    if tracks.len() == 0 {
        Seq::empty()
    } else {
        let prev = album_titles(tracks.drop_last());
        let t = opt_view(tracks.last().album)->0;
        if prev.contains(t) {
            prev
        } else {
            prev.push(t)
        }
    }
}

/// The tracks whose album is `title`, in their order.
pub open spec fn tracks_of(tracks: Seq<Song>, title: Seq<char>) -> Seq<Song>
    decreases tracks.len(),
{
    if tracks.len() == 0 {
        Seq::empty()
    } else {
        let prev = tracks_of(tracks.drop_last(), title);
        if opt_view(tracks.last().album) == Some(title) {
            prev.push(tracks.last())
        } else {
            prev
        }
    }
}

/// A title that no track has selects no track.
proof fn lemma_tracks_of_absent(tracks: Seq<Song>, title: Seq<char>)
    requires
        forall|i: int| 0 <= i < tracks.len() ==> #[trigger] tracks[i].album is Some,
        !album_titles(tracks).contains(title),
    ensures
        tracks_of(tracks, title) == Seq::<Song>::empty(),
    decreases tracks.len(),
{
    if tracks.len() > 0 {
        let prev = tracks.drop_last();
        assert forall|i: int| 0 <= i < prev.len() implies #[trigger] prev[i].album is Some by {
            assert(prev[i] == tracks[i]);
        }
        if album_titles(prev).contains(title) {
            let k = choose|k: int| 0 <= k < album_titles(prev).len() && album_titles(prev)[k] == title;
            if !album_titles(prev).contains(opt_view(tracks.last().album)->0) {
                assert(album_titles(tracks)[k] == title);
            } else {
                assert(album_titles(tracks)[k] == title);
            }
        }
        lemma_tracks_of_absent(prev, title);
        assert(tracks[tracks.len() - 1].album is Some);
        if opt_view(tracks.last().album) == Some(title) {
            assert(album_titles(tracks).last() == title || album_titles(prev).contains(title));
            if album_titles(prev).contains(opt_view(tracks.last().album)->0) {
            } else {
                assert(album_titles(tracks)[album_titles(tracks).len() - 1] == title);
            }
        }
    }
}

/// Album titles never repeat.
proof fn lemma_album_titles_distinct(tracks: Seq<Song>)
    ensures
        forall|a: int, b: int| 0 <= a < b < album_titles(tracks).len()
            ==> #[trigger] album_titles(tracks)[a] != #[trigger] album_titles(tracks)[b],
    decreases tracks.len(),
{
    if tracks.len() > 0 {
        let prev = tracks.drop_last();
        lemma_album_titles_distinct(prev);
        let t = opt_view(tracks.last().album)->0;
        if !album_titles(prev).contains(t) {
            let s = album_titles(tracks);
            assert forall|a: int, b: int| 0 <= a < b < s.len() implies #[trigger] s[a] != #[trigger] s[b] by {
                if b == s.len() - 1 && s[a] == s[b] {
                    assert(album_titles(prev)[a] == t);
                    assert(album_titles(prev).contains(t));
                }
            }
        }
    }
}

/// Groups tracks that all have an album into albums, one per title, in the
/// order in which the titles first appear; each album holds the tracks of
/// its title in their order and takes its artist from the first of them.
pub fn group_albums(tracks: Vec<Song>) -> (r: Vec<Album>)
    requires
        forall|i: int| 0 <= i < tracks@.len() ==> #[trigger] tracks@[i].album is Some,
    ensures
        r@.len() == album_titles(tracks@).len(),
        forall|k: int| 0 <= k < r@.len() ==> {
            &&& #[trigger] r@[k].title@ == album_titles(tracks@)[k]
            &&& r@[k].tracks@ == tracks_of(tracks@, album_titles(tracks@)[k])
            &&& opt_view(r@[k].artist) == opt_view(tracks_of(tracks@, album_titles(tracks@)[k])[0].album_artist)
        },
{
    let ghost all = tracks@;
    let mut rest = tracks;
    let mut titles: Vec<String> = Vec::new();
    let mut artists: Vec<Option<String>> = Vec::new();
    let mut members: Vec<Vec<Song>> = Vec::new();
    let mut i: usize = 0;
    assert(all.len() == rest.len());
    while rest.len() > 0
        invariant
            i + rest@.len() == all.len(),
            all.len() <= usize::MAX,
            rest@ == all.skip(i as int),
            forall|j: int| 0 <= j < all.len() ==> #[trigger] all[j].album is Some,
            titles@.len() == album_titles(all.take(i as int)).len(),
            artists@.len() == titles@.len(),
            members@.len() == titles@.len(),
            forall|k: int| 0 <= k < titles@.len() ==> {
                &&& #[trigger] titles@[k]@ == album_titles(all.take(i as int))[k]
                &&& members@[k]@ == tracks_of(all.take(i as int), album_titles(all.take(i as int))[k])
                &&& members@[k]@.len() > 0
                &&& opt_view(artists@[k]) == opt_view(members@[k]@[0].album_artist)
            },
        decreases rest@.len(),
    {
        let ghost p = all.take(i as int);
        let t = rest.remove(0);
        assert(t == all[i as int]);
        let ghost q = all.take(i + 1);
        assert(q.drop_last() =~= p);
        assert(q.last() == t);
        proof {
            lemma_album_titles_distinct(p);
            assert(all[i as int].album is Some);
        }
        let title: &String = match &t.album {
            Some(a) => a,
            None => {
                proof { assert(false); }
                return Vec::new();
            },
        };
        let mut j: usize = 0;
        let mut found = false;
        while j < titles.len() && !found
            invariant
                j <= titles@.len(),
                !found ==> forall|x: int| 0 <= x < j ==> titles@[x]@ != title@,
                found ==> j < titles@.len() && titles@[j as int]@ == title@,
            decreases titles.len() - j + if found { 0int } else { 1int },
        {
            if str_eq(titles[j].as_str(), title.as_str()) {
                found = true;
            } else {
                j = j + 1;
            }
        }
        if found {
            let ghost tj = album_titles(p)[j as int];
            assert(album_titles(p).contains(title@));
            assert(album_titles(q) == album_titles(p));
            let ghost old_members = members@;
            let mut g = members.remove(j);
            g.push(t);
            let ghost new_g = g;
            members.insert(j, g);
            assert(members@ =~= old_members.update(j as int, new_g));
            assert(opt_view(t.album) == Some(album_titles(p)[j as int]));
            assert forall|k: int| 0 <= k < titles@.len() implies {
                &&& #[trigger] titles@[k]@ == album_titles(q)[k]
                &&& members@[k]@ == tracks_of(q, album_titles(q)[k])
                &&& members@[k]@.len() > 0
                &&& opt_view(artists@[k]) == opt_view(members@[k]@[0].album_artist)
            } by {
                assert(titles@[k]@ == album_titles(p)[k]);
                if k != j {
                    assert(album_titles(p)[k] != album_titles(p)[j as int]);
                    assert(members@[k] == old_members[k]);
                    assert(tracks_of(q, album_titles(p)[k]) == tracks_of(p, album_titles(p)[k]));
                } else {
                    assert(tracks_of(q, album_titles(p)[k]) == tracks_of(p, album_titles(p)[k]).push(t));
                    assert(members@[k]@ == old_members[k]@.push(t));
                }
            }
        } else {
            let ghost nt = title@;
            assert(!album_titles(p).contains(nt)) by {
                if album_titles(p).contains(nt) {
                    let x = choose|x: int| 0 <= x < album_titles(p).len() && album_titles(p)[x] == nt;
                    assert(titles@[x]@ == nt);
                }
            }
            proof {
                assert forall|x: int| 0 <= x < p.len() implies #[trigger] p[x].album is Some by {
                    assert(p[x] == all[x]);
                }
                lemma_tracks_of_absent(p, nt);
            }
            let ghost old_titles = titles@;
            let ghost old_artists = artists@;
            let ghost old_members2 = members@;
            assert(opt_view(t.album) == Some(nt));
            titles.push(title.clone());
            artists.push(clone_opt(&t.album_artist));
            let mut g: Vec<Song> = Vec::new();
            g.push(t);
            members.push(g);
            assert(album_titles(q) == album_titles(p).push(nt));
            assert forall|k: int| 0 <= k < titles@.len() implies {
                &&& #[trigger] titles@[k]@ == album_titles(q)[k]
                &&& members@[k]@ == tracks_of(q, album_titles(q)[k])
                &&& members@[k]@.len() > 0
                &&& opt_view(artists@[k]) == opt_view(members@[k]@[0].album_artist)
            } by {
                if k < titles@.len() - 1 {
                    assert(titles@[k] == old_titles[k]);
                    assert(members@[k] == old_members2[k]);
                    assert(artists@[k] == old_artists[k]);
                    assert(old_titles[k]@ == album_titles(p)[k]);
                    assert(album_titles(p).contains(album_titles(p)[k]));
                    assert(album_titles(p)[k] != nt);
                    assert(tracks_of(q, album_titles(p)[k]) == tracks_of(p, album_titles(p)[k]));
                } else {
                    assert(members@[k]@ =~= seq![t]);
                    assert(tracks_of(q, nt) =~= seq![t]);
                }
            }
        }
        assert(titles@.len() == album_titles(q).len());
        assert(forall|k: int| 0 <= k < titles@.len() ==> {
            &&& #[trigger] titles@[k]@ == album_titles(q)[k]
            &&& members@[k]@ == tracks_of(q, album_titles(q)[k])
            &&& members@[k]@.len() > 0
            &&& opt_view(artists@[k]) == opt_view(members@[k]@[0].album_artist)
        });
        i = i + 1;
        assert(rest@ =~= all.skip(i as int));
        assert(all.take(i as int) == q);
    }
    assert(all.take(i as int) =~= all);
    let mut out: Vec<Album> = Vec::new();
    let ghost titles_all = album_titles(all);
    while members.len() > 0
        invariant
            out@.len() + members@.len() == titles_all.len(),
            titles@.len() == members@.len(),
            artists@.len() == members@.len(),
            forall|k: int| 0 <= k < out@.len() ==> {
                &&& #[trigger] out@[k].title@ == titles_all[k]
                &&& out@[k].tracks@ == tracks_of(all, titles_all[k])
                &&& opt_view(out@[k].artist) == opt_view(tracks_of(all, titles_all[k])[0].album_artist)
            },
            forall|k: int| 0 <= k < members@.len() ==> {
                &&& #[trigger] titles@[k]@ == titles_all[out@.len() + k]
                &&& members@[k]@ == tracks_of(all, titles_all[out@.len() + k])
                &&& opt_view(artists@[k]) == opt_view(members@[k]@[0].album_artist)
            },
        decreases members@.len(),
    {
        let ghost old_titles = titles@;
        let ghost old_artists = artists@;
        let ghost old_members = members@;
        let title = titles.remove(0);
        let artist = artists.remove(0);
        let tracks_k = members.remove(0);
        let ghost n = out@.len();
        out.push(Album { title, artist, tracks: tracks_k });
        assert forall|k: int| 0 <= k < members@.len() implies {
            &&& #[trigger] titles@[k]@ == titles_all[out@.len() + k]
            &&& members@[k]@ == tracks_of(all, titles_all[out@.len() + k])
            &&& opt_view(artists@[k]) == opt_view(members@[k]@[0].album_artist)
        } by {
            assert(titles@[k] == old_titles[k + 1]);
            assert(artists@[k] == old_artists[k + 1]);
            assert(members@[k] == old_members[k + 1]);
        }
    }
    out
}

/// Index of the first `(path, name)` pair whose path is a string prefix of
/// `path`.
pub open spec fn first_containing(directories: Seq<(String, String)>, path: Seq<char>) -> Option<int> {
    if exists|i: int| 0 <= i < directories.len() && is_prefix(#[trigger] directories[i].0@, path) {
        Some(choose|i: int| 0 <= i < directories.len() && is_prefix(#[trigger] directories[i].0@, path)
            && forall|j: int| 0 <= j < i ==> !is_prefix(#[trigger] directories[j].0@, path))
    } else {
        None
    }
}

/// The directory a song that moves to `new_path` belongs to: the name of
/// the first directory whose path is a string prefix of `new_path`. It is
/// handed back only when it differs from `previous_directory_id`, so that
/// the stored directory of the song changes with its path.
pub fn directory_change(previous_directory_id: &str, directories: &Vec<(String, String)>, new_path: &str)
    -> (r: Result<Option<String>, DatabaseSongError>)
    ensures
        match first_containing(directories@, new_path@) {
            None => r == Err::<Option<String>, DatabaseSongError>(DatabaseSongError::PathDoesntContainDirectory),
            Some(i) => if directories@[i].1@ == previous_directory_id@ {
                r == Ok::<Option<String>, DatabaseSongError>(None)
            } else {
                r matches Ok(Some(n)) && n@ == directories@[i].1@
            },
        },
{
    let mut i: usize = 0;
    while i < directories.len()
        invariant
            i <= directories@.len(),
            forall|j: int| 0 <= j < i ==> !is_prefix(#[trigger] directories@[j].0@, new_path@),
        decreases directories.len() - i,
    {
        if str_starts_with(new_path, directories[i].0.as_str()) {
            proof {
                let w = choose|w: int| 0 <= w < directories@.len() && is_prefix(#[trigger] directories@[w].0@, new_path@)
                    && forall|j: int| 0 <= j < w ==> !is_prefix(#[trigger] directories@[j].0@, new_path@);
                assert(is_prefix(directories@[i as int].0@, new_path@));
                if w < i {
                    assert(!is_prefix(directories@[w].0@, new_path@));
                }
                if w > i {
                    assert(!is_prefix(directories@[i as int].0@, new_path@));
                }
                assert(w == i);
            }
            if str_eq(directories[i].1.as_str(), previous_directory_id) {
                return Ok(None);
            } else {
                return Ok(Some(directories[i].1.clone()));
            }
        }
        i = i + 1;
    }
    Err(DatabaseSongError::PathDoesntContainDirectory)
}

/// Whether some stored directory path is a leading part of `path`.
pub open spec fn under_some(path: Seq<char>, existing: Seq<String>) -> bool {
    exists|i: int| 0 <= i < existing.len() && spec_path_starts_with(path, #[trigger] existing[i]@)
}

/// What adding a directory leads to, given what is known of its path: it
/// is refused when the path is blank, already stored, not absolute, does
/// not exist, is no directory or lies inside a stored directory, checked in
/// that order.
pub open spec fn new_directory_spec(
    directory: NewDirectory,
    name: String,
    already_added: bool,
    exists: bool,
    is_dir: bool,
    existing: Seq<String>,
) -> Result<Directory, DatabaseDirectoryError> {
    if trim_spec(directory.path@).len() == 0 {
        Err(DatabaseDirectoryError::PathEmpty)
    } else if already_added {
        Err(DatabaseDirectoryError::PathAlreadyAdded)
    } else if !is_absolute_spec(directory.path@) {
        Err(DatabaseDirectoryError::PathNotAbsolute(directory.path))
    } else if !exists {
        Err(DatabaseDirectoryError::PathDoesNotExist(directory.path))
    } else if !is_dir {
        Err(DatabaseDirectoryError::PathNotDirectory(directory.path))
    } else if under_some(directory.path@, existing) {
        Err(DatabaseDirectoryError::PathIsSubdirectory(directory.path))
    } else {
        Ok(Directory { name, path: directory.path, display_name: directory.display_name })
    }
}

impl NewDirectory {
    /// The stored record of this directory under `name`, or why it cannot
    /// be added. `already_added` says whether a directory with this exact
    /// path is stored, `exists` and `is_dir` what the file system says of
    /// the path, and `existing` lists the stored directory paths.
    pub fn into_record(self, name: String, already_added: bool, exists: bool, is_dir: bool, existing: &Vec<String>)
        -> (r: Result<Directory, DatabaseDirectoryError>)
        ensures
            r == new_directory_spec(self, name, already_added, exists, is_dir, existing@),
    {
        if str_trim(self.path.as_str()).is_empty() {
            return Err(DatabaseDirectoryError::PathEmpty);
        }
        if already_added {
            return Err(DatabaseDirectoryError::PathAlreadyAdded);
        }
        if !path_is_absolute(self.path.as_str()) {
            return Err(DatabaseDirectoryError::PathNotAbsolute(self.path));
        }
        if !exists {
            return Err(DatabaseDirectoryError::PathDoesNotExist(self.path));
        }
        if !is_dir {
            return Err(DatabaseDirectoryError::PathNotDirectory(self.path));
        }
        let mut i: usize = 0;
        while i < existing.len()
            invariant
                i <= existing@.len(),
                forall|j: int| 0 <= j < i ==> !spec_path_starts_with(self.path@, #[trigger] existing@[j]@),
                trim_spec(self.path@).len() > 0,
                !already_added,
                is_absolute_spec(self.path@),
                exists,
                is_dir,
            decreases existing.len() - i,
        {
            if path_starts_with(self.path.as_str(), existing[i].as_str()) {
                assert(spec_path_starts_with(self.path@, existing@[i as int]@));
                assert(under_some(self.path@, existing@));
                return Err(DatabaseDirectoryError::PathIsSubdirectory(self.path));
            }
            i = i + 1;
        }
        Ok(Directory { name, path: self.path, display_name: self.display_name })
    }

    /// As `into_record`, under a fresh random UUID as the name.
    pub fn into_new_record(self, already_added: bool, exists: bool, is_dir: bool, existing: &Vec<String>)
        -> (r: Result<Directory, DatabaseDirectoryError>)
        ensures
            exists|name: String| name@.len() == 36
                && r == new_directory_spec(self, name, already_added, exists, is_dir, existing@),
    {
        let name = new_uuid_string();
        self.into_record(name, already_added, exists, is_dir, existing)
    }
}

/// Removing a directory needs a name that is not blank.
pub fn check_directory_name(name: &str) -> (r: Result<(), DatabaseDirectoryError>)
    ensures
        r == (if trim_spec(name@).len() == 0 {
            Err::<(), DatabaseDirectoryError>(DatabaseDirectoryError::NameEmpty)
        } else {
            Ok(())
        }),
{
    if str_trim(name).is_empty() {
        Err(DatabaseDirectoryError::NameEmpty)
    } else {
        Ok(())
    }
}

/// A directory removal that deleted no row found no directory.
pub fn directory_removal_result(rows_affected: u64) -> (r: Result<(), DatabaseDirectoryError>)
    ensures
        r == (if rows_affected == 0 {
            Err::<(), DatabaseDirectoryError>(DatabaseDirectoryError::NotFound)
        } else {
            Ok(())
        }),
{
    if rows_affected == 0 {
        Err(DatabaseDirectoryError::NotFound)
    } else {
        Ok(())
    }
}

/// A song deletion that deleted no row found no song.
pub fn song_deletion_result(rows_affected: u64) -> (r: Result<(), DatabaseSongError>)
    ensures
        r == (if rows_affected == 0 {
            Err::<(), DatabaseSongError>(DatabaseSongError::SongNotFound)
        } else {
            Ok(())
        }),
{
    if rows_affected == 0 {
        Err(DatabaseSongError::SongNotFound)
    } else {
        Ok(())
    }
}

impl Song {
    /// The stored record of a new song under `id`, in directory
    /// `directory_id`, added at `added_at`; fields it has no value for
    /// stay unset.
    pub fn from_new(song: NewSong, id: String, directory_id: String, added_at: Option<i128>) -> (s: Song)
        ensures
            s == (Song {
                id,
                path: song.path,
                title: song.title,
                artist: song.artist,
                album: song.album,
                album_artist: song.album_artist,
                genre: song.genre,
                track_number: song.track_number,
                disc_number: song.disc_number,
                year: song.year,
                mood: song.mood,
                added_at,
                updated_at: None,
                file_created_at: song.file_created_at,
                directory_id,
            }),
    {
        Song {
            id,
            path: song.path,
            title: song.title,
            artist: song.artist,
            album: song.album,
            album_artist: song.album_artist,
            genre: song.genre,
            track_number: song.track_number,
            disc_number: song.disc_number,
            year: song.year,
            mood: song.mood,
            added_at,
            updated_at: None,
            file_created_at: song.file_created_at,
            directory_id,
        }
    }
}

/// `s` is the stored form of `song` in the directory `directory_id`: the
/// song's fields, no update time, and whatever id and time of addition.
pub open spec fn records_new_song(s: Song, song: NewSong, directory_id: String) -> bool {
    s == Song {
        id: s.id,
        path: song.path,
        title: song.title,
        artist: song.artist,
        album: song.album,
        album_artist: song.album_artist,
        genre: song.genre,
        track_number: song.track_number,
        disc_number: song.disc_number,
        year: song.year,
        mood: song.mood,
        added_at: s.added_at,
        updated_at: None,
        file_created_at: song.file_created_at,
        directory_id,
    }
}

/// The record of a new song, stored in the first directory whose path is a
/// string prefix of the song's path, under a fresh id and the time it was
/// added; `PathNotFound` when the song lies in no directory.
pub fn record_new_song(song: NewSong, directories: &Vec<Directory>) -> (r: Result<Song, DatabaseSongError>)
    ensures
        match r {
            Ok(s) => exists|i: int| {
                &&& 0 <= i < directories@.len()
                &&& is_prefix(#[trigger] directories@[i].path@, song.path@)
                &&& forall|j: int| 0 <= j < i ==> !is_prefix(#[trigger] directories@[j].path@, song.path@)
                &&& records_new_song(s, song, directories@[i].name)
            } && s.id@.len() == 36 && s.added_at is Some,
            Err(e) => e == DatabaseSongError::PathNotFound
                && forall|j: int| 0 <= j < directories@.len() ==> !is_prefix(#[trigger] directories@[j].path@, song.path@),
        },
{
    let mut paths: Vec<String> = Vec::new();
    let mut k: usize = 0;
    while k < directories.len()
        invariant
            k <= directories@.len(),
            paths@.len() == k,
            forall|j: int| 0 <= j < k ==> #[trigger] paths@[j] == directories@[j].path,
        decreases directories.len() - k,
    {
        paths.push(directories[k].path.clone());
        k = k + 1;
    }
    match find_directory_for_path(&paths, song.path.as_str()) {
        Some(i) => {
            let ghost g = song;
            let id = new_uuid_string();
            let added_at = Some(now_unix_nanos());
            let directory_id = directories[i].name.clone();
            let s = Song::from_new(song, id, directory_id, added_at);
            proof {
                assert(paths@[i as int] == directories@[i as int].path);
                assert(is_prefix(directories@[i as int].path@, g.path@));
                assert forall|j: int| 0 <= j < i implies !is_prefix(#[trigger] directories@[j].path@, g.path@) by {
                    assert(paths@[j] == directories@[j].path);
                }
                assert(records_new_song(s, g, directories@[i as int].name));
            }
            Ok(s)
        },
        None => {
            assert forall|j: int| 0 <= j < directories@.len() implies !is_prefix(#[trigger] directories@[j].path@, song.path@) by {
                assert(paths@[j] == directories@[j].path);
            }
            Err(DatabaseSongError::PathNotFound)
        },
    }
}

} // verus!
