//! What the HTTP handlers compute: job listings, previews of organised
//! song paths, and the lookups behind the cover art routes.

use vstd::prelude::*;
use std::collections::BTreeMap;
use crate::db::{Directory, Song as StoredSong};
use crate::jobs::{JobRegistry};
use crate::metadata::{CoverArt, CoverArtType, ItemKey, Metadata, key_at, key_name_spec};
use crate::organize::{DEFAULT_TEMPLATE, OrganizeError, Song as OrganizedSong, render_song_path, sanitize_filename_spec,
    sanitized_field_pairs, song_path_spec, spec_render_template, unknown_data};
use crate::paths::{path_join, spec_path_join};
use crate::strmap::str_eq;
use crate::text::{str_concat, decimal, decimal_spec, is_substring, spec_to_lowercase, split_chars, split_spec, str_contains, str_to_lowercase, str_trim, trim_spec};
use crate::paths::{is_absolute_spec, path_is_absolute};

verus! {

/// The status of a file system operation as the UI shows it.
#[derive(Debug, Clone, Copy, PartialEq, Eq, Structural)]
pub enum FileSystemOperationStatus {
    Pending,
    InProgress,
    Completed,
    Cancelled,
    Failed,
}

impl Default for FileSystemOperationStatus {
    fn default() -> (s: Self)
        ensures
            s == FileSystemOperationStatus::Pending,
    {
        FileSystemOperationStatus::Pending
    }
}

/// A registered job as listed to the UI.
#[derive(Debug)]
pub struct RegistryJob {
    pub id: String,
    pub name: String,
    pub description: String,
    pub steps: BTreeMap<u8, String>,
}

/// The registered jobs, in id order, each with its description.
pub fn list_jobs<H>(registry: &JobRegistry<H>) -> (r: Vec<RegistryJob>)
    requires
        registry.wf(),
    ensures
        r@.len() == registry.ids().len(),
        forall|k: int| 0 <= k < r@.len() ==> {
            let info = registry.job((#[trigger] r@[k]).id@)->0.info_spec();
            &&& r@[k].id@ == registry.ids()[k]
            &&& registry.job(r@[k].id@) is Some
            &&& r@[k].name == info.name
            &&& r@[k].description == info.description
            &&& r@[k].steps@ == info.steps@
        },
{
    let jobs = registry.jobs();
    let entries = jobs.entries();
    let mut r: Vec<RegistryJob> = Vec::new();
    let mut i: usize = 0;
    while i < entries.len()
        invariant
            i <= entries@.len(),
            registry.wf(),
            jobs.wf(),
            jobs.key_seq() == registry.ids(),
            forall|t: Seq<char>| #[trigger] registry.job(t) == jobs.lookup(t),
            entries@ == jobs.entries_spec(),
            r@.len() == i,
            forall|k: int| 0 <= k < i ==> {
                let info = registry.job((#[trigger] r@[k]).id@)->0.info_spec();
                &&& r@[k].id@ == registry.ids()[k]
                &&& registry.job(r@[k].id@) is Some
                &&& r@[k].name == info.name
                &&& r@[k].description == info.description
                &&& r@[k].steps@ == info.steps@
            },
        decreases entries.len() - i,
    {
        let (id, job) = (&entries[i].0, &entries[i].1);
        proof {
            crate::strmap::lemma_lookup_at(entries@, i as int);
            assert(jobs.lookup(entries@[i as int].0@) == Some(entries@[i as int].1));
            assert(registry.ids()[i as int] == entries@[i as int].0@);
        }
        let info = job.info();
        r.push(RegistryJob {
            id: id.clone(),
            name: info.name.clone(),
            description: info.description.clone(),
            steps: info.steps.clone(),
        });
        i = i + 1;
    }
    r
}

/// Where a song is and where organising would put it.
#[derive(Debug)]
pub struct PathRenamePreviewResult {
    pub previous_path: String,
    pub new_path: String,
}

/// How to organise: whether to rename the files after their tags, and the
/// directory to organise into (each song's own when none).
#[derive(Debug, Clone)]
pub struct PathRenameOptions {
    pub rename_original_files: bool,
    pub directory_id: Option<String>,
}

impl Default for PathRenameOptions {
    fn default() -> (o: Self)
        ensures
            o.rename_original_files,
            o.directory_id is None,
    {
        PathRenameOptions { rename_original_files: true, directory_id: None }
    }
}

/// The text of an optional value, empty when absent.
pub open spec fn text_or_empty(o: Option<String>) -> Seq<char> {
    match o {
        Some(s) => s@,
        None => Seq::empty(),
    }
}

/// The tags a stored song is organised by: its nine stored tags, an absent
/// one as empty text; no composer and no comment.
pub open spec fn organize_field(t: StoredSong, k: ItemKey) -> Option<Seq<char>> {
    match k {
        ItemKey::Artist => Some(text_or_empty(t.artist)),
        ItemKey::Album => Some(text_or_empty(t.album)),
        ItemKey::Genre => Some(text_or_empty(t.genre)),
        ItemKey::Mood => Some(text_or_empty(t.mood)),
        ItemKey::AlbumArtist => Some(text_or_empty(t.album_artist)),
        ItemKey::Title => Some(text_or_empty(t.title)),
        ItemKey::TrackNumber => Some(text_or_empty(t.track_number)),
        ItemKey::DiscNumber => Some(text_or_empty(t.disc_number)),
        ItemKey::Year => Some(text_or_empty(t.year)),
        _ => None,
    }
}

/// `m` holds exactly the tags a stored song is organised by.
pub open spec fn organizes(m: Metadata, t: StoredSong) -> bool {
    &&& m.wf()
    &&& forall|k: ItemKey| #[trigger] m.field(k) == organize_field(t, k)
    &&& m.unknown_entries().len() == 0
}

/// The sanitized template data of a stored song, for the first `n` keys.
pub open spec fn track_pairs(t: StoredSong, n: nat) -> Seq<(Seq<char>, Seq<char>)>
    decreases n,
{
    if n == 0 {
        seq![]
    } else {
        let k = key_at((n - 1) as nat);
        let rest = track_pairs(t, (n - 1) as nat);
        match organize_field(t, k) {
            Some(v) => rest.push((key_name_spec(k), sanitize_filename_spec(v))),
            None => rest,
        }
    }
}

/// The path organising gives a stored song, relative to its directory.
pub open spec fn organized_path(t: StoredSong, rename: bool) -> Option<Seq<char>> {
    match spec_render_template(DEFAULT_TEMPLATE@, track_pairs(t, 11), None) {
        Ok(rendered) => song_path_spec(rendered, t.path@, rename),
        Err(_) => None,
    }
}

/// Metadata organising a stored song gives the same template data as the
/// song itself.
proof fn lemma_track_pairs(m: Metadata, t: StoredSong, n: nat)
    requires
        organizes(m, t),
    ensures
        sanitized_field_pairs(m, n) == track_pairs(t, n),
        unknown_data(m) is None,
    decreases n,
{
    if n > 0 {
        lemma_track_pairs(m, t, (n - 1) as nat);
        assert(m.field(key_at((n - 1) as nat)) == organize_field(t, key_at((n - 1) as nat)));
    }
}

/// A value or an empty string.
fn text_or_default(o: &Option<String>) -> (s: String)
    ensures
        s@ == text_or_empty(*o),
{
    match o {
        Some(v) => v.clone(),
        None => String::new(),
    }
}

/// The song to organise for a stored song: its path and its nine stored
/// tags.
pub fn map_organize(song: &StoredSong) -> (s: OrganizedSong)
    ensures
        s.file_path@ == song.path@,
        organizes(s.metadata, *song),
{
    let mut m = Metadata::empty();
    m.insert(ItemKey::Artist, text_or_default(&song.artist));
    m.insert(ItemKey::Album, text_or_default(&song.album));
    m.insert(ItemKey::Genre, text_or_default(&song.genre));
    m.insert(ItemKey::Mood, text_or_default(&song.mood));
    m.insert(ItemKey::AlbumArtist, text_or_default(&song.album_artist));
    m.insert(ItemKey::Title, text_or_default(&song.title));
    m.insert(ItemKey::TrackNumber, text_or_default(&song.track_number));
    m.insert(ItemKey::DiscNumber, text_or_default(&song.disc_number));
    m.insert(ItemKey::Year, text_or_default(&song.year));
    proof {
        assert forall|k: ItemKey| #[trigger] m.field(k) == organize_field(*song, k) by {
            match k {
                ItemKey::Artist => {},
                ItemKey::Album => {},
                ItemKey::Genre => {},
                ItemKey::Mood => {},
                ItemKey::AlbumArtist => {},
                ItemKey::Title => {},
                ItemKey::TrackNumber => {},
                ItemKey::DiscNumber => {},
                ItemKey::Year => {},
                _ => {},
            }
        }
    }
    OrganizedSong { file_path: song.path.clone(), metadata: m }
}

/// Index of the first directory named `name`.
pub open spec fn directory_named(dirs: Seq<Directory>, name: Seq<char>) -> Option<int> {
    if exists|i: int| 0 <= i < dirs.len() && #[trigger] dirs[i].name@ == name {
        Some(choose|i: int| 0 <= i < dirs.len() && #[trigger] dirs[i].name@ == name
            && forall|j: int| 0 <= j < i ==> #[trigger] dirs[j].name@ != name)
    } else {
        None
    }
}

/// The directory a song is organised into: the chosen one, else its own.
pub open spec fn target_directory(t: StoredSong, options: PathRenameOptions) -> Seq<char> {
    match options.directory_id {
        Some(d) => d@,
        None => t.directory_id@,
    }
}

/// Whether the preview of a song succeeds: its directory is known and its
/// path can be made.
pub open spec fn preview_ok(t: StoredSong, dirs: Seq<Directory>, options: PathRenameOptions) -> bool {
    directory_named(dirs, target_directory(t, options)) is Some && organized_path(t, options.rename_original_files) is Some
}

/// Why a preview failed.
#[derive(Debug)]
pub enum PreviewError {
    /// No directory with the wanted name; the message names the song's own
    /// directory.
    DirectoryNotFound(String),
    Organize(OrganizeError),
}

/// Finds the first directory named `name`.
fn find_directory(dirs: &Vec<Directory>, name: &str) -> (r: Option<usize>)
    ensures
        match r {
            Some(i) => i < dirs@.len() && directory_named(dirs@, name@) == Some(i as int),
            None => directory_named(dirs@, name@) is None,
        },
{
    let mut i: usize = 0;
    while i < dirs.len()
        invariant
            i <= dirs@.len(),
            forall|j: int| 0 <= j < i ==> #[trigger] dirs@[j].name@ != name@,
        decreases dirs.len() - i,
    {
        if str_eq(dirs[i].name.as_str(), name) {
            proof {
                let w = choose|w: int| 0 <= w < dirs@.len() && #[trigger] dirs@[w].name@ == name@
                    && forall|j: int| 0 <= j < w ==> #[trigger] dirs@[j].name@ != name@;
                assert(dirs@[i as int].name@ == name@);
                if w < i {
                    assert(dirs@[w].name@ != name@);
                }
                if w > i {
                    assert(dirs@[i as int].name@ != name@);
                }
            }
            return Some(i);
        }
        i = i + 1;
    }
    None
}

/// Previews organising the tracks of an album: for each track in order,
/// its path and the path organising would give it inside the chosen
/// directory (the track's own when none is chosen). The first track whose
/// directory is unknown, or whose path cannot be made, fails the preview.
pub fn preview_organize_album_tracks(tracks: &Vec<StoredSong>, dirs: &Vec<Directory>, options: &PathRenameOptions)
    -> (r: Result<Vec<PathRenamePreviewResult>, PreviewError>)
    ensures
        match r {
            Ok(v) => {
                &&& v@.len() == tracks@.len()
                &&& forall|k: int| 0 <= k < v@.len() ==> {
                    let t = tracks@[k];
                    &&& (#[trigger] v@[k]).previous_path@ == t.path@
                    &&& directory_named(dirs@, target_directory(t, *options)) matches Some(d)
                        && organized_path(t, options.rename_original_files) matches Some(p)
                        && v@[k].new_path@ == spec_path_join(dirs@[d].path@, p)
                }
            },
            Err(e) => exists|k: int| 0 <= k < tracks@.len() && !preview_ok(#[trigger] tracks@[k], dirs@, *options)
                && (forall|j: int| 0 <= j < k ==> preview_ok(#[trigger] tracks@[j], dirs@, *options))
                && match e {
                    PreviewError::DirectoryNotFound(m) =>
                        directory_named(dirs@, target_directory(tracks@[k], *options)) is None
                        && m@ == "Directory "@ + tracks@[k].directory_id@ + " not found"@,
                    PreviewError::Organize(_) =>
                        directory_named(dirs@, target_directory(tracks@[k], *options)) is Some
                        && organized_path(tracks@[k], options.rename_original_files) is None,
                },
        },
{
    let mut out: Vec<PathRenamePreviewResult> = Vec::new();
    let mut k: usize = 0;
    while k < tracks.len()
        invariant
            k <= tracks@.len(),
            out@.len() == k,
            forall|j: int| 0 <= j < k ==> preview_ok(#[trigger] tracks@[j], dirs@, *options),
            forall|j: int| 0 <= j < k ==> {
                let t = tracks@[j];
                &&& (#[trigger] out@[j]).previous_path@ == t.path@
                &&& directory_named(dirs@, target_directory(t, *options)) matches Some(d)
                    && organized_path(t, options.rename_original_files) matches Some(p)
                    && out@[j].new_path@ == spec_path_join(dirs@[d].path@, p)
            },
        decreases tracks.len() - k,
    {
        let song = &tracks[k];
        let wanted = match &options.directory_id {
            Some(d) => d.as_str(),
            None => song.directory_id.as_str(),
        };
        let d = match find_directory(dirs, wanted) {
            Some(d) => d,
            None => {
                let message = str_concat("Directory ", song.directory_id.as_str()).concat(" not found");
                return Err(PreviewError::DirectoryNotFound(message));
            },
        };
        let organized = map_organize(song);
        proof {
            lemma_track_pairs(organized.metadata, *song, 11);
        }
        let rendered = match render_song_path(DEFAULT_TEMPLATE, &organized, options.rename_original_files) {
            Ok(p) => p,
            Err(e) => {
                return Err(PreviewError::Organize(e));
            },
        };
        let new_path = path_join(dirs[d].path.as_str(), rendered.as_str());
        out.push(PathRenamePreviewResult { previous_path: song.path.clone(), new_path });
        k = k + 1;
    }
    Ok(out)
}

/// The cover type named in a route segment: lower-cased, up to the first
/// dot.
pub fn cover_type_segment(segment: &str) -> (r: String)
    ensures
        r@ == split_spec(spec_to_lowercase(segment@), '.')[0],
{
    let lower = str_to_lowercase(segment);
    let mut pieces = split_chars(lower.as_str(), '.');
    proof {
        crate::text::lemma_split_nonempty(lower@, '.');
        assert(pieces@.map_values(|p: String| p@)[0] == pieces@[0]@);
    }
    pieces.swap_remove(0)
}

/// The extension a route path asks for: what follows its last dot (the
/// whole path when there is none).
pub fn uri_extension(path: &str) -> (r: String)
    ensures
        r@ == split_spec(path@, '.').last(),
{
    let mut pieces = split_chars(path, '.');
    proof {
        crate::text::lemma_split_nonempty(path@, '.');
        assert(pieces@.map_values(|p: String| p@)[pieces@.len() - 1] == pieces@[pieces@.len() - 1]@);
    }
    let n = pieces.len();
    pieces.swap_remove(n - 1)
}

/// The cover type a name stands for, in any case.
pub open spec fn requested_cover_type(s: Seq<char>) -> Option<CoverArtType> {
    let l = spec_to_lowercase(s);
    if l == "front"@ {
        Some(CoverArtType::Front)
    } else if l == "back"@ {
        Some(CoverArtType::Back)
    } else if l == "other"@ {
        Some(CoverArtType::Other)
    } else {
        None
    }
}

/// The first cover of the type named `requested` (in any case).
pub fn find_cover_art(covers: Vec<CoverArt>, requested: &str) -> (r: Option<CoverArt>)
    ensures
        match r {
            Some(c) => exists|i: int| 0 <= i < covers@.len() && covers@[i] == c
                && requested_cover_type(requested@) == Some(c.cover_type)
                && forall|j: int| 0 <= j < i ==> #[trigger] covers@[j].cover_type != c.cover_type,
            None => forall|i: int| 0 <= i < covers@.len()
                ==> requested_cover_type(requested@) != Some(#[trigger] covers@[i].cover_type),
        },
{
    let wanted = CoverArtType::try_from(requested);
    let ghost all = covers@;
    let mut rest = covers;
    let mut i: usize = 0;
    assert(all.len() == rest.len());
    while rest.len() > 0
        invariant
            i + rest@.len() == all.len(),
            all.len() <= usize::MAX,
            all == covers@,
            rest@ == all.skip(i as int),
            wanted matches Ok(t) ==> requested_cover_type(requested@) == Some(t),
            wanted is Err ==> requested_cover_type(requested@) is None,
            forall|j: int| 0 <= j < i ==> requested_cover_type(requested@) != Some(#[trigger] all[j].cover_type),
        decreases rest@.len(),
    {
        let c = rest.remove(0);
        assert(c == all[i as int]);
        match wanted {
            Ok(t) => {
                if t == c.cover_type {
                    assert(covers@[i as int] == c);
                    return Some(c);
                }
            },
            Err(_) => {},
        }
        i = i + 1;
        assert(rest@ =~= all.skip(i as int));
    }
    None
}

/// The route of the `index`-th cover, by type.
pub fn map_type_to_path(cover_type: CoverArtType, index: usize) -> (r: String)
    ensures
        r@ == (match cover_type {
            CoverArtType::Front => "/front/"@,
            CoverArtType::Back => "/back/"@,
            CoverArtType::Other => "/other/"@,
        }) + decimal_spec(index as nat) + ".jpg"@,
{
    let prefix = match cover_type {
        CoverArtType::Front => "/front/",
        CoverArtType::Back => "/back/",
        CoverArtType::Other => "/other/",
    };
    str_concat(prefix, decimal(index as u64).as_str()).concat(".jpg")
}

/// Checks a request to list the folders of a directory: the path must not
/// be blank, must exist, be a directory and be absolute, checked in that
/// order; each refusal is a bad request with its message.
pub fn check_folder_request(path: &str, exists: bool, is_dir: bool) -> (r: Result<(), String>)
    ensures
        match r {
            Ok(()) => trim_spec(path@).len() > 0 && exists && is_dir && is_absolute_spec(path@),
            Err(m) => m@ == (if trim_spec(path@).len() == 0 {
                "Path cannot be empty"@
            } else if !exists {
                "Path does not exist"@
            } else if !is_dir {
                "Path is not a directory"@
            } else {
                "Path must be absolute"@
            }) && !(trim_spec(path@).len() > 0 && exists && is_dir && is_absolute_spec(path@)),
        },
{
    if str_trim(path).is_empty() {
        return Err(String::from_str("Path cannot be empty"));
    }
    if !exists {
        return Err(String::from_str("Path does not exist"));
    }
    if !is_dir {
        return Err(String::from_str("Path is not a directory"));
    }
    if !path_is_absolute(path) {
        return Err(String::from_str("Path must be absolute"));
    }
    Ok(())
}

/// The first disk whose mount point occurs in the directory's path.
pub fn disk_for_directory(dir_path: &str, mount_points: &Vec<String>) -> (r: Option<usize>)
    ensures
        match r {
            Some(i) => i < mount_points@.len() && is_substring(mount_points@[i as int]@, dir_path@)
                && forall|j: int| 0 <= j < i ==> !is_substring(#[trigger] mount_points@[j]@, dir_path@),
            None => forall|j: int| 0 <= j < mount_points@.len() ==> !is_substring(#[trigger] mount_points@[j]@, dir_path@),
        },
{
    let mut i: usize = 0;
    while i < mount_points.len()
        invariant
            i <= mount_points@.len(),
            forall|j: int| 0 <= j < i ==> !is_substring(#[trigger] mount_points@[j]@, dir_path@),
        decreases mount_points.len() - i,
    {
        if str_contains(dir_path, mount_points[i].as_str()) {
            return Some(i);
        }
        i = i + 1;
    }
    None
}

/// What `mime_guess` gives as the first media type of an extension.
pub uninterp spec fn spec_mime_for_extension(ext: Seq<char>) -> Option<Seq<char>>;

/// `mime_guess::from_ext(ext).first()`, as its essence string: the first
/// media type known for the extension; none for an empty extension.
#[verifier::external_body]
fn mime_for_extension(ext: &str) -> (r: Option<String>)
    ensures
        match r {
            Some(m) => spec_mime_for_extension(ext@) == Some(m@),
            None => spec_mime_for_extension(ext@) is None,
        },
        ext@.len() == 0 ==> r is None,
{
    mime_guess::from_ext(ext).first().map(|m| m.essence_str().to_string())
}

/// The content type served for a cover asked for with extension `ext`; a
/// bad request when no media type is known for it.
pub fn content_type_for(ext: &str) -> (r: Result<String, String>)
    ensures
        match r {
            Ok(m) => spec_mime_for_extension(ext@) == Some(m@),
            Err(e) => spec_mime_for_extension(ext@) is None && e@ == "Could not determine mime type"@,
        },
{
    match mime_for_extension(ext) {
        Some(m) => Ok(m),
        None => Err(String::from_str("Could not determine mime type")),
    }
}

/// What re-encoding an image as RGB in the format of an extension gives.
pub uninterp spec fn spec_reencode_image(data: Seq<u8>, ext: Seq<char>) -> Option<Seq<u8>>;

/// `image`: the format named by the extension (`ImageFormat::from_extension`),
/// the picture decoded (`load_from_memory`), turned to RGB (`to_rgb8`) and
/// written in that format (`write_to`); `None` when any of these fails.
#[verifier::external_body]
fn reencode_image(data: &Vec<u8>, ext: &str) -> (r: Option<Vec<u8>>)
    ensures
        match r {
            Some(v) => spec_reencode_image(data@, ext@) == Some(v@),
            None => spec_reencode_image(data@, ext@) is None,
        },
{
    let format = image::ImageFormat::from_extension(ext)?;
    let picture = image::load_from_memory(data.as_slice()).ok()?;
    let mut buffer: Vec<u8> = Vec::new();
    picture.to_rgb8().write_to(&mut std::io::Cursor::new(&mut buffer), format).ok()?;
    Some(buffer)
}

/// A cover converted to the format of the extension it is asked for with.
pub fn convert_cover_art(cover_art: &CoverArt, extension: &str) -> (r: Option<Vec<u8>>)
    ensures
        match r {
            Some(v) => spec_reencode_image(cover_art.data@, extension@) == Some(v@),
            None => spec_reencode_image(cover_art.data@, extension@) is None,
        },
{
    reencode_image(&cover_art.data, extension)
}

/// The metadata a stored song is organised by holds, for each of its nine
/// stored tags, the value of the song's own column (empty when unset): the
/// artist under `Artist`, the album artist under `AlbumArtist`, and so on;
/// it holds no other field.
pub proof fn law_organized_fields(m: Metadata, t: StoredSong, k: ItemKey)
    requires
        organizes(m, t),
    ensures
        m.field(ItemKey::Artist) == Some(if t.artist is Some { t.artist->0@ } else { Seq::<char>::empty() }),
        m.field(ItemKey::AlbumArtist) == Some(if t.album_artist is Some { t.album_artist->0@ } else { Seq::<char>::empty() }),
        m.field(ItemKey::Album) == Some(if t.album is Some { t.album->0@ } else { Seq::<char>::empty() }),
        m.field(ItemKey::Title) == Some(if t.title is Some { t.title->0@ } else { Seq::<char>::empty() }),
        m.field(ItemKey::Genre) == Some(if t.genre is Some { t.genre->0@ } else { Seq::<char>::empty() }),
        m.field(ItemKey::Mood) == Some(if t.mood is Some { t.mood->0@ } else { Seq::<char>::empty() }),
        m.field(ItemKey::TrackNumber) == Some(if t.track_number is Some { t.track_number->0@ } else { Seq::<char>::empty() }),
        m.field(ItemKey::DiscNumber) == Some(if t.disc_number is Some { t.disc_number->0@ } else { Seq::<char>::empty() }),
        m.field(ItemKey::Year) == Some(if t.year is Some { t.year->0@ } else { Seq::<char>::empty() }),
        k != ItemKey::Artist && k != ItemKey::AlbumArtist && k != ItemKey::Album && k != ItemKey::Title
            && k != ItemKey::Genre && k != ItemKey::Mood && k != ItemKey::TrackNumber && k != ItemKey::DiscNumber
            && k != ItemKey::Year ==> m.field(k) is None,
{
    assert(m.field(ItemKey::Artist) == organize_field(t, ItemKey::Artist));
    assert(m.field(ItemKey::AlbumArtist) == organize_field(t, ItemKey::AlbumArtist));
    assert(m.field(ItemKey::Album) == organize_field(t, ItemKey::Album));
    assert(m.field(ItemKey::Title) == organize_field(t, ItemKey::Title));
    assert(m.field(ItemKey::Genre) == organize_field(t, ItemKey::Genre));
    assert(m.field(ItemKey::Mood) == organize_field(t, ItemKey::Mood));
    assert(m.field(ItemKey::TrackNumber) == organize_field(t, ItemKey::TrackNumber));
    assert(m.field(ItemKey::DiscNumber) == organize_field(t, ItemKey::DiscNumber));
    assert(m.field(ItemKey::Year) == organize_field(t, ItemKey::Year));
    assert(m.field(k) == organize_field(t, k));
}

} // verus!
