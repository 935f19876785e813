use muusik::api::{
    check_folder_request, content_type_for, cover_type_segment, disk_for_directory, find_cover_art, list_jobs,
    map_organize, map_type_to_path, preview_organize_album_tracks, uri_extension, FileSystemOperationStatus,
    PathRenameOptions, PreviewError,
};
use muusik::config::{bind_host, configured_database_url, default_database_file, default_database_url, override_config, Args, Settings};
use muusik::db::{
    album_from_query, check_directory_name, directory_change, directory_removal_result, find_directory_for_path,
    group_albums, song_deletion_result, song_metadata_changed, str_starts_with, DatabaseDirectoryError, DatabaseError,
    DatabaseSongError, Directory, NewDirectory, NewSong, Song, UpdatedSong,
};
use muusik::events::{AppEvent, AppEventKind};
use muusik::history::{history_file_name, history_timestamp, is_history_file, song_history_dir, tags_differ};
use muusik::jobs::{Job, JobInfo, JobRegistry};
use muusik::metadata::{Album, AlbumError, CoverArt, CoverArtType, Error, ItemKey, Metadata};
use muusik::migration::{album_groups, migration_step, runs_after_logic, song_directories, validate_applied_migrations, MigrationError, MigrationStep};
use muusik::scan::{is_new_song_file, is_song_file_extension, step_found, update_change_progress};
use muusik::strmap::StrMap;
use muusik::jobs::JobEvent;
use muusik::text::{parse_i128, signed_decimal, str_contains};
use std::collections::BTreeMap;

fn song(id: &str, path: &str, album: Option<&str>, album_artist: Option<&str>) -> Song {
    Song {
        id: id.to_string(),
        path: path.to_string(),
        album: album.map(|a| a.to_string()),
        album_artist: album_artist.map(|a| a.to_string()),
        directory_id: "dir".to_string(),
        ..Default::default()
    }
}

#[test]
fn str_map_keeps_keys_in_order() {
    let mut m: StrMap<u32> = StrMap::new();
    m.insert("b".to_string(), 2);
    m.insert("a".to_string(), 1);
    m.insert("b".to_string(), 3);
    assert_eq!(m.len(), 2);
    assert_eq!(m.get("b"), Some(&3));
    assert!(m.contains_key("a"));
    assert_eq!(m.entries().iter().map(|e| e.0.clone()).collect::<Vec<_>>(), vec!["a", "b"]);
    assert_eq!(m.remove("a"), Some(1));
    assert_eq!(m.get("a"), None);
}

#[test]
fn metadata_later_pairs_win() {
    let m = Metadata::new(
        vec![(ItemKey::Title, "one".to_string()), (ItemKey::Title, "two".to_string())],
        vec![("X".to_string(), "1".to_string()), ("A".to_string(), "2".to_string())],
    );
    assert_eq!(m.get(&ItemKey::Title), Some(&"two".to_string()));
    assert_eq!(m.get(&ItemKey::Artist), None);
    assert_eq!(m.get_unknown("A"), Some(&"2".to_string()));
    assert_eq!(m.unknown_fields().iter().map(|e| e.0.clone()).collect::<Vec<_>>(), vec!["A", "X"]);
    let mut n = m.clone();
    assert!(n.same_as(&m));
    n.insert(ItemKey::Artist, "me".to_string());
    assert!(!n.same_as(&m));
    assert_eq!(n.fields().len(), 2);
}

#[test]
fn metadata_from_tag_values_sanitizes_and_joins() {
    let m = Metadata::from_tag_values(
        vec![(ItemKey::Artist, vec![" a ".to_string(), "b\0".to_string()])],
        vec![("MOOD".to_string(), vec!["calm".to_string()])],
    );
    assert_eq!(m.get(&ItemKey::Artist), Some(&"a; b".to_string()));
    assert_eq!(m.get_unknown("MOOD"), Some(&"calm".to_string()));
}

#[test]
fn albums_from_metadata() {
    let t = |album: &str| Metadata::new(vec![(ItemKey::Album, album.to_string())], vec![]);
    assert!(matches!(Album::try_from(vec![]), Err(Error::Album(AlbumError::NoTracks))));
    assert!(matches!(Album::try_from(vec![Metadata::new(vec![], vec![])]), Err(Error::Album(AlbumError::NoAlbum))));
    assert!(matches!(Album::try_from(vec![t("x"), t("y")]), Err(Error::Album(AlbumError::MixedTracks))));
    let a = Album::try_from(vec![t("x"), t("x")]).expect("an album");
    assert_eq!(a.title, "x");
    assert_eq!(a.tracks.len(), 2);
}

#[test]
fn cover_types_parse_in_any_case() {
    assert_eq!(CoverArtType::try_from("FRONT"), Ok(CoverArtType::Front));
    assert_eq!(CoverArtType::try_from("back"), Ok(CoverArtType::Back));
    assert_eq!(CoverArtType::try_from("nope"), Err("Invalid cover art type: nope".to_string()));
}

#[test]
fn grouping_songs_into_albums() {
    let songs = vec![
        song("1", "/m/1.mp3", Some("B"), Some("x")),
        song("2", "/m/2.mp3", Some("A"), None),
        song("3", "/m/3.mp3", Some("B"), Some("y")),
    ];
    let albums = group_albums(songs);
    assert_eq!(albums.len(), 2);
    assert_eq!(albums[0].title, "B");
    assert_eq!(albums[0].artist, Some("x".to_string()));
    assert_eq!(albums[0].tracks.iter().map(|t| t.id.clone()).collect::<Vec<_>>(), vec!["1", "3"]);
    assert_eq!(albums[1].title, "A");
    assert_eq!(albums[1].tracks.len(), 1);
    assert!(matches!(album_from_query(vec![]), Err(DatabaseSongError::AlbumNotFound)));
    let a = album_from_query(vec![song("1", "/m/1.mp3", Some("B"), Some("x"))]).unwrap();
    assert_eq!((a.title.as_str(), a.artist.as_deref()), ("B", Some("x")));
}

#[test]
fn moving_a_song_between_directories() {
    let dirs = vec![("/music/a".to_string(), "da".to_string()), ("/music".to_string(), "dm".to_string())];
    assert_eq!(directory_change("da", &dirs, "/music/a/x.mp3"), Ok(None));
    assert_eq!(directory_change("dm", &dirs, "/music/a/x.mp3"), Ok(Some("da".to_string())));
    assert_eq!(directory_change("dm", &dirs, "/other/x.mp3"), Err(DatabaseSongError::PathDoesntContainDirectory));
    assert_eq!(find_directory_for_path(&vec!["/x".to_string(), "/music".to_string()], "/music/a"), Some(1));
    assert!(str_starts_with("/music/a", "/music"));
}

#[test]
fn adding_a_directory() {
    let new = |p: &str| NewDirectory { path: p.to_string(), display_name: Some("Music".to_string()) };
    let existing = vec!["/music".to_string()];
    assert_eq!(new("  ").into_record("n".into(), false, true, true, &existing).unwrap_err(), DatabaseDirectoryError::PathEmpty);
    assert_eq!(new("/x").into_record("n".into(), true, true, true, &existing).unwrap_err(), DatabaseDirectoryError::PathAlreadyAdded);
    assert_eq!(new("x").into_record("n".into(), false, true, true, &existing).unwrap_err(), DatabaseDirectoryError::PathNotAbsolute("x".into()));
    assert_eq!(new("/x").into_record("n".into(), false, false, true, &existing).unwrap_err(), DatabaseDirectoryError::PathDoesNotExist("/x".into()));
    assert_eq!(new("/x").into_record("n".into(), false, true, false, &existing).unwrap_err(), DatabaseDirectoryError::PathNotDirectory("/x".into()));
    assert_eq!(
        new("/music/sub").into_record("n".into(), false, true, true, &existing).unwrap_err(),
        DatabaseDirectoryError::PathIsSubdirectory("/music/sub".into())
    );
    let d: Directory = new("/musical").into_record("n".into(), false, true, true, &existing).unwrap();
    assert_eq!((d.name.as_str(), d.path.as_str(), d.display_name.as_deref()), ("n", "/musical", Some("Music")));
    let fresh = new("/other").into_new_record(false, true, true, &existing).unwrap();
    assert_eq!(fresh.name.len(), 36);
    assert_eq!(fresh.name.chars().nth(8), Some('-'));
    assert_ne!(fresh.name, new("/other").into_new_record(false, true, true, &existing).unwrap().name);
}

#[test]
fn database_error_answers() {
    assert_eq!(check_directory_name(" "), Err(DatabaseDirectoryError::NameEmpty));
    assert_eq!(check_directory_name("x"), Ok(()));
    assert_eq!(directory_removal_result(0), Err(DatabaseDirectoryError::NotFound));
    assert_eq!(directory_removal_result(1), Ok(()));
    assert_eq!(song_deletion_result(0), Err(DatabaseSongError::SongNotFound));
    assert_eq!(DatabaseDirectoryError::NotFound.status_code(), 404);
    assert_eq!(DatabaseDirectoryError::PathAlreadyAdded.status_code(), 409);
    assert_eq!(DatabaseDirectoryError::PathEmpty.status_code(), 400);
    assert_eq!(DatabaseDirectoryError::PathDoesNotExist("/x".into()).message(), "Path \"/x\" does not exist");
    assert_eq!(DatabaseSongError::SongAlreadyExists.status_code(), 409);
    assert_eq!(DatabaseError::Sqlx("x".into()).status_code(), 500);
    assert_eq!(DatabaseError::Song(DatabaseSongError::AlbumNotFound).status_code(), 404);
}

#[test]
fn error_messages() {
    assert_eq!(AlbumError::MixedTracks.message(), "All tracks must be from the same album");
    assert_eq!(Error::Album(AlbumError::NoTracks).message(), "No tracks found");
    assert_eq!(Error::Io("disk gone".into()).message(), "disk gone");
    assert_eq!(DatabaseSongError::PathNotFound.message(), "Song path doesn't exist in any directories");
    assert_eq!(
        DatabaseSongError::Metadata(Error::Album(AlbumError::NoAlbum)).message(),
        "Metadata error: No album found"
    );
    assert_eq!(DatabaseError::Song(DatabaseSongError::SongNotFound).message(), "Song not found");
    assert_eq!(DatabaseError::Directory(DatabaseDirectoryError::NameEmpty).message(), "Name is empty");
    assert_eq!(DatabaseError::Sqlx("locked".into()).message(), "locked");
}

#[test]
fn songs_from_tags() {
    let m = Metadata::new(vec![(ItemKey::Title, "T".to_string()), (ItemKey::Year, "1999".to_string())], vec![]);
    let s = NewSong::from_file("/a.mp3".to_string(), Some(&m), Some(5));
    assert_eq!((s.title.as_deref(), s.year.as_deref(), s.artist.as_deref()), (Some("T"), Some("1999"), None));
    let u = UpdatedSong::from_metadata(None);
    assert!(u.title.is_none());
    let stored = Song::from_new(s, "id".into(), "dir".into(), Some(9));
    assert!(!song_metadata_changed(&stored, Some(&m), Some(5)));
    assert!(song_metadata_changed(&stored, Some(&m), None));
    assert!(song_metadata_changed(&stored, None, Some(5)));
}

#[test]
fn scanning_decisions() {
    assert!(is_song_file_extension("MP3"));
    assert!(is_song_file_extension("opus"));
    assert!(!is_song_file_extension("txt"));
    let existing = vec!["/m/old.mp3".to_string()];
    assert!(is_new_song_file("/m/new.FLAC", true, &existing));
    assert!(!is_new_song_file("/m//old.mp3", true, &existing));
    assert!(!is_new_song_file("/m/new.mp3", false, &existing));
    assert!(!is_new_song_file("/m/cover.jpg", true, &existing));
    assert_eq!(step_found(2, 12), JobEvent::StepCompleted { step: 2, value: Some("12".to_string()) });
    let mut index = 98;
    assert!(update_change_progress(&mut index, 400).is_none());
    let e = update_change_progress(&mut index, 400).expect("every hundredth change");
    assert_eq!(index, 100);
    assert_eq!(e.message, "Applying changes... 25%");
    assert_eq!((e.current, e.total, e.step), (Some(100), Some(400), Some(3)));
}

#[test]
fn migration_decisions() {
    assert_eq!(validate_applied_migrations(&vec![1, 2], &vec![1, 2, 3], false), Ok(()));
    assert_eq!(validate_applied_migrations(&vec![1, 5, 6], &vec![1, 2], false), Err(MigrationError::VersionMissing(5)));
    assert_eq!(validate_applied_migrations(&vec![5], &vec![], true), Ok(()));
    let applied = vec![(1i64, vec![1u8, 2]), (2, vec![3])];
    assert_eq!(migration_step(1, &vec![1, 2], false, &applied), MigrationStep::Skip);
    assert_eq!(migration_step(2, &vec![4], false, &applied), MigrationStep::Mismatch(2));
    assert_eq!(migration_step(3, &vec![], false, &applied), MigrationStep::Apply);
    assert_eq!(migration_step(3, &vec![], true, &applied), MigrationStep::Skip);
    assert!(runs_after_logic(20250905175005, false));
    assert!(!runs_after_logic(20250905175005, true));
    assert!(!runs_after_logic(20260822000717, false));
}

#[test]
fn test_add_reference_to_directory_in_songs() {
    let songs = vec![("song".to_string(), "/path/to/song.mp3".to_string())];
    let dirs = vec![("directory".to_string(), "/path/to/".to_string())];
    assert_eq!(song_directories(&songs, &dirs), Some(vec![("song".to_string(), "directory".to_string())]));
    assert_eq!(song_directories(&vec![("s".into(), "/else/x".into())], &dirs), None);
}

#[test]
fn albums_for_the_album_table() {
    let songs = vec![
        ("real-song".to_string(), Some("album".to_string()), Some("artist".to_string())),
        ("other".to_string(), Some("a-side".to_string()), None),
        ("third".to_string(), Some("album".to_string()), Some("someone".to_string())),
        ("loose".to_string(), None, Some("x".to_string())),
    ];
    let groups = album_groups(&songs);
    assert_eq!(groups.len(), 2);
    assert_eq!(groups[0].0, "a-side");
    assert_eq!(groups[1].0, "album");
    assert_eq!(groups[1].1, vec!["real-song".to_string(), "third".to_string()]);
    assert_eq!(groups[1].2, Some("artist".to_string()));
}

#[test]
fn settings_and_arguments() {
    let mut settings = Settings::default();
    assert_eq!(settings.server.port, 3000);
    assert_eq!(bind_host(&settings.server), "127.0.0.1");
    let args = Args { database_url: Some("sqlite://x.db".into()), host: Some(true), port: None, config: None };
    override_config(&mut settings, &args);
    assert_eq!(settings.server.database_url.as_deref(), Some("sqlite://x.db"));
    assert_eq!(settings.server.port, 3000);
    assert_eq!(bind_host(&settings.server), "0.0.0.0");
    assert_eq!(configured_database_url(&settings.server).map(|s| s.as_str()), Some("sqlite://x.db"));
    settings.server.database_url = Some("  ".into());
    assert_eq!(configured_database_url(&settings.server), None);
    assert_eq!(default_database_url("/cfg", "data"), "sqlite:///cfg/data.db");
    assert_eq!(default_database_file("/d", "data"), "/d/data.db");
    let e = AppEvent::default();
    assert_eq!((e.kind, e.message.as_str()), (AppEventKind::Initialized, "Muusik event channel initialized"));
}

#[test]
fn api_helpers() {
    assert_eq!(FileSystemOperationStatus::default(), FileSystemOperationStatus::Pending);
    assert_eq!(map_type_to_path(CoverArtType::Front, 0), "/front/0.jpg");
    assert_eq!(map_type_to_path(CoverArtType::Other, 12), "/other/12.jpg");
    assert_eq!(cover_type_segment("Front.JPG"), "front");
    assert_eq!(uri_extension("/api/songs/1/cover-art/front.png"), "png");
    assert_eq!(uri_extension("noext"), "noext");
    assert_eq!(content_type_for("png"), Ok("image/png".to_string()));
    assert_eq!(content_type_for(""), Err("Could not determine mime type".to_string()));
    let cover = |t: CoverArtType, b: u8| CoverArt { cover_type: t, mime_type: "image/png".into(), data: vec![b] };
    let found = find_cover_art(vec![cover(CoverArtType::Back, 1), cover(CoverArtType::Front, 2), cover(CoverArtType::Front, 3)], "FRONT");
    assert_eq!(found.map(|c| c.data), Some(vec![2]));
    assert!(find_cover_art(vec![cover(CoverArtType::Back, 1)], "side").is_none());
    assert_eq!(check_folder_request(" ", true, true), Err("Path cannot be empty".to_string()));
    assert_eq!(check_folder_request("/x", false, true), Err("Path does not exist".to_string()));
    assert_eq!(check_folder_request("x", true, true), Err("Path must be absolute".to_string()));
    assert_eq!(check_folder_request("/x", true, true), Ok(()));
    assert_eq!(disk_for_directory("/mnt/music/a", &vec!["/data".into(), "/mnt".into(), "/".into()]), Some(1));
    assert!(str_contains("abcd", "bc"));
    assert!(!str_contains("abcd", "db"));
}

#[test]
fn listing_registered_jobs() {
    let mut registry: JobRegistry<u8> = JobRegistry::new();
    let mut steps = BTreeMap::new();
    steps.insert(1u8, "only".to_string());
    registry.register_job("b".into(), Job::new(JobInfo::new("B".into(), "second".into(), BTreeMap::new()), 0)).unwrap();
    registry.register_job("a".into(), Job::new(JobInfo::new("A".into(), "first".into(), steps), 1)).unwrap();
    let jobs = list_jobs(&registry);
    assert_eq!(jobs.iter().map(|j| j.id.clone()).collect::<Vec<_>>(), vec!["a", "b"]);
    assert_eq!(jobs[0].steps.get(&1), Some(&"only".to_string()));
}

#[test]
fn previewing_organised_paths() {
    let mut track = song("1", "/music/old/file.mp3", Some("Album"), Some("Artist"));
    track.title = Some("Song".into());
    track.track_number = Some("3".into());
    let dirs = vec![
        Directory { name: "dir".into(), path: "/music".into(), display_name: None },
        Directory { name: "other".into(), path: "/library".into(), display_name: None },
    ];
    let options = PathRenameOptions::default();
    let previews = preview_organize_album_tracks(&vec![track.clone()], &dirs, &options).unwrap();
    assert_eq!(previews[0].previous_path, "/music/old/file.mp3");
    assert_eq!(previews[0].new_path, "/music/Artist/Album/Song - 3.mp3");
    let elsewhere = PathRenameOptions { rename_original_files: false, directory_id: Some("other".into()) };
    let previews = preview_organize_album_tracks(&vec![track.clone()], &dirs, &elsewhere).unwrap();
    assert_eq!(previews[0].new_path, "/library/Artist/Album/file.mp3");
    let missing = PathRenameOptions { rename_original_files: true, directory_id: Some("nowhere".into()) };
    match preview_organize_album_tracks(&vec![track.clone()], &dirs, &missing) {
        Err(PreviewError::DirectoryNotFound(m)) => assert_eq!(m, "Directory dir not found"),
        _ => panic!("the directory is unknown"),
    }
    let organized = map_organize(&track);
    assert_eq!(organized.metadata.get(&ItemKey::Genre), Some(&String::new()));
    assert_eq!(organized.metadata.get(&ItemKey::Composer), None);
}

#[test]
fn metadata_history_entries() {
    assert_eq!(song_history_dir("/data", "abc"), "/data/history/abc");
    assert_eq!(history_file_name(-12), "-12.json");
    assert_eq!(history_file_name(1700000000000000000), "1700000000000000000.json");
    assert!(is_history_file("/h/1.json", true));
    assert!(!is_history_file("/h/1.json", false));
    assert!(!is_history_file("/h/1.txt", true));
    assert_eq!(history_timestamp("/h/1700.json"), Some(1700));
    assert_eq!(history_timestamp("/h/-5.json"), Some(-5));
    assert_eq!(history_timestamp("/h/x5.json"), None);
    let m = Metadata::new(vec![(ItemKey::Title, "a".to_string())], vec![]);
    assert!(tags_differ(None, &m));
    assert!(!tags_differ(Some(&m), &m));
}

#[test]
fn integer_text() {
    assert_eq!(parse_i128("+15"), Some(15));
    assert_eq!(parse_i128("-170141183460469231731687303715884105728"), Some(i128::MIN));
    assert_eq!(parse_i128("170141183460469231731687303715884105728"), None);
    assert_eq!(parse_i128(""), None);
    assert_eq!(parse_i128("-"), None);
    assert_eq!(parse_i128("1a"), None);
    assert_eq!(parse_i128("99999999999999999999999999999999999999999999"), None);
    assert_eq!(signed_decimal(i128::MIN), "-170141183460469231731687303715884105728");
    assert_eq!(signed_decimal(0), "0");
}

#[test]
fn history_names_read_back() {
    for t in [0i128, 7, -1, 1_757_000_000_123_456_789, i128::MAX, i128::MIN] {
        let path = song_history_dir("/data", "song").to_string() + "/" + &history_file_name(t);
        assert_eq!(history_timestamp(&path), Some(t));
    }
}

#[test]
fn cover_art_is_converted_to_the_asked_format() {
    let picture = image::RgbImage::from_pixel(2, 2, image::Rgb([200, 10, 10]));
    let mut png: Vec<u8> = Vec::new();
    picture.write_to(&mut std::io::Cursor::new(&mut png), image::ImageFormat::Png).expect("encode");
    let cover = CoverArt { cover_type: CoverArtType::Front, mime_type: "image/png".to_string(), data: png.clone() };
    let jpeg = muusik::api::convert_cover_art(&cover, "jpg").expect("converted");
    assert_ne!(jpeg, png);
    assert_eq!(&jpeg[..2], &[0xFF, 0xD8]);
    assert!(muusik::api::convert_cover_art(&cover, "nothing").is_none());
    let broken = CoverArt { data: vec![1, 2, 3], ..cover };
    assert!(muusik::api::convert_cover_art(&broken, "png").is_none());
}

#[test]
fn test_add_reference_to_albums_in_songs() {
    let songs = vec![("real-song".to_string(), Some("album".to_string()), Some("artist".to_string()))];
    let groups = album_groups(&songs);
    assert_eq!(groups, vec![("album".to_string(), vec!["real-song".to_string()], Some("artist".to_string()))]);
}

#[test]
fn new_songs_are_stored_in_their_directory() {
    let dirs = vec![
        Directory { name: "other".into(), path: "/other".into(), display_name: None },
        Directory { name: "music".into(), path: "/music".into(), display_name: None },
    ];
    let new = NewSong { path: "/music/a.mp3".into(), title: Some("A".into()), ..Default::default() };
    let s = muusik::db::record_new_song(new.clone(), &dirs).expect("stored");
    assert_eq!((s.directory_id.as_str(), s.path.as_str(), s.title.as_deref()), ("music", "/music/a.mp3", Some("A")));
    assert_eq!(s.id.len(), 36);
    assert!(s.added_at.is_some() && s.updated_at.is_none());
    let lost = NewSong { path: "/elsewhere/a.mp3".into(), ..Default::default() };
    assert_eq!(muusik::db::record_new_song(lost, &dirs).unwrap_err(), DatabaseSongError::PathNotFound);
}
