use muusik::metadata::{ItemKey, Metadata, SongFile, SongFileType};
use muusik::organize::{render_song_path, Song, DEFAULT_TEMPLATE};
use muusik::paths::metadata_history_dir;
use muusik::history::{history_timestamp, is_history_file, song_history_dir};
use muusik::api::check_folder_request;
use muusik::scan::is_song_file_extension;
use muusik::tags::{join_tag_values, sanitize_tag, tag_item_values, TagType};
use muusik::text::{decimal, str_concat};

fn simple_metadata() -> Metadata {
    Metadata::new(
        vec![
            (ItemKey::Title, "test_title".to_string()),
            (ItemKey::Artist, "test_artist".to_string()),
            (ItemKey::Album, "test_album".to_string()),
            (ItemKey::AlbumArtist, "test_album_artist".to_string()),
            (ItemKey::Genre, "test_genre".to_string()),
            (ItemKey::TrackNumber, "test_track_number".to_string()),
            (ItemKey::DiscNumber, "test_disc_number".to_string()),
        ],
        vec![],
    )
}

#[test]
fn test_sanitize_tag() {
    assert_eq!(sanitize_tag("  hello  "), "hello");
    assert_eq!(sanitize_tag("hello\0"), "hello");
}

#[test]
fn test_render_song_with_simple_template() {
    let song = Song { file_path: "test_file.mp3".to_string(), metadata: simple_metadata() };
    let result = render_song_path(DEFAULT_TEMPLATE, &song, true);
    assert!(result.is_ok());
    assert_eq!(result.unwrap(), "test_album_artist/test_album/test_title - test_track_number.mp3");
}

#[test]
fn test_render_song_path() {
    let song = Song { file_path: "test_file.mp3".to_string(), metadata: simple_metadata() };
    let result = render_song_path(DEFAULT_TEMPLATE, &song, false);
    assert!(result.is_ok());
    assert_eq!(result.unwrap(), "test_album_artist/test_album/test_file.mp3");
}

#[test]
fn test_render_song_path_with_dirty_metadata() {
    let metadata = Metadata::new(
        vec![
            (ItemKey::Title, "title/with:illegal*chars".to_string()),
            (ItemKey::Artist, "artist\\name\"".to_string()),
            (ItemKey::Album, "album<name>".to_string()),
            (ItemKey::AlbumArtist, "album:artist|name".to_string()),
            (ItemKey::Genre, "genre*illegal?chars".to_string()),
            (ItemKey::TrackNumber, "track:#1".to_string()),
            (ItemKey::DiscNumber, "disc:disk?No.2".to_string()),
        ],
        vec![],
    );
    let song = Song { file_path: "test_file.wav".to_string(), metadata };
    let result = render_song_path("{{albumArtist}}/{{album}}/{{title}}", &song, true);
    assert!(result.is_ok());
    assert_eq!(result.unwrap(), "albumartistname/albumname/titlewithillegalchars.wav");
}

#[test]
fn sanitize_tag_keeps_inner_spaces_and_drops_every_nul() {
    assert_eq!(sanitize_tag(" a\0 b\0 "), "a b");
    assert_eq!(sanitize_tag(""), "");
    // NUL characters go first, so no white space they hid stays at either end.
    assert_eq!(sanitize_tag(" x\0 "), "x");
    assert_eq!(sanitize_tag("x \0"), "x");
    assert_eq!(sanitize_tag("\0 a"), "a");
    assert_eq!(sanitize_tag(&sanitize_tag("x \0")), "x");
}

#[test]
fn tag_values_split_and_join() {
    assert_eq!(tag_item_values("a; b ;c"), vec!["a".to_string(), "b".to_string(), "c".to_string()]);
    assert_eq!(tag_item_values(" single "), vec![" single ".to_string()]);
    assert_eq!(join_tag_values(&vec![" x ".to_string(), "y\0".to_string()]), "x; y");
}

#[test]
fn filename_sanitizing_drops_illegal_characters() {
    let metadata = Metadata::new(
        vec![(ItemKey::Artist, "a/b:c*d?e".to_string()), (ItemKey::Album, "..".to_string()), (ItemKey::Title, "plain".to_string())],
        vec![],
    );
    let song = Song { file_path: "/in/x.ogg".to_string(), metadata };
    assert_eq!(render_song_path("{{artist}}/{{title}}", &song, true).ok(), Some("abcde/plain.ogg".to_string()));
    assert_eq!(render_song_path("{{album}}{{title}}", &song, true).ok(), Some("plain.ogg".to_string()));
}

#[test]
fn rendering_without_a_file_name_fails_when_keeping_it() {
    let song = Song { file_path: "/".to_string(), metadata: simple_metadata() };
    let result = render_song_path(DEFAULT_TEMPLATE, &song, false);
    match result {
        Err(e) => {
            assert_eq!(e.status_code(), 400);
            assert_eq!(e.message(), "/");
        }
        Ok(p) => panic!("unexpected path {p}"),
    }
}

#[test]
fn a_broken_template_is_a_bad_request() {
    let song = Song { file_path: "a.mp3".to_string(), metadata: simple_metadata() };
    let result = render_song_path("{{#if title}}", &song, true);
    match result {
        Err(e) => assert_eq!(e.status_code(), 400),
        Ok(p) => panic!("unexpected path {p}"),
    }
}

#[test]
fn a_missing_partial_is_a_server_error() {
    let song = Song { file_path: "a.mp3".to_string(), metadata: simple_metadata() };
    let result = render_song_path("{{> nowhere}}", &song, true);
    match result {
        Err(e) => {
            assert_eq!(e.status_code(), 500);
            assert!(e.message().contains("nowhere"));
        }
        Ok(p) => panic!("unexpected path {p}"),
    }
}

#[test]
fn path_helpers() {
    assert_eq!(metadata_history_dir("/var/lib/muusik"), "/var/lib/muusik/history");
    assert_eq!(song_history_dir("/data", "s1"), "/data/history/s1");
    assert_eq!(song_history_dir("/data", "/abs"), "/abs");
    assert!(is_history_file("/h/1.json", true));
    assert!(!is_history_file("/h/1.JSON", true));
    assert!(!is_history_file("/h/noext", true));
    assert_eq!(history_timestamp("/h/dir.d/42.json"), Some(42));
    assert!(is_song_file_extension("FLAC"));
    assert_eq!(check_folder_request("/a", true, true), Ok(()));
    assert_eq!(check_folder_request("a", true, true), Err("Path must be absolute".to_string()));
}

#[test]
fn text_helpers() {
    assert_eq!(decimal(0), "0");
    assert_eq!(decimal(1204), "1204");
    assert_eq!(decimal(u64::MAX), "18446744073709551615");
    assert_eq!(str_concat("ab", "cd"), "abcd");
}

#[test]
fn song_files_keep_what_was_read() {
    let tags = Metadata::new(vec![(ItemKey::Title, "Song".to_string())], vec![]);
    let mut file = SongFile::new("/m/a.flac".to_string(), TagType::VorbisComments, SongFileType::Flac, 1, 2, 300, Some(tags));
    assert_eq!(file.path(), "/m/a.flac");
    assert_eq!((file.created(), file.last_modified(), file.size()), (1, 2, 300));
    assert_eq!(file.tag_type(), TagType::VorbisComments);
    assert_eq!(file.metadata().as_ref().and_then(|m| m.get(&ItemKey::Title)).map(|s| s.as_str()), Some("Song"));
    file.remove_metadata();
    assert!(file.metadata().is_none());
    file.set_metadata(Metadata::empty());
    assert!(file.metadata().is_some());
    *file.tag_type_mut() = TagType::Id3v2;
    assert_eq!(file.tag_type(), TagType::Id3v2);
    *file.metadata_mut() = None;
    assert!(file.metadata().is_none());
    assert_eq!(file.path(), "/m/a.flac");
}
