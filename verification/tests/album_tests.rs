use exif::experimental::Writer;
use exif::{Field, In, Tag, Value};
use kuvasivu::album::{
    has_photo_extension, list_photos, load_album, locate_photo, names_album, scan_albums,
    slug_to_title, Album, AlbumDir, AlbumMeta, Photo,
};
use kuvasivu::dates::derive_timespan;
use kuvasivu::metadata::read_exif_date;

fn names(list: &[&str]) -> Vec<String> {
    list.iter().map(|name| name.to_string()).collect()
}

fn filenames(photos: &[Photo]) -> Vec<&str> {
    photos.iter().map(|p| p.filename.as_str()).collect()
}

fn dir(name: &str) -> AlbumDir {
    AlbumDir {
        name: name.to_string(),
        is_dir: true,
        meta: AlbumMeta::default(),
        entries: Vec::new(),
        dates: Vec::new(),
    }
}

fn file(name: &str) -> AlbumDir {
    AlbumDir { is_dir: false, ..dir(name) }
}

fn slugs(albums: &[Album]) -> Vec<&str> {
    albums.iter().map(|a| a.slug.as_str()).collect()
}

/// The bytes of a photo taken at the given moment.
fn photo_taken(timestamp: &str) -> Vec<u8> {
    let field = Field {
        tag: Tag::DateTimeOriginal,
        ifd_num: In::PRIMARY,
        value: Value::Ascii(vec![timestamp.as_bytes().to_vec()]),
    };
    let mut writer = Writer::new();
    writer.push_field(&field);
    let mut buf = std::io::Cursor::new(Vec::new());
    writer.write(&mut buf, false).unwrap();
    buf.into_inner()
}

#[test]
fn slug_to_title_basic() {
    assert_eq!(slug_to_title("my-album"), "My Album");
}

#[test]
fn slug_to_title_single_word() {
    assert_eq!(slug_to_title("photos"), "Photos");
}

#[test]
fn slug_to_title_empty() {
    assert_eq!(slug_to_title(""), "");
}

#[test]
fn slug_to_title_multiple_hyphens() {
    assert_eq!(slug_to_title("my-cool-album"), "My Cool Album");
}

#[test]
fn slug_to_title_runs_of_breaks() {
    assert_eq!(slug_to_title("--my--album--"), "My Album");
    assert_eq!(slug_to_title("  my \t album\n"), "My Album");
    assert_eq!(slug_to_title("a\u{a0}b\u{3000}c"), "A B C");
    assert_eq!(slug_to_title("---"), "");
}

#[test]
fn slug_to_title_keeps_the_rest_of_a_word() {
    assert_eq!(slug_to_title("mcDonald-x-t5"), "McDonald X T5");
    assert_eq!(slug_to_title("ALBUM_2024"), "ALBUM_2024");
    assert_eq!(slug_to_title("2024-kes\u{e4}"), "2024 Kes\u{e4}");
}

#[test]
fn slug_to_title_beyond_ascii() {
    assert_eq!(slug_to_title("\u{e4}iti-\u{f6}ljy"), "\u{c4}iti \u{d6}ljy");
    // One small letter may have more than one capital.
    assert_eq!(slug_to_title("\u{df}en"), "SSen");
    assert_eq!(slug_to_title("\u{65e5}\u{672c}"), "\u{65e5}\u{672c}");
}

#[test]
fn derive_timespan_single_date() {
    let dates = vec![read_exif_date(&photo_taken("2026:02:01 15:01:06"))];
    assert_eq!(derive_timespan(&dates), "February 2026");
}

#[test]
fn derive_timespan_no_exif() {
    let dates = vec![read_exif_date(b"not a real jpeg")];
    assert_eq!(derive_timespan(&dates), "");
}

#[test]
fn has_photo_extension_knows_the_four() {
    assert!(has_photo_extension("a.jpg"));
    assert!(has_photo_extension("a.jpeg"));
    assert!(has_photo_extension("a.png"));
    assert!(has_photo_extension("a.webp"));
    assert!(has_photo_extension("A.JPG"));
    assert!(has_photo_extension("a.JpEg"));
    assert!(has_photo_extension("a.Png"));
    assert!(has_photo_extension("a.WEBP"));
    assert!(has_photo_extension(".jpg"));
    assert!(has_photo_extension("archive.tar.png"));
}

#[test]
fn has_photo_extension_refuses_the_rest() {
    assert!(!has_photo_extension(""));
    assert!(!has_photo_extension("jpg"));
    assert!(!has_photo_extension("a.jpg.txt"));
    assert!(!has_photo_extension("a.jp"));
    assert!(!has_photo_extension("a.gif"));
    assert!(!has_photo_extension("album.toml"));
    assert!(!has_photo_extension("a.jpg "));
    assert!(!has_photo_extension("ajpg"));
    assert!(!has_photo_extension("a.\u{ff4a}pg"));
}

#[test]
fn list_photos_filters_and_sorts() {
    let photos = list_photos(&names(&["b.jpg", "a.png", "c.webp", "d.txt", "album.toml"]));
    assert_eq!(filenames(&photos), vec!["a.png", "b.jpg", "c.webp"]);
}

#[test]
fn list_photos_missing_dir() {
    // A directory that cannot be read has no entries.
    let photos = list_photos(&[]);
    assert!(photos.is_empty());
}

#[test]
fn list_photos_jpeg_extension() {
    let photos = list_photos(&names(&["photo.jpeg"]));
    assert_eq!(photos.len(), 1);
    assert_eq!(photos[0].filename, "photo.jpeg");
}

#[test]
fn list_photos_orders_as_strings_compare() {
    let listing = names(&["b.jpg", "B.jpg", "a10.jpg", "a2.jpg", "a.jpg", "\u{e4}.jpg", "a.JPG"]);
    let photos = list_photos(&listing);
    let mut expected: Vec<String> = listing.clone();
    expected.sort();
    assert_eq!(filenames(&photos), expected.iter().map(|s| s.as_str()).collect::<Vec<_>>());
    assert_eq!(
        filenames(&photos),
        vec!["B.jpg", "a.JPG", "a.jpg", "a10.jpg", "a2.jpg", "b.jpg", "\u{e4}.jpg"]
    );
}

#[test]
fn list_photos_keeps_names_that_come_twice() {
    let photos = list_photos(&names(&["b.jpg", "a.jpg", "b.jpg"]));
    assert_eq!(filenames(&photos), vec!["a.jpg", "b.jpg", "b.jpg"]);
}

#[test]
fn names_album_wants_a_directory_without_leading_dot() {
    assert!(names_album("visible-album", true));
    assert!(names_album("", true));
    assert!(names_album("a.b", true));
    assert!(!names_album(".hidden", true));
    assert!(!names_album(".", true));
    assert!(!names_album("a-file.txt", false));
    assert!(!names_album(".hidden", false));
}

#[test]
fn scan_albums_skips_dotfiles_and_files() {
    let albums = scan_albums(&[dir(".hidden"), dir("visible-album"), file("a-file.txt")]);
    assert_eq!(albums.len(), 1);
    assert_eq!(albums[0].slug, "visible-album");
}

#[test]
fn scan_albums_sorts_by_title() {
    let albums = scan_albums(&[dir("z-album"), dir("a-album")]);
    assert_eq!(albums[0].title, "A Album");
    assert_eq!(albums[1].title, "Z Album");
}

#[test]
fn scan_albums_nonexistent_dir() {
    // A photo root that cannot be read has no entries.
    let albums = scan_albums(&[]);
    assert!(albums.is_empty());
}

#[test]
fn scan_albums_sorts_by_title_not_by_slug() {
    let mut first = dir("a-album");
    first.meta.title = Some("Zebra".to_string());
    let mut second = dir("z-album");
    second.meta.title = Some("Apple".to_string());
    let albums = scan_albums(&[first, dir("m-album"), second]);
    assert_eq!(slugs(&albums), vec!["z-album", "m-album", "a-album"]);
}

#[test]
fn scan_albums_keeps_the_order_of_equal_titles() {
    let mut one = dir("one");
    one.meta.title = Some("Same".to_string());
    let mut two = dir("two");
    two.meta.title = Some("Same".to_string());
    let mut three = dir("three");
    three.meta.title = Some("Same".to_string());
    let albums = scan_albums(&[one, two, three]);
    assert_eq!(slugs(&albums), vec!["one", "two", "three"]);
}

#[test]
fn scan_albums_builds_each_album_from_its_directory() {
    let mut summer = dir("summer-trip");
    summer.entries = names(&["album.toml", "photo-b.jpg", "photo-a.jpg", "notes.txt"]);
    summer.dates =
        vec![Some("2024:07:30 10:00:00".to_string()), Some("2024:08:02 09:00:00".to_string())];
    let albums = scan_albums(&[summer]);
    assert_eq!(albums.len(), 1);
    assert_eq!(albums[0].slug, "summer-trip");
    assert_eq!(albums[0].title, "Summer Trip");
    assert_eq!(albums[0].description, "");
    assert_eq!(albums[0].timespan, "July 2024 \u{2013} August 2024");
    assert_eq!(albums[0].cover.as_deref(), Some("photo-a.jpg"));
}

#[test]
fn load_album_with_meta() {
    let meta = AlbumMeta {
        title: Some("Custom Title".to_string()),
        description: Some("Desc".to_string()),
        timespan: Some("2024".to_string()),
    };
    let photos = list_photos(&names(&["album.toml", "a.jpg"]));
    let album = load_album("test", &meta, &photos, &[None]);
    assert_eq!(album.title, "Custom Title");
    assert_eq!(album.description, "Desc");
    assert_eq!(album.timespan, "2024");
    assert_eq!(album.cover.as_deref(), Some("a.jpg"));
    assert_eq!(album.slug, "test");
}

#[test]
fn load_album_without_meta() {
    let photos = list_photos(&[]);
    let album = load_album("my-album", &AlbumMeta::default(), &photos, &[]);
    assert_eq!(album.title, "My Album");
    assert_eq!(album.description, "");
    assert_eq!(album.timespan, "");
    assert!(album.cover.is_none());
}

#[test]
fn load_album_overrides_field_by_field() {
    let meta = AlbumMeta { title: None, description: Some("Desc".to_string()), timespan: None };
    let photos = list_photos(&names(&["b.jpg", "a.jpg"]));
    let dates = vec![Some("2024:06:20 12:00:00".to_string()), None];
    let album = load_album("my-album", &meta, &photos, &dates);
    assert_eq!(album.title, "My Album");
    assert_eq!(album.description, "Desc");
    assert_eq!(album.timespan, "June 2024");
    assert_eq!(album.cover.as_deref(), Some("a.jpg"));
}

#[test]
fn load_album_from_three_photos() {
    let fixture = photo_taken("2026:02:01 15:01:06");
    let photos = list_photos(&names(&["photo-c.jpg", "photo-a.jpg", "photo-b.jpg"]));
    let dates: Vec<Option<String>> = photos.iter().map(|_| read_exif_date(&fixture)).collect();
    let album = load_album("test-album", &AlbumMeta::default(), &photos, &dates);
    assert_eq!(album.title, "Test Album");
    assert_eq!(album.cover.as_deref(), Some("photo-a.jpg"));
    assert_eq!(album.timespan, "February 2026");
    assert_eq!(album.timespan, derive_timespan(&dates));
}

#[test]
fn test_photo_page_first() {
    let photos = list_photos(&names(&["photo-a.jpg", "photo-b.jpg", "photo-c.jpg"]));
    let position = locate_photo(&photos, "photo-a.jpg").unwrap();
    assert_eq!(position.index, 0);
    assert!(position.prev.is_none());
    assert_eq!(position.next.unwrap().filename, "photo-b.jpg");
}

#[test]
fn test_photo_page_middle() {
    let photos = list_photos(&names(&["photo-a.jpg", "photo-b.jpg", "photo-c.jpg"]));
    let position = locate_photo(&photos, "photo-b.jpg").unwrap();
    assert_eq!(position.index, 1);
    assert_eq!(position.prev.unwrap().filename, "photo-a.jpg");
    assert_eq!(position.next.unwrap().filename, "photo-c.jpg");
}

#[test]
fn test_photo_page_last() {
    let photos = list_photos(&names(&["photo-a.jpg", "photo-b.jpg", "photo-c.jpg"]));
    let position = locate_photo(&photos, "photo-c.jpg").unwrap();
    assert_eq!(position.index, 2);
    assert_eq!(position.prev.unwrap().filename, "photo-b.jpg");
    assert!(position.next.is_none());
}

#[test]
fn test_photo_not_found_file() {
    let photos = list_photos(&names(&["photo-a.jpg", "photo-b.jpg", "photo-c.jpg"]));
    assert!(locate_photo(&photos, "nonexistent.jpg").is_none());
    assert!(locate_photo(&[], "photo-a.jpg").is_none());
}

#[test]
fn locate_photo_alone_in_its_album() {
    let photos = list_photos(&names(&["only.png"]));
    let position = locate_photo(&photos, "only.png").unwrap();
    assert_eq!(position.index, 0);
    assert!(position.prev.is_none());
    assert!(position.next.is_none());
}
