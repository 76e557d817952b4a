use kuvasivu::paths::{content_type, is_safe_path_segment};

#[test]
fn safe_path_segment_accepts_normal_names() {
    assert!(is_safe_path_segment("my-album"));
    assert!(is_safe_path_segment("photo.jpg"));
    assert!(is_safe_path_segment("album_2024"));
    assert!(is_safe_path_segment(".hidden"));
}

#[test]
fn safe_path_segment_rejects_traversal() {
    assert!(!is_safe_path_segment(".."));
    assert!(!is_safe_path_segment("../etc"));
    assert!(!is_safe_path_segment("foo/bar"));
    assert!(!is_safe_path_segment("."));
    assert!(!is_safe_path_segment(""));
}

#[test]
fn safe_path_segment_edge_cases() {
    assert!(!is_safe_path_segment("/"));
    assert!(!is_safe_path_segment("/etc"));
    assert!(!is_safe_path_segment("foo/"));
    assert!(!is_safe_path_segment("./foo"));
    assert!(!is_safe_path_segment("foo/.."));
    assert!(is_safe_path_segment("..."));
    assert!(is_safe_path_segment("..foo"));
    assert!(is_safe_path_segment("foo.."));
    assert!(is_safe_path_segment(". "));
    assert!(is_safe_path_segment("a b"));
    assert!(is_safe_path_segment("kes\u{e4}"));
}

#[test]
fn safe_path_segment_agrees_with_the_path_type() {
    for name in ["my-album", ".hidden", "..", ".", "", "a/b", "a/", "/a", "...", "x.y.z", " "] {
        let plain = std::path::Path::new(name).file_name().and_then(|f| f.to_str()) == Some(name);
        assert_eq!(is_safe_path_segment(name), plain, "{name:?}");
    }
}

#[test]
fn test_serve_photo() {
    assert_eq!(content_type("photo-a.jpg"), "image/jpeg");
    assert_eq!(content_type("photo-a.jpeg"), "image/jpeg");
}

#[test]
fn test_serve_photo_png() {
    assert_eq!(content_type("photo.png"), "image/png");
}

#[test]
fn test_serve_photo_webp() {
    assert_eq!(content_type("photo.webp"), "image/webp");
}

#[test]
fn test_serve_photo_unknown_extension() {
    assert_eq!(content_type("data.bin"), "application/octet-stream");
}

#[test]
fn content_type_goes_by_the_last_extension_in_small_letters() {
    assert_eq!(content_type("a.png.jpg"), "image/jpeg");
    assert_eq!(content_type("a.jpg.txt"), "application/octet-stream");
    assert_eq!(content_type("photo.JPG"), "application/octet-stream");
    assert_eq!(content_type("photo.Png"), "application/octet-stream");
    assert_eq!(content_type("photo"), "application/octet-stream");
    assert_eq!(content_type("photo."), "application/octet-stream");
    assert_eq!(content_type(""), "application/octet-stream");
    assert_eq!(content_type("jpg"), "application/octet-stream");
}

#[test]
fn content_type_of_names_that_begin_with_a_dot() {
    assert_eq!(content_type(".jpg"), "application/octet-stream");
    assert_eq!(content_type(".."), "application/octet-stream");
    assert_eq!(content_type("."), "application/octet-stream");
    assert_eq!(content_type(".hidden.png"), "image/png");
    assert_eq!(content_type("..png"), "image/png");
}

#[test]
fn content_type_agrees_with_the_path_type() {
    for name in ["a.jpg", ".jpg", "..", "..png", "a.", "a", "a.b.webp", ".a.jpeg", "x.PNG"] {
        let expected = match std::path::Path::new(name).extension().and_then(|e| e.to_str()) {
            Some("jpg" | "jpeg") => "image/jpeg",
            Some("png") => "image/png",
            Some("webp") => "image/webp",
            _ => "application/octet-stream",
        };
        assert_eq!(content_type(name), expected, "{name:?}");
    }
}
