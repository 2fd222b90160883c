use podcast_downloader::extension::get_extension_from_url;
use podcast_downloader::sanitize::sanitize_filename;

#[test]
fn test_sanitize_filename_removes_invalid_chars() {
    assert_eq!(sanitize_filename("hello/world"), "hello-world");
    assert_eq!(sanitize_filename("file:name"), "file-name");
    assert_eq!(sanitize_filename("test*file?"), "test-file-");
    assert_eq!(sanitize_filename("a<b>c"), "a-b-c");
    assert_eq!(sanitize_filename("pipe|char"), "pipe-char");
    assert_eq!(sanitize_filename("back\\slash"), "back-slash");
    assert_eq!(sanitize_filename("quote\"test"), "quote-test");
}

#[test]
fn test_sanitize_filename_preserves_valid_chars() {
    assert_eq!(sanitize_filename("hello world"), "hello world");
    assert_eq!(sanitize_filename("episode-01"), "episode-01");
    assert_eq!(sanitize_filename("podcast_name"), "podcast_name");
    assert_eq!(sanitize_filename("한글 제목"), "한글 제목");
}

#[test]
fn test_sanitize_filename_trims_whitespace() {
    assert_eq!(sanitize_filename("  hello  "), "hello");
    assert_eq!(sanitize_filename("\ttest\n"), "test");
}

#[test]
fn test_get_extension_from_url_basic() {
    assert_eq!(
        get_extension_from_url("https://example.com/file.mp3"),
        "mp3"
    );
    assert_eq!(
        get_extension_from_url("https://example.com/file.MP3"),
        "mp3"
    );
    assert_eq!(
        get_extension_from_url("https://example.com/audio.m4a"),
        "m4a"
    );
    assert_eq!(
        get_extension_from_url("https://example.com/video.mp4"),
        "mp4"
    );
}

#[test]
fn test_get_extension_from_url_with_query_params() {
    assert_eq!(
        get_extension_from_url("https://example.com/file.mp3?token=abc123"),
        "mp3"
    );
    assert_eq!(
        get_extension_from_url("https://cdn.example.com/podcast.m4a?expires=123&sig=xyz"),
        "m4a"
    );
}

#[test]
fn test_get_extension_from_url_no_extension() {
    // The function splits on '.', so it returns the last dot-separated segment.
    assert_eq!(
        get_extension_from_url("https://example.com/file"),
        "com/file"
    );
    // A URL whose path holds no dot at all comes back whole.
    assert_eq!(
        get_extension_from_url("http://example/podcast"),
        "http://example/podcast"
    );
}

#[test]
fn test_get_extension_from_url_multiple_dots() {
    assert_eq!(
        get_extension_from_url("https://example.com/file.name.mp3"),
        "mp3"
    );
}

#[test]
fn sanitize_is_idempotent_on_a_messy_title() {
    let once = sanitize_filename("  a/b\\c:d*e?f\"g<h>i|j  ");
    let twice = sanitize_filename(&once);
    assert_eq!(once, "a-b-c-d-e-f-g-h-i-j");
    assert_eq!(twice, once);
}

#[test]
fn sanitize_keeps_inner_whitespace() {
    assert_eq!(sanitize_filename("  a  b  "), "a  b");
    assert_eq!(sanitize_filename(""), "");
    assert_eq!(sanitize_filename(" \u{a0}\u{3000} "), "");
}

#[test]
fn extension_of_empty_and_trailing_dot() {
    assert_eq!(get_extension_from_url(""), "");
    assert_eq!(get_extension_from_url("https://example.com/file."), "");
    assert_eq!(get_extension_from_url("x.MP3?a.b.c"), "mp3");
}
