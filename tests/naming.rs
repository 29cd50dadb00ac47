use media_relay::naming::{generate_unique_filename, get_file_extension, get_mime_type, mime_for_extension, object_key};

#[test]
fn extension_is_the_text_after_the_last_dot() {
    assert_eq!(get_file_extension("song.final.MP3"), Some("MP3"));
    assert_eq!(get_file_extension("dir/a.wav"), Some("wav"));
    assert_eq!(get_file_extension("README"), None);
    assert_eq!(get_file_extension(".hidden"), None);
}

#[test]
fn mime_type_ignores_letter_case() {
    assert_eq!(get_mime_type("vocal.MP3"), "audio/mpeg");
    assert_eq!(get_mime_type("cover.jpeg"), "image/jpeg");
    assert_eq!(get_mime_type("cover.JPG"), "image/jpeg");
    assert_eq!(get_mime_type("take.flac"), "audio/flac");
    assert_eq!(get_mime_type("notes.txt"), "text/plain");
}

#[test]
fn unknown_or_missing_extension_is_octet_stream() {
    assert_eq!(get_mime_type("archive.rar"), "application/octet-stream");
    assert_eq!(get_mime_type("noext"), "application/octet-stream");
}

#[test]
fn mime_table_needs_lower_case() {
    assert_eq!(mime_for_extension("m4a"), "audio/m4a");
    assert_eq!(mime_for_extension("webm"), "video/webm");
    assert_eq!(mime_for_extension("json"), "application/json");
    assert_eq!(mime_for_extension("PNG"), "application/octet-stream");
}

#[test]
fn object_key_joins_folder_and_name() {
    assert_eq!(object_key("test2", "vocal.mp3"), "test2/vocal.mp3");
    assert_eq!(object_key("", "a"), "/a");
}

#[test]
fn unique_filename_joins_prefix_time_and_random() {
    assert_eq!(generate_unique_filename("track", ".mp3", 1700000000, 42), "track_1700000000_42.mp3");
    assert_eq!(generate_unique_filename("", "", -5, 0), "_-5_0");
    assert_eq!(generate_unique_filename("a", ".wav", 0, 65535), "a_0_65535.wav");
}

#[test]
fn unique_filename_handles_extreme_timestamps() {
    assert_eq!(generate_unique_filename("p", "", i64::MIN, 7), "p_-9223372036854775808_7");
    assert_eq!(generate_unique_filename("p", "", i64::MAX, 10), "p_9223372036854775807_10");
}
