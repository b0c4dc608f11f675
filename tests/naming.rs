use loudness::naming::{file_key, has_audio_extension};

#[test]
fn key_drops_the_extension() {
    assert_eq!(file_key("a.mp3"), "a");
    assert_eq!(file_key("song name.mp3"), "song name");
}

#[test]
fn key_drops_only_the_last_extension() {
    assert_eq!(file_key("archive.tar.mp3"), "archive.tar");
}

#[test]
fn key_of_a_name_without_extension_is_the_name() {
    assert_eq!(file_key("noext"), "noext");
    assert_eq!(file_key(""), "");
}

#[test]
fn key_keeps_a_leading_dot() {
    assert_eq!(file_key(".hidden"), ".hidden");
    assert_eq!(file_key(".mp3"), ".mp3");
    assert_eq!(file_key(".."), "..");
    assert_eq!(file_key("..mp3"), ".");
}

#[test]
fn key_of_a_name_ending_in_a_dot() {
    assert_eq!(file_key("a."), "a");
}

#[test]
fn key_handles_non_ascii_names() {
    assert_eq!(file_key("früh.mp3"), "früh");
}

#[test]
fn audio_extension_is_recognised() {
    assert!(has_audio_extension("a.mp3"));
    assert!(has_audio_extension("x.y.mp3"));
    assert!(has_audio_extension("..mp3"));
}

#[test]
fn other_names_are_not_audio() {
    assert!(!has_audio_extension("a.MP3"));
    assert!(!has_audio_extension("a.mp4"));
    assert!(!has_audio_extension("a.mp3.bak"));
    assert!(!has_audio_extension(".mp3"));
    assert!(!has_audio_extension("mp3"));
    assert!(!has_audio_extension("a.mp33"));
    assert!(!has_audio_extension(""));
}
