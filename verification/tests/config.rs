use agora_recording::{Config, DecodeError};

#[test]
fn config_mixing_enabled() {
    let mut config = Config::new();
    assert!(!config.is_mixing_enabled(), "should be false from the start");
    config.set_mixing_enabled(true);
    assert!(config.is_mixing_enabled(), "should be true after updating");
}

#[test]
fn config_set_recording_path() {
    let mut config = Config::new();
    let str = "test";
    config.set_recording_path(str);
    assert!(config.recording_path().is_ok());
    let path = config.recording_path().unwrap();

    assert!(path == str);
}

#[test]
fn new_config_has_mixing_disabled() {
    assert!(!Config::new().is_mixing_enabled());
}

#[test]
fn new_config_has_no_recording_path() {
    // What reading the path of a fresh configuration gives is left open, so
    // only the absence of a path is checked here.
    let config = Config::new();
    assert!(!config.has_recording_path());
    assert!(config.recording_path_buffer().is_none());
}

#[test]
fn mixing_flag_follows_the_last_write() {
    for first in [false, true] {
        for second in [false, true] {
            let mut config = Config::new();
            config.set_mixing_enabled(first);
            assert_eq!(config.is_mixing_enabled(), first);
            config.set_mixing_enabled(second);
            assert_eq!(config.is_mixing_enabled(), second);
            config.set_mixing_enabled(second);
            assert_eq!(config.is_mixing_enabled(), second);
        }
    }
}

#[test]
fn mixing_flag_and_path_are_independent() {
    let mut flag_first = Config::new();
    flag_first.set_mixing_enabled(true);
    flag_first.set_recording_path("/var/recordings");

    let mut path_first = Config::new();
    path_first.set_recording_path("/var/recordings");
    path_first.set_mixing_enabled(true);

    assert_eq!(flag_first.is_mixing_enabled(), path_first.is_mixing_enabled());
    assert_eq!(flag_first.recording_path(), path_first.recording_path());
    assert_eq!(flag_first.recording_path_buffer(), path_first.recording_path_buffer());
    assert!(flag_first.is_mixing_enabled());
    assert_eq!(flag_first.recording_path(), Ok("/var/recordings"));
}

#[test]
fn setting_the_path_keeps_the_flag() {
    let mut config = Config::new();
    config.set_recording_path("out");
    assert!(!config.is_mixing_enabled());
    config.set_mixing_enabled(true);
    config.set_recording_path("elsewhere");
    assert!(config.is_mixing_enabled());
}

#[test]
fn recording_path_buffer_is_the_text_and_a_zero_byte() {
    let mut config = Config::new();
    config.set_recording_path("test");
    assert!(config.has_recording_path());
    assert_eq!(config.recording_path_buffer(), Some(&b"test\0"[..]));
}

#[test]
fn empty_recording_path_round_trips() {
    let mut config = Config::new();
    config.set_recording_path("");
    assert_eq!(config.recording_path_buffer(), Some(&[0u8][..]));
    assert_eq!(config.recording_path(), Ok(""));
}

#[test]
fn recording_path_round_trips_beyond_ascii() {
    let paths = ["a", "/tmp/rec", "enregistrements/été", "録画/チャンネル", "mixed/😀/dir", " spaced out "];
    for path in paths {
        let mut config = Config::new();
        config.set_recording_path(path);
        assert_eq!(config.recording_path(), Ok(path));
    }
}

#[test]
fn recording_path_is_replaced_by_a_later_write() {
    let mut config = Config::new();
    config.set_recording_path("first/and/longer");
    config.set_recording_path("second");
    assert_eq!(config.recording_path(), Ok("second"));
    assert_eq!(config.recording_path_buffer(), Some(&b"second\0"[..]));
}

#[test]
fn raw_parts_are_kept_as_given() {
    let config = Config::from_raw_parts(true, Some(b"dir\0".to_vec())).unwrap();
    assert!(config.is_mixing_enabled());
    assert!(config.has_recording_path());
    assert_eq!(config.recording_path_buffer(), Some(&b"dir\0"[..]));
    assert_eq!(config.recording_path(), Ok("dir"));

    let bare = Config::from_raw_parts(false, None).unwrap();
    assert!(!bare.is_mixing_enabled());
    assert!(!bare.has_recording_path());
}

#[test]
fn raw_path_is_read_up_to_its_first_zero_byte() {
    let config = Config::from_raw_parts(false, Some(b"ab\0cd\0".to_vec())).unwrap();
    assert_eq!(config.recording_path(), Ok("ab"));
    assert_eq!(config.recording_path_buffer(), Some(&b"ab\0cd\0"[..]));
}

#[test]
fn raw_path_without_a_zero_byte_is_refused() {
    assert_eq!(
        Config::from_raw_parts(false, Some(b"dir".to_vec())).err(),
        Some(DecodeError::Unterminated)
    );
    assert_eq!(
        Config::from_raw_parts(true, Some(Vec::new())).err(),
        Some(DecodeError::Unterminated)
    );
}

#[test]
fn raw_path_that_is_no_text_fails_to_read() {
    let config = Config::from_raw_parts(false, Some(vec![b'a', 0xff, b'b', 0])).unwrap();
    assert_eq!(config.recording_path(), Err(DecodeError::InvalidUtf8));
    let cut = Config::from_raw_parts(false, Some(vec![0xe2, 0x82, 0])).unwrap();
    assert_eq!(cut.recording_path(), Err(DecodeError::InvalidUtf8));
}

#[test]
fn bytes_behind_the_zero_byte_are_not_read() {
    let config = Config::from_raw_parts(false, Some(vec![b'o', b'k', 0, 0xff, 0xfe])).unwrap();
    assert_eq!(config.recording_path(), Ok("ok"));
}
