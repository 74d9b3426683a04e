use remotedesk::error::Error;
use remotedesk::audio::{check_frame_len, AudioError, SAMPLES_PER_FRAME};
use remotedesk::config::{Config, Permissions};
use remotedesk::input::{
    key_event_bytes, keycode_to_key, mouse_button_from_code, pointer_kind, AndroidInputSimulator, Key, MouseButton,
};
use remotedesk::proto::{KeyEvent, MouseEventType};
use remotedesk::text::{decimal, hex4};

#[test]
fn config_defaults() {
    let c = Config::default();
    assert_eq!(c.id, "");
    assert_eq!(c.video.max_fps, 30);
    assert_eq!(c.video.codec, "h264");
    assert_eq!(c.video.quality, 75);
    assert_eq!(c.video.bitrate, 5000);
    assert!(c.security.password.is_none());
    assert_eq!(
        c.security.permissions,
        Permissions { keyboard: true, mouse: true, clipboard: true, file_transfer: true, audio: false }
    );
}

#[test]
fn generated_peer_id_shape() {
    let mut c = Config::default();
    c.generate_id();
    assert_eq!(c.id.len(), 15);
    assert!(c.id.starts_with("rd-"));
    assert!(c.id[3..].chars().all(|ch| ch.is_ascii_alphanumeric()));
    let first = c.id.clone();
    c.generate_id();
    assert_ne!(first, c.id);
}

#[test]
fn key_mapping() {
    assert_eq!(keycode_to_key(0x41), Key::Layout('A'));
    assert_eq!(keycode_to_key(0x39), Key::Layout('9'));
    assert_eq!(keycode_to_key(0x70), Key::F1);
    assert_eq!(keycode_to_key(0x7B), Key::F12);
    assert_eq!(keycode_to_key(0x0D), Key::Return);
    assert_eq!(keycode_to_key(0x5B), Key::Meta);
    assert_eq!(keycode_to_key(0x1_00AD), Key::Raw(0xAD));
    assert_eq!(mouse_button_from_code(2), MouseButton::Right);
    assert_eq!(mouse_button_from_code(4), MouseButton::Middle);
    assert_eq!(mouse_button_from_code(3), MouseButton::Left);
}

#[test]
fn android_bridge_encoding() {
    let e = KeyEvent { down: true, keycode: 0x41, scancode: 0x1E, modifiers: 0x0102 };
    assert_eq!(key_event_bytes(&e), vec![1, 0x41, 0, 0, 0, 0x1E, 0, 0, 0, 2, 1, 0, 0]);
    assert_eq!(pointer_kind(MouseEventType::ButtonDown), "down");
    let mut sim = AndroidInputSimulator::new();
    assert_eq!(sim.get_clipboard().unwrap(), "");
    assert!(sim.set_clipboard("x").is_ok());
}

#[test]
fn audio_frame_length_check() {
    assert!(check_frame_len(SAMPLES_PER_FRAME * 2).is_ok());
    assert_eq!(
        check_frame_len(5),
        Err(AudioError::Codec("Expected 960 samples, got 5".to_string()))
    );
}

#[test]
fn number_rendering() {
    assert_eq!(decimal(0), "0");
    assert_eq!(decimal(1234567890), "1234567890");
    assert_eq!(hex4(0x0a1f), "0a1f");
}

#[test]
fn error_display_text() {
    assert_eq!(Error::Network("boom".to_string()).to_string(), "Network error: boom");
    assert_eq!(Error::Io("disk".to_string()).to_string(), "I/O error: disk");
    assert_eq!(Error::Config("bad".to_string()).to_string(), "Configuration error: bad");
    assert_eq!(Error::NotImplemented("x".to_string()).to_string(), "Not implemented: x");
    assert_eq!(Error::Other("plain".to_string()).to_string(), "plain");
}

#[test]
fn audio_error_display_text() {
    assert_eq!(AudioError::Codec("bad".to_string()).to_string(), "Codec error: bad");
    assert_eq!(AudioError::Buffer("full".to_string()).to_string(), "Buffer error: full");
}

#[test]
fn config_path_components() {
    assert_eq!(
        Config::config_path(Some("/home/u/.config".to_string())),
        vec!["/home/u/.config".to_string(), "RemoteDesk".to_string(), "config.toml".to_string()]
    );
    assert_eq!(Config::config_dir(None), vec![".".to_string(), "RemoteDesk".to_string()]);
}
