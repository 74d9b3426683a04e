use remotedesk::capture::{Capturer, Frame};
use remotedesk::client::{frame_base64, ReceivedFrame};
use remotedesk::client::{
    check_login_response, check_relay_response, login_password, relay_connect_request, ChatEntry, ClientAction,
    ClientInbound, ClientState, ConnectionState, MAX_CHAT_HISTORY,
};
use remotedesk::codec::{CompressionType, FrameEncoder};
use remotedesk::error::Error;
use remotedesk::host::{HostAction, HostInbound, HostState};
use remotedesk::status::app_status;

fn chat(i: u64) -> ChatEntry {
    ChatEntry { text: format!("m{}", i), sender: "host".to_string(), timestamp: i }
}

#[test]
fn client_connects_with_welcome_size() {
    let mut s = ClientState::new();
    assert_eq!(s.state(), ConnectionState::Disconnected);
    s.begin_connecting();
    assert_eq!(s.state(), ConnectionState::Connecting);
    s.on_welcome(800, 600);
    s.mark_connected();
    assert_eq!(s.state(), ConnectionState::Connected { width: 800, height: 600 });
    assert_eq!(s.display_size(), Some((800, 600)));
    s.end_session();
    assert_eq!(s.state(), ConnectionState::Disconnected);
}

#[test]
fn client_stores_decompressed_frames() {
    let mut s = ClientState::new();
    let mut enc = FrameEncoder::new();
    let frame = enc.compress(&[5u8; 64], 4, 4).unwrap();
    assert!(matches!(s.on_message(ClientInbound::VideoFrame(frame)), ClientAction::FrameReady));
    let f = s.latest_frame().unwrap();
    assert_eq!(f.data, vec![5u8; 64]);
    assert_eq!((f.width, f.height), (4, 4));
}

#[test]
fn chat_history_is_bounded() {
    let mut s = ClientState::new();
    for i in 0..(MAX_CHAT_HISTORY as u64 + 5) {
        s.on_message(ClientInbound::ChatMessage(chat(i)));
    }
    let h = s.chat_history();
    assert_eq!(h.len(), MAX_CHAT_HISTORY);
    assert_eq!(h[0].timestamp, 5);
    assert_eq!(h[MAX_CHAT_HISTORY - 1].text, format!("m{}", MAX_CHAT_HISTORY + 4));
}

#[test]
fn file_transfer_progress() {
    let mut s = ClientState::new();
    s.on_message(ClientInbound::FileStart { path: "a.txt".to_string(), size: 5 });
    s.on_message(ClientInbound::FileChunk { data: b"abc".to_vec() });
    s.on_message(ClientInbound::FileChunk { data: b"de".to_vec() });
    assert_eq!(s.file_progress().unwrap().received_bytes, 5);
    match s.on_message(ClientInbound::FileEnd) {
        ClientAction::SaveFile { path, data } => {
            assert_eq!(path, "a.txt");
            assert_eq!(data, b"abcde".to_vec());
        }
        _ => panic!("expected a save"),
    }
    s.finish_file(Some("disk full".to_string()));
    let p = s.file_progress().unwrap();
    assert!(p.done);
    assert_eq!(p.error.as_deref(), Some("disk full"));
    s.request_file();
    assert!(s.file_progress().is_none());
    assert!(matches!(s.on_message(ClientInbound::FileEnd), ClientAction::Continue));
}

#[test]
fn client_loop_decisions() {
    let mut s = ClientState::new();
    assert!(matches!(s.on_message(ClientInbound::Ping), ClientAction::SendPong));
    assert!(matches!(s.on_message(ClientInbound::Disconnect), ClientAction::Stop));
    match s.on_message(ClientInbound::FileSendOffer { path: "x".to_string() }) {
        ClientAction::SendFileAccept { path } => assert_eq!(path, "x"),
        _ => panic!(),
    }
    s.on_message(ClientInbound::FileListResponse(vec![]));
    assert_eq!(s.file_listing().map(|v| v.len()), Some(0));
    s.request_file_list();
    assert!(s.file_listing().is_none());
    assert!(matches!(s.on_message(ClientInbound::ReadError("boom".to_string())), ClientAction::Stop));
    assert_eq!(s.state(), ConnectionState::Error("boom".to_string()));
}

#[test]
fn client_handshake_helpers() {
    assert_eq!(login_password(None), "");
    assert_eq!(login_password(Some("pw")), "pw");
    assert!(check_login_response(true, "Authenticated").is_ok());
    assert_eq!(
        check_login_response(false, "Invalid password"),
        Err(Error::Network("Authentication failed: Invalid password".to_string()))
    );
    assert_eq!(relay_connect_request("rd-1"), "CONNECT rd-1\n");
    assert!(check_relay_response(b"CONNECT_OK paired\n").is_ok());
    assert!(check_relay_response(b"CONNECT_OK waiting\n").is_ok());
    assert_eq!(
        check_relay_response(b"CONNECT_ERR not found\n"),
        Err(Error::Network("Relay connection failed: CONNECT_ERR not found".to_string()))
    );
}

#[test]
fn host_handshake_and_settings() {
    let mut h = HostState::new(9000);
    assert_eq!((h.port(), h.fps(), h.quality()), (9000, 15, 75));
    assert!(!h.requires_login());
    h.start(30);
    assert_eq!(h.fps(), 30);
    assert_eq!(h.on_hello(&[CompressionType::Raw]), CompressionType::Raw);
    assert_eq!(h.on_hello(&[CompressionType::H264]), CompressionType::Zstd);
    h.set_password("pw".to_string());
    assert!(h.requires_login());
    let (ok, msg) = h.check_login(Some(&"pw".to_string()));
    assert!(ok);
    assert_eq!(msg, "Authenticated");
    let (ok, msg) = h.check_login(Some(&"nope".to_string()));
    assert!(!ok);
    assert_eq!(msg, "Invalid password");
    assert!(!h.check_login(None).0);
    assert_eq!(h.on_message(HostInbound::UpdateSettings { max_fps: 10, quality: 50 }), HostAction::Ignore);
    assert_eq!((h.fps(), h.quality()), (10, 50));
    assert_eq!(h.on_message(HostInbound::FileSendChunk { chunk_index: 2 }), HostAction::SaveChunk(131072));
    assert_eq!(h.on_message(HostInbound::SwitchDisplay { display_id: 1 }), HostAction::SwitchDisplay(1));
    assert_eq!(h.on_message(HostInbound::KeyEvent), HostAction::SimulateKey);
    assert_eq!(h.on_message(HostInbound::Ping), HostAction::Ignore);
    assert_eq!(h.on_message(HostInbound::Disconnect), HostAction::Stop);
}

#[test]
fn host_compresses_captured_frames() {
    let mut h = HostState::new(1);
    let frame = Frame::from_bgra(vec![1, 2, 3, 4, 5, 6, 7, 8], 2, 1, 0, 99);
    assert_eq!(frame.data, vec![3, 2, 1, 4, 7, 6, 5, 8]);
    assert_eq!(frame.stride, 8);
    let c = h.compress_frame(&frame, 2, 1).unwrap();
    assert_eq!(c.compression, CompressionType::Zstd);
    assert_eq!(c.sequence, 0);
    let mut cap = Capturer::new(2).unwrap();
    assert_eq!((cap.width(), cap.height(), cap.display_id()), (1920, 1080, 2));
    assert_eq!(cap.display_name(), "Stub Display");
    assert!(cap.capture_frame(10).unwrap().is_none());
}

#[test]
fn status_reports_modes() {
    let s = app_status(true, None);
    assert_eq!((s.mode.as_str(), s.connection_state.as_str(), s.host_port), ("host", "listening", 9000));
    let st = ConnectionState::Connected { width: 3, height: 4 };
    let s = app_status(false, Some((&st, Some((3, 4)))));
    assert_eq!((s.mode.as_str(), s.connection_state.as_str()), ("client", "connected"));
    assert_eq!((s.display_width, s.display_height), (3, 4));
    let s = app_status(false, None);
    assert_eq!((s.mode.as_str(), s.connection_state.as_str()), ("idle", "disconnected"));
}

#[test]
fn frame_base64_encodes_pixels() {
    let f = ReceivedFrame { data: b"hello".to_vec(), width: 1, height: 1 };
    assert_eq!(frame_base64(&f), "aGVsbG8=");
    let f = ReceivedFrame { data: vec![0, 0, 0, 255, 255, 255], width: 2, height: 1 };
    assert_eq!(frame_base64(&f), "AAAA////");
    let f = ReceivedFrame { data: Vec::new(), width: 0, height: 0 };
    assert_eq!(frame_base64(&f), "");
}

#[test]
fn chat_history_keeps_the_last_messages_of_a_session() {
    let mut s = ClientState::new();
    for i in 0..205u64 {
        s.on_message(ClientInbound::ChatMessage(chat(i)));
        if i % 50 == 0 {
            s.on_message(ClientInbound::Ping);
        }
        assert!(s.chat_history().len() <= MAX_CHAT_HISTORY);
    }
    let h = s.chat_history();
    assert_eq!(h.len(), 200);
    assert_eq!(h[0].timestamp, 5);
    assert_eq!(h[199].timestamp, 204);
}
