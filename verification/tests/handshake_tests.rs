use remotedesk::client::{ClientState, ConnectionState};
use remotedesk::codec::CompressionType;
use remotedesk::crypto::init;
use remotedesk::error::Error;
use remotedesk::handshake::{
    handshake_error, ClientHandshake, ClientSend, HandshakeError, HandshakeMessage, HostHandshake, HostPhase,
    HostSend,
};
use remotedesk::host::HostState;

/// Runs both ends of the handshake against each other; the client logs in
/// with `client_password`.  Returns the host's final phase, the client's
/// state and the result of the client's last step.
fn run_handshake(
    host_password: Option<&str>,
    client_password: Option<&str>,
) -> (HostPhase, ClientState, Option<Result<ClientSend, HandshakeError>>) {
    init();
    let mut host = HostState::new(9000);
    if let Some(p) = host_password {
        host.set_password(p.to_string());
    }
    let mut hh = HostHandshake::new();
    let mut client = ClientState::new();
    client.begin_connecting();
    let mut ch = ClientHandshake::new(client_password);

    let codecs = ch.hello_codecs();
    let codec = match hh.step(&mut host, HandshakeMessage::Hello { codecs }) {
        Ok(HostSend::Welcome(c)) => c,
        _ => panic!("host did not welcome"),
    };
    assert_eq!(codec, CompressionType::Zstd);
    let client_pk = match ch.step(&mut client, HandshakeMessage::Welcome { width: 1920, height: 1080, codec }) {
        Ok(ClientSend::CryptoHandshake(pk)) => pk,
        _ => panic!("client did not send its key"),
    };
    let (host_pk, mut host_cipher) = match hh.step(&mut host, HandshakeMessage::CryptoHandshake { public_key: client_pk }) {
        Ok(HostSend::KeyAck { public_key, cipher }) => (public_key, cipher),
        _ => panic!("host did not answer the key"),
    };
    let (password, mut client_cipher) =
        match ch.step(&mut client, HandshakeMessage::CryptoHandshakeAck { public_key: host_pk }) {
            Ok(ClientSend::Login { password, cipher }) => (password, cipher),
            _ => panic!("client did not log in"),
        };
    // The two ends agree on the session key.
    let sealed = client_cipher.seal_message(b"login");
    assert_eq!(host_cipher.open_message(&sealed), Ok(b"login".to_vec()));

    let (success, message) = if hh.phase() == HostPhase::AwaitLogin {
        match hh.step(&mut host, HandshakeMessage::LoginRequest { password }) {
            Ok(HostSend::LoginResponse { success, message }) => (success, message),
            _ => panic!("host did not answer the login"),
        }
    } else {
        (true, "Authenticated".to_string())
    };
    let last = ch.step(&mut client, HandshakeMessage::LoginResponse { success, message });
    (hh.phase(), client, Some(last))
}

#[test]
fn handshake_without_password_streams() {
    let (phase, client, last) = run_handshake(None, None);
    assert_eq!(phase, HostPhase::Streaming);
    assert!(matches!(last, Some(Ok(ClientSend::Established))));
    assert_eq!(client.state(), ConnectionState::Connected { width: 1920, height: 1080 });
}

#[test]
fn handshake_with_right_password_streams() {
    let (phase, client, last) = run_handshake(Some("s3cret"), Some("s3cret"));
    assert_eq!(phase, HostPhase::Streaming);
    assert!(matches!(last, Some(Ok(ClientSend::Established))));
    assert_eq!(client.display_size(), Some((1920, 1080)));
}

#[test]
fn handshake_with_wrong_password_fails() {
    let (phase, client, last) = run_handshake(Some("s3cret"), Some("guess"));
    assert_eq!(phase, HostPhase::Failed);
    match last {
        Some(Err(e)) => {
            assert_eq!(e, HandshakeError::AuthenticationFailed("Invalid password".to_string()));
            assert_eq!(
                handshake_error(e, ""),
                Error::Network("Authentication failed: Invalid password".to_string())
            );
        }
        _ => panic!("login should have failed"),
    }
    assert_eq!(client.state(), ConnectionState::Connecting);
}

#[test]
fn handshake_without_client_password_is_refused_by_protected_host() {
    let (phase, _client, _last) = run_handshake(Some("pw"), None);
    assert_eq!(phase, HostPhase::Failed);
}

#[test]
fn host_refuses_messages_out_of_order() {
    let mut host = HostState::new(1);
    let mut hh = HostHandshake::new();
    let r = hh.step(&mut host, HandshakeMessage::CryptoHandshake { public_key: [0u8; 32] });
    assert!(matches!(r, Err(HandshakeError::ExpectedHello)));
    assert_eq!(hh.phase(), HostPhase::Failed);

    let mut hh = HostHandshake::new();
    assert!(hh.step(&mut host, HandshakeMessage::Hello { codecs: vec![CompressionType::Raw] }).is_ok());
    assert_eq!(hh.phase(), HostPhase::AwaitCryptoHandshake);
    let r = hh.step(&mut host, HandshakeMessage::Closed);
    assert!(matches!(r, Err(HandshakeError::ExpectedCryptoHandshake)));
}

#[test]
fn host_picks_raw_when_client_offers_only_raw() {
    let mut host = HostState::new(1);
    let mut hh = HostHandshake::new();
    match hh.step(&mut host, HandshakeMessage::Hello { codecs: vec![CompressionType::Raw] }) {
        Ok(HostSend::Welcome(c)) => assert_eq!(c, CompressionType::Raw),
        _ => panic!("expected a welcome"),
    }
}

#[test]
fn client_refuses_a_message_other_than_welcome() {
    let mut client = ClientState::new();
    let mut ch = ClientHandshake::new(Some("pw"));
    let r = ch.step(&mut client, HandshakeMessage::Other);
    assert!(matches!(r, Err(HandshakeError::ExpectedWelcome)));
    assert_eq!(client.display_size(), None);
}

#[test]
fn handshake_error_messages() {
    assert_eq!(handshake_error(HandshakeError::ExpectedHello, "None"), Error::Network("Expected Hello, got: None".to_string()));
    assert_eq!(
        handshake_error(HandshakeError::ExpectedWelcome, "Some(Ping)"),
        Error::Network("Expected Welcome, got: Some(Ping)".to_string())
    );
    assert_eq!(
        handshake_error(HandshakeError::ExpectedCryptoHandshakeAck, "x"),
        Error::Network("Expected CryptoHandshakeAck, got: x".to_string())
    );
    assert_eq!(
        handshake_error(HandshakeError::ExpectedLoginResponse, "y"),
        Error::Network("Expected LoginResponse, got: y".to_string())
    );
    assert_eq!(handshake_error(HandshakeError::LoginRefused, ""), Error::Network("Authentication failed".to_string()));
}

#[test]
fn unprotected_host_answers_the_login() {
    init();
    let mut host = HostState::new(9000);
    let mut hh = HostHandshake::new();
    assert!(hh.step(&mut host, HandshakeMessage::Hello { codecs: vec![CompressionType::Zstd] }).is_ok());
    let client = remotedesk::crypto::KeyExchange::generate();
    assert!(hh.step(&mut host, HandshakeMessage::CryptoHandshake { public_key: client.public_key_bytes() }).is_ok());
    assert_eq!(hh.phase(), HostPhase::AwaitLogin);
    match hh.step(&mut host, HandshakeMessage::LoginRequest { password: String::new() }) {
        Ok(HostSend::LoginResponse { success, message }) => {
            assert!(success);
            assert_eq!(message, "Authenticated");
        }
        _ => panic!("expected a login response"),
    }
    assert_eq!(hh.phase(), HostPhase::Streaming);
}
