//! The session handshake, on both ends.
//!
//! Client → host: `Hello` (the client's codecs); host → client: `Welcome`
//! (display size and the chosen codec).  Client → host: `CryptoHandshake`
//! (its public key); host → client: `CryptoHandshakeAck` (the host's).  Both
//! ends then key their session cipher from the exchange.  The client sends
//! an encrypted `LoginRequest` and the host decides: it answers with a
//! `LoginResponse`, which succeeds when the host has no password or the
//! client gave it.  The caller does the socket I/O and feeds each
//! received message to `step`, which says what to send next.
use vstd::prelude::*;

use crate::client::{ClientState, ClientStateView, ConnectionState};
use crate::codec::{CompressionType, supported_codecs, spec_supported_codecs};
use crate::crypto::{
    KeyExchange, Role, SessionCipher, box_beforenm, session_cipher_for, spec_symmetric_key,
};
use crate::error::{Error, join_message};
use crate::host::{HostState, spec_login_response, spec_selected_codec};

verus! {

/// A handshake message, as either end receives it.
pub enum HandshakeMessage {
    Hello { codecs: Vec<CompressionType> },
    Welcome { width: u32, height: u32, codec: CompressionType },
    CryptoHandshake { public_key: [u8; 32] },
    CryptoHandshakeAck { public_key: [u8; 32] },
    LoginRequest { password: String },
    LoginResponse { success: bool, message: String },
    /// Any other message, or a message that could not be read.
    Other,
    /// The peer closed the connection.
    Closed,
}

/// Why a handshake failed.
#[derive(Debug, Clone, PartialEq, Eq)]
pub enum HandshakeError {
    ExpectedHello,
    ExpectedWelcome,
    ExpectedCryptoHandshake,
    ExpectedCryptoHandshakeAck,
    ExpectedLoginResponse,
    /// The host refused the client's login, with this message.
    AuthenticationFailed(String),
    /// The host refused a login attempt.
    LoginRefused,
}

/// The message of the error that a failed handshake yields; `got` is how
/// the unexpected message prints (`{:?}`).
pub open spec fn spec_handshake_error_message(e: HandshakeError, got: Seq<char>) -> Seq<char> {
    match e {
        HandshakeError::ExpectedHello => "Expected Hello, got: "@ + got,
        HandshakeError::ExpectedWelcome => "Expected Welcome, got: "@ + got,
        HandshakeError::ExpectedCryptoHandshake => "Expected CryptoHandshake, got: "@ + got,
        HandshakeError::ExpectedCryptoHandshakeAck => "Expected CryptoHandshakeAck, got: "@ + got,
        HandshakeError::ExpectedLoginResponse => "Expected LoginResponse, got: "@ + got,
        HandshakeError::AuthenticationFailed(m) => "Authentication failed: "@ + m@,
        HandshakeError::LoginRefused => "Authentication failed"@,
    }
}

/// The network error for a failed handshake.
pub fn handshake_error(e: HandshakeError, got: &str) -> (res: Error)
    ensures
        res matches Error::Network(m) && m@ == spec_handshake_error_message(e, got@),
{
    proof {
        reveal_strlit("Expected Hello, got: ");
        reveal_strlit("Expected Welcome, got: ");
        reveal_strlit("Expected CryptoHandshake, got: ");
        reveal_strlit("Expected CryptoHandshakeAck, got: ");
        reveal_strlit("Expected LoginResponse, got: ");
        reveal_strlit("Authentication failed: ");
        reveal_strlit("Authentication failed");
    }
    let m = match e {
        HandshakeError::ExpectedHello => join_message("Expected Hello, got: ", got),
        HandshakeError::ExpectedWelcome => join_message("Expected Welcome, got: ", got),
        HandshakeError::ExpectedCryptoHandshake => join_message("Expected CryptoHandshake, got: ", got),
        HandshakeError::ExpectedCryptoHandshakeAck => join_message("Expected CryptoHandshakeAck, got: ", got),
        HandshakeError::ExpectedLoginResponse => join_message("Expected LoginResponse, got: ", got),
        HandshakeError::AuthenticationFailed(m) => join_message("Authentication failed: ", m.as_str()),
        HandshakeError::LoginRefused => String::from_str("Authentication failed"),
    };
    Error::Network(m)
}

// ── Client ───────────────────────────────────────────────

/// Where the client's handshake stands.
#[derive(Debug, Clone, Copy, PartialEq, Eq, Structural)]
pub enum ClientPhase {
    AwaitWelcome,
    AwaitKeyAck,
    AwaitLoginResponse,
    Done,
    Failed,
}

/// What the client sends next.
pub enum ClientSend {
    /// Send `CryptoHandshake` with this public key.
    CryptoHandshake([u8; 32]),
    /// Send an encrypted `LoginRequest` with this password, using `cipher`
    /// (which is the session's cipher from now on).
    Login { password: String, cipher: SessionCipher },
    /// The session is established.
    Established,
}

/// The client's handshake.
pub struct ClientHandshake {
    phase: ClientPhase,
    password: String,
    kx: Option<KeyExchange>,
}

impl ClientHandshake {
    /// The current phase.
    pub closed spec fn spec_phase(&self) -> ClientPhase {
        self.phase
    }

    /// The password the client logs in with.
    pub closed spec fn spec_password(&self) -> Seq<char> {
        self.password@
    }

    /// The client's key pair, once generated.
    pub closed spec fn spec_kx(&self) -> Option<KeyExchange> {
        self.kx
    }

    /// The key pair is well formed.
    pub closed spec fn wf(&self) -> bool {
        self.kx matches Some(k) ==> k.wf()
    }

    /// A handshake that logs in with `password` (empty when `None`).
    pub fn new(password: Option<&str>) -> (res: Self)
        ensures
            res.wf(),
            res.spec_phase() == ClientPhase::AwaitWelcome,
            res.spec_password() == match password {
                Some(p) => p@,
                None => Seq::<char>::empty(),
            },
            res.spec_kx() is None,
    {
        ClientHandshake { phase: ClientPhase::AwaitWelcome, password: crate::client::login_password(password), kx: None }
    }

    /// The codecs announced in the client's `Hello`.
    pub fn hello_codecs(&self) -> (res: Vec<CompressionType>)
        ensures
            res@ == spec_supported_codecs(),
    {
        supported_codecs()
    }

    /// Handles the host's next handshake message.
    pub fn step(&mut self, state: &mut ClientState, msg: HandshakeMessage) -> (res: Result<ClientSend, HandshakeError>)
        requires
            old(self).wf(),
            old(state).wf(),
            old(self).spec_phase() == ClientPhase::AwaitWelcome || old(self).spec_phase() == ClientPhase::AwaitKeyAck
                || old(self).spec_phase() == ClientPhase::AwaitLoginResponse,
            old(self).spec_phase() == ClientPhase::AwaitKeyAck ==> old(self).spec_kx() is Some,
        ensures
            final(self).wf(),
            final(state).wf(),
            final(self).spec_password() == old(self).spec_password(),
            old(self).spec_phase() == ClientPhase::AwaitWelcome ==> match msg {
                HandshakeMessage::Welcome { width, height, .. } => {
                    &&& final(self).spec_phase() == ClientPhase::AwaitKeyAck
                    &&& final(self).spec_kx() is Some
                    &&& final(self).spec_kx()->Some_0.wf()
                    &&& res is Ok
                    &&& res->Ok_0 is CryptoHandshake
                    &&& res->Ok_0->CryptoHandshake_0@ == final(self).spec_kx()->Some_0.spec_public()
                    &&& final(state)@ == (ClientStateView {
                        display_size: Some((width, height)),
                        ..old(state)@
                    })
                },
                _ => res == Err::<ClientSend, HandshakeError>(HandshakeError::ExpectedWelcome)
                    && final(self).spec_phase() == ClientPhase::Failed && final(state)@ == old(state)@,
            },
            old(self).spec_phase() == ClientPhase::AwaitKeyAck ==> final(self).spec_kx() == old(self).spec_kx()
                && final(state)@ == old(state)@ && match msg {
                HandshakeMessage::CryptoHandshakeAck { public_key } => {
                    let k = old(self).spec_kx()->Some_0;
                    &&& final(self).spec_phase() == ClientPhase::AwaitLoginResponse
                    &&& res matches Ok(ClientSend::Login { password, cipher })
                    &&& password@ == old(self).spec_password()
                    &&& cipher.spec_key() == spec_symmetric_key(box_beforenm(public_key@, k.spec_secret()))
                    &&& cipher.spec_send_nonce() == 0 && cipher.spec_recv_nonce() == 0
                    &&& cipher.spec_role() == Role::Client
                    &&& forall|q: KeyExchange|
                        q.wf() && q.spec_public() == public_key@ ==> cipher.spec_key() == spec_symmetric_key(
                            box_beforenm(k.spec_public(), #[trigger] q.spec_secret()),
                        )
                },
                _ => res == Err::<ClientSend, HandshakeError>(HandshakeError::ExpectedCryptoHandshakeAck)
                    && final(self).spec_phase() == ClientPhase::Failed,
            },
            old(self).spec_phase() == ClientPhase::AwaitLoginResponse ==> final(self).spec_kx() == old(
                self,
            ).spec_kx() && match msg {
                HandshakeMessage::LoginResponse { success, message } => if success {
                    &&& res matches Ok(ClientSend::Established)
                    &&& final(self).spec_phase() == ClientPhase::Done
                    &&& final(state)@ == (match old(state)@.display_size {
                        Some((w, h)) => ClientStateView {
                            state: ConnectionState::Connected { width: w, height: h },
                            ..old(state)@
                        },
                        None => old(state)@,
                    })
                } else {
                    &&& res == Err::<ClientSend, HandshakeError>(HandshakeError::AuthenticationFailed(message))
                    &&& final(self).spec_phase() == ClientPhase::Failed
                    &&& final(state)@ == old(state)@
                },
                _ => res == Err::<ClientSend, HandshakeError>(HandshakeError::ExpectedLoginResponse)
                    && final(self).spec_phase() == ClientPhase::Failed && final(state)@ == old(state)@,
            },
    {
        match self.phase {
            ClientPhase::AwaitWelcome => {
                match msg {
                    HandshakeMessage::Welcome { width, height, codec: _ } => {
                        state.on_welcome(width, height);
                        let kx = KeyExchange::generate();
                        let pk = kx.public_key_bytes();
                        self.kx = Some(kx);
                        self.phase = ClientPhase::AwaitKeyAck;
                        Ok(ClientSend::CryptoHandshake(pk))
                    },
                    _ => {
                        self.phase = ClientPhase::Failed;
                        Err(HandshakeError::ExpectedWelcome)
                    },
                }
            },
            ClientPhase::AwaitKeyAck => {
                match msg {
                    HandshakeMessage::CryptoHandshakeAck { public_key } => {
                        let cipher = match &self.kx {
                            Some(kx) => session_cipher_for(kx, &public_key, Role::Client),
                            None => {
                                proof {
                                    assert(false);
                                }
                                return Err(HandshakeError::ExpectedCryptoHandshakeAck);
                            },
                        };
                        self.phase = ClientPhase::AwaitLoginResponse;
                        Ok(ClientSend::Login { password: self.password.clone(), cipher })
                    },
                    _ => {
                        self.phase = ClientPhase::Failed;
                        Err(HandshakeError::ExpectedCryptoHandshakeAck)
                    },
                }
            },
            _ => {
                match msg {
                    HandshakeMessage::LoginResponse { success, message } => {
                        if success {
                            state.mark_connected();
                            self.phase = ClientPhase::Done;
                            Ok(ClientSend::Established)
                        } else {
                            self.phase = ClientPhase::Failed;
                            Err(HandshakeError::AuthenticationFailed(message))
                        }
                    },
                    _ => {
                        self.phase = ClientPhase::Failed;
                        Err(HandshakeError::ExpectedLoginResponse)
                    },
                }
            },
        }
    }
}

// ── Host ─────────────────────────────────────────────────

/// Where the host's handshake stands.
#[derive(Debug, Clone, Copy, PartialEq, Eq, Structural)]
pub enum HostPhase {
    AwaitHello,
    AwaitCryptoHandshake,
    AwaitLogin,
    Streaming,
    Failed,
}

/// What the host sends next.
pub enum HostSend {
    /// Send `Welcome` announcing this codec.
    Welcome(CompressionType),
    /// Send `CryptoHandshakeAck` with this public key; `cipher` is the
    /// session's cipher from now on.
    KeyAck { public_key: [u8; 32], cipher: SessionCipher },
    /// Send an encrypted `LoginResponse`.  When `success` is false the host
    /// then ends the session.
    LoginResponse { success: bool, message: String },
}

/// The host's phase after a message: a valid message moves it on, any
/// other fails the handshake; the login step moves it to streaming exactly
/// when the host has no password or the client gives it.
pub open spec fn spec_host_next(phase: HostPhase, password: Option<Seq<char>>, msg: HandshakeMessage) -> HostPhase {
    match phase {
        HostPhase::AwaitHello => match msg {
            HandshakeMessage::Hello { .. } => HostPhase::AwaitCryptoHandshake,
            _ => HostPhase::Failed,
        },
        HostPhase::AwaitCryptoHandshake => match msg {
            HandshakeMessage::CryptoHandshake { .. } => HostPhase::AwaitLogin,
            _ => HostPhase::Failed,
        },
        HostPhase::AwaitLogin => {
            let attempt = match msg {
                HandshakeMessage::LoginRequest { password: p } => Some(p@),
                _ => None,
            };
            if spec_login_response(password, attempt).0 {
                HostPhase::Streaming
            } else {
                HostPhase::Failed
            }
        },
        _ => phase,
    }
}

/// The host's handshake.
pub struct HostHandshake {
    phase: HostPhase,
}

impl HostHandshake {
    /// The current phase.
    pub closed spec fn spec_phase(&self) -> HostPhase {
        self.phase
    }

    /// A handshake waiting for the client's `Hello`.
    pub fn new() -> (res: Self)
        ensures
            res.spec_phase() == HostPhase::AwaitHello,
    {
        HostHandshake { phase: HostPhase::AwaitHello }
    }

    /// The current phase.
    pub fn phase(&self) -> (res: HostPhase)
        ensures
            res == self.spec_phase(),
    {
        self.phase
    }

    /// Handles the client's next handshake message.
    pub fn step(&mut self, host: &mut HostState, msg: HandshakeMessage) -> (res: Result<HostSend, HandshakeError>)
        requires
            old(self).spec_phase() == HostPhase::AwaitHello || old(self).spec_phase()
                == HostPhase::AwaitCryptoHandshake || old(self).spec_phase() == HostPhase::AwaitLogin,
        ensures
            final(self).spec_phase() == spec_host_next(old(self).spec_phase(), old(host).spec_password(), msg),
            final(host).spec_password() == old(host).spec_password(),
            final(host).spec_port() == old(host).spec_port(),
            final(host).spec_fps() == old(host).spec_fps(),
            final(host).spec_quality() == old(host).spec_quality(),
            old(self).spec_phase() == HostPhase::AwaitHello ==> match msg {
                HandshakeMessage::Hello { codecs } => {
                    &&& res matches Ok(HostSend::Welcome(c)) && c == spec_selected_codec(codecs@)
                    &&& final(host).spec_encoder().spec_codec() == spec_selected_codec(codecs@)
                    &&& final(host).spec_encoder().spec_sequence() == 0
                },
                _ => res == Err::<HostSend, HandshakeError>(HandshakeError::ExpectedHello),
            },
            old(self).spec_phase() == HostPhase::AwaitCryptoHandshake ==> final(host).spec_encoder() == old(
                host,
            ).spec_encoder() && match msg {
                HandshakeMessage::CryptoHandshake { public_key: client_pk } => exists|k: KeyExchange|
                    #![trigger k.spec_secret()]
                    {
                        &&& k.wf()
                        &&& res matches Ok(HostSend::KeyAck { public_key, cipher })
                        &&& public_key@ == k.spec_public()
                        &&& cipher.spec_key() == spec_symmetric_key(box_beforenm(client_pk@, k.spec_secret()))
                        &&& cipher.spec_send_nonce() == 0 && cipher.spec_recv_nonce() == 0
                        &&& cipher.spec_role() == Role::Host
                        &&& forall|q: KeyExchange|
                            q.wf() && q.spec_public() == client_pk@ ==> cipher.spec_key() == spec_symmetric_key(
                                box_beforenm(k.spec_public(), #[trigger] q.spec_secret()),
                            )
                    },
                _ => res == Err::<HostSend, HandshakeError>(HandshakeError::ExpectedCryptoHandshake),
            },
            old(self).spec_phase() == HostPhase::AwaitLogin ==> final(host).spec_encoder() == old(host).spec_encoder()
                && ({
                let attempt = match msg {
                    HandshakeMessage::LoginRequest { password } => Some(password@),
                    _ => None,
                };
                let (ok, m) = spec_login_response(old(host).spec_password(), attempt);
                res matches Ok(HostSend::LoginResponse { success, message }) && success == ok && message@ == m
            }),
    {
        match self.phase {
            HostPhase::AwaitHello => {
                match msg {
                    HandshakeMessage::Hello { codecs } => {
                        let c = host.on_hello(codecs.as_slice());
                        self.phase = HostPhase::AwaitCryptoHandshake;
                        Ok(HostSend::Welcome(c))
                    },
                    _ => {
                        self.phase = HostPhase::Failed;
                        Err(HandshakeError::ExpectedHello)
                    },
                }
            },
            HostPhase::AwaitCryptoHandshake => {
                match msg {
                    HandshakeMessage::CryptoHandshake { public_key } => {
                        let kx = KeyExchange::generate();
                        let cipher = session_cipher_for(&kx, &public_key, Role::Host);
                        let pk = kx.public_key_bytes();
                        self.phase = HostPhase::AwaitLogin;
                        let res = HostSend::KeyAck { public_key: pk, cipher };
                        Ok(res)
                    },
                    _ => {
                        self.phase = HostPhase::Failed;
                        Err(HandshakeError::ExpectedCryptoHandshake)
                    },
                }
            },
            _ => {
                let (ok, message) = match &msg {
                    HandshakeMessage::LoginRequest { password } => host.check_login(Some(password)),
                    _ => host.check_login(None),
                };
                self.phase = if ok {
                    HostPhase::Streaming
                } else {
                    HostPhase::Failed
                };
                Ok(HostSend::LoginResponse { success: ok, message })
            },
        }
    }
}

/// A client that sends `Hello`, then `CryptoHandshake`, then a login with
/// password `p` reaches streaming exactly when the host has no password or
/// `p` is the host's password; any message out of order fails the
/// handshake.
pub proof fn law_host_handshake_admission(
    password: Option<Seq<char>>,
    hello: HandshakeMessage,
    key: HandshakeMessage,
    login: HandshakeMessage,
    p: Seq<char>,
)
    requires
        hello is Hello,
        key is CryptoHandshake,
        login matches HandshakeMessage::LoginRequest { password: lp } && lp@ == p,
    ensures
        ({
            let s1 = spec_host_next(HostPhase::AwaitHello, password, hello);
            let s2 = spec_host_next(s1, password, key);
            &&& s1 == HostPhase::AwaitCryptoHandshake
            &&& s2 == HostPhase::AwaitLogin
            &&& password is None ==> spec_host_next(s2, password, login) == HostPhase::Streaming
            &&& password matches Some(pw) ==> (spec_host_next(s2, password, login) == HostPhase::Streaming
                <==> p == pw)
        }),
        forall|m: HandshakeMessage| !(m is Hello) ==> spec_host_next(HostPhase::AwaitHello, password, m) == HostPhase::Failed,
        forall|m: HandshakeMessage|
            !(m is CryptoHandshake) ==> spec_host_next(HostPhase::AwaitCryptoHandshake, password, m) == HostPhase::Failed,
{
}

} // verus!
