//! Host side of a session: the handshake decisions, the settings the client
//! may change, and the decision taken for each message from the client.
//!
//! The host's loops (screen capture, socket I/O, input injection, file
//! writes) run outside the library and consult `HostState`.
use vstd::prelude::*;

use crate::capture::Frame;
use crate::codec::{
    CompressedFrame, CompressionType, FrameEncoder, negotiate_codec, spec_negotiate, spec_supported_codecs,
    supported_codecs, zstd_encoded,
};
use crate::error::Error;
use crate::protocol::{chunk_offset, spec_chunk_offset};

verus! {

/// A decrypted message from the client, as the host's reader sees it.
pub enum HostInbound {
    KeyEvent,
    MouseEvent,
    UpdateSettings { max_fps: u32, quality: u32 },
    SwitchDisplay { display_id: usize },
    DisplayList,
    ClipboardText,
    AudioControl,
    ChatMessage,
    FileListRequest,
    FileRequest,
    FileSendOffer,
    FileSendChunk { chunk_index: u32 },
    FileSendEnd,
    FileCancel,
    Ping,
    Disconnect,
    /// The client closed the connection.
    Closed,
    /// Reading or decrypting failed.
    ReadError,
    /// Any other message.
    Other,
}

/// What the host's reader does with a message.
#[derive(Debug, Clone, Copy, PartialEq, Eq)]
pub enum HostAction {
    /// Inject the key event.
    SimulateKey,
    /// Inject the mouse event.
    SimulateMouse,
    /// Open a capturer on this display and use it from now on.
    SwitchDisplay(usize),
    /// Put the text on the clipboard.
    SetClipboard,
    /// Write the chunk's data at this byte offset of the received file.
    SaveChunk(u64),
    /// Nothing (the message is logged at most).
    Ignore,
    /// Leave the reader loop.
    Stop,
}

/// The host session's settings and encoder.
pub struct HostState {
    port: u16,
    password: Option<String>,
    fps: u32,
    quality: u32,
    encoder: FrameEncoder,
}

/// The response to a login attempt: `(authenticated, message)`.  A host
/// without a password accepts every client; one with a password accepts
/// exactly a login request that gives it.
pub open spec fn spec_login_response(expected: Option<Seq<char>>, attempt: Option<Seq<char>>) -> (bool, Seq<char>) {
    if expected is None || attempt == expected {
        (true, "Authenticated"@)
    } else {
        (false, "Invalid password"@)
    }
}

/// The codec the host picks for a client's codec list: the first of its own
/// (in order of preference) that the client supports, else zstd.
pub open spec fn spec_selected_codec(client: Seq<CompressionType>) -> CompressionType {
    match spec_negotiate(spec_supported_codecs(), client) {
        Some(c) => c,
        None => CompressionType::Zstd,
    }
}

impl HostState {
    /// The port the host listens on.
    pub closed spec fn spec_port(&self) -> u16 {
        self.port
    }

    /// The password clients must give, if any.
    pub closed spec fn spec_password(&self) -> Option<Seq<char>> {
        match self.password {
            Some(p) => Some(p@),
            None => None,
        }
    }

    /// The frame rate.
    pub closed spec fn spec_fps(&self) -> u32 {
        self.fps
    }

    /// The quality setting.
    pub closed spec fn spec_quality(&self) -> u32 {
        self.quality
    }

    /// The frame encoder.
    pub closed spec fn spec_encoder(&self) -> FrameEncoder {
        self.encoder
    }

    /// A host on `port`: no password, 15 fps, quality 75, zstd encoder.
    pub fn new(port: u16) -> (res: Self)
        ensures
            res.spec_port() == port,
            res.spec_password() is None,
            res.spec_fps() == 15,
            res.spec_quality() == 75,
            res.spec_encoder().spec_codec() == CompressionType::Zstd,
            res.spec_encoder().spec_level() == 3,
            res.spec_encoder().spec_sequence() == 0,
    {
        HostState { port, password: None, fps: 15, quality: 75, encoder: FrameEncoder::new() }
    }

    /// Set a password required for client authentication.
    pub fn set_password(&mut self, password: String)
        ensures
            final(self).spec_password() == Some(password@),
            final(self).spec_port() == old(self).spec_port(),
            final(self).spec_fps() == old(self).spec_fps(),
            final(self).spec_quality() == old(self).spec_quality(),
            final(self).spec_encoder() == old(self).spec_encoder(),
    {
        self.password = Some(password);
    }

    /// The session starts at `fps` frames per second.
    pub fn start(&mut self, fps: u32)
        ensures
            final(self).spec_fps() == fps,
            final(self).spec_password() == old(self).spec_password(),
            final(self).spec_port() == old(self).spec_port(),
            final(self).spec_quality() == old(self).spec_quality(),
            final(self).spec_encoder() == old(self).spec_encoder(),
    {
        self.fps = fps;
    }

    /// The port.
    pub fn port(&self) -> (res: u16)
        ensures
            res == self.spec_port(),
    {
        self.port
    }

    /// The frame rate.
    pub fn fps(&self) -> (res: u32)
        ensures
            res == self.spec_fps(),
    {
        self.fps
    }

    /// The quality setting.
    pub fn quality(&self) -> (res: u32)
        ensures
            res == self.spec_quality(),
    {
        self.quality
    }

    /// Whether clients must log in.
    pub fn requires_login(&self) -> (res: bool)
        ensures
            res == self.spec_password() is Some,
    {
        self.password.is_some()
    }

    /// Answers the client's `Hello`: picks the codec and starts a fresh
    /// encoder for it.
    pub fn on_hello(&mut self, client_codecs: &[CompressionType]) -> (res: CompressionType)
        ensures
            res == spec_selected_codec(client_codecs@),
            final(self).spec_encoder().spec_codec() == res,
            final(self).spec_encoder().spec_level() == 3,
            final(self).spec_encoder().spec_sequence() == 0,
            final(self).spec_password() == old(self).spec_password(),
            final(self).spec_port() == old(self).spec_port(),
            final(self).spec_fps() == old(self).spec_fps(),
            final(self).spec_quality() == old(self).spec_quality(),
    {
        let host = supported_codecs();
        let selected = match negotiate_codec(host.as_slice(), client_codecs) {
            Some(c) => c,
            None => CompressionType::Zstd,
        };
        self.encoder = FrameEncoder::new().with_codec(selected);
        selected
    }

    /// Checks a login attempt (`None` when the client sent something other
    /// than a login request) against the password:
    /// `(authenticated, message for the LoginResponse)`.  Without a
    /// password every client is accepted.
    pub fn check_login(&self, attempt: Option<&String>) -> (res: (bool, String))
        ensures
            ({
                let expected = self.spec_password();
                let a = match attempt {
                    Some(p) => Some(p@),
                    None => None,
                };
                res.0 == spec_login_response(expected, a).0 && res.1@ == spec_login_response(expected, a).1
            }),
    {
        proof {
            reveal_strlit("Authenticated");
            reveal_strlit("Invalid password");
        }
        let authenticated = match (&self.password, attempt) {
            (None, _) => true,
            (Some(expected), Some(p)) => *p == *expected,
            (Some(_), None) => false,
        };
        if authenticated {
            (true, String::from_str("Authenticated"))
        } else {
            (false, String::from_str("Invalid password"))
        }
    }

    /// Compresses a captured frame for sending (as `width` x `height`, the
    /// size the session started with).
    pub fn compress_frame(&mut self, frame: &Frame, width: u32, height: u32) -> (res: Result<CompressedFrame, Error>)
        ensures
            final(self).spec_password() == old(self).spec_password(),
            final(self).spec_port() == old(self).spec_port(),
            final(self).spec_fps() == old(self).spec_fps(),
            final(self).spec_quality() == old(self).spec_quality(),
            final(self).spec_encoder().spec_codec() == old(self).spec_encoder().spec_codec(),
            final(self).spec_encoder().spec_level() == old(self).spec_encoder().spec_level(),
            final(self).spec_encoder().spec_sequence() == (if old(self).spec_encoder().spec_sequence() == u64::MAX {
                0
            } else {
                (old(self).spec_encoder().spec_sequence() + 1) as u64
            }),
            res is Ok,
            res matches Ok(f) ==> {
                &&& f.width == width
                &&& f.height == height
                &&& f.key_frame
                &&& f.sequence == old(self).spec_encoder().spec_sequence()
                &&& if old(self).spec_encoder().spec_codec() == CompressionType::Raw {
                    f.compression == CompressionType::Raw && f.data@ == frame.data@
                } else {
                    f.compression == CompressionType::Zstd && f.data@ == zstd_encoded(
                        frame.data@,
                        old(self).spec_encoder().spec_level(),
                    )
                }
            },
    {
        self.encoder.compress(frame.data.as_slice(), width, height)
    }

    /// Handles one message on the host's reader: settings updates are
    /// applied, input and clipboard go to the injector, a display switch and
    /// received file chunks go to the caller, and a disconnect, a closed
    /// connection or a read error end the reader.
    pub fn on_message(&mut self, msg: HostInbound) -> (res: HostAction)
        ensures
            final(self).spec_password() == old(self).spec_password(),
            final(self).spec_port() == old(self).spec_port(),
            final(self).spec_encoder() == old(self).spec_encoder(),
            match msg {
                HostInbound::UpdateSettings { max_fps, quality } => res == HostAction::Ignore
                    && final(self).spec_fps() == max_fps && final(self).spec_quality() == quality,
                _ => final(self).spec_fps() == old(self).spec_fps() && final(self).spec_quality() == old(
                    self,
                ).spec_quality(),
            },
            match msg {
                HostInbound::KeyEvent => res == HostAction::SimulateKey,
                HostInbound::MouseEvent => res == HostAction::SimulateMouse,
                HostInbound::UpdateSettings { .. } => res == HostAction::Ignore,
                HostInbound::SwitchDisplay { display_id } => res == HostAction::SwitchDisplay(display_id),
                HostInbound::ClipboardText => res == HostAction::SetClipboard,
                HostInbound::FileSendChunk { chunk_index } => res == HostAction::SaveChunk(
                    spec_chunk_offset(chunk_index) as u64,
                ),
                HostInbound::Disconnect => res == HostAction::Stop,
                HostInbound::Closed => res == HostAction::Stop,
                HostInbound::ReadError => res == HostAction::Stop,
                _ => res == HostAction::Ignore,
            },
    {
        match msg {
            HostInbound::KeyEvent => HostAction::SimulateKey,
            HostInbound::MouseEvent => HostAction::SimulateMouse,
            HostInbound::UpdateSettings { max_fps, quality } => {
                self.fps = max_fps;
                self.quality = quality;
                HostAction::Ignore
            },
            HostInbound::SwitchDisplay { display_id } => HostAction::SwitchDisplay(display_id),
            HostInbound::ClipboardText => HostAction::SetClipboard,
            HostInbound::FileSendChunk { chunk_index } => HostAction::SaveChunk(chunk_offset(chunk_index)),
            HostInbound::Disconnect => HostAction::Stop,
            HostInbound::Closed => HostAction::Stop,
            HostInbound::ReadError => HostAction::Stop,
            _ => HostAction::Ignore,
        }
    }
}

/// A host without a password admits every client; a host with one admits
/// a client that gives it, and refuses any other attempt.
pub proof fn law_login_admits_exactly_the_password(expected: Option<Seq<char>>, attempt: Option<Seq<char>>)
    ensures
        expected is None ==> spec_login_response(expected, attempt).0,
        expected matches Some(pw) ==> (spec_login_response(expected, attempt).0 <==> attempt == Some(pw)),
{
}

} // verus!
