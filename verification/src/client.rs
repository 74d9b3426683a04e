//! Client side of a session: the state that the message loop keeps and the
//! decision taken for each message from the host.
//!
//! The loop itself (socket reads, decryption, file writes, audio playback)
//! runs outside the library: it hands each decrypted message to
//! `ClientState::on_message`, performs the action it gets back, and reports
//! the outcome of a file save through `ClientState::finish_file`.
use vstd::prelude::*;

use crate::codec::{CompressedFrame, FrameDecoder, spec_decompress_ok, spec_decompressed};
use crate::protocol::FileEntry;
use crate::error::{Error, join_message};
use crate::relay::{decode_utf8_lossy, spec_trim, trim, utf8_lossy};
use base64::Engine;

verus! {

/// Chat history keeps at most this many entries (the oldest go first).
pub const MAX_CHAT_HISTORY: usize = 200;

/// The latest decompressed frame.
#[derive(Debug, Clone)]
pub struct ReceivedFrame {
    pub data: Vec<u8>,
    pub width: u32,
    pub height: u32,
}

/// The state of the connection to the host.
#[derive(Debug, Clone, PartialEq, Eq)]
pub enum ConnectionState {
    Disconnected,
    Connecting,
    Connected { width: u32, height: u32 },
    Error(String),
}

/// A chat message stored for the UI.
#[derive(Debug, Clone)]
pub struct ChatEntry {
    pub text: String,
    pub sender: String,
    pub timestamp: u64,
}

/// File transfer progress.
#[derive(Debug, Clone)]
pub struct FileTransferProgress {
    pub path: String,
    pub total_size: u64,
    pub received_bytes: u64,
    pub done: bool,
    pub error: Option<String>,
}

/// A decrypted message from the host, as the client's loop sees it.
pub enum ClientInbound {
    VideoFrame(CompressedFrame),
    ChatMessage(ChatEntry),
    FileListResponse(Vec<FileEntry>),
    FileStart { path: String, size: u64 },
    FileChunk { data: Vec<u8> },
    FileEnd,
    FileSendOffer { path: String },
    /// The host's display list (kept by the caller).
    DisplayList,
    /// An encoded audio frame (decoded and played by the caller).
    AudioFrame,
    Ping,
    Disconnect,
    /// The host closed the connection.
    Closed,
    /// A message that the client does not act on.
    Other,
    /// Reading or decrypting failed, with this message.
    ReadError(String),
}

/// What the caller does after a message.
#[derive(Debug, Clone)]
pub enum ClientAction {
    /// Nothing more.
    Continue,
    /// A new frame is stored: notify the frame listeners.
    FrameReady,
    /// Write `data` to the file named by `path` in the downloads folder, then
    /// report the outcome with `finish_file`.
    SaveFile { path: String, data: Vec<u8> },
    /// Accept the host's file offer for `path`.
    SendFileAccept { path: String },
    /// Store the display list.
    StoreDisplays,
    /// Decode and play the audio frame.
    PlayAudio,
    /// Answer with a `Pong`.
    SendPong,
    /// Leave the message loop (then call `end_session`).
    Stop,
}

/// The client's session state.
pub struct ClientState {
    state: ConnectionState,
    display_size: Option<(u32, u32)>,
    latest_frame: Option<ReceivedFrame>,
    chat_history: Vec<ChatEntry>,
    file_listing: Option<Vec<FileEntry>>,
    file_progress: Option<FileTransferProgress>,
    file_buffer: Vec<u8>,
}

/// The state as a value.
pub struct ClientStateView {
    pub state: ConnectionState,
    pub display_size: Option<(u32, u32)>,
    pub latest_frame: Option<ReceivedFrame>,
    pub chat_history: Seq<ChatEntry>,
    pub file_listing: Option<Seq<FileEntry>>,
    pub file_progress: Option<FileTransferProgress>,
    pub file_buffer: Seq<u8>,
}

impl View for ClientState {
    type V = ClientStateView;

    closed spec fn view(&self) -> ClientStateView {
        ClientStateView {
            state: self.state,
            display_size: self.display_size,
            latest_frame: self.latest_frame,
            chat_history: self.chat_history@,
            file_listing: match self.file_listing {
                Some(v) => Some(v@),
                None => None,
            },
            file_progress: self.file_progress,
            file_buffer: self.file_buffer@,
        }
    }
}

/// `history` with `entry` appended, dropping the oldest entry when that
/// makes it longer than `MAX_CHAT_HISTORY`.
pub open spec fn spec_push_chat(history: Seq<ChatEntry>, entry: ChatEntry) -> Seq<ChatEntry> {
    if history.len() + 1 > MAX_CHAT_HISTORY {
        history.push(entry).drop_first()
    } else {
        history.push(entry)
    }
}

/// The file progress after `n` more bytes arrived.
pub open spec fn spec_add_received(p: Option<FileTransferProgress>, n: nat) -> Option<FileTransferProgress> {
    match p {
        Some(p) => Some(FileTransferProgress { received_bytes: (p.received_bytes + n) as u64, ..p }),
        None => None,
    }
}

impl ClientState {
    /// The chat history never exceeds its bound.
    pub open spec fn wf(&self) -> bool {
        self@.chat_history.len() <= MAX_CHAT_HISTORY
    }

    /// A disconnected session with nothing received.
    pub fn new() -> (res: Self)
        ensures
            res.wf(),
            res@.state == ConnectionState::Disconnected,
            res@.display_size is None,
            res@.latest_frame is None,
            res@.chat_history == Seq::<ChatEntry>::empty(),
            res@.file_listing is None,
            res@.file_progress is None,
            res@.file_buffer == Seq::<u8>::empty(),
    {
        ClientState {
            state: ConnectionState::Disconnected,
            display_size: None,
            latest_frame: None,
            chat_history: Vec::new(),
            file_listing: None,
            file_progress: None,
            file_buffer: Vec::new(),
        }
    }

    /// A connection attempt starts.
    pub fn begin_connecting(&mut self)
        requires
            old(self).wf(),
        ensures
            final(self).wf(),
            final(self)@ == (ClientStateView { state: ConnectionState::Connecting, ..old(self)@ }),
    {
        self.state = ConnectionState::Connecting;
    }

    /// The host's `Welcome` gave its display size.
    pub fn on_welcome(&mut self, width: u32, height: u32)
        requires
            old(self).wf(),
        ensures
            final(self).wf(),
            final(self)@ == (ClientStateView { display_size: Some((width, height)), ..old(self)@ }),
    {
        self.display_size = Some((width, height));
    }

    /// The handshake is complete: the session is connected at the display
    /// size that the host announced (if it announced one).
    pub fn mark_connected(&mut self)
        requires
            old(self).wf(),
        ensures
            final(self).wf(),
            final(self)@ == (match old(self)@.display_size {
                Some((w, h)) => ClientStateView {
                    state: ConnectionState::Connected { width: w, height: h },
                    ..old(self)@
                },
                None => old(self)@,
            }),
    {
        if let Some((w, h)) = self.display_size {
            self.state = ConnectionState::Connected { width: w, height: h };
        }
    }

    /// Handles one message from the host.
    pub fn on_message(&mut self, msg: ClientInbound) -> (res: ClientAction)
        requires
            old(self).wf(),
            msg matches ClientInbound::FileChunk { data } ==> (old(self)@.file_progress matches Some(p)
                ==> p.received_bytes + data@.len() <= u64::MAX),
        ensures
            final(self).wf(),
            match msg {
                ClientInbound::VideoFrame(frame) => (res is FrameReady <==> spec_decompressed(frame) is Some) && match res {
                    ClientAction::FrameReady => final(self)@.latest_frame matches Some(f) && f.data@
                        == spec_decompressed(frame)->Some_0 && spec_decompress_ok(frame, f.data@) && f.width
                        == frame.width && f.height == frame.height && final(self)@ == (ClientStateView {
                        latest_frame: final(self)@.latest_frame,
                        ..old(self)@
                    }),
                    ClientAction::Continue => final(self)@ == old(self)@,
                    _ => false,
                },
                ClientInbound::ChatMessage(entry) => res is Continue && final(self)@ == (ClientStateView {
                    chat_history: spec_push_chat(old(self)@.chat_history, entry),
                    ..old(self)@
                }),
                ClientInbound::FileListResponse(entries) => res is Continue && final(self)@ == (
                ClientStateView { file_listing: Some(entries@), ..old(self)@ }),
                ClientInbound::FileStart { path, size } => res is Continue && final(self)@ == (
                ClientStateView {
                    file_progress: Some(
                        FileTransferProgress {
                            path,
                            total_size: size,
                            received_bytes: 0,
                            done: false,
                            error: None,
                        },
                    ),
                    file_buffer: Seq::empty(),
                    ..old(self)@
                }),
                ClientInbound::FileChunk { data } => res is Continue && final(self)@ == (ClientStateView {
                    file_buffer: old(self)@.file_buffer + data@,
                    file_progress: spec_add_received(old(self)@.file_progress, data@.len()),
                    ..old(self)@
                }),
                ClientInbound::FileEnd => final(self)@ == old(self)@ && match old(self)@.file_progress {
                    Some(p) => res matches ClientAction::SaveFile { path, data } && path@ == p.path@
                        && data@ == old(self)@.file_buffer,
                    None => res is Continue,
                },
                ClientInbound::FileSendOffer { path } => final(self)@ == old(self)@ && (
                res matches ClientAction::SendFileAccept { path: p } && p@ == path@),
                ClientInbound::DisplayList => final(self)@ == old(self)@ && res is StoreDisplays,
                ClientInbound::AudioFrame => final(self)@ == old(self)@ && res is PlayAudio,
                ClientInbound::Ping => final(self)@ == old(self)@ && res is SendPong,
                ClientInbound::Disconnect => final(self)@ == old(self)@ && res is Stop,
                ClientInbound::Closed => final(self)@ == old(self)@ && res is Stop,
                ClientInbound::Other => final(self)@ == old(self)@ && res is Continue,
                ClientInbound::ReadError(m) => res is Stop && final(self)@ == (ClientStateView {
                    state: ConnectionState::Error(m),
                    ..old(self)@
                }),
            },
    {
        match msg {
            ClientInbound::VideoFrame(frame) => {
                let mut decoder = FrameDecoder::new();
                match decoder.decompress(&frame) {
                    Ok(data) => {
                        self.latest_frame = Some(ReceivedFrame { data, width: frame.width, height: frame.height });
                        ClientAction::FrameReady
                    },
                    Err(_) => ClientAction::Continue,
                }
            },
            ClientInbound::ChatMessage(entry) => {
                self.chat_history.push(entry);
                if self.chat_history.len() > MAX_CHAT_HISTORY {
                    self.chat_history.remove(0);
                }
                ClientAction::Continue
            },
            ClientInbound::FileListResponse(entries) => {
                self.file_listing = Some(entries);
                ClientAction::Continue
            },
            ClientInbound::FileStart { path, size } => {
                self.file_progress = Some(
                    FileTransferProgress { path, total_size: size, received_bytes: 0, done: false, error: None },
                );
                self.file_buffer = Vec::new();
                ClientAction::Continue
            },
            ClientInbound::FileChunk { data } => {
                crate::bytes::push_all(&mut self.file_buffer, data.as_slice());
                let n = data.len() as u64;
                match self.file_progress.take() {
                    Some(mut p) => {
                        p.received_bytes = p.received_bytes + n;
                        self.file_progress = Some(p);
                    },
                    None => {},
                }
                ClientAction::Continue
            },
            ClientInbound::FileEnd => {
                match &self.file_progress {
                    Some(p) => ClientAction::SaveFile { path: p.path.clone(), data: self.file_buffer.clone() },
                    None => ClientAction::Continue,
                }
            },
            ClientInbound::FileSendOffer { path } => ClientAction::SendFileAccept { path },
            ClientInbound::DisplayList => ClientAction::StoreDisplays,
            ClientInbound::AudioFrame => ClientAction::PlayAudio,
            ClientInbound::Ping => ClientAction::SendPong,
            ClientInbound::Disconnect => ClientAction::Stop,
            ClientInbound::Closed => ClientAction::Stop,
            ClientInbound::Other => ClientAction::Continue,
            ClientInbound::ReadError(m) => {
                self.state = ConnectionState::Error(m);
                ClientAction::Stop
            },
        }
    }

    /// Records the outcome of saving a received file: a failure's message
    /// becomes the transfer's error, and the transfer is done either way.
    pub fn finish_file(&mut self, save_error: Option<String>)
        requires
            old(self).wf(),
        ensures
            final(self).wf(),
            final(self)@ == (ClientStateView {
                file_progress: match old(self)@.file_progress {
                    Some(p) => Some(
                        FileTransferProgress {
                            done: true,
                            error: match save_error {
                                Some(e) => Some(e),
                                None => p.error,
                            },
                            ..p
                        },
                    ),
                    None => None,
                },
                ..old(self)@
            }),
    {
        match self.file_progress.take() {
            Some(mut p) => {
                match save_error {
                    Some(e) => {
                        p.error = Some(e);
                    },
                    None => {},
                }
                p.done = true;
                self.file_progress = Some(p);
            },
            None => {},
        }
    }

    /// The message loop ended: the session is disconnected.
    pub fn end_session(&mut self)
        requires
            old(self).wf(),
        ensures
            final(self).wf(),
            final(self)@ == (ClientStateView { state: ConnectionState::Disconnected, ..old(self)@ }),
    {
        self.state = ConnectionState::Disconnected;
    }

    /// A directory listing was requested: the previous one is forgotten.
    pub fn request_file_list(&mut self)
        requires
            old(self).wf(),
        ensures
            final(self).wf(),
            final(self)@ == (ClientStateView { file_listing: None, ..old(self)@ }),
    {
        self.file_listing = None;
    }

    /// A file was requested: the previous transfer is forgotten.
    pub fn request_file(&mut self)
        requires
            old(self).wf(),
        ensures
            final(self).wf(),
            final(self)@ == (ClientStateView { file_progress: None, file_buffer: Seq::empty(), ..old(self)@ }),
    {
        self.file_progress = None;
        self.file_buffer = Vec::new();
    }

    /// The latest frame.
    pub fn latest_frame(&self) -> (res: Option<ReceivedFrame>)
        ensures
            match (res, self@.latest_frame) {
                (Some(a), Some(b)) => a.data@ == b.data@ && a.width == b.width && a.height == b.height,
                (None, None) => true,
                _ => false,
            },
    {
        match &self.latest_frame {
            Some(f) => Some(ReceivedFrame { data: f.data.clone(), width: f.width, height: f.height }),
            None => None,
        }
    }

    /// The connection state.
    pub fn state(&self) -> (res: ConnectionState)
        ensures
            res == self@.state,
    {
        match &self.state {
            ConnectionState::Disconnected => ConnectionState::Disconnected,
            ConnectionState::Connecting => ConnectionState::Connecting,
            ConnectionState::Connected { width, height } => ConnectionState::Connected { width: *width, height: *height },
            ConnectionState::Error(m) => ConnectionState::Error(m.clone()),
        }
    }

    /// The host's display size, once announced.
    pub fn display_size(&self) -> (res: Option<(u32, u32)>)
        ensures
            res == self@.display_size,
    {
        self.display_size
    }

    /// The chat history, oldest first (at most `MAX_CHAT_HISTORY` entries
    /// in a well-formed state).
    pub fn chat_history(&self) -> (res: Vec<ChatEntry>)
        ensures
            res@ == self@.chat_history,
            self.wf() ==> res@.len() <= MAX_CHAT_HISTORY,
    {
        let mut out: Vec<ChatEntry> = Vec::new();
        let mut i: usize = 0;
        while i < self.chat_history.len()
            invariant
                i <= self.chat_history@.len(),
                out@ == self.chat_history@.take(i as int),
            decreases self.chat_history@.len() - i,
        {
            let e = &self.chat_history[i];
            out.push(ChatEntry { text: e.text.clone(), sender: e.sender.clone(), timestamp: e.timestamp });
            assert(self.chat_history@.take(i + 1) =~= self.chat_history@.take(i as int).push(self.chat_history@[i as int]));
            i = i + 1;
        }
        assert(self.chat_history@.take(self.chat_history@.len() as int) =~= self.chat_history@);
        out
    }

    /// The latest directory listing.
    pub fn file_listing(&self) -> (res: Option<Vec<FileEntry>>)
        ensures
            match res {
                Some(v) => self@.file_listing == Some(v@),
                None => self@.file_listing is None,
            },
    {
        match &self.file_listing {
            Some(v) => {
                let mut out: Vec<FileEntry> = Vec::new();
                let mut i: usize = 0;
                while i < v.len()
                    invariant
                        i <= v@.len(),
                        out@ == v@.take(i as int),
                    decreases v@.len() - i,
                {
                    let e = &v[i];
                    out.push(
                        FileEntry {
                            name: e.name.clone(),
                            path: e.path.clone(),
                            size: e.size,
                            is_dir: e.is_dir,
                            modified: e.modified,
                        },
                    );
                    assert(v@.take(i + 1) =~= v@.take(i as int).push(v@[i as int]));
                    i = i + 1;
                }
                assert(v@.take(v@.len() as int) =~= v@);
                Some(out)
            },
            None => None,
        }
    }

    /// The current file transfer's progress.
    pub fn file_progress(&self) -> (res: Option<FileTransferProgress>)
        ensures
            res == self@.file_progress,
    {
        match &self.file_progress {
            Some(p) => Some(
                FileTransferProgress {
                    path: p.path.clone(),
                    total_size: p.total_size,
                    received_bytes: p.received_bytes,
                    done: p.done,
                    error: match &p.error {
                        Some(e) => Some(e.clone()),
                        None => None,
                    },
                },
            ),
            None => None,
        }
    }
}


/// The password sent in the login request: the one given, or empty.
pub fn login_password(password: Option<&str>) -> (res: String)
    ensures
        res@ == match password {
            Some(p) => p@,
            None => Seq::<char>::empty(),
        },
{
    match password {
        Some(p) => String::from_str(p),
        None => String::new(),
    }
}

/// Checks the host's `LoginResponse`: a refusal becomes an error that
/// carries the host's message.
pub fn check_login_response(success: bool, message: &str) -> (res: Result<(), Error>)
    ensures
        success ==> res is Ok,
        !success ==> (res matches Err(Error::Network(m)) && m@ == "Authentication failed: "@ + message@),
{
    if !success {
        proof {
            reveal_strlit("Authentication failed: ");
        }
        return Err(Error::Network(join_message("Authentication failed: ", message)));
    }
    Ok(())
}

/// The command line that asks the relay for host `peer_id`.
pub fn relay_connect_request(peer_id: &str) -> (res: String)
    ensures
        res@ == "CONNECT "@ + peer_id@ + "\n"@,
{
    let s = join_message("CONNECT ", peer_id);
    s.concat("\n")
}

/// Checks the relay's answer to `CONNECT` (the bytes read): the client may
/// proceed when the host was found (`CONNECT_OK paired`) or is awaited
/// (`CONNECT_OK waiting`); anything else is an error naming the answer.
pub fn check_relay_response(response: &[u8]) -> (res: Result<(), Error>)
    ensures
        ({
            let r = spec_trim(utf8_lossy(response@));
            &&& (r == "CONNECT_OK paired"@ || r == "CONNECT_OK waiting"@) ==> res is Ok
            &&& !(r == "CONNECT_OK paired"@ || r == "CONNECT_OK waiting"@) ==> (res matches Err(Error::Network(m))
                && m@ == "Relay connection failed: "@ + r)
        }),
{
    let text = decode_utf8_lossy(response);
    let r = trim(text.as_str());
    let paired = String::from_str("CONNECT_OK paired");
    let waiting = String::from_str("CONNECT_OK waiting");
    if r == paired || r == waiting {
        Ok(())
    } else {
        proof {
            reveal_strlit("Relay connection failed: ");
        }
        Err(Error::Network(join_message("Relay connection failed: ", r.as_str())))
    }
}


/// The character of the 6-bit value `v` in the standard base64 alphabet
/// (`A-Z`, `a-z`, `0-9`, `+`, `/`).
pub open spec fn spec_base64_digit(v: int) -> char {
    if v < 26 {
        (65 + v) as char
    } else if v < 52 {
        (97 + v - 26) as char
    } else if v < 62 {
        (48 + v - 52) as char
    } else if v == 62 {
        '+'
    } else {
        '/'
    }
}

/// The standard base64 text of `data` (RFC 4648, `=` padding): every group
/// of three bytes gives four characters of six bits each; a last group of
/// one or two bytes is padded with `==` or `=`.
pub open spec fn spec_base64(data: Seq<u8>) -> Seq<char>
    decreases data.len(),
{
    let a = data[0] as int;
    let b = data[1] as int;
    let c = data[2] as int;
    if data.len() == 0 {
        Seq::empty()
    } else if data.len() == 1 {
        seq![spec_base64_digit(a / 4), spec_base64_digit((a % 4) * 16), '=', '=']
    } else if data.len() == 2 {
        seq![spec_base64_digit(a / 4), spec_base64_digit((a % 4) * 16 + b / 16), spec_base64_digit((b % 16) * 4), '=']
    } else {
        seq![
            spec_base64_digit(a / 4),
            spec_base64_digit((a % 4) * 16 + b / 16),
            spec_base64_digit((b % 16) * 4 + c / 64),
            spec_base64_digit(c % 64),
        ] + spec_base64(data.skip(3))
    }
}

/// `base64::engine::general_purpose::STANDARD.encode`: the standard base64
/// text with padding, as `spec_base64` states it.  The crate panics when
/// the encoded length does not fit in `usize`, which `requires` rules out.
#[verifier::external_body]
fn base64_encode(data: &[u8]) -> (res: String)
    requires
        (data@.len() / 3) * 4 + 4 <= usize::MAX,
    ensures
        res@ == spec_base64(data@),
{
    base64::engine::general_purpose::STANDARD.encode(data)
}

proof fn lemma_base64_len(data: Seq<u8>)
    ensures
        spec_base64(data).len() == 4 * ((data.len() + 2) / 3),
    decreases data.len(),
{
    if data.len() > 2 {
        lemma_base64_len(data.skip(3));
    }
}

/// A frame's pixels as base64 text, the form in which the UI takes them.
pub fn frame_base64(frame: &ReceivedFrame) -> (res: String)
    requires
        frame.data@.len() <= usize::MAX / 2,
    ensures
        res@ == spec_base64(frame.data@),
        res@.len() == 4 * ((frame.data@.len() + 2) / 3),
{
    proof {
        lemma_base64_len(frame.data@);
    }
    base64_encode(frame.data.as_slice())
}


/// The chat history after the messages `entries` arrive in order.
pub open spec fn spec_chat_after(history: Seq<ChatEntry>, entries: Seq<ChatEntry>) -> Seq<ChatEntry>
    decreases entries.len(),
{
    if entries.len() == 0 {
        history
    } else {
        spec_push_chat(spec_chat_after(history, entries.drop_last()), entries.last())
    }
}

/// The number of oldest entries of `n` that a bounded history drops.
pub open spec fn spec_dropped(n: nat) -> nat {
    if n > MAX_CHAT_HISTORY {
        (n - MAX_CHAT_HISTORY) as nat
    } else {
        0
    }
}

/// Over a session, the chat history holds the last `MAX_CHAT_HISTORY` of
/// all the messages it has seen (the earlier history followed by the
/// messages that arrived, in order), oldest first.
pub proof fn law_chat_history_over_a_session(history: Seq<ChatEntry>, entries: Seq<ChatEntry>)
    requires
        history.len() <= MAX_CHAT_HISTORY,
    ensures
        spec_chat_after(history, entries) == (history + entries).skip(spec_dropped(history.len() + entries.len()) as int),
        spec_chat_after(history, entries).len() <= MAX_CHAT_HISTORY,
    decreases entries.len(),
{
    if entries.len() == 0 {
        assert((history + entries).skip(0) =~= history);
    } else {
        let prev = entries.drop_last();
        let e = entries.last();
        law_chat_history_over_a_session(history, prev);
        let all_prev = history + prev;
        let all = history + entries;
        assert(all =~= all_prev.push(e));
        let d = spec_dropped(all_prev.len());
        let cur = spec_chat_after(history, prev);
        assert(cur == all_prev.skip(d as int));
        if all_prev.len() + 1 > MAX_CHAT_HISTORY {
            assert(cur.push(e).drop_first() =~= all.skip(spec_dropped(all.len()) as int));
        } else {
            assert(cur.push(e) =~= all.skip(spec_dropped(all.len()) as int));
        }
    }
}

/// The chat history stays within its bound, ends with the newest message,
/// and keeps the earlier ones in order.
pub proof fn law_chat_history_bounded(history: Seq<ChatEntry>, entry: ChatEntry)
    requires
        history.len() <= MAX_CHAT_HISTORY,
    ensures
        spec_push_chat(history, entry).len() <= MAX_CHAT_HISTORY,
        spec_push_chat(history, entry).last() == entry,
        history.len() < MAX_CHAT_HISTORY ==> spec_push_chat(history, entry) == history.push(entry),
        history.len() == MAX_CHAT_HISTORY ==> spec_push_chat(history, entry) == history.drop_first().push(entry),
{
    if history.len() == MAX_CHAT_HISTORY {
        assert(history.push(entry).drop_first() =~= history.drop_first().push(entry));
    }
}

} // verus!
