//! The rendezvous/relay server's command handling.
//!
//! A peer opens a TCP connection and sends one command line:
//! - `REGISTER <peer_id>`: a host announces itself and waits to be paired;
//! - `CONNECT <peer_id>`: a client asks to reach that host;
//! - `RELAY <token>`: two peers that send the same token are paired.
//!
//! The server keeps a registry of waiting connections, keyed by peer id
//! (hosts) and by token.  A command either parks its connection in the
//! registry or pairs it with the one that was waiting, and the server then
//! bridges the two; a client asking for a host that does not wait is
//! refused.  Connections are named by handles that the server hands in.
use vstd::prelude::*;


verus! {

/// Unicode whitespace, as `char::is_whitespace` defines it (the `White_Space`
/// property).
pub open spec fn spec_is_whitespace(c: char) -> bool {
    let v = c as u32;
    ||| 9 <= v <= 13
    ||| v == 0x20
    ||| v == 0x85
    ||| v == 0xA0
    ||| v == 0x1680
    ||| 0x2000 <= v <= 0x200A
    ||| v == 0x2028
    ||| v == 0x2029
    ||| v == 0x202F
    ||| v == 0x205F
    ||| v == 0x3000
}

/// Whether `c` is Unicode whitespace.
pub fn is_whitespace(c: char) -> (res: bool)
    ensures
        res == spec_is_whitespace(c),
{
    let v = c as u32;
    (9 <= v && v <= 13) || v == 0x20 || v == 0x85 || v == 0xA0 || v == 0x1680 || (0x2000 <= v && v
        <= 0x200A) || v == 0x2028 || v == 0x2029 || v == 0x202F || v == 0x205F || v == 0x3000
}

/// `s` without its leading whitespace.
pub open spec fn spec_trim_start(s: Seq<char>) -> Seq<char>
    decreases s.len(),
{
    if s.len() > 0 && spec_is_whitespace(s[0]) {
        spec_trim_start(s.drop_first())
    } else {
        s
    }
}

/// `s` without its trailing whitespace.
pub open spec fn spec_trim_end(s: Seq<char>) -> Seq<char>
    decreases s.len(),
{
    if s.len() > 0 && spec_is_whitespace(s.last()) {
        spec_trim_end(s.drop_last())
    } else {
        s
    }
}

/// `s` without leading and trailing whitespace, as `str::trim` gives it.
pub open spec fn spec_trim(s: Seq<char>) -> Seq<char> {
    spec_trim_end(spec_trim_start(s))
}

/// `s` without leading and trailing whitespace.
pub fn trim(s: &str) -> (res: String)
    ensures
        res@ == spec_trim(s@),
{
    let n = s.unicode_len();
    let mut start: usize = 0;
    assert(s@.skip(0) =~= s@);
    while start < n && is_whitespace(s.get_char(start))
        invariant
            n == s@.len(),
            start <= n,
            spec_trim_start(s@) == spec_trim_start(s@.skip(start as int)),
        decreases n - start,
    {
        assert(s@.skip(start as int).drop_first() =~= s@.skip(start + 1));
        start = start + 1;
    }
    assert(spec_trim_start(s@) == s@.skip(start as int));
    let ghost t = s@.skip(start as int);
    let mut end: usize = n;
    assert(t.take((end - start) as int) =~= t);
    while end > start && is_whitespace(s.get_char(end - 1))
        invariant
            n == s@.len(),
            start <= end <= n,
            t == s@.skip(start as int),
            spec_trim_end(t) == spec_trim_end(t.take((end - start) as int)),
        decreases end,
    {
        assert(t.take((end - start) as int).drop_last() =~= t.take((end - 1 - start) as int));
        end = end - 1;
    }
    let r = s.substring_char(start, end);
    assert(r@ =~= t.take((end - start) as int));
    String::from_str(r)
}

/// The text that `String::from_utf8_lossy` decodes from `bytes`.
pub uninterp spec fn utf8_lossy(bytes: Seq<u8>) -> Seq<char>;

/// All the bytes are ASCII (below 128).
pub open spec fn spec_is_ascii(bytes: Seq<u8>) -> bool {
    forall|i: int| 0 <= i < bytes.len() ==> #[trigger] bytes[i] < 128
}

/// ASCII bytes read as characters, one each.
pub open spec fn spec_ascii_chars(bytes: Seq<u8>) -> Seq<char> {
    Seq::new(bytes.len(), |i: int| bytes[i] as char)
}

/// The text the server reads from `bytes`: ASCII bytes read one character
/// each; any other bytes as `String::from_utf8_lossy` decodes them.
pub open spec fn spec_decoded(bytes: Seq<u8>) -> Seq<char> {
    if spec_is_ascii(bytes) {
        spec_ascii_chars(bytes)
    } else {
        utf8_lossy(bytes)
    }
}

/// Decodes bytes as UTF-8 with `String::from_utf8_lossy` (invalid
/// sequences become U+FFFD); the result is named `utf8_lossy(bytes)`.
/// Valid UTF-8 comes back unchanged, so ASCII bytes give one character
/// each, of the same value.
#[verifier::external_body]
pub(crate) fn decode_utf8_lossy(bytes: &[u8]) -> (res: String)
    ensures
        res@ == utf8_lossy(bytes@),
        spec_is_ascii(bytes@) ==> res@ == spec_ascii_chars(bytes@),
{
    String::from_utf8_lossy(bytes).into_owned()
}

/// A command line, as the server reads it.
pub enum CommandSpec {
    Register(Seq<char>),
    Connect(Seq<char>),
    Relay(Seq<char>),
    Unknown,
}

/// The command in a (trimmed) line: its keyword and its trimmed argument.
pub open spec fn spec_command(line: Seq<char>) -> CommandSpec {
    if line.len() >= 9 && line.take(9) == "REGISTER "@ {
        CommandSpec::Register(spec_trim(line.skip(9)))
    } else if line.len() >= 8 && line.take(8) == "CONNECT "@ {
        CommandSpec::Connect(spec_trim(line.skip(8)))
    } else if line.len() >= 6 && line.take(6) == "RELAY "@ {
        CommandSpec::Relay(spec_trim(line.skip(6)))
    } else {
        CommandSpec::Unknown
    }
}

/// What the server does with a connection after answering its command.
#[derive(Debug, Clone, Copy, PartialEq, Eq)]
pub enum RelayAction {
    /// Close the connection.
    Close,
    /// The connection waits in the registry.
    Wait,
    /// Bridge the two connections (bytes flow both ways).
    Bridge(u64, u64),
}

/// The server's answer to one command.
#[derive(Debug, Clone)]
pub struct RelayDecision {
    /// The line to send back, if any.
    pub reply: Option<String>,
    /// The line to send to the waiting connection being bridged, if any
    /// (sent before bridging).
    pub peer_reply: Option<String>,
    /// What to do with the connection.
    pub action: RelayAction,
    /// A waiting connection that was replaced in the registry (and is dropped).
    pub displaced: Option<u64>,
}

/// The line sent to the waiting connection that a command pairs with: a
/// host waiting under its peer id hears `REGISTER_OK paired` when a client
/// connects to it; nothing else is sent to a waiting connection.
pub open spec fn spec_peer_reply(reg: Map<Seq<char>, u64>, request: Seq<u8>) -> Option<Seq<char>> {
    if request.len() == 0 {
        None
    } else {
        match spec_command(spec_trim(spec_decoded(request))) {
            CommandSpec::Connect(id) => if id.len() > 0 && reg.contains_key(id) {
                Some("REGISTER_OK paired\n"@)
            } else {
                None
            },
            _ => None,
        }
    }
}

/// The answer to a command and the registry afterwards:
/// `(registry, reply, action, displaced)`.
pub open spec fn spec_relay_step(reg: Map<Seq<char>, u64>, conn: u64, request: Seq<u8>) -> (
    Map<Seq<char>, u64>,
    Option<Seq<char>>,
    RelayAction,
    Option<u64>,
) {
    if request.len() == 0 {
        (reg, None, RelayAction::Close, None)
    } else {
        match spec_command(spec_trim(spec_decoded(request))) {
            CommandSpec::Register(id) => if id.len() == 0 {
                (reg, Some("REGISTER_ERR empty id\n"@), RelayAction::Close, None)
            } else {
                (
                    reg.insert(id, conn),
                    Some("REGISTER_OK waiting\n"@),
                    RelayAction::Wait,
                    if reg.contains_key(id) {
                        Some(reg[id])
                    } else {
                        None
                    },
                )
            },
            CommandSpec::Connect(id) => if id.len() == 0 {
                (reg, Some("CONNECT_ERR empty id\n"@), RelayAction::Close, None)
            } else if reg.contains_key(id) {
                (reg.remove(id), Some("CONNECT_OK paired\n"@), RelayAction::Bridge(reg[id], conn), None)
            } else {
                (reg, Some("CONNECT_ERR not found\n"@), RelayAction::Close, None)
            },
            CommandSpec::Relay(token) => if token.len() == 0 {
                (reg, Some("RELAY_ERR empty token\n"@), RelayAction::Close, None)
            } else if reg.contains_key(token) {
                (reg.remove(token), Some("RELAY_OK paired\n"@), RelayAction::Bridge(conn, reg[token]), None)
            } else {
                (
                    reg.insert(token, conn),
                    Some("RELAY_OK waiting\n"@),
                    RelayAction::Wait,
                    if reg.contains_key(token) {
                        Some(reg[token])
                    } else {
                        None
                    },
                )
            },
            CommandSpec::Unknown => (reg, Some("ERROR unknown command\n"@), RelayAction::Close, None),
        }
    }
}

/// The connections waiting on the relay server.
pub struct RelayRegistry {
    entries: Vec<(String, u64)>,
    map: Ghost<Map<Seq<char>, u64>>,
}

impl View for RelayRegistry {
    type V = Map<Seq<char>, u64>;

    closed spec fn view(&self) -> Map<Seq<char>, u64> {
        self.map@
    }
}

impl RelayRegistry {
    /// The entries list the registry's map, each key once.
    pub closed spec fn wf(&self) -> bool {
        &&& forall|i: int|
            0 <= i < self.entries@.len() ==> self.map@.contains_key(#[trigger] self.entries@[i].0@)
                && self.map@[self.entries@[i].0@] == self.entries@[i].1
        &&& forall|k: Seq<char>|
            #[trigger] self.map@.contains_key(k) ==> exists|i: int|
                0 <= i < self.entries@.len() && #[trigger] self.entries@[i].0@ == k
        &&& forall|i: int, j: int|
            0 <= i < self.entries@.len() && 0 <= j < self.entries@.len() && i != j ==> #[trigger] self.entries@[i].0@
                != #[trigger] self.entries@[j].0@
    }

    /// An empty registry.
    pub fn new() -> (res: Self)
        ensures
            res.wf(),
            res@ == Map::<Seq<char>, u64>::empty(),
    {
        RelayRegistry { entries: Vec::new(), map: Ghost(Map::empty()) }
    }

    fn find(&self, key: &String) -> (res: Option<usize>)
        requires
            self.wf(),
        ensures
            match res {
                Some(i) => i < self.entries@.len() && self.entries@[i as int].0@ == key@,
                None => !self@.contains_key(key@),
            },
    {
        let mut i: usize = 0;
        while i < self.entries.len()
            invariant
                self.wf(),
                i <= self.entries@.len(),
                forall|j: int| 0 <= j < i ==> self.entries@[j].0@ != key@,
            decreases self.entries@.len() - i,
        {
            if self.entries[i].0 == *key {
                return Some(i);
            }
            i = i + 1;
        }
        proof {
            if self@.contains_key(key@) {
                let j = choose|j: int| 0 <= j < self.entries@.len() && #[trigger] self.entries@[j].0@ == key@;
                assert(self.entries@[j].0@ == key@);
            }
        }
        None
    }

    /// Removes `key`, returning the connection that waited under it.
    pub fn remove(&mut self, key: &String) -> (res: Option<u64>)
        requires
            old(self).wf(),
        ensures
            final(self).wf(),
            res == (if old(self)@.contains_key(key@) {
                Some(old(self)@[key@])
            } else {
                None::<u64>
            }),
            final(self)@ == old(self)@.remove(key@),
    {
        match self.find(key) {
            None => {
                assert(self@.remove(key@) =~= self@);
                None
            },
            Some(i) => {
                let ghost old_entries = self.entries@;
                let (_, id) = self.entries.remove(i);
                self.map = Ghost(self.map@.remove(key@));
                proof {
                    assert forall|j: int| 0 <= j < self.entries@.len() implies self.map@.contains_key(
                        #[trigger] self.entries@[j].0@,
                    ) && self.map@[self.entries@[j].0@] == self.entries@[j].1 by {
                        let oj = if j < i { j } else { j + 1 };
                        assert(self.entries@[j] == old_entries[oj]);
                        assert(old_entries[oj].0@ != old_entries[i as int].0@);
                    }
                    assert forall|k: Seq<char>| #[trigger] self.map@.contains_key(k) implies exists|j: int|
                        0 <= j < self.entries@.len() && #[trigger] self.entries@[j].0@ == k by {
                        let oj = choose|oj: int| 0 <= oj < old_entries.len() && #[trigger] old_entries[oj].0@ == k;
                        assert(oj != i);
                        let j = if oj < i { oj } else { oj - 1 };
                        assert(self.entries@[j] == old_entries[oj]);
                    }
                    assert forall|a: int, b: int|
                        0 <= a < self.entries@.len() && 0 <= b < self.entries@.len() && a != b implies #[trigger] self.entries@[a].0@
                        != #[trigger] self.entries@[b].0@ by {
                        let oa = if a < i { a } else { a + 1 };
                        let ob = if b < i { b } else { b + 1 };
                        assert(self.entries@[a] == old_entries[oa]);
                        assert(self.entries@[b] == old_entries[ob]);
                    }
                }
                Some(id)
            },
        }
    }

    /// Stores `conn` under `key`, returning the connection it replaced.
    pub fn insert(&mut self, key: String, conn: u64) -> (res: Option<u64>)
        requires
            old(self).wf(),
        ensures
            final(self).wf(),
            res == (if old(self)@.contains_key(key@) {
                Some(old(self)@[key@])
            } else {
                None::<u64>
            }),
            final(self)@ == old(self)@.insert(key@, conn),
    {
        match self.find(&key) {
            Some(i) => {
                let ghost old_entries = self.entries@;
                let old_conn = self.entries[i].1;
                let ghost k = key@;
                self.entries.set(i, (key, conn));
                self.map = Ghost(self.map@.insert(k, conn));
                proof {
                    assert forall|j: int| 0 <= j < self.entries@.len() implies self.map@.contains_key(
                        #[trigger] self.entries@[j].0@,
                    ) && self.map@[self.entries@[j].0@] == self.entries@[j].1 by {
                        if j != i {
                            assert(old_entries[j].0@ != old_entries[i as int].0@);
                        }
                    }
                    assert forall|kk: Seq<char>| #[trigger] self.map@.contains_key(kk) implies exists|j: int|
                        0 <= j < self.entries@.len() && #[trigger] self.entries@[j].0@ == kk by {
                        if kk == k {
                            assert(self.entries@[i as int].0@ == kk);
                        } else {
                            let oj = choose|oj: int| 0 <= oj < old_entries.len() && #[trigger] old_entries[oj].0@ == kk;
                            assert(self.entries@[oj].0@ == kk);
                        }
                    }
                    assert forall|a: int, b: int|
                        0 <= a < self.entries@.len() && 0 <= b < self.entries@.len() && a != b implies #[trigger] self.entries@[a].0@
                        != #[trigger] self.entries@[b].0@ by {
                        assert(old_entries[a].0@ != old_entries[b].0@);
                    }
                }
                Some(old_conn)
            },
            None => {
                let ghost old_entries = self.entries@;
                let ghost k = key@;
                self.entries.push((key, conn));
                self.map = Ghost(self.map@.insert(k, conn));
                proof {
                    let n = old_entries.len() as int;
                    assert forall|j: int| 0 <= j < self.entries@.len() implies self.map@.contains_key(
                        #[trigger] self.entries@[j].0@,
                    ) && self.map@[self.entries@[j].0@] == self.entries@[j].1 by {
                        if j < n {
                            assert(self.entries@[j] == old_entries[j]);
                            assert(old_entries[j].0@ != k);
                        }
                    }
                    assert forall|kk: Seq<char>| #[trigger] self.map@.contains_key(kk) implies exists|j: int|
                        0 <= j < self.entries@.len() && #[trigger] self.entries@[j].0@ == kk by {
                        if kk == k {
                            assert(self.entries@[n].0@ == kk);
                        } else {
                            let oj = choose|oj: int| 0 <= oj < old_entries.len() && #[trigger] old_entries[oj].0@ == kk;
                            assert(self.entries@[oj].0@ == kk);
                        }
                    }
                    assert forall|a: int, b: int|
                        0 <= a < self.entries@.len() && 0 <= b < self.entries@.len() && a != b implies #[trigger] self.entries@[a].0@
                        != #[trigger] self.entries@[b].0@ by {
                        if a < n && b < n {
                            assert(self.entries@[a] == old_entries[a]);
                            assert(self.entries@[b] == old_entries[b]);
                        } else if a < n {
                            assert(self.entries@[a] == old_entries[a]);
                            assert(old_entries[a].0@ != k);
                        } else if b < n {
                            assert(self.entries@[b] == old_entries[b]);
                            assert(old_entries[b].0@ != k);
                        }
                    }
                }
                None
            },
        }
    }
}


/// Whether `line` starts with `prefix`.
pub fn starts_with(line: &str, prefix: &str) -> (res: bool)
    ensures
        res == (prefix@.len() <= line@.len() && line@.take(prefix@.len() as int) == prefix@),
{
    let n = line.unicode_len();
    let m = prefix.unicode_len();
    if m > n {
        return false;
    }
    let mut i: usize = 0;
    while i < m
        invariant
            n == line@.len(),
            m == prefix@.len(),
            m <= n,
            i <= m,
            forall|j: int| 0 <= j < i ==> line@[j] == prefix@[j],
        decreases m - i,
    {
        if line.get_char(i) != prefix.get_char(i) {
            assert(line@.take(m as int)[i as int] != prefix@[i as int]);
            return false;
        }
        i = i + 1;
    }
    assert(line@.take(m as int) =~= prefix@);
    true
}

/// The trimmed argument of a command whose keyword takes `k` characters.
fn argument(line: &str, k: usize) -> (res: String)
    requires
        k <= line@.len(),
    ensures
        res@ == spec_trim(line@.skip(k as int)),
{
    let n = line.unicode_len();
    let rest = line.substring_char(k, n);
    assert(rest@ =~= line@.skip(k as int));
    trim(rest)
}

/// The reply line `text`.
fn reply(text: &str) -> (res: Option<String>)
    ensures
        res matches Some(r) && r@ == text@,
{
    Some(String::from_str(text))
}

impl RelayRegistry {
    /// Answers one command line received on connection `conn` (the bytes the
    /// server read, up to 256), updating the registry.
    pub fn handle(&mut self, conn: u64, request: &[u8]) -> (res: RelayDecision)
        requires
            old(self).wf(),
        ensures
            final(self).wf(),
            ({
                let (reg, rep, action, displaced) = spec_relay_step(old(self)@, conn, request@);
                &&& final(self)@ == reg
                &&& res.action == action
                &&& res.displaced == displaced
                &&& match (res.reply, rep) {
                    (Some(r), Some(t)) => r@ == t,
                    (None, None) => true,
                    _ => false,
                }
                &&& match (res.peer_reply, spec_peer_reply(old(self)@, request@)) {
                    (Some(r), Some(t)) => r@ == t,
                    (None, None) => true,
                    _ => false,
                }
            }),
    {
        proof {
            reveal_strlit("REGISTER ");
            reveal_strlit("CONNECT ");
            reveal_strlit("RELAY ");
        }
        if request.len() == 0 {
            return RelayDecision { reply: None, peer_reply: None, action: RelayAction::Close, displaced: None };
        }
        let text = decode_utf8_lossy(request);
        let line = trim(text.as_str());
        let line = line.as_str();
        if starts_with(line, "REGISTER ") {
            let peer_id = argument(line, 9);
            if peer_id.unicode_len() == 0 {
                return RelayDecision { reply: reply("REGISTER_ERR empty id\n"), action: RelayAction::Close, displaced: None, peer_reply: None };
            }
            let displaced = self.insert(peer_id, conn);
            return RelayDecision { reply: reply("REGISTER_OK waiting\n"), action: RelayAction::Wait, displaced, peer_reply: None };
        }
        if starts_with(line, "CONNECT ") {
            let peer_id = argument(line, 8);
            if peer_id.unicode_len() == 0 {
                return RelayDecision { reply: reply("CONNECT_ERR empty id\n"), action: RelayAction::Close, displaced: None, peer_reply: None };
            }
            match self.remove(&peer_id) {
                Some(host) => {
                    return RelayDecision {
                        reply: reply("CONNECT_OK paired\n"),
                        peer_reply: reply("REGISTER_OK paired\n"),
                        action: RelayAction::Bridge(host, conn),
                        displaced: None,
                    };
                },
                None => {
                    return RelayDecision { reply: reply("CONNECT_ERR not found\n"), action: RelayAction::Close, displaced: None, peer_reply: None };
                },
            }
        }
        if starts_with(line, "RELAY ") {
            let token = argument(line, 6);
            if token.unicode_len() == 0 {
                return RelayDecision { reply: reply("RELAY_ERR empty token\n"), action: RelayAction::Close, displaced: None, peer_reply: None };
            }
            match self.remove(&token) {
                Some(other) => {
                    return RelayDecision {
                        reply: reply("RELAY_OK paired\n"),
                        peer_reply: None,
                        action: RelayAction::Bridge(conn, other),
                        displaced: None,
                    };
                },
                None => {
                    let displaced = self.insert(token, conn);
                    return RelayDecision { reply: reply("RELAY_OK waiting\n"), action: RelayAction::Wait, displaced, peer_reply: None };
                },
            }
        }
        RelayDecision { reply: reply("ERROR unknown command\n"), action: RelayAction::Close, displaced: None, peer_reply: None }
    }
}


/// The command that the server reads from a request.
pub open spec fn spec_request_command(request: Seq<u8>) -> CommandSpec {
    spec_command(spec_trim(spec_decoded(request)))
}

/// A host that registers and a client that then connects with the same
/// peer id are bridged together: the host hears `REGISTER_OK waiting`,
/// then `REGISTER_OK paired` once the client arrives, the client hears
/// `CONNECT_OK paired`, and the registry is left as it was.
pub proof fn law_register_then_connect(
    reg: Map<Seq<char>, u64>,
    host: u64,
    client: u64,
    register: Seq<u8>,
    connect: Seq<u8>,
    id: Seq<char>,
)
    requires
        register.len() > 0,
        connect.len() > 0,
        id.len() > 0,
        spec_request_command(register) == CommandSpec::Register(id),
        spec_request_command(connect) == CommandSpec::Connect(id),
        !reg.contains_key(id),
    ensures
        ({
            let (reg1, rep1, act1, _) = spec_relay_step(reg, host, register);
            let (reg2, rep2, act2, _) = spec_relay_step(reg1, client, connect);
            &&& act1 == RelayAction::Wait
            &&& rep1 == Some("REGISTER_OK waiting\n"@)
            &&& act2 == RelayAction::Bridge(host, client)
            &&& rep2 == Some("CONNECT_OK paired\n"@)
            &&& spec_peer_reply(reg1, connect) == Some("REGISTER_OK paired\n"@)
            &&& reg2 == reg
        }),
{
    let (reg1, _, _, _) = spec_relay_step(reg, host, register);
    assert(reg1.remove(id) =~= reg);
}

/// The bytes of the command line `REGISTER <id>` and its newline.
pub open spec fn spec_register_line(id: Seq<u8>) -> Seq<u8> {
    seq![82u8, 69, 71, 73, 83, 84, 69, 82, 32] + id + seq![10u8]
}

/// The bytes of the command line `CONNECT <id>` and its newline.
pub open spec fn spec_connect_line(id: Seq<u8>) -> Seq<u8> {
    seq![67u8, 79, 78, 78, 69, 67, 84, 32] + id + seq![10u8]
}

/// A peer id made of printable ASCII characters other than the space.
pub open spec fn spec_plain_id(id: Seq<u8>) -> bool {
    &&& id.len() > 0
    &&& forall|i: int| 0 <= i < id.len() ==> 33 <= #[trigger] id[i] <= 126
}

proof fn lemma_trim_line(keyword: Seq<u8>, id: Seq<u8>)
    requires
        keyword.len() > 0,
        33 <= keyword[0] <= 126,
        forall|i: int| 0 <= i < keyword.len() ==> 32 <= #[trigger] keyword[i] <= 126,
        spec_plain_id(id),
    ensures
        spec_is_ascii(keyword + id + seq![10u8]),
        spec_trim(spec_decoded(keyword + id + seq![10u8])) == spec_ascii_chars(keyword + id),
        spec_trim(spec_ascii_chars(id)) == spec_ascii_chars(id),
{
    let line = keyword + id + seq![10u8];
    let body = keyword + id;
    assert forall|i: int| 0 <= i < line.len() implies #[trigger] line[i] < 128 by {
        if i < keyword.len() {
            assert(line[i] == keyword[i]);
        } else if i < body.len() {
            assert(line[i] == id[i - keyword.len()]);
        }
    }
    let text = spec_ascii_chars(line);
    assert(text[0] == keyword[0] as char);
    assert(!spec_is_whitespace(text[0]));
    assert(spec_trim_start(text) == text);
    assert(text.last() == 10u8 as char);
    assert(spec_is_whitespace(text.last()));
    assert(text.drop_last() =~= spec_ascii_chars(body));
    let b = spec_ascii_chars(body);
    assert(b.last() == id.last() as char);
    assert(33 <= id[id.len() - 1] <= 126);
    assert(!spec_is_whitespace(b.last()));
    assert(spec_trim_end(b) == b);
    let t = spec_ascii_chars(id);
    assert(t[0] == id[0] as char);
    assert(33 <= id[0] <= 126);
    assert(!spec_is_whitespace(t[0]));
    assert(spec_trim_start(t) == t);
    assert(t.last() == id[id.len() - 1] as char);
    assert(!spec_is_whitespace(t.last()));
    assert(spec_trim_end(t) == t);
}

/// The line `REGISTER <id>` is read as a registration of `id`.
pub proof fn lemma_register_line(id: Seq<u8>)
    requires
        spec_plain_id(id),
    ensures
        spec_register_line(id).len() > 0,
        spec_request_command(spec_register_line(id)) == CommandSpec::Register(spec_ascii_chars(id)),
{
    let kw = seq![82u8, 69, 71, 73, 83, 84, 69, 82, 32];
    lemma_trim_line(kw, id);
    let line = spec_ascii_chars(kw + id);
    reveal_strlit("REGISTER ");
    assert(line.take(9) =~= "REGISTER "@);
    assert(line.skip(9) =~= spec_ascii_chars(id));
}

/// The line `CONNECT <id>` is read as a connection request for `id`.
pub proof fn lemma_connect_line(id: Seq<u8>)
    requires
        spec_plain_id(id),
    ensures
        spec_connect_line(id).len() > 0,
        spec_request_command(spec_connect_line(id)) == CommandSpec::Connect(spec_ascii_chars(id)),
{
    let kw = seq![67u8, 79, 78, 78, 69, 67, 84, 32];
    lemma_trim_line(kw, id);
    let line = spec_ascii_chars(kw + id);
    reveal_strlit("REGISTER ");
    reveal_strlit("CONNECT ");
    assert(line[0] == 'C');
    assert("REGISTER "@[0] == 'R');
    assert(line.take(8) =~= "CONNECT "@);
    assert(line.skip(8) =~= spec_ascii_chars(id));
}

/// A host that sends `REGISTER <id>` and a client that then sends
/// `CONNECT <id>`, for a plain peer id that nobody waits under, are
/// bridged: the host hears `REGISTER_OK waiting`, then `REGISTER_OK
/// paired`, the client hears `CONNECT_OK paired`, and the registry is left
/// as it was.
pub proof fn law_register_then_connect_lines(reg: Map<Seq<char>, u64>, host: u64, client: u64, id: Seq<u8>)
    requires
        spec_plain_id(id),
        !reg.contains_key(spec_ascii_chars(id)),
    ensures
        ({
            let (reg1, rep1, act1, _) = spec_relay_step(reg, host, spec_register_line(id));
            let (reg2, rep2, act2, _) = spec_relay_step(reg1, client, spec_connect_line(id));
            &&& act1 == RelayAction::Wait
            &&& rep1 == Some("REGISTER_OK waiting\n"@)
            &&& act2 == RelayAction::Bridge(host, client)
            &&& rep2 == Some("CONNECT_OK paired\n"@)
            &&& spec_peer_reply(reg1, spec_connect_line(id)) == Some("REGISTER_OK paired\n"@)
            &&& reg2 == reg
        }),
{
    lemma_register_line(id);
    lemma_connect_line(id);
    law_register_then_connect(
        reg,
        host,
        client,
        spec_register_line(id),
        spec_connect_line(id),
        spec_ascii_chars(id),
    );
}

/// A client that asks for a peer id that no host waits under is told
/// `CONNECT_ERR not found`, is not bridged, and the registry is unchanged.
pub proof fn law_connect_unknown_is_refused(reg: Map<Seq<char>, u64>, client: u64, connect: Seq<u8>, id: Seq<char>)
    requires
        connect.len() > 0,
        id.len() > 0,
        spec_request_command(connect) == CommandSpec::Connect(id),
        !reg.contains_key(id),
    ensures
        ({
            let (reg1, rep, act, displaced) = spec_relay_step(reg, client, connect);
            &&& rep == Some("CONNECT_ERR not found\n"@)
            &&& act == RelayAction::Close
            &&& displaced is None
            &&& reg1 == reg
            &&& spec_peer_reply(reg, connect) is None
        }),
{
}

/// Two peers that send the same relay token are bridged together.
pub proof fn law_relay_tokens_pair(
    reg: Map<Seq<char>, u64>,
    first: u64,
    second: u64,
    r1: Seq<u8>,
    r2: Seq<u8>,
    token: Seq<char>,
)
    requires
        r1.len() > 0,
        r2.len() > 0,
        token.len() > 0,
        spec_request_command(r1) == CommandSpec::Relay(token),
        spec_request_command(r2) == CommandSpec::Relay(token),
        !reg.contains_key(token),
    ensures
        ({
            let (reg1, rep1, act1, _) = spec_relay_step(reg, first, r1);
            let (reg2, rep2, act2, _) = spec_relay_step(reg1, second, r2);
            &&& act1 == RelayAction::Wait
            &&& rep1 == Some("RELAY_OK waiting\n"@)
            &&& act2 == RelayAction::Bridge(second, first)
            &&& rep2 == Some("RELAY_OK paired\n"@)
            &&& reg2 == reg
        }),
{
    let (reg1, _, _, _) = spec_relay_step(reg, first, r1);
    assert(reg1.remove(token) =~= reg);
}

/// A command never pairs a connection with itself: a bridge joins the
/// requesting connection with one that was waiting in the registry, and
/// that one leaves the registry.
pub proof fn law_bridge_takes_waiting_connection(reg: Map<Seq<char>, u64>, conn: u64, request: Seq<u8>)
    ensures
        ({
            let (reg1, _, act, _) = spec_relay_step(reg, conn, request);
            act matches RelayAction::Bridge(a, b) ==> ((a == conn && exists|k: Seq<char>|
                reg.contains_key(k) && reg[k] == b && !reg1.contains_key(k)) || (b == conn && exists|k: Seq<char>|
                reg.contains_key(k) && reg[k] == a && !reg1.contains_key(k)))
        }),
{
    if request.len() > 0 {
        match spec_request_command(request) {
            CommandSpec::Register(id) => {},
            CommandSpec::Connect(id) => {
                if id.len() > 0 && reg.contains_key(id) {
                    assert(!reg.remove(id).contains_key(id));
                }
            },
            CommandSpec::Relay(t) => {
                if t.len() > 0 && reg.contains_key(t) {
                    assert(!reg.remove(t).contains_key(t));
                }
            },
            CommandSpec::Unknown => {},
        }
    }
}

} // verus!
