//! End-to-end encryption of a session.
//!
//! Key exchange: Curve25519 (NaCl `crypto_box` precomputation); the 32-byte
//! precomputed key keys an XSalsa20-Poly1305 `secretbox`.  Nonces are
//! counters, little-endian in the first 8 of 24 bytes, followed by a byte
//! that names the direction (client to host, or host to client), so the two
//! directions of a session never share a nonce and a message cannot be
//! played back to the end that sent it.
use vstd::prelude::*;

use crate::bytes::{le64, push_le64};

verus! {

/// Size of a Curve25519 public key.
pub const PUBLIC_KEY_BYTES: usize = 32;

/// Size of a Curve25519 secret key.
pub const SECRET_KEY_BYTES: usize = 32;

/// Size of a symmetric nonce for secretbox.
pub const NONCE_BYTES: usize = 24;

/// Size of the MAC appended to each encrypted message.
pub const MAC_BYTES: usize = 16;

/// The Curve25519 public key that belongs to secret key `sk`.
pub uninterp spec fn curve25519_public(sk: Seq<u8>) -> Seq<u8>;

/// The key that `box_::precompute(pk, sk)` computes.
pub uninterp spec fn box_beforenm(pk: Seq<u8>, sk: Seq<u8>) -> Seq<u8>;

/// The ciphertext that `secretbox::seal(m, n, k)` produces.
pub uninterp spec fn secretbox_sealed(m: Seq<u8>, n: Seq<u8>, k: Seq<u8>) -> Seq<u8>;

/// What `secretbox::open(c, n, k)` returns (`None` for `Err(())`).
pub uninterp spec fn secretbox_opened(c: Seq<u8>, n: Seq<u8>, k: Seq<u8>) -> Option<Seq<u8>>;

/// Calls `sodiumoxide::init`, which initialises libsodium; it reports
/// whether initialisation succeeded.  Nothing is stated of the outcome.
#[verifier::external_body]
fn sodium_init() -> (res: bool) {
    sodiumoxide::init().is_ok()
}

/// Calls `box_::gen_keypair`, which (per its documentation) randomly
/// generates a secret key and the corresponding public key.  The contract
/// states only that the public key corresponds to the secret key.
#[verifier::external_body]
fn box_gen_keypair() -> (res: ([u8; 32], [u8; 32]))
    ensures
        res.0@ == curve25519_public(res.1@),
{
    let (pk, sk) = sodiumoxide::crypto::box_::gen_keypair();
    (pk.0, sk.0)
}

/// Calls `box_::precompute(pk, sk)`.
///
/// The result is named `box_beforenm(pk, sk)`.  Curve25519 key agreement
/// is symmetric: `precompute(pk1, sk2) == precompute(pk2, sk1)` when
/// `pk1` and `pk2` are the public keys of `sk1` and `sk2`; the second
/// clause states that agreement for every secret key whose public key is
/// `pk`.
#[verifier::external_body]
fn box_precompute(pk: &[u8; 32], sk: &[u8; 32]) -> (res: [u8; 32])
    ensures
        res@ == box_beforenm(pk@, sk@),
        forall|sk2: Seq<u8>|
            pk@ == #[trigger] curve25519_public(sk2) ==> res@ == box_beforenm(curve25519_public(sk@), sk2),
{
    let k = sodiumoxide::crypto::box_::precompute(
        &sodiumoxide::crypto::box_::PublicKey(*pk),
        &sodiumoxide::crypto::box_::SecretKey(*sk),
    );
    k.0
}

/// Calls `secretbox::seal(m, n, k)`.
///
/// The ciphertext is `MACBYTES` longer than the message, and `open` with
/// the same nonce and key gives the message back, which the last clause
/// states.
#[verifier::external_body]
fn secretbox_seal(m: &[u8], n: &[u8; 24], k: &[u8; 32]) -> (res: Vec<u8>)
    ensures
        res@ == secretbox_sealed(m@, n@, k@),
        res@.len() == m@.len() + MAC_BYTES,
        secretbox_opened(res@, n@, k@) == Some(m@),
{
    sodiumoxide::crypto::secretbox::seal(
        m,
        &sodiumoxide::crypto::secretbox::Nonce(*n),
        &sodiumoxide::crypto::secretbox::Key(*k),
    )
}

/// Calls `secretbox::open(c, n, k)`; `Err(())` becomes `None`.  A
/// ciphertext shorter than `MACBYTES` is refused.
#[verifier::external_body]
fn secretbox_open(c: &[u8], n: &[u8; 24], k: &[u8; 32]) -> (res: Option<Vec<u8>>)
    ensures
        match res {
            Some(v) => secretbox_opened(c@, n@, k@) == Some(v@),
            None => secretbox_opened(c@, n@, k@) is None,
        },
        c@.len() < MAC_BYTES ==> res is None,
{
    sodiumoxide::crypto::secretbox::open(
        c,
        &sodiumoxide::crypto::secretbox::Nonce(*n),
        &sodiumoxide::crypto::secretbox::Key(*k),
    ).ok()
}

/// Must be called once before any crypto operations.
/// Safe to call more than once; a failed initialisation is ignored.
pub fn init() {
    let _ = sodium_init();
}

/// An ephemeral keypair for Curve25519 key exchange.
#[derive(Clone)]
pub struct KeyExchange {
    public_key: [u8; 32],
    secret_key: [u8; 32],
}

impl KeyExchange {
    /// The public key.
    pub closed spec fn spec_public(&self) -> Seq<u8> {
        self.public_key@
    }

    /// The secret key.
    pub closed spec fn spec_secret(&self) -> Seq<u8> {
        self.secret_key@
    }

    /// The public key belongs to the secret key.
    pub closed spec fn wf(&self) -> bool {
        self.public_key@ == curve25519_public(self.secret_key@)
    }

    /// Generate a new ephemeral keypair.
    pub fn generate() -> (res: Self)
        ensures
            res.wf(),
    {
        let (public_key, secret_key) = box_gen_keypair();
        KeyExchange { public_key, secret_key }
    }

    /// Raw public key bytes for transmission.
    pub fn public_key_bytes(&self) -> (res: [u8; 32])
        ensures
            res@ == self.spec_public(),
    {
        self.public_key
    }

    /// Create a shared secret from the peer's public key.
    ///
    /// Both ends of an exchange compute the same secret: when `peer_public`
    /// is the public key of a key pair `q`, the result equals what `q`
    /// computes from this key pair's public key.
    pub fn compute_shared_secret(&self, peer_public: &[u8; 32]) -> (res: SharedSecret)
        requires
            self.wf(),
        ensures
            res.spec_key() == box_beforenm(peer_public@, self.spec_secret()),
            forall|q: KeyExchange|
                q.wf() && q.spec_public() == peer_public@ ==> res.spec_key() == box_beforenm(
                    self.spec_public(),
                    #[trigger] q.spec_secret(),
                ),
    {
        let k = box_precompute(peer_public, &self.secret_key);
        proof {
            assert forall|q: KeyExchange|
                q.wf() && q.spec_public() == peer_public@ implies k@ == box_beforenm(
                self.spec_public(),
                #[trigger] q.spec_secret(),
            ) by {
                assert(peer_public@ == curve25519_public(q.spec_secret()));
            }
        }
        SharedSecret { key: k }
    }
}

/// Precomputed shared secret for symmetric encryption.
#[derive(Clone)]
pub struct SharedSecret {
    key: [u8; 32],
}

/// The symmetric key derived from a shared secret: the 32 bytes of the
/// `crypto_box` precomputation themselves.
pub open spec fn spec_symmetric_key(shared: Seq<u8>) -> Seq<u8> {
    shared
}

impl SharedSecret {
    /// The precomputed key.
    pub closed spec fn spec_key(&self) -> Seq<u8> {
        self.key@
    }

    /// Derive a symmetric key for secretbox from the shared secret: the
    /// 32 bytes of the `crypto_box` precomputation are the secretbox key.
    pub fn derive_symmetric_key(&self) -> (res: [u8; 32])
        ensures
            res@ == spec_symmetric_key(self.spec_key()),
    {
        self.key
    }
}

/// The end of a session that a cipher belongs to.
#[derive(Debug, Clone, Copy, PartialEq, Eq, Structural)]
pub enum Role {
    /// The end that connects and is shown the host's screen.
    Client,
    /// The end that shares its screen.
    Host,
}

/// The other end of a session.
pub open spec fn spec_peer(role: Role) -> Role {
    match role {
        Role::Client => Role::Host,
        Role::Host => Role::Client,
    }
}

/// The byte that marks the direction of a message sent by `role`: 0 from
/// client to host, 1 from host to client.
pub open spec fn spec_direction_byte(role: Role) -> u8 {
    match role {
        Role::Client => 0u8,
        Role::Host => 1u8,
    }
}

/// The 24-byte nonce of the message that `sender` sends with counter value
/// `counter`: the counter (little-endian), the direction byte, then zeros.
pub open spec fn spec_nonce(sender: Role, counter: u64) -> Seq<u8> {
    le64(counter) + seq![spec_direction_byte(sender)] + Seq::new(15, |_i: int| 0u8)
}

/// Errors of the session cipher.
#[derive(Debug, Clone, Copy, PartialEq, Eq)]
pub enum CryptoError {
    InvalidNonce,
    DecryptionFailed,
    InvalidKey,
}

/// How a cipher error is displayed.
pub open spec fn spec_crypto_error_text(e: CryptoError) -> Seq<char> {
    match e {
        CryptoError::InvalidNonce => "Invalid nonce length"@,
        CryptoError::DecryptionFailed => "Decryption failed \u{2014} wrong key or corrupted data"@,
        CryptoError::InvalidKey => "Invalid key length"@,
    }
}

impl CryptoError {
    /// The error as it is displayed to the user.
    pub fn to_string(&self) -> (res: String)
        ensures
            res@ == spec_crypto_error_text(*self),
    {
        match self {
            CryptoError::InvalidNonce => String::from_str("Invalid nonce length"),
            CryptoError::DecryptionFailed => String::from_str("Decryption failed \u{2014} wrong key or corrupted data"),
            CryptoError::InvalidKey => String::from_str("Invalid key length"),
        }
    }
}

/// What decrypting `ciphertext` under `nonce` with `key` gives at the end
/// `role`: a nonce of the wrong length is refused; so is a nonce that does
/// not carry the peer's direction byte (a message of this end's own
/// direction, played back to it); otherwise secretbox decides.
pub open spec fn spec_decrypt(key: Seq<u8>, role: Role, nonce: Seq<u8>, ciphertext: Seq<u8>) -> Result<
    Seq<u8>,
    CryptoError,
> {
    if nonce.len() != NONCE_BYTES {
        Err(CryptoError::InvalidNonce)
    } else if nonce[8] != spec_direction_byte(spec_peer(role)) {
        Err(CryptoError::DecryptionFailed)
    } else {
        match secretbox_opened(ciphertext, nonce, key) {
            Some(m) => Ok(m),
            None => Err(CryptoError::DecryptionFailed),
        }
    }
}

/// Symmetric encryption for a session (XSalsa20-Poly1305 with counter
/// nonces, separate for sending and receiving, and marked with the
/// direction of the message).
#[derive(Clone)]
pub struct SessionCipher {
    key: [u8; 32],
    role: Role,
    send_nonce: u64,
    recv_nonce: u64,
}

impl SessionCipher {
    /// The symmetric key.
    pub closed spec fn spec_key(&self) -> Seq<u8> {
        self.key@
    }

    /// The end of the session this cipher belongs to.
    pub closed spec fn spec_role(&self) -> Role {
        self.role
    }

    /// The counter of the next nonce used for sending.
    pub closed spec fn spec_send_nonce(&self) -> u64 {
        self.send_nonce
    }

    /// The number of messages decrypted so far.
    pub closed spec fn spec_recv_nonce(&self) -> u64 {
        self.recv_nonce
    }

    /// Create a new cipher for the end `role` from a 32-byte symmetric key.
    pub fn new(key_bytes: &[u8; 32], role: Role) -> (res: Self)
        ensures
            res.spec_key() == key_bytes@,
            res.spec_role() == role,
            res.spec_send_nonce() == 0,
            res.spec_recv_nonce() == 0,
    {
        SessionCipher { key: *key_bytes, role, send_nonce: 0, recv_nonce: 0 }
    }

    /// The end of the session this cipher belongs to.
    pub fn role(&self) -> (res: Role)
        ensures
            res == self.spec_role(),
    {
        self.role
    }

    /// The counter of the next nonce used for sending.
    pub fn send_counter(&self) -> (res: u64)
        ensures
            res == self.spec_send_nonce(),
    {
        self.send_nonce
    }

    /// The number of messages decrypted so far.
    pub fn recv_counter(&self) -> (res: u64)
        ensures
            res == self.spec_recv_nonce(),
    {
        self.recv_nonce
    }

    fn direction_byte(role: Role) -> (res: u8)
        ensures
            res == spec_direction_byte(role),
    {
        match role {
            Role::Client => 0u8,
            Role::Host => 1u8,
        }
    }

    fn make_nonce(&self, counter: u64) -> (res: [u8; 24])
        ensures
            res@ == spec_nonce(self.spec_role(), counter),
    {
        let mut v: Vec<u8> = Vec::new();
        push_le64(&mut v, counter);
        let d = Self::direction_byte(self.role);
        let n: [u8; 24] = [
            v[0], v[1], v[2], v[3], v[4], v[5], v[6], v[7],
            d, 0, 0, 0, 0, 0, 0, 0, 0, 0, 0, 0, 0, 0, 0, 0,
        ];
        assert(n@ =~= spec_nonce(self.spec_role(), counter));
        n
    }

    /// Encrypt plaintext for sending.
    /// Returns `(nonce_bytes, ciphertext_with_mac)`; the nonce is the send
    /// counter marked with this end's direction, and the counter then
    /// advances.  The peer's cipher (same key, other end) decrypts the pair
    /// back to the plaintext; this end's own cipher refuses it.
    pub fn encrypt(&mut self, plaintext: &[u8]) -> (res: (Vec<u8>, Vec<u8>))
        requires
            old(self).spec_send_nonce() < u64::MAX,
        ensures
            res.0@ == spec_nonce(old(self).spec_role(), old(self).spec_send_nonce()),
            res.1@ == secretbox_sealed(plaintext@, res.0@, old(self).spec_key()),
            res.1@.len() == plaintext@.len() + MAC_BYTES,
            spec_decrypt(old(self).spec_key(), spec_peer(old(self).spec_role()), res.0@, res.1@) == Ok::<
                Seq<u8>,
                CryptoError,
            >(plaintext@),
            spec_decrypt(old(self).spec_key(), old(self).spec_role(), res.0@, res.1@) is Err,
            spec_encrypt_step(*old(self), *final(self), plaintext@, res.0@, res.1@),
            final(self).spec_key() == old(self).spec_key(),
            final(self).spec_role() == old(self).spec_role(),
            final(self).spec_send_nonce() == old(self).spec_send_nonce() + 1,
            final(self).spec_recv_nonce() == old(self).spec_recv_nonce(),
    {
        let nonce = self.make_nonce(self.send_nonce);
        self.send_nonce = self.send_nonce + 1;
        let ciphertext = secretbox_seal(plaintext, &nonce, &self.key);
        let nonce_vec = vstd::slice::slice_to_vec(&nonce);
        (nonce_vec, ciphertext)
    }

    /// Decrypt a received message given its nonce and its ciphertext (with
    /// MAC).  A nonce of the wrong length, a nonce of this end's own
    /// direction, or a ciphertext that fails verification (one shorter than
    /// the MAC among them) is refused; each success advances the receive
    /// counter.
    pub fn decrypt(&mut self, nonce_bytes: &[u8], ciphertext: &[u8]) -> (res: Result<Vec<u8>, CryptoError>)
        requires
            old(self).spec_recv_nonce() < u64::MAX,
        ensures
            match (res, spec_decrypt(old(self).spec_key(), old(self).spec_role(), nonce_bytes@, ciphertext@)) {
                (Ok(v), Ok(m)) => v@ == m,
                (Err(e), Err(f)) => e == f,
                _ => false,
            },
            ciphertext@.len() < MAC_BYTES ==> res is Err,
            final(self).spec_key() == old(self).spec_key(),
            final(self).spec_role() == old(self).spec_role(),
            final(self).spec_send_nonce() == old(self).spec_send_nonce(),
            final(self).spec_recv_nonce() == if res is Ok {
                old(self).spec_recv_nonce() + 1
            } else {
                old(self).spec_recv_nonce() as int
            },
    {
        if nonce_bytes.len() != NONCE_BYTES {
            return Err(CryptoError::InvalidNonce);
        }
        let peer = match self.role {
            Role::Client => Role::Host,
            Role::Host => Role::Client,
        };
        if nonce_bytes[8] != Self::direction_byte(peer) {
            return Err(CryptoError::DecryptionFailed);
        }
        let nonce: [u8; 24] = [
            nonce_bytes[0], nonce_bytes[1], nonce_bytes[2], nonce_bytes[3], nonce_bytes[4], nonce_bytes[5],
            nonce_bytes[6], nonce_bytes[7], nonce_bytes[8], nonce_bytes[9], nonce_bytes[10], nonce_bytes[11],
            nonce_bytes[12], nonce_bytes[13], nonce_bytes[14], nonce_bytes[15], nonce_bytes[16], nonce_bytes[17],
            nonce_bytes[18], nonce_bytes[19], nonce_bytes[20], nonce_bytes[21], nonce_bytes[22], nonce_bytes[23],
        ];
        assert(nonce@ =~= nonce_bytes@);
        match secretbox_open(ciphertext, &nonce, &self.key) {
            Some(plaintext) => {
                self.recv_nonce = self.recv_nonce + 1;
                Ok(plaintext)
            },
            None => Err(CryptoError::DecryptionFailed),
        }
    }
}

/// The nonce spaces of a session are disjoint: two messages sent under one
/// key, by different ends or with different counters, never share a nonce.
pub proof fn law_nonces_distinct(r1: Role, a: u64, r2: Role, b: u64)
    requires
        r1 != r2 || a != b,
    ensures
        spec_nonce(r1, a) != spec_nonce(r2, b),
{
    crate::bytes::lemma_le32_roundtrip((a % 4294967296) as u32);
    crate::bytes::lemma_le32_roundtrip((a / 4294967296) as u32);
    crate::bytes::lemma_le32_roundtrip((b % 4294967296) as u32);
    crate::bytes::lemma_le32_roundtrip((b / 4294967296) as u32);
    if spec_nonce(r1, a) == spec_nonce(r2, b) {
        let na = spec_nonce(r1, a);
        let nb = spec_nonce(r2, b);
        assert(na[8] == nb[8]);
        assert(na[0] == nb[0] && na[1] == nb[1] && na[2] == nb[2] && na[3] == nb[3]);
        assert(na[4] == nb[4] && na[5] == nb[5] && na[6] == nb[6] && na[7] == nb[7]);
        assert(a % 4294967296 == b % 4294967296);
        assert(a / 4294967296 == b / 4294967296);
        assert(a == b);
    }
}

/// What one call of `encrypt` does: the message `plaintext` is sealed
/// under the next send nonce as `(nonce, ciphertext)`, which the peer opens
/// and the sender refuses; the send counter advances by one and nothing
/// else changes.
pub open spec fn spec_encrypt_step(
    before: SessionCipher,
    after: SessionCipher,
    plaintext: Seq<u8>,
    nonce: Seq<u8>,
    ciphertext: Seq<u8>,
) -> bool {
    &&& nonce == spec_nonce(before.spec_role(), before.spec_send_nonce())
    &&& spec_decrypt(before.spec_key(), spec_peer(before.spec_role()), nonce, ciphertext) == Ok::<
        Seq<u8>,
        CryptoError,
    >(plaintext)
    &&& spec_decrypt(before.spec_key(), before.spec_role(), nonce, ciphertext) is Err
    &&& after.spec_key() == before.spec_key()
    &&& after.spec_role() == before.spec_role()
    &&& after.spec_send_nonce() == before.spec_send_nonce() + 1
    &&& after.spec_recv_nonce() == before.spec_recv_nonce()
}

/// Over a session, every message that one end encrypts, in turn, is
/// opened by the other end with the same key (whatever the receiver's
/// counters), is refused by the sender, and no two of them share a nonce.
pub proof fn law_session_round_trip(
    run: Seq<SessionCipher>,
    plaintexts: Seq<Seq<u8>>,
    nonces: Seq<Seq<u8>>,
    ciphertexts: Seq<Seq<u8>>,
)
    requires
        run.len() == plaintexts.len() + 1,
        nonces.len() == plaintexts.len(),
        ciphertexts.len() == plaintexts.len(),
        forall|i: int|
            0 <= i < plaintexts.len() ==> spec_encrypt_step(
                #[trigger] run[i],
                run[i + 1],
                plaintexts[i],
                nonces[i],
                ciphertexts[i],
            ),
    ensures
        forall|i: int|
            0 <= i < plaintexts.len() ==> {
                &&& spec_decrypt(run[0].spec_key(), spec_peer(run[0].spec_role()), #[trigger] nonces[i], ciphertexts[i])
                    == Ok::<Seq<u8>, CryptoError>(plaintexts[i])
                &&& spec_decrypt(run[0].spec_key(), run[0].spec_role(), nonces[i], ciphertexts[i]) is Err
                &&& nonces[i] == spec_nonce(run[0].spec_role(), (run[0].spec_send_nonce() + i) as u64)
            },
        forall|i: int, j: int| 0 <= i < j < plaintexts.len() ==> #[trigger] nonces[i] != #[trigger] nonces[j],
    decreases plaintexts.len(),
{
    let m = plaintexts.len();
    if m > 0 {
        let r = run.drop_last();
        let p = plaintexts.drop_last();
        let n = nonces.drop_last();
        let c = ciphertexts.drop_last();
        assert forall|i: int| 0 <= i < p.len() implies spec_encrypt_step(#[trigger] r[i], r[i + 1], p[i], n[i], c[i]) by {
            assert(spec_encrypt_step(run[i], run[i + 1], plaintexts[i], nonces[i], ciphertexts[i]));
        }
        law_session_round_trip(r, p, n, c);
        let last = (m - 1) as int;
        assert(spec_encrypt_step(run[last], run[last + 1], plaintexts[last], nonces[last], ciphertexts[last]));
        assert forall|k: int| 0 <= k <= last implies {
            &&& (#[trigger] run[k]).spec_key() == run[0].spec_key()
            &&& run[k].spec_role() == run[0].spec_role()
            &&& run[k].spec_send_nonce() == run[0].spec_send_nonce() + k
        } by {
            lemma_run_counters(run, plaintexts, nonces, ciphertexts, k);
        }
        assert forall|i: int| 0 <= i < m implies {
            &&& spec_decrypt(run[0].spec_key(), spec_peer(run[0].spec_role()), #[trigger] nonces[i], ciphertexts[i])
                == Ok::<Seq<u8>, CryptoError>(plaintexts[i])
            &&& spec_decrypt(run[0].spec_key(), run[0].spec_role(), nonces[i], ciphertexts[i]) is Err
            &&& nonces[i] == spec_nonce(run[0].spec_role(), (run[0].spec_send_nonce() + i) as u64)
        } by {
            if i < last {
                assert(n[i] == nonces[i] && c[i] == ciphertexts[i] && p[i] == plaintexts[i]);
            }
        }
        assert forall|i: int, j: int| 0 <= i < j < m implies #[trigger] nonces[i] != #[trigger] nonces[j] by {
            if j < last {
                assert(n[i] == nonces[i] && n[j] == nonces[j]);
            } else {
                lemma_run_counters(run, plaintexts, nonces, ciphertexts, i);
                lemma_run_counters(run, plaintexts, nonces, ciphertexts, j);
                law_nonces_distinct(
                    run[0].spec_role(),
                    (run[0].spec_send_nonce() + i) as u64,
                    run[0].spec_role(),
                    (run[0].spec_send_nonce() + j) as u64,
                );
            }
        }
    }
}

proof fn lemma_run_counters(
    run: Seq<SessionCipher>,
    plaintexts: Seq<Seq<u8>>,
    nonces: Seq<Seq<u8>>,
    ciphertexts: Seq<Seq<u8>>,
    k: int,
)
    requires
        run.len() == plaintexts.len() + 1,
        nonces.len() == plaintexts.len(),
        ciphertexts.len() == plaintexts.len(),
        forall|i: int|
            0 <= i < plaintexts.len() ==> spec_encrypt_step(
                #[trigger] run[i],
                run[i + 1],
                plaintexts[i],
                nonces[i],
                ciphertexts[i],
            ),
        0 <= k < run.len(),
    ensures
        run[k].spec_key() == run[0].spec_key(),
        run[k].spec_role() == run[0].spec_role(),
        run[k].spec_send_nonce() == run[0].spec_send_nonce() + k,
    decreases k,
{
    if k > 0 {
        lemma_run_counters(run, plaintexts, nonces, ciphertexts, k - 1);
        assert(spec_encrypt_step(run[k - 1], run[k], plaintexts[k - 1], nonces[k - 1], ciphertexts[k - 1]));
    }
}

/// A message cannot be played back to the end that sent it: whatever the
/// key and the ciphertext, a nonce of `role`'s own direction is refused by
/// `role`.
pub proof fn law_no_replay_to_sender(key: Seq<u8>, role: Role, counter: u64, ciphertext: Seq<u8>)
    ensures
        spec_decrypt(key, role, spec_nonce(role, counter), ciphertext) is Err,
{
    assert(spec_nonce(role, counter)[8] == spec_direction_byte(role));
}

/// The cipher of the end `role` of a session, keyed from this end's key pair and
/// the peer's public key.  Both ends obtain the same key: when
/// `peer_public` belongs to a key pair `q`, the key equals the one that `q`
/// derives from this end's public key.
pub fn session_cipher_for(kx: &KeyExchange, peer_public: &[u8; 32], role: Role) -> (res: SessionCipher)
    requires
        kx.wf(),
    ensures
        res.spec_key() == spec_symmetric_key(box_beforenm(peer_public@, kx.spec_secret())),
        forall|q: KeyExchange|
            q.wf() && q.spec_public() == peer_public@ ==> res.spec_key() == spec_symmetric_key(
                box_beforenm(kx.spec_public(), #[trigger] q.spec_secret()),
            ),
        res.spec_role() == role,
        res.spec_send_nonce() == 0,
        res.spec_recv_nonce() == 0,
{
    let shared = kx.compute_shared_secret(peer_public);
    let key = shared.derive_symmetric_key();
    SessionCipher::new(&key, role)
}


/// What opening a sealed message gives at the end `role`: the first
/// `NONCE_BYTES` bytes are the nonce and the rest is the ciphertext.
pub open spec fn spec_open_message(key: Seq<u8>, role: Role, sealed: Seq<u8>) -> Result<Seq<u8>, CryptoError> {
    if sealed.len() < NONCE_BYTES {
        Err(CryptoError::InvalidNonce)
    } else {
        spec_decrypt(key, role, sealed.take(NONCE_BYTES as int), sealed.skip(NONCE_BYTES as int))
    }
}

impl SessionCipher {
    /// Encrypts one message payload for the wire: `nonce ++ ciphertext`.
    /// The peer's cipher (same key, other end) opens it back to the payload;
    /// this end's own cipher refuses it.
    pub fn seal_message(&mut self, payload: &[u8]) -> (res: Vec<u8>)
        requires
            old(self).spec_send_nonce() < u64::MAX,
        ensures
            res@ == spec_nonce(old(self).spec_role(), old(self).spec_send_nonce()) + secretbox_sealed(
                payload@,
                spec_nonce(old(self).spec_role(), old(self).spec_send_nonce()),
                old(self).spec_key(),
            ),
            spec_open_message(old(self).spec_key(), spec_peer(old(self).spec_role()), res@) == Ok::<
                Seq<u8>,
                CryptoError,
            >(payload@),
            spec_open_message(old(self).spec_key(), old(self).spec_role(), res@) is Err,
            final(self).spec_key() == old(self).spec_key(),
            final(self).spec_role() == old(self).spec_role(),
            final(self).spec_send_nonce() == old(self).spec_send_nonce() + 1,
            final(self).spec_recv_nonce() == old(self).spec_recv_nonce(),
    {
        let (nonce, ct) = self.encrypt(payload);
        let mut out = nonce;
        crate::bytes::push_all(&mut out, ct.as_slice());
        proof {
            assert(out@.take(NONCE_BYTES as int) =~= nonce@);
            assert(out@.skip(NONCE_BYTES as int) =~= ct@);
        }
        out
    }

    /// Opens a message sealed by `seal_message`.
    pub fn open_message(&mut self, sealed: &[u8]) -> (res: Result<Vec<u8>, CryptoError>)
        requires
            old(self).spec_recv_nonce() < u64::MAX,
        ensures
            match (res, spec_open_message(old(self).spec_key(), old(self).spec_role(), sealed@)) {
                (Ok(v), Ok(m)) => v@ == m,
                (Err(e), Err(f)) => e == f,
                _ => false,
            },
            sealed@.len() < NONCE_BYTES + MAC_BYTES ==> res is Err,
            final(self).spec_key() == old(self).spec_key(),
            final(self).spec_role() == old(self).spec_role(),
            final(self).spec_send_nonce() == old(self).spec_send_nonce(),
            final(self).spec_recv_nonce() == if res is Ok {
                old(self).spec_recv_nonce() + 1
            } else {
                old(self).spec_recv_nonce() as int
            },
    {
        if sealed.len() < NONCE_BYTES {
            return Err(CryptoError::InvalidNonce);
        }
        let nonce = vstd::slice::slice_subrange(sealed, 0, NONCE_BYTES);
        let ct = vstd::slice::slice_subrange(sealed, NONCE_BYTES, sealed.len());
        assert(nonce@ =~= sealed@.take(NONCE_BYTES as int));
        assert(ct@ =~= sealed@.skip(NONCE_BYTES as int));
        self.decrypt(nonce, ct)
    }
}

} // verus!
