//! Secrets that have to be given back, kept safe on a volume that travels.
//!
//! The volume holds ciphertext, and the key is the one thing not on it. The
//! cipher is authenticated: a value somebody tampered with fails to open rather
//! than opening to something else. Every value has a nonce of its own, drawn
//! fresh and never derived.

use vstd::prelude::*;
use vstd::string::*;
use vstd::utf8::*;

use chacha20poly1305::aead::{Aead, KeyInit};
use chacha20poly1305::{ChaCha20Poly1305, Nonce};

use crate::text;
use crate::text::{bytes_in, chars_of, number, owned, trim};

verus! {

/// How many bytes the key is, before hex encoding.
pub const KEY_BYTES: usize = 32;

/// How many hex characters the key is.
pub const KEY_HEX_LEN: usize = 64;

/// How many bytes a nonce is.
pub const NONCE_BYTES: usize = 12;

/// How many bytes the cipher adds to what it seals.
pub const TAG_BYTES: usize = 16;

/// The longest plaintext the cipher takes: its block counter, which the first
/// block has moved on by one, has no more blocks to give.
pub const SEAL_LIMIT: u64 = 274_877_906_816;

/// The setting that holds the key.
pub const SECRET_KEY: &'static str = "SC_SERVER_SECRET_KEY";

// ---------------------------------------------------------------------------
// The cipher, the random source and UTF-8
// ---------------------------------------------------------------------------

/// What ChaCha20-Poly1305 makes of a plaintext under a key and a nonce.
pub uninterp spec fn sealed_bytes(key: Seq<u8>, nonce: Seq<u8>, plain: Seq<u8>) -> Seq<u8>;

/// What ChaCha20-Poly1305 makes of a ciphertext under a key and a nonce, where
/// its tag holds.
pub uninterp spec fn opened_bytes(key: Seq<u8>, nonce: Seq<u8>, cipher: Seq<u8>) -> Option<Seq<u8>>;

/// A list of bytes that may be absent.
pub open spec fn opt_bytes(o: Option<Vec<u8>>) -> Option<Seq<u8>> {
    match o {
        Some(v) => Some(v@),
        None => None,
    }
}

/// `ChaCha20Poly1305::encrypt`: the ciphertext, which is the plaintext's length
/// and a tag long. It errs on a plaintext longer than the bound here, and so
/// never on one that is admitted.
#[verifier::external_body]
fn encrypt(key: &[u8; 32], nonce: &[u8; 12], plain: &[u8]) -> (r: Vec<u8>)
    requires
        plain@.len() <= SEAL_LIMIT,
    ensures
        r@ == sealed_bytes(key@, nonce@, plain@),
        r@.len() == plain@.len() + TAG_BYTES,
{
    ChaCha20Poly1305::new(&(*key).into())
        .encrypt(&Nonce::from(*nonce), plain)
        .expect("a plaintext within the bound is encrypted")
}

/// Do two ciphertexts agree for so many bytes and differ in the tag behind them?
pub open spec fn other_tag(cipher: Seq<u8>, made: Seq<u8>, len: nat) -> bool {
    &&& cipher.len() == len + TAG_BYTES
    &&& made.len() == len + TAG_BYTES
    &&& cipher.take(len as int) == made.take(len as int)
    &&& cipher != made
}

/// `ChaCha20Poly1305::decrypt`: the plaintext, or nothing where the tag does not
/// hold. What `encrypt` made under the same key and nonce opens to what went in,
/// and what opens is what `encrypt` would make of it: the tag is taken over the
/// ciphertext and compared whole, and the two apply one and the same keystream.
/// For the same reason nothing opens that agrees with what `encrypt` made up to
/// the tag and has another tag.
#[verifier::external_body]
fn decrypt(key: &[u8; 32], nonce: &[u8; 12], cipher: &[u8]) -> (r: Option<Vec<u8>>)
    requires
        cipher@.len() <= SEAL_LIMIT + TAG_BYTES,
    ensures
        opt_bytes(r) == opened_bytes(key@, nonce@, cipher@),
        forall|p: Seq<u8>|
            p.len() <= SEAL_LIMIT && cipher@ == #[trigger] sealed_bytes(key@, nonce@, p)
                ==> opt_bytes(r) == Some(p),
        r matches Some(v) ==> cipher@ == sealed_bytes(key@, nonce@, v@),
        forall|p: Seq<u8>| #[trigger]
            other_tag(cipher@, sealed_bytes(key@, nonce@, p), p.len()) && p.len() <= SEAL_LIMIT
                ==> r is None,
{
    ChaCha20Poly1305::new(&(*key).into()).decrypt(&Nonce::from(*nonce), cipher).ok()
}

/// `getrandom::fill`: so many bytes from the operating system's random source,
/// or nothing where it is unavailable. Nothing is claimed of the bytes.
#[verifier::external_body]
pub(crate) fn random_bytes(n: usize) -> (r: Option<Vec<u8>>)
    ensures
        r matches Some(v) ==> v@.len() == n,
{
    let mut bytes = vec![0u8; n];
    getrandom::fill(&mut bytes).ok()?;
    Some(bytes)
}

/// `String::from_utf8`: the text that bytes spell in UTF-8, where they spell one.
#[verifier::external_body]
fn utf8_text(bytes: Vec<u8>) -> (r: Option<String>)
    ensures
        match r {
            Some(s) => valid_utf8(bytes@) && s@ == decode_utf8(bytes@),
            None => !valid_utf8(bytes@),
        },
{
    String::from_utf8(bytes).ok()
}

// ---------------------------------------------------------------------------
// Hexadecimal
// ---------------------------------------------------------------------------

/// Is this a hexadecimal digit, in either case?
pub open spec fn is_hex(c: char) -> bool {
    '0' <= c <= '9' || 'a' <= c <= 'f' || 'A' <= c <= 'F'
}

/// What a hexadecimal digit counts.
pub open spec fn hex_value(c: char) -> int {
    if '0' <= c <= '9' {
        c as int - '0' as int
    } else if 'a' <= c <= 'f' {
        c as int - 'a' as int + 10
    } else {
        c as int - 'A' as int + 10
    }
}

/// The hexadecimal digit for a count below sixteen.
pub open spec fn hex_digit(n: int) -> char {
    if n < 10 {
        ((48 + n) as u32) as char
    } else {
        ((87 + n) as u32) as char
    }
}

/// Bytes in lower-case hexadecimal, two digits to each.
pub open spec fn hexed(bytes: Seq<u8>) -> Seq<char> {
    Seq::new(
        bytes.len() * 2,
        |i: int|
            hex_digit(
                if i % 2 == 0 {
                    bytes[i / 2] as int / 16
                } else {
                    bytes[i / 2] as int % 16
                },
            ),
    )
}

/// Is this a run of whole bytes in hexadecimal?
pub open spec fn is_hex_text(s: Seq<char>) -> bool {
    s.len() % 2 == 0 && forall|i: int| 0 <= i < s.len() ==> is_hex(#[trigger] s[i])
}

/// Is this a hexadecimal digit in lower case?
pub open spec fn is_lower_hex(c: char) -> bool {
    '0' <= c <= '9' || 'a' <= c <= 'f'
}

proof fn lemma_hexed_is_lower(bytes: Seq<u8>)
    ensures
        forall|i: int| 0 <= i < hexed(bytes).len() ==> is_lower_hex(#[trigger] hexed(bytes)[i]),
{
    assert forall|i: int| 0 <= i < hexed(bytes).len() implies is_lower_hex(
        #[trigger] hexed(bytes)[i],
    ) by {
        assert(0 <= bytes[i / 2] as int / 16 < 16);
    }
}

/// The bytes that hexadecimal spells, where it spells any.
pub open spec fn unhexed(s: Seq<char>) -> Option<Seq<u8>> {
    if is_hex_text(s) {
        Some(
            Seq::new(
                s.len() / 2,
                |i: int| (16 * hex_value(s[2 * i]) + hex_value(s[2 * i + 1])) as u8,
            ),
        )
    } else {
        None
    }
}

/// What was written in hexadecimal reads back.
pub proof fn law_hex_reads_back(bytes: Seq<u8>)
    ensures
        unhexed(hexed(bytes)) == Some(bytes),
{
    let s = hexed(bytes);
    assert forall|i: int| 0 <= i < s.len() implies is_hex(#[trigger] s[i]) by {
        let b = bytes[i / 2] as int;
        assert(0 <= b / 16 < 16);
    }
    let back = unhexed(s).unwrap();
    assert forall|i: int| 0 <= i < bytes.len() implies back[i] == bytes[i] by {
        let b = bytes[i] as int;
        assert((2 * i) / 2 == i && (2 * i) % 2 == 0);
        assert((2 * i + 1) / 2 == i && (2 * i + 1) % 2 == 1);
        assert(s[2 * i] == hex_digit(b / 16));
        assert(s[2 * i + 1] == hex_digit(b % 16));
        assert(0 <= b / 16 < 16);
        assert(hex_value(hex_digit(b / 16)) == b / 16);
        assert(hex_value(hex_digit(b % 16)) == b % 16);
    }
    assert(back =~= bytes);
}

fn hex_char(n: u8) -> (r: char)
    requires
        n < 16,
    ensures
        r == hex_digit(n as int),
{
    if n < 10 {
        (48 + n) as char
    } else {
        (87 + n) as char
    }
}

fn hex_of(c: char) -> (r: Option<u8>)
    ensures
        match r {
            Some(n) => is_hex(c) && n == hex_value(c) && n < 16,
            None => !is_hex(c),
        },
{
    if '0' <= c && c <= '9' {
        Some(c as u8 - 48)
    } else if 'a' <= c && c <= 'f' {
        Some(c as u8 - 87)
    } else if 'A' <= c && c <= 'F' {
        Some(c as u8 - 55)
    } else {
        None
    }
}

/// Bytes in hexadecimal.
pub fn hex(bytes: &[u8]) -> (r: String)
    ensures
        r@ == hexed(bytes@),
{
    let mut out = String::new();
    let mut i: usize = 0;
    while i < bytes.len()
        invariant
            i <= bytes@.len(),
            out@ == hexed(bytes@.take(i as int)),
        decreases bytes@.len() - i,
    {
        let b = bytes[i];
        let ghost before = out@;
        out.push(hex_char(b / 16));
        out.push(hex_char(b % 16));
        proof {
            let t = bytes@.take(i + 1);
            assert(before =~= hexed(bytes@.take(i as int)));
            assert forall|k: int| 0 <= k < 2 * (i + 1) implies out@[k] == hexed(t)[k] by {
                if k < 2 * i {
                    assert(before[k] == hexed(bytes@.take(i as int))[k]);
                    assert(t[k / 2] == bytes@.take(i as int)[k / 2]);
                } else {
                    assert(k / 2 == i);
                }
            }
            assert(out@ =~= hexed(t));
        }
        i = i + 1;
    }
    assert(bytes@.take(i as int) =~= bytes@);
    out
}

/// The bytes that hexadecimal spells, where it spells any.
pub fn unhex(s: &str) -> (r: Option<Vec<u8>>)
    ensures
        opt_bytes(r) == unhexed(s@),
{
    let v = chars_of(s);
    if v.len() % 2 != 0 {
        return None;
    }
    let mut out: Vec<u8> = Vec::new();
    let n: usize = v.len();
    let half: usize = n / 2;
    let mut i: usize = 0;
    while i < half
        invariant
            v@ == s@,
            n == v@.len(),
            n == 2 * half,
            i <= half,
            out@.len() == i,
            forall|k: int| 0 <= k < 2 * i ==> is_hex(#[trigger] s@[k]),
            forall|k: int|
                0 <= k < i ==> #[trigger] out@[k] == (16 * hex_value(s@[2 * k]) + hex_value(
                    s@[2 * k + 1],
                )) as u8,
        decreases half - i,
    {
        match (hex_of(v[2 * i]), hex_of(v[2 * i + 1])) {
            (Some(h), Some(l)) => {
                out.push(16 * h + l);
            },
            (Some(_), None) => {
                assert(!is_hex(s@[2 * i + 1]));
                return None;
            },
            (None, _) => {
                assert(!is_hex(s@[2 * i as int]));
                return None;
            },
        }
        i = i + 1;
    }
    assert(out@ =~= unhexed(s@).unwrap());
    Some(out)
}

// ---------------------------------------------------------------------------
// The key
// ---------------------------------------------------------------------------

/// The key this server seals with, parsed once at startup.
pub struct SealKey {
    bytes: [u8; 32],
}

impl View for SealKey {
    type V = Seq<u8>;

    closed spec fn view(&self) -> Seq<u8> {
        self.bytes@
    }
}

impl Clone for SealKey {
    fn clone(&self) -> (r: Self)
        ensures
            r@ == self@,
    {
        SealKey { bytes: self.bytes }
    }
}

impl PartialEq for SealKey {
    /// Looks at every byte whatever the first ones were: how long it takes says
    /// nothing of where two keys differ.
    fn eq(&self, other: &Self) -> (r: bool) {
        let mut acc: u8 = 0;
        let mut i: usize = 0;
        assert(self.bytes@.take(0) =~= other.bytes@.take(0));
        while i < 32
            invariant
                i <= 32,
                acc == 0 <==> self.bytes@.take(i as int) == other.bytes@.take(i as int),
            decreases 32 - i,
        {
            let a: u8 = self.bytes[i];
            let b: u8 = other.bytes[i];
            let ghost was = acc;
            assert((was | (a ^ b)) == 0 <==> was == 0 && a == b) by (bit_vector);
            acc = acc | (a ^ b);
            proof {
                let s = self.bytes@.take(i + 1);
                let t = other.bytes@.take(i + 1);
                assert(s.drop_last() =~= self.bytes@.take(i as int));
                assert(t.drop_last() =~= other.bytes@.take(i as int));
                if acc == 0 {
                    assert(s =~= s.drop_last().push(a));
                    assert(t =~= t.drop_last().push(b));
                } else if s == t {
                    assert(s.last() == a && t.last() == b);
                }
            }
            i = i + 1;
        }
        assert(self.bytes@.take(i as int) =~= self.bytes@);
        assert(other.bytes@.take(i as int) =~= other.bytes@);
        acc == 0
    }
}

impl vstd::std_specs::cmp::PartialEqSpecImpl for SealKey {
    open spec fn obeys_eq_spec() -> bool {
        true
    }

    open spec fn eq_spec(&self, other: &Self) -> bool {
        self@ == other@
    }
}

impl Eq for SealKey {

}

/// What an operator is told of a key of the wrong length.
pub open spec fn wrong_length(len: nat) -> Seq<char> {
    "a sealing key is 64 hex characters and this one is "@ + text::decimal(len)
        + ". Generate one with `openssl rand -hex 32`, or read the one this server logs on a first start."@
}

/// What an operator is told of a key that is not hexadecimal.
pub open spec fn not_hex() -> Seq<char> {
    "a sealing key is hexadecimal, and this one is not"@
}

impl SealKey {
    /// Parse the hex form an operator sets: exactly [`KEY_HEX_LEN`] hexadecimal
    /// characters, once the whitespace around them is gone.
    pub fn parse(hex: &str) -> (r: Result<SealKey, String>)
        ensures
            ({
                let t = text::trimmed(hex@);
                match r {
                    Ok(k) => text::byte_len(t) == KEY_HEX_LEN && unhexed(t) == Some(k@) && k@.len()
                        == KEY_BYTES,
                    Err(e) => if text::byte_len(t) != KEY_HEX_LEN {
                        e@ == wrong_length(text::byte_len(t))
                    } else {
                        unhexed(t) is None && e@ == not_hex()
                    },
                }
            }),
    {
        let t = trim(hex);
        let len = bytes_in(t);
        if len != KEY_HEX_LEN {
            return Err(
                owned("a sealing key is 64 hex characters and this one is ").concat(
                    number(len as u64).as_str(),
                ).concat(
                    ". Generate one with `openssl rand -hex 32`, or read the one this server logs on a first start.",
                ),
            );
        }
        match unhex(t) {
            None => Err(owned("a sealing key is hexadecimal, and this one is not")),
            Some(v) => {
                proof {
                    lemma_hex_is_ascii(t@);
                }
                let mut bytes: [u8; 32] = [0u8; 32];
                let mut i: usize = 0;
                while i < 32
                    invariant
                        i <= 32,
                        v@.len() == 32,
                        bytes@.take(i as int) == v@.take(i as int),
                    decreases 32 - i,
                {
                    let ghost before = bytes@;
                    bytes[i] = v[i];
                    assert(bytes@.take(i as int) =~= before.take(i as int));
                    assert(bytes@.take(i + 1) =~= bytes@.take(i as int).push(v@[i as int]));
                    assert(v@.take(i + 1) =~= v@.take(i as int).push(v@[i as int]));
                    i = i + 1;
                }
                assert(bytes@.take(i as int) =~= bytes@);
                assert(v@.take(i as int) =~= v@);
                Ok(SealKey { bytes })
            },
        }
    }

    /// What a diagnostic shows of a key: that there is one.
    pub fn shown(&self) -> (r: String)
        ensures
            r@ == "SealKey(…)"@,
    {
        owned("SealKey(…)")
    }
}

proof fn lemma_hex_is_ascii(s: Seq<char>)
    requires
        is_hex_text(s),
    ensures
        text::byte_len(s) == s.len(),
{
    assert(is_ascii_chars(s)) by {
        assert forall|i: int| 0 <= i < s.len() implies (s[i] as nat) < 128 by {
            assert(is_hex(s[i]));
        }
    }
    is_ascii_chars_encode_utf8(s);
}

// ---------------------------------------------------------------------------
// Sealing and opening
// ---------------------------------------------------------------------------

/// One secret, encrypted. Stored as hexadecimal.
pub struct Sealed {
    /// Fresh per seal, never derived.
    pub nonce: String,
    pub ciphertext: String,
    /// When this value was last written.
    pub set_ms: u64,
}

/// One secret, encrypted, as contracts speak of it.
pub struct SealedView {
    pub nonce: Seq<char>,
    pub ciphertext: Seq<char>,
    pub set_ms: u64,
}

impl View for Sealed {
    type V = SealedView;

    open spec fn view(&self) -> SealedView {
        SealedView { nonce: self.nonce@, ciphertext: self.ciphertext@, set_ms: self.set_ms }
    }
}

impl Default for Sealed {
    /// Nothing was ever sealed here.
    fn default() -> (r: Self)
        ensures
            r@ == (SealedView { nonce: Seq::empty(), ciphertext: Seq::empty(), set_ms: 0 }),
    {
        Sealed { nonce: String::new(), ciphertext: String::new(), set_ms: 0 }
    }
}

/// What sealing a text under a key and a nonce writes down.
pub open spec fn sealed_as(
    key: Seq<u8>,
    nonce: Seq<u8>,
    plaintext: Seq<char>,
    now_ms: u64,
) -> SealedView {
    SealedView {
        nonce: hexed(nonce),
        ciphertext: hexed(sealed_bytes(key, nonce, encode_utf8(plaintext))),
        set_ms: now_ms,
    }
}

/// Is this what sealing a text under a key writes down, whatever nonce was drawn?
/// Only a text that the cipher takes is ever sealed.
pub open spec fn sealing_of(key: Seq<u8>, sealed: SealedView, plaintext: Seq<char>) -> bool {
    &&& text::byte_len(plaintext) <= SEAL_LIMIT
    &&& exists|nonce: Seq<u8>|
        nonce.len() == NONCE_BYTES && sealed == #[trigger] sealed_as(
            key,
            nonce,
            plaintext,
            sealed.set_ms,
        )
    &&& sealed.ciphertext.len() == 2 * (text::byte_len(plaintext) + TAG_BYTES)
}

/// What a sealed value opens to under a key: nothing where it is unset, is not
/// hexadecimal, has a nonce of another length, was sealed with another key or
/// tampered with, or is not text.
pub open spec fn opened(key: Seq<u8>, sealed: SealedView) -> Option<Seq<char>> {
    if sealed.ciphertext.len() == 0 {
        None
    } else {
        match (unhexed(sealed.nonce), unhexed(sealed.ciphertext)) {
            (Some(nonce), Some(cipher)) => if nonce.len() != NONCE_BYTES || cipher.len()
                > SEAL_LIMIT + TAG_BYTES {
                None
            } else {
                match opened_bytes(key, nonce, cipher) {
                    Some(plain) => if valid_utf8(plain) {
                        Some(decode_utf8(plain))
                    } else {
                        None
                    },
                    None => None,
                }
            },
            _ => None,
        }
    }
}

impl Sealed {
    /// Is there anything here? Not whether it opens: a value sealed with a key
    /// that was lost is still set.
    pub fn is_set(&self) -> (r: bool)
        ensures
            r == (self@.ciphertext.len() > 0),
    {
        !self.ciphertext.as_str().is_empty()
    }
}

fn nonce_of(v: &Vec<u8>) -> (r: [u8; 12])
    requires
        v@.len() == 12,
    ensures
        r@ == v@,
{
    let r: [u8; 12] = [
        v[0],
        v[1],
        v[2],
        v[3],
        v[4],
        v[5],
        v[6],
        v[7],
        v[8],
        v[9],
        v[10],
        v[11],
    ];
    assert(r@ =~= v@);
    r
}

/// Encrypt a secret for the volume under a given nonce.
pub fn seal_with(key: &SealKey, nonce: &[u8; 12], plaintext: &str, now_ms: u64) -> (r: Sealed)
    requires
        text::byte_len(plaintext@) <= SEAL_LIMIT,
    ensures
        r@ == sealed_as(key@, nonce@, plaintext@, now_ms),
        r@.ciphertext.len() == 2 * (text::byte_len(plaintext@) + TAG_BYTES),
{
    let ciphertext = encrypt(&key.bytes, nonce, plaintext.as_bytes());
    Sealed { nonce: hex(nonce.as_slice()), ciphertext: hex(ciphertext.as_slice()), set_ms: now_ms }
}

/// Encrypt a secret for the volume under the nonce that was drawn. Nothing comes
/// back exactly where none was: a predictable nonce is no nonce.
pub fn seal_drawn(
    key: &SealKey,
    nonce: Option<[u8; 12]>,
    plaintext: &str,
    now_ms: u64,
) -> (r: Option<Sealed>)
    requires
        text::byte_len(plaintext@) <= SEAL_LIMIT,
    ensures
        match nonce {
            Some(n) => r matches Some(s) && s@ == sealed_as(key@, n@, plaintext@, now_ms)
                && s@.ciphertext.len() == 2 * (text::byte_len(plaintext@) + TAG_BYTES),
            None => r is None,
        },
{
    match nonce {
        Some(n) => Some(seal_with(key, &n, plaintext, now_ms)),
        None => None,
    }
}

/// Encrypt a secret for the volume, under a fresh nonce. Nothing comes back
/// where the random source is unavailable, which alone decides.
pub fn seal(key: &SealKey, plaintext: &str, now_ms: u64) -> (r: Option<Sealed>)
    requires
        text::byte_len(plaintext@) <= SEAL_LIMIT,
    ensures
        r matches Some(s) ==> sealing_of(key@, s@, plaintext@) && s@.set_ms == now_ms,
{
    let nonce = match random_bytes(NONCE_BYTES) {
        Some(v) => Some(nonce_of(&v)),
        None => None,
    };
    let r = seal_drawn(key, nonce, plaintext, now_ms);
    proof {
        if let Some(n) = nonce {
            assert(r.unwrap()@ == sealed_as(key@, n@, plaintext@, r.unwrap()@.set_ms));
        }
    }
    r
}

/// Is this what reading a secret back gives? What [`seal`] made of a text under
/// this key opens to that text, and nothing opens to a text but what sealing that
/// text under this key and this nonce makes.
pub open spec fn opening_of(key: Seq<u8>, sealed: SealedView, r: Option<Seq<char>>) -> bool {
    &&& r == opened(key, sealed)
    &&& forall|plaintext: Seq<char>|
        #[trigger] sealing_of(key, sealed, plaintext) ==> r == Some(plaintext)
    &&& r matches Some(t) ==> {
        &&& unhexed(sealed.nonce) matches Some(nonce)
        &&& unhexed(sealed.ciphertext) == Some(sealed_bytes(key, nonce, encode_utf8(t)))
    }
    &&& forall|plaintext: Seq<char>| #[trigger] retagged(key, sealed, plaintext) ==> r is None
}

/// Is this what sealing a text writes down, but for the tag?
pub open spec fn retagged(key: Seq<u8>, sealed: SealedView, plaintext: Seq<char>) -> bool {
    let plain = encode_utf8(plaintext);
    match (unhexed(sealed.nonce), unhexed(sealed.ciphertext)) {
        (Some(nonce), Some(cipher)) => plain.len() <= SEAL_LIMIT && nonce.len() == NONCE_BYTES
            && other_tag(cipher, sealed_bytes(key, nonce, plain), plain.len()),
        _ => false,
    }
}

/// What was sealed comes back the same.
pub proof fn law_a_sealed_value_comes_back_the_same(
    key: Seq<u8>,
    sealed: SealedView,
    plaintext: Seq<char>,
    r: Option<Seq<char>>,
)
    requires
        sealing_of(key, sealed, plaintext),
        opening_of(key, sealed, r),
    ensures
        r == Some(plaintext),
{
}

/// What was sealed reads as set whichever key there is now, and is spelled in
/// lower-case hexadecimal: the nonce in twenty-four digits, the rest in some.
pub proof fn law_a_sealed_value_is_set_under_any_key(
    key: Seq<u8>,
    sealed: SealedView,
    plaintext: Seq<char>,
)
    requires
        sealing_of(key, sealed, plaintext),
    ensures
        sealed.ciphertext.len() > 0,
        sealed.nonce.len() == 24,
        forall|i: int| 0 <= i < 24 ==> is_lower_hex(#[trigger] sealed.nonce[i]),
        forall|i: int|
            0 <= i < sealed.ciphertext.len() ==> is_lower_hex(#[trigger] sealed.ciphertext[i]),
{
    let nonce = choose|nonce: Seq<u8>|
        nonce.len() == NONCE_BYTES && sealed == #[trigger] sealed_as(
            key,
            nonce,
            plaintext,
            sealed.set_ms,
        );
    lemma_hexed_is_lower(nonce);
    lemma_hexed_is_lower(sealed_bytes(key, nonce, encode_utf8(plaintext)));
}

/// A value whose ciphertext was changed does not open to what was sealed: either
/// it does not open, or it is itself what sealing another text makes.
pub proof fn law_a_changed_ciphertext_does_not_open_to_what_was_sealed(
    key: Seq<u8>,
    sealed: SealedView,
    plaintext: Seq<char>,
    forged: SealedView,
    r: Option<Seq<char>>,
)
    requires
        sealing_of(key, sealed, plaintext),
        forged.nonce == sealed.nonce,
        unhexed(forged.ciphertext) != unhexed(sealed.ciphertext),
        opening_of(key, forged, r),
    ensures
        r != Some(plaintext),
        r matches Some(t) ==> t != plaintext && (unhexed(forged.nonce) matches Some(nonce) && unhexed(
            forged.ciphertext,
        ) == Some(sealed_bytes(key, nonce, encode_utf8(t)))),
{
    let nonce = choose|nonce: Seq<u8>|
        nonce.len() == NONCE_BYTES && sealed == #[trigger] sealed_as(
            key,
            nonce,
            plaintext,
            sealed.set_ms,
        );
    law_hex_reads_back(nonce);
    law_hex_reads_back(sealed_bytes(key, nonce, encode_utf8(plaintext)));
}

/// A value whose tag was changed, in whichever of its bytes, does not open.
pub proof fn law_a_changed_tag_does_not_open(
    key: Seq<u8>,
    sealed: SealedView,
    plaintext: Seq<char>,
    forged: SealedView,
    r: Option<Seq<char>>,
)
    requires
        sealing_of(key, sealed, plaintext),
        forged.nonce == sealed.nonce,
        unhexed(forged.ciphertext) matches Some(cipher) && unhexed(sealed.ciphertext) matches Some(
            made,
        ) && other_tag(cipher, made, text::byte_len(plaintext)),
        opening_of(key, forged, r),
    ensures
        r is None,
{
    let nonce = choose|nonce: Seq<u8>|
        nonce.len() == NONCE_BYTES && sealed == #[trigger] sealed_as(
            key,
            nonce,
            plaintext,
            sealed.set_ms,
        );
    law_hex_reads_back(nonce);
    law_hex_reads_back(sealed_bytes(key, nonce, encode_utf8(plaintext)));
    assert(retagged(key, forged, plaintext));
}

/// Read a secret back. That a value somebody changed does not open at all rests
/// on the cipher's tag, which holds but for a negligible chance, and is not
/// claimed here.
pub fn open(key: &SealKey, sealed: &Sealed) -> (r: Option<String>)
    ensures
        opening_of(key@, sealed@, text::opt_view(r)),
{
    if !sealed.is_set() {
        return None;
    }
    proof {
        assert forall|plaintext: Seq<char>| #[trigger]
            sealing_of(key@, sealed@, plaintext) implies exists|nonce: Seq<u8>|
            {
                &&& nonce.len() == NONCE_BYTES
                &&& unhexed(sealed@.nonce) == Some(nonce)
                &&& unhexed(sealed@.ciphertext) == Some(
                    #[trigger] sealed_bytes(key@, nonce, encode_utf8(plaintext)),
                )
            } by {
            let nonce = choose|nonce: Seq<u8>|
                nonce.len() == NONCE_BYTES && sealed@ == #[trigger] sealed_as(
                    key@,
                    nonce,
                    plaintext,
                    sealed@.set_ms,
                );
            law_hex_reads_back(nonce);
            law_hex_reads_back(sealed_bytes(key@, nonce, encode_utf8(plaintext)));
        }
    }
    let nonce = match unhex(sealed.nonce.as_str()) {
        Some(v) => {
            if v.len() != NONCE_BYTES {
                return None;
            }
            nonce_of(&v)
        },
        None => {
            return None;
        },
    };
    let cipher = match unhex(sealed.ciphertext.as_str()) {
        Some(v) => v,
        None => {
            return None;
        },
    };
    if (cipher.len() as u64) > SEAL_LIMIT + TAG_BYTES as u64 {
        return None;
    }
    let plain = decrypt(&key.bytes, &nonce, cipher.as_slice());
    proof {
        assert forall|plaintext: Seq<char>| #[trigger]
            sealing_of(key@, sealed@, plaintext) implies opt_bytes(plain) == Some(encode_utf8(plaintext)) && valid_utf8(
            encode_utf8(plaintext),
        ) && decode_utf8(encode_utf8(plaintext)) == plaintext by {
            assert(cipher@ == sealed_bytes(key@, nonce@, encode_utf8(plaintext)));
            encode_utf8_valid_utf8(plaintext);
            encode_utf8_decode_utf8(plaintext);
        }
    }
    match plain {
        Some(p) => {
            proof {
                if valid_utf8(p@) {
                    decode_utf8_encode_utf8(p@);
                }
            }
            utf8_text(p)
        },
        None => None,
    }
}

/// What an operator is told where the key is missing.
pub open spec fn key_missing() -> Seq<char> {
    "this volume holds sealed settings and "@ + SECRET_KEY@
        + " is not set. Set it to the key they were sealed with, or clear the settings to enter them again."@
}

/// What an operator is told where the key is another one.
pub open spec fn key_differs() -> Seq<char> {
    "the settings on this volume were sealed with a different key than "@ + SECRET_KEY@
        + ". Restore the original key, or clear the settings to enter them again — they cannot be recovered without it."@
}

/// What is wrong with a key, for a volume with this value on it.
pub open spec fn key_problem(key: Option<&SealKey>, probe: Option<&Sealed>) -> Option<Seq<char>> {
    match probe {
        None => None,
        Some(p) => if p@.ciphertext.len() == 0 {
            None
        } else {
            match key {
                None => Some(key_missing()),
                Some(k) => if opened(k@, p@) is Some {
                    None
                } else {
                    Some(key_differs())
                },
            }
        },
    }
}

/// Can this key read what is already on the volume? Asked once, at startup, of
/// any value that is set. Where none is, no key is needed yet.
pub fn usable(key: Option<&SealKey>, probe: Option<&Sealed>) -> (r: Result<(), String>)
    ensures
        match r {
            Ok(_) => key_problem(key, probe) is None,
            Err(e) => key_problem(key, probe) == Some(e@),
        },
{
    match probe {
        None => Ok(()),
        Some(p) => {
            if !p.is_set() {
                return Ok(());
            }
            match key {
                None => Err(
                    owned("this volume holds sealed settings and ").concat(SECRET_KEY).concat(
                        " is not set. Set it to the key they were sealed with, or clear the settings to enter them again.",
                    ),
                ),
                Some(k) => match open(k, p) {
                    Some(_) => Ok(()),
                    None => Err(
                        owned(
                            "the settings on this volume were sealed with a different key than ",
                        ).concat(SECRET_KEY).concat(
                            ". Restore the original key, or clear the settings to enter them again — they cannot be recovered without it.",
                        ),
                    ),
                },
            }
        },
    }
}

} // verus!
