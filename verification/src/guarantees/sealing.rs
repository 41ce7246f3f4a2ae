//! Keys, hexadecimal and sealed values.

use vstd::prelude::*;

use crate::seal;
use crate::seal::{SealKey, Sealed};
use crate::text;

verus! {

/// What a hexadecimal digit counts, of either case.
pub open spec fn digit_value(c: char) -> int {
    let n = c as int;
    if 0x30 <= n <= 0x39 {
        n - 0x30
    } else if 0x61 <= n <= 0x66 {
        n - 0x57
    } else {
        n - 0x37
    }
}

/// Is this a hexadecimal digit, of either case?
pub open spec fn is_digit(c: char) -> bool {
    let n = c as int;
    0x30 <= n <= 0x39 || 0x61 <= n <= 0x66 || 0x41 <= n <= 0x46
}

/// A byte is written as two digits in lower case, the higher first.
pub proof fn law_a_byte_is_two_digits(bytes: Seq<u8>, i: int)
    requires
        0 <= i < bytes.len(),
    ensures
        ({
            let s = seal::hexed(bytes);
            &&& s.len() == 2 * bytes.len()
            &&& is_digit(s[2 * i]) && !('A' <= s[2 * i] <= 'F')
            &&& is_digit(s[2 * i + 1]) && !('A' <= s[2 * i + 1] <= 'F')
            &&& 16 * digit_value(s[2 * i]) + digit_value(s[2 * i + 1]) == bytes[i]
        }),
{
    let b = bytes[i] as int;
    assert((2 * i) % 2 == 0 && (2 * i) / 2 == i);
    assert((2 * i + 1) % 2 == 1 && (2 * i + 1) / 2 == i);
    assert(0 <= b / 16 < 16 && 0 <= b % 16 < 16);
}

/// Two digits are read as one byte, the higher first; an odd number of them, or
/// anything else, is no bytes.
pub proof fn law_two_digits_are_a_byte(s: Seq<char>, i: int)
    ensures
        seal::unhexed(s) is Some <==> s.len() % 2 == 0 && forall|k: int|
            0 <= k < s.len() ==> is_digit(#[trigger] s[k]),
        seal::unhexed(s) matches Some(b) ==> b.len() * 2 == s.len() && (0 <= i < b.len() ==> b[i]
            == 16 * digit_value(s[2 * i]) + digit_value(s[2 * i + 1])),
{
    assert forall|k: int| 0 <= k < s.len() implies is_digit(#[trigger] s[k]) == seal::is_hex(
        s[k],
    ) by {}
    if seal::unhexed(s) is Some && 0 <= i < s.len() / 2 {
        assert(seal::is_hex(s[2 * i]) && seal::is_hex(s[2 * i + 1]));
        assert(0 <= digit_value(s[2 * i]) < 16 && 0 <= digit_value(s[2 * i + 1]) < 16);
    }
}

/// A key is sixty-four hexadecimal digits, and the bytes that they spell.
pub proof fn law_a_key_is_the_bytes_it_spells(hex: &str, r: Result<SealKey, String>, i: int)
    requires
        call_ensures(SealKey::parse, (hex,), r),
    ensures
        r is Ok <==> text::byte_len(text::trimmed(hex@)) == 64 && text::trimmed(hex@).len() % 2 == 0
            && forall|k: int|
            0 <= k < text::trimmed(hex@).len() ==> is_digit(#[trigger] text::trimmed(hex@)[k]),
        r matches Ok(key) ==> key@.len() == 32 && (0 <= i < 32 ==> key@[i] == 16 * digit_value(
            text::trimmed(hex@)[2 * i],
        ) + digit_value(text::trimmed(hex@)[2 * i + 1])),
{
    law_two_digits_are_a_byte(text::trimmed(hex@), i);
}

/// A key that opens what is on the volume is the one to start with; one that does
/// not is refused, and so is none where something is sealed. Where nothing is,
/// any will do, and none.
pub proof fn law_a_key_is_held_against_the_volume(
    key: Option<&SealKey>,
    probe: Option<&Sealed>,
    r: Result<(), String>,
)
    requires
        call_ensures(seal::usable, (key, probe), r),
    ensures
        probe is None ==> r is Ok,
        probe matches Some(p) ==> (p@.ciphertext.len() == 0 ==> r is Ok),
        probe matches Some(p) ==> (p@.ciphertext.len() > 0 && key is None ==> r is Err),
        probe matches Some(p) ==> (p@.ciphertext.len() > 0 ==> (key matches Some(k) ==> (r is Ok
            <==> seal::opened(k@, p@) is Some))),
{
}

/// What was sealed is set, says when, and opens under the key that sealed it to
/// the text that went in.
pub proof fn law_a_secret_is_kept_and_comes_back(
    key: SealKey,
    plaintext: &str,
    now_ms: u64,
    sealed: Sealed,
    r: Option<String>,
)
    requires
        text::byte_len(plaintext@) <= 274_877_906_816,
        call_ensures(seal::seal, (&key, plaintext, now_ms), Some(sealed)),
        call_ensures(seal::open, (&key, &sealed), r),
    ensures
        r matches Some(t) && t@ == plaintext@,
        sealed@.set_ms == now_ms,
        sealed@.ciphertext.len() > 0,
        sealed@.nonce.len() == 24,
{
    assert(seal::sealing_of(key@, sealed@, plaintext@));
}

/// A value that is not set opens to nothing, and so does one whose nonce is not
/// twelve bytes.
pub proof fn law_nothing_opens_that_is_not_sealed(key: SealKey, sealed: Sealed, r: Option<String>)
    requires
        call_ensures(seal::open, (&key, &sealed), r),
        sealed@.ciphertext.len() == 0 || sealed@.nonce.len() != 24,
    ensures
        r is None,
{
}

} // verus!
