//! Hashing, hex and base64 codecs, and Schnorr verification from outside
//! crates, with what their sources show of them.

use base64::Engine;
use sha2::Digest;
use vstd::prelude::*;

use crate::text::{hex_digit, hex_lower};

verus! {

/// SHA-256 of a byte string.
pub uninterp spec fn sha256(data: Seq<u8>) -> Seq<u8>;

/// `sha2::Sha256::digest`: the SHA-256 digest of `data`.
#[verifier::external_body]
pub(crate) fn sha256_digest(data: &[u8]) -> (digest: [u8; 32])
    ensures
        digest@ == sha256(data@),
{
    sha2::Sha256::digest(data).into()
}

/// `hex::encode`: two lowercase hex digits per byte, in order.
#[verifier::external_body]
pub(crate) fn hex_encode(bytes: &[u8]) -> (text: String)
    ensures
        text@ == hex_lower(bytes@),
{
    hex::encode(bytes)
}

/// The value of a hex digit of either case.
pub open spec fn hex_value(c: char) -> Option<u8> {
    if '0' <= c && c <= '9' {
        Some((c as u32 - 48) as u8)
    } else if 'a' <= c && c <= 'f' {
        Some((c as u32 - 87) as u8)
    } else if 'A' <= c && c <= 'F' {
        Some((c as u32 - 55) as u8)
    } else {
        None
    }
}

/// Whether `s` is an even number of hex digits (of either case).
pub open spec fn is_hex_text(s: Seq<char>) -> bool {
    s.len() % 2 == 0 && forall|i: int| 0 <= i < s.len() ==> #[trigger] hex_value(s[i]) is Some
}

/// Whether every character of `s` is a lowercase hex digit.
pub open spec fn is_lower_hex(s: Seq<char>) -> bool {
    forall|i: int| 0 <= i < s.len() ==> ('0' <= #[trigger] s[i] <= '9' || 'a' <= s[i] <= 'f')
}

/// The bytes that a hex text stands for, two digits per byte.
pub open spec fn hex_bytes(s: Seq<char>) -> Seq<u8> {
    Seq::new(
        (s.len() / 2) as nat,
        |i: int| (hex_value(s[2 * i])->0 * 16 + hex_value(s[2 * i + 1])->0) as u8,
    )
}

/// `hex::decode`: the bytes of an even-length all-hex text; `None` (the
/// crate's error) for odd length or any other character.
#[verifier::external_body]
pub(crate) fn hex_decode(s: &str) -> (bytes: Option<Vec<u8>>)
    ensures
        bytes.is_some() == is_hex_text(s@),
        bytes.is_some() ==> bytes.unwrap()@ == hex_bytes(s@),
{
    hex::decode(s).ok()
}

/// The base64 digit for `n` in `0..64` (standard alphabet).
pub open spec fn base64_digit(n: int) -> char {
    if n < 26 {
        (65 + n) as char
    } else if n < 52 {
        (71 + n) as char
    } else if n < 62 {
        (n - 4) as char
    } else if n == 62 {
        '+'
    } else {
        '/'
    }
}

/// Standard base64 with `=` padding, three bytes to four digits.
pub open spec fn base64_standard(b: Seq<u8>) -> Seq<char>
    decreases b.len(),
{
    let b0 = b[0] as int;
    let b1 = b[1] as int;
    let b2 = b[2] as int;
    if b.len() == 0 {
        Seq::empty()
    } else if b.len() == 1 {
        seq![base64_digit(b0 / 4), base64_digit((b0 % 4) * 16), '=', '=']
    } else if b.len() == 2 {
        seq![base64_digit(b0 / 4), base64_digit((b0 % 4) * 16 + b1 / 16), base64_digit((b1 % 16) * 4), '=']
    } else {
        seq![
            base64_digit(b0 / 4),
            base64_digit((b0 % 4) * 16 + b1 / 16),
            base64_digit((b1 % 16) * 4 + b2 / 64),
            base64_digit(b2 % 64),
        ] + base64_standard(b.subrange(3, b.len() as int))
    }
}

/// `base64::engine::general_purpose::STANDARD.encode`: standard alphabet,
/// with padding.
#[verifier::external_body]
pub(crate) fn base64_encode(data: &[u8]) -> (text: String)
    ensures
        text@ == base64_standard(data@),
{
    base64::engine::general_purpose::STANDARD.encode(data)
}

/// The 32 bytes that a text gives when read as a hex key or id: the text must
/// be an even number, at least 64, of hex digits (of either case), and its
/// first 64 digits give the bytes.
pub open spec fn hex_32_prefix(s: Seq<char>) -> Option<Seq<u8>> {
    if is_hex_text(s) && s.len() >= 64 {
        Some(hex_bytes(s.take(64)))
    } else {
        None
    }
}

/// Digit `2i` and `2i + 1` of lowercase hex are the high and low nibble of
/// byte `i`.
pub proof fn lemma_hex_lower_digits(bytes: Seq<u8>)
    ensures
        hex_lower(bytes).len() == 2 * bytes.len(),
        forall|i: int|
            0 <= i < bytes.len() ==> #[trigger] hex_lower(bytes)[2 * i] == hex_digit(
                (bytes[i] / 16) as int,
            ),
        forall|i: int|
            0 <= i < bytes.len() ==> #[trigger] hex_lower(bytes)[2 * i + 1] == hex_digit(
                (bytes[i] % 16) as int,
            ),
    decreases bytes.len(),
{
    if bytes.len() > 0 {
        let front = bytes.drop_last();
        lemma_hex_lower_digits(front);
        let a = hex_lower(front);
        let b = seq![
            hex_digit((bytes.last() / 16) as int),
            hex_digit((bytes.last() % 16) as int),
        ];
        assert(hex_lower(bytes) == a + b);
        assert forall|i: int| 0 <= i < bytes.len() implies #[trigger] hex_lower(bytes)[2 * i]
            == hex_digit((bytes[i] / 16) as int) by {
            if i < front.len() {
                assert(a[2 * i] == hex_digit((front[i] / 16) as int));
            }
        }
        assert forall|i: int| 0 <= i < bytes.len() implies #[trigger] hex_lower(bytes)[2 * i + 1]
            == hex_digit((bytes[i] % 16) as int) by {
            if i < front.len() {
                assert(a[2 * i + 1] == hex_digit((front[i] % 16) as int));
            }
        }
    }
}

/// A hex digit reads back as the number it was written for.
pub proof fn lemma_hex_digit_value(n: int)
    requires
        0 <= n < 16,
    ensures
        hex_value(hex_digit(n)) == Some(n as u8),
        '0' <= hex_digit(n) <= '9' || 'a' <= hex_digit(n) <= 'f',
{
}

/// Lowercase hex is hex text, lowercase, twice as long as its bytes, and
/// reads back as those bytes.
pub proof fn lemma_hex_lower_round_trip(bytes: Seq<u8>)
    ensures
        hex_lower(bytes).len() == 2 * bytes.len(),
        is_lower_hex(hex_lower(bytes)),
        is_hex_text(hex_lower(bytes)),
        hex_bytes(hex_lower(bytes)) == bytes,
{
    let h = hex_lower(bytes);
    lemma_hex_lower_digits(bytes);
    assert forall|k: int| 0 <= k < h.len() implies #[trigger] hex_value(h[k]) == Some(
        (if k % 2 == 0 { bytes[k / 2] / 16 } else { bytes[k / 2] % 16 }) as u8,
    ) && ('0' <= h[k] <= '9' || 'a' <= h[k] <= 'f') by {
        let i = k / 2;
        if k % 2 == 0 {
            assert(k == 2 * i);
            assert(h[2 * i] == hex_digit((bytes[i] / 16) as int));
            lemma_hex_digit_value((bytes[i] / 16) as int);
        } else {
            assert(k == 2 * i + 1);
            assert(h[2 * i + 1] == hex_digit((bytes[i] % 16) as int));
            lemma_hex_digit_value((bytes[i] % 16) as int);
        }
    }
    assert forall|i: int| 0 <= i < h.len() implies #[trigger] hex_value(h[i]) is Some by {
        assert(hex_value(h[i]) == Some(
            (if i % 2 == 0 { bytes[i / 2] / 16 } else { bytes[i / 2] % 16 }) as u8,
        ));
    }
    assert forall|i: int| 0 <= i < h.len() implies ('0' <= #[trigger] h[i] <= '9' || 'a' <= h[i]
        <= 'f') by {
        assert(hex_value(h[i]) == Some(
            (if i % 2 == 0 { bytes[i / 2] / 16 } else { bytes[i / 2] % 16 }) as u8,
        ));
    }
    assert forall|i: int| 0 <= i < bytes.len() implies #[trigger] hex_bytes(h)[i] == bytes[i] by {
        assert(hex_value(h[2 * i]) == Some(
            (if (2 * i) % 2 == 0 { bytes[(2 * i) / 2] / 16 } else { bytes[(2 * i) / 2] % 16 }) as u8,
        ));
        assert(hex_value(h[2 * i + 1]) == Some(
            (if (2 * i + 1) % 2 == 0 { bytes[(2 * i + 1) / 2] / 16 } else { bytes[(2 * i + 1) / 2] % 16 }) as u8,
        ));
        assert((2 * i) / 2 == i && (2 * i + 1) / 2 == i);
    }
    assert(hex_bytes(h) =~= bytes);
}

/// Whether 32 bytes are a valid BIP-340 x-only public key.
pub uninterp spec fn xonly_key_valid(key: Seq<u8>) -> bool;

/// Whether a 64-byte BIP-340 signature is valid for a 32-byte message digest
/// under an x-only public key.
pub uninterp spec fn schnorr_verify(sig: Seq<u8>, digest: Seq<u8>, key: Seq<u8>) -> bool;

/// `nostr::key::PublicKey::from_hex`, giving the key's 32 bytes. Its source
/// decodes with `faster_hex::hex_decode` into 32 bytes, which accepts an even
/// number, at least 64, of hex digits and reads the first 64; the key keeps
/// those bytes as they are.
#[verifier::external_body]
pub(crate) fn public_key_from_hex(s: &str) -> (key: Option<[u8; 32]>)
    ensures
        key.is_some() == hex_32_prefix(s@).is_some(),
        key.is_some() ==> hex_32_prefix(s@) == Some(key.unwrap()@),
{
    nostr::key::PublicKey::from_hex(s).ok().map(|k| k.to_bytes())
}

/// `nostr::event::EventId::from_hex`, giving the id's 32 bytes. Its source
/// decodes with `faster_hex::hex_decode` into 32 bytes, as the public key's
/// `from_hex` does.
#[verifier::external_body]
pub(crate) fn event_id_from_hex(s: &str) -> (id: Option<[u8; 32]>)
    ensures
        id.is_some() == hex_32_prefix(s@).is_some(),
        id.is_some() ==> hex_32_prefix(s@) == Some(id.unwrap()@),
{
    nostr::event::EventId::from_hex(s).ok().map(|i| i.to_bytes())
}

/// `secp256k1::schnorr::Signature::from_slice`: accepts exactly 64 bytes and
/// keeps them.
#[verifier::external_body]
pub(crate) fn schnorr_signature_from_slice(bytes: &[u8]) -> (sig: Option<[u8; 64]>)
    ensures
        sig.is_some() == (bytes@.len() == 64),
        sig.is_some() ==> sig.unwrap()@ == bytes@,
{
    secp256k1::schnorr::Signature::from_slice(bytes).ok().map(|s| s.to_byte_array())
}

/// `secp256k1::XOnlyPublicKey::from_slice` succeeds on these bytes.
#[verifier::external_body]
pub(crate) fn is_valid_xonly_key(key: &[u8; 32]) -> (valid: bool)
    ensures
        valid == xonly_key_valid(key@),
{
    secp256k1::XOnlyPublicKey::from_slice(key).is_ok()
}

/// `secp256k1::Secp256k1::verify_schnorr` of a signature over a 32-byte
/// digest, the key being read with `XOnlyPublicKey::from_byte_array`, which
/// parses exactly as `from_slice` does on 32 bytes, so the `requires` makes it
/// succeed.
#[verifier::external_body]
pub(crate) fn verify_schnorr(sig: &[u8; 64], digest: &[u8; 32], key: &[u8; 32]) -> (ok: bool)
    requires
        xonly_key_valid(key@),
    ensures
        ok == schnorr_verify(sig@, digest@, key@),
{
    let secp = secp256k1::Secp256k1::new();
    let sig = secp256k1::schnorr::Signature::from_byte_array(*sig);
    match secp256k1::XOnlyPublicKey::from_byte_array(key) {
        Ok(key) => secp.verify_schnorr(&sig, digest, &key).is_ok(),
        Err(_) => false,
    }
}

} // verus!
