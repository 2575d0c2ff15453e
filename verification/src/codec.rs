//! Byte and text codecs the library leans on: base64 (through the `base64`
//! crate), lossy UTF-8 decoding (through std), the HMAC-SHA256 keyed
//! digest (through the `hmac` and `sha2` crates) and random bytes (through
//! `rand`).

use base64::engine::general_purpose::STANDARD;
use base64::engine::general_purpose::URL_SAFE_NO_PAD;
use base64::Engine;
use hmac::Mac;
use rand::Rng;
use vstd::prelude::*;
use vstd::utf8::{decode_utf8, encode_utf8, valid_utf8};

verus! {

/// What the `base64` crate's standard engine (`STANDARD.decode`) makes of
/// the bytes of a text: the decoded bytes, or the rendering of its
/// `DecodeError`.
pub uninterp spec fn base64_decode_outcome(text: Seq<u8>) -> Result<Seq<u8>, Seq<char>>;

/// The character for the 6-bit value `v` in the standard base64 alphabet
/// (`A`-`Z`, `a`-`z`, `0`-`9`, `+`, `/`), or in the URL-safe one, which
/// has `-` and `_` for the last two.
pub open spec fn base64_char(v: int, url_safe: bool) -> char {
    if v < 26 {
        (('A' as int) + v) as char
    } else if v < 52 {
        (('a' as int) + v - 26) as char
    } else if v < 62 {
        (('0' as int) + v - 52) as char
    } else if v == 62 {
        if url_safe {
            '-'
        } else {
            '+'
        }
    } else {
        if url_safe {
            '_'
        } else {
            '/'
        }
    }
}

/// The base64 text of `b` (RFC 4648): each group of three bytes gives four
/// characters of six bits each, high bits first; a last group of one or
/// two bytes gives two or three characters, followed by `=` up to four
/// when `pad` holds.
pub open spec fn base64_text(b: Seq<u8>, url_safe: bool, pad: bool) -> Seq<char>
    decreases b.len(),
{
    if b.len() == 0 {
        Seq::<char>::empty()
    } else if b.len() == 1 {
        seq![base64_char(b[0] as int / 4, url_safe), base64_char((b[0] as int % 4) * 16, url_safe)] + if pad {
            seq!['=', '=']
        } else {
            Seq::<char>::empty()
        }
    } else if b.len() == 2 {
        seq![
            base64_char(b[0] as int / 4, url_safe),
            base64_char((b[0] as int % 4) * 16 + b[1] as int / 16, url_safe),
            base64_char((b[1] as int % 16) * 4, url_safe),
        ] + if pad {
            seq!['=']
        } else {
            Seq::<char>::empty()
        }
    } else {
        seq![
            base64_char(b[0] as int / 4, url_safe),
            base64_char((b[0] as int % 4) * 16 + b[1] as int / 16, url_safe),
            base64_char((b[1] as int % 16) * 4 + b[2] as int / 64, url_safe),
            base64_char(b[2] as int % 64, url_safe),
        ] + base64_text(b.subrange(3, b.len() as int), url_safe, pad)
    }
}

/// What the `base64` crate's standard engine (`STANDARD.encode`) makes of
/// `bytes`: padded base64 over the standard alphabet.
pub closed spec fn base64_encoding(bytes: Seq<u8>) -> Seq<char> {
    base64_text(bytes, false, true)
}

/// The rendering of the `FromUtf8Error` that `String::from_utf8` reports
/// on bytes that are not UTF-8.
pub uninterp spec fn utf8_error_text(bytes: Seq<u8>) -> Seq<char>;

/// What `String::from_utf8_lossy` makes of bytes that are not UTF-8.
pub uninterp spec fn utf8_lossy_repair(bytes: Seq<u8>) -> Seq<char>;

/// What `String::from_utf8` makes of `bytes`: the text they encode when
/// they are UTF-8, else the rendering of its error.
pub open spec fn utf8_decode_outcome(bytes: Seq<u8>) -> Result<Seq<char>, Seq<char>> {
    if valid_utf8(bytes) {
        Ok(decode_utf8(bytes))
    } else {
        Err(utf8_error_text(bytes))
    }
}

/// What `String::from_utf8_lossy` makes of `bytes`: the text they encode
/// when they are UTF-8, else the text with the invalid sequences replaced.
pub open spec fn utf8_lossy(bytes: Seq<u8>) -> Seq<char> {
    if valid_utf8(bytes) {
        decode_utf8(bytes)
    } else {
        utf8_lossy_repair(bytes)
    }
}

/// The encoded length of `n` bytes, with padding, fits in a `usize`.
pub open spec fn base64_len_fits(n: nat) -> bool {
    if n % 3 == 0 {
        n / 3 * 4 <= usize::MAX
    } else {
        n / 3 * 4 + 4 <= usize::MAX
    }
}

/// The length of the padded standard base64 text of `n` bytes: four
/// characters for each started group of three bytes.
pub open spec fn base64_padded_len(n: nat) -> nat {
    if n % 3 == 0 {
        n / 3 * 4
    } else {
        n / 3 * 4 + 4
    }
}

/// Padded base64 has four characters for each started group of three
/// bytes.
pub proof fn lemma_base64_encoding_len(b: Seq<u8>)
    ensures
        base64_encoding(b).len() == base64_padded_len(b.len()),
{
    lemma_base64_text_len(b);
}

proof fn lemma_base64_text_len(b: Seq<u8>)
    ensures
        base64_text(b, false, true).len() == base64_padded_len(b.len()),
    decreases b.len(),
{
    if b.len() >= 3 {
        lemma_base64_text_len(b.subrange(3, b.len() as int));
    }
}

/// Any length up to half the address space encodes.
pub proof fn lemma_base64_len_fits(n: nat)
    requires
        n <= usize::MAX / 2,
    ensures
        base64_len_fits(n),
{
    assert(n / 3 * 4 <= 2 * n) by (nonlinear_arith)
        requires
            n >= 0,
    ;
    assert(usize::MAX >= 4294967295);
}

/// Decodes standard base64 with `STANDARD.decode` from the `base64` crate.
/// The contract claims only that the outcome is a function of the text,
/// with the error rendered by its `Display`.
#[verifier::external_body]
pub(crate) fn base64_decode(text: &[u8]) -> (r: Result<Vec<u8>, String>)
    ensures
        match r {
            Ok(v) => base64_decode_outcome(text@) matches Ok(b) && b == v@,
            Err(e) => base64_decode_outcome(text@) matches Err(m) && m == e@,
        },
{
    match STANDARD.decode(text) {
        Ok(v) => Ok(v),
        Err(e) => Err(e.to_string()),
    }
}

/// Encodes bytes as standard, padded base64 with `STANDARD.encode` from the
/// `base64` crate. The contract claims that the text is the padded base64
/// of the bytes over the standard alphabet and that the same engine
/// decodes it back to them; the crate panics when the encoded length overflows a `usize`,
/// which `requires` leaves out.
#[verifier::external_body]
pub(crate) fn base64_encode(bytes: &[u8]) -> (r: String)
    requires
        base64_len_fits(bytes@.len()),
    ensures
        r@ == base64_encoding(bytes@),
        match base64_decode_outcome(encode_utf8(r@)) {
            Ok(b) => b == bytes@,
            Err(_) => false,
        },
{
    STANDARD.encode(bytes)
}

/// Decodes UTF-8 strictly with `String::from_utf8`. The contract claims
/// what the documentation says, that UTF-8 bytes give the text they
/// encode and other bytes an error, and that the error's rendering is a
/// function of the bytes.
#[verifier::external_body]
pub(crate) fn utf8_text(bytes: Vec<u8>) -> (r: Result<String, String>)
    ensures
        match r {
            Ok(t) => valid_utf8(bytes@) && t@ == decode_utf8(bytes@),
            Err(e) => !valid_utf8(bytes@) && e@ == utf8_error_text(bytes@),
        },
{
    match String::from_utf8(bytes) {
        Ok(t) => Ok(t),
        Err(e) => Err(e.to_string()),
    }
}

/// Decodes UTF-8 with `String::from_utf8_lossy`, replacing invalid
/// sequences. The contract claims that UTF-8 bytes give the text they
/// encode, as the documentation says, and that the repaired text of other
/// bytes is a function of them.
#[verifier::external_body]
pub(crate) fn utf8_lossy_text(bytes: &[u8]) -> (r: String)
    ensures
        valid_utf8(bytes@) ==> r@ == decode_utf8(bytes@),
        !valid_utf8(bytes@) ==> r@ == utf8_lossy_repair(bytes@),
{
    String::from_utf8_lossy(bytes).to_string()
}

/// What the `base64` crate's URL-safe engine without padding
/// (`URL_SAFE_NO_PAD.encode`) makes of `bytes`: base64 over the URL-safe
/// alphabet, without `=`.
pub closed spec fn base64_url_encoding(bytes: Seq<u8>) -> Seq<char> {
    base64_text(bytes, true, false)
}

/// Encodes bytes as URL-safe base64 without padding, with
/// `URL_SAFE_NO_PAD.encode` from the `base64` crate. The contract claims
/// that the text is the base64 of the bytes over the URL-safe alphabet,
/// without padding; the crate panics when the
/// encoded length overflows a `usize`, which `requires` leaves out.
#[verifier::external_body]
pub(crate) fn base64_url_encode(bytes: &[u8]) -> (r: String)
    requires
        base64_len_fits(bytes@.len()),
    ensures
        r@ == base64_url_encoding(bytes@),
{
    URL_SAFE_NO_PAD.encode(bytes)
}

/// The HMAC-SHA256 of the UTF-8 bytes of `message` under the UTF-8 bytes of
/// `key`.
pub uninterp spec fn hmac_sha256_digest(key: Seq<char>, message: Seq<char>) -> Seq<u8>;

/// Computes HMAC-SHA256 with `Hmac::<Sha256>::new_from_slice`, `update`
/// and `finalize` from the `hmac` and `sha2` crates, over the UTF-8 bytes
/// of the key and the message. The contract claims that the digest is a
/// function of both and is 32 bytes long, and that the key is accepted:
/// HMAC takes keys of any length, and `new_from_slice` never fails for it
/// in the crate's source.
#[verifier::external_body]
pub(crate) fn hmac_sha256(key: &str, message: &str) -> (r: Result<Vec<u8>, String>)
    ensures
        match r {
            Ok(d) => d@ == hmac_sha256_digest(key@, message@) && d@.len() == 32,
            Err(_) => false,
        },
{
    match hmac::Hmac::<sha2::Sha256>::new_from_slice(key.as_bytes()) {
        Ok(mut mac) => {
            mac.update(message.as_bytes());
            Ok(mac.finalize().into_bytes().to_vec())
        },
        Err(e) => Err(e.to_string()),
    }
}

/// `s` is a version 4 UUID in hyphenated form: 36 lowercase hexadecimal
/// digits and hyphens, the hyphens at 8, 13, 18 and 23, the version digit
/// `4` at 14 and the variant digit (`8`, `9`, `a` or `b`) at 19.
pub open spec fn is_uuid_v4_text(s: Seq<char>) -> bool {
    &&& s.len() == 36
    &&& forall|i: int|
        0 <= i < 36 ==> if i == 8 || i == 13 || i == 18 || i == 23 {
            #[trigger] s[i] == '-'
        } else {
            ('0' <= s[i] <= '9') || ('a' <= s[i] <= 'f')
        }
    &&& s[14] == '4'
    &&& s[19] == '8' || s[19] == '9' || s[19] == 'a' || s[19] == 'b'
}

/// A fresh random (version 4) UUID from `uuid::Uuid::new_v4`, in its
/// hyphenated text form. It depends on chance: the contract states only the
/// shape that the crate documents for that form.
#[verifier::external_body]
pub(crate) fn uuid_v4_text() -> (r: String)
    ensures
        is_uuid_v4_text(r@),
{
    uuid::Uuid::new_v4().to_string()
}

/// Draws a number from `0..=hi` with `rand::thread_rng().gen_range`. It
/// depends on chance: the contract states only the range.
#[verifier::external_body]
pub(crate) fn random_up_to(hi: u128) -> (r: u128)
    ensures
        r <= hi,
{
    rand::thread_rng().gen_range(0..=hi)
}

/// Draws `n` bytes from `rand::thread_rng()`. They depend on chance: the
/// contract states only how many there are.
#[verifier::external_body]
pub(crate) fn random_bytes(n: usize) -> (r: Vec<u8>)
    ensures
        r@.len() == n,
{
    let mut bytes = vec![0u8; n];
    rand::thread_rng().fill(&mut bytes[..]);
    bytes
}

} // verus!
