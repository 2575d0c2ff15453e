//! Encryption of channel messages: a message's data is encrypted, framed in
//! base64 and marked in its encoding; decryption undoes both. JSON payloads
//! are turned to and from bytes by the caller.

use super::{
    decrypts_as, is_bad_request, is_encryption_error, params_for, spec_decrypt, spec_encrypt, unsupported_key_text, AblyCrypto,
    CipherParams,
};
use crate::aes_cbc::padded_len;
use crate::codec::{
    base64_decode, base64_decode_outcome, base64_encode, base64_encoding, base64_len_fits, base64_padded_len,
    utf8_lossy, utf8_lossy_text,
};
use crate::error::{AblyError, AblyResult};
use crate::protocol::json::JsonValue;
use crate::protocol::messages::{opt_text, same_but_payload, Message};
use crate::text::{
    append, chars_of, decimal, join_chars, join_with, lacks_char, owned, seq_contains, split_chars, split_on, str_contains,
    string_of,
};
use vstd::prelude::*;
use vstd::utf8::{decode_utf8, encode_utf8, valid_utf8};

verus! {

/// The pieces that do not contain `cipher+`, in order.
pub open spec fn without_cipher(parts: Seq<Seq<char>>) -> Seq<Seq<char>>
    decreases parts.len(),
{
    if parts.len() == 0 {
        Seq::<Seq<char>>::empty()
    } else if seq_contains(parts.last(), "cipher+"@) {
        without_cipher(parts.drop_last())
    } else {
        without_cipher(parts.drop_last()).push(parts.last())
    }
}

/// An encoding with its cipher steps removed.
pub open spec fn spec_remove_cipher(encoding: Seq<char>) -> Seq<char> {
    join_with(without_cipher(split_on(encoding, '/')), "/"@)
}

/// The bytes a message's data is encrypted from, for data other than an
/// array or an object: a string's UTF-8, a number's text, `true`/`false`,
/// nothing for null.
pub open spec fn spec_plaintext(data: JsonValue) -> Option<Seq<u8>> {
    match data {
        JsonValue::String(s) => Some(encode_utf8(s@)),
        JsonValue::Number(n) => Some(encode_utf8(n@)),
        JsonValue::Bool(b) => Some(encode_utf8(if b { "true"@ } else { "false"@ })),
        JsonValue::Null => Some(Seq::<u8>::empty()),
        _ => None,
    }
}

/// The bytes of a data value other than an array or an object.
pub fn plaintext_of(data: &JsonValue) -> (r: Option<Vec<u8>>)
    ensures
        match r {
            Some(v) => spec_plaintext(*data) == Some(v@),
            None => spec_plaintext(*data) is None,
        },
{
    match data {
        JsonValue::String(s) => Some(bytes_of(s.as_str())),
        JsonValue::Number(n) => Some(bytes_of(n.as_str())),
        JsonValue::Bool(b) => {
            if *b {
                Some(bytes_of("true"))
            } else {
                Some(bytes_of("false"))
            }
        },
        JsonValue::Null => Some(Vec::new()),
        _ => None,
    }
}

/// The UTF-8 bytes of a text.
fn bytes_of(s: &str) -> (v: Vec<u8>)
    ensures
        v@ == encode_utf8(s@),
{
    crate::text::copy_bytes(s.as_bytes())
}

/// A decrypted message, and the JSON text its data is to be parsed from
/// when its remaining encoding is JSON.
#[derive(Debug)]
pub struct DecryptedMessage {
    pub message: Message,
    pub json_payload: Option<Vec<u8>>,
}

/// Encrypts and decrypts the messages of a channel.
#[derive(Debug, Clone)]
pub struct ChannelCipher {
    params: CipherParams,
}

impl ChannelCipher {
    /// The cipher parameters.
    pub closed spec fn spec_params(&self) -> CipherParams {
        self.params
    }

    /// The cipher's algorithm in Ably's form.
    pub open spec fn spec_algorithm(&self) -> Seq<char> {
        self.spec_params().algorithm@ + "-"@ + crate::text::decimal(self.spec_params().key_length as nat) + "-"@
            + self.spec_params().mode@
    }

    /// A cipher with the given parameters.
    pub fn new(params: CipherParams) -> (c: ChannelCipher)
        ensures
            c.spec_params() == params,
    {
        ChannelCipher { params }
    }

    /// A cipher for a key given in standard base64.
    pub fn from_base64_key(base64_key: &str) -> (r: AblyResult<ChannelCipher>)
        ensures
            match base64_decode_outcome(encode_utf8(base64_key@)) {
                Ok(key) => (key.len() == 16 || key.len() == 32 <==> r is Ok)
                    && (r matches Ok(c) ==> params_for(c.spec_params(), key))
                    && (r matches Err(e) ==> is_bad_request(e, unsupported_key_text(key.len() * 8))),
                Err(m) => r matches Err(e) && is_bad_request(e, "Invalid base64 key: "@ + m),
            },
    {
        match CipherParams::from_base64_key(base64_key) {
            Ok(params) => Ok(ChannelCipher::new(params)),
            Err(e) => Err(e),
        }
    }

    /// A cipher with a fresh random key of `key_length` bits (256 when none
    /// is given).
    pub fn generate_random(key_length: Option<usize>) -> (r: AblyResult<ChannelCipher>)
        ensures
            ({
                let bits = match key_length {
                    Some(b) => b,
                    None => 256,
                };
                &&& (bits == 128 || bits == 256 <==> r is Ok)
                &&& r matches Ok(c) ==> c.spec_params().key_length == bits && c.spec_params().key@.len() == bits / 8
                    && c.spec_params().algorithm@ == "aes"@ && c.spec_params().mode@ == "cbc"@
            
                &&& r matches Err(e) ==> is_bad_request(e, "Unsupported key length "@ + decimal(bits as nat)
                    + " bits. Must be 128 or 256 bits"@)
            }),
    {
        match CipherParams::generate_random_key(key_length) {
            Ok(params) => Ok(ChannelCipher::new(params)),
            Err(e) => Err(e),
        }
    }

    /// The cipher parameters.
    pub fn params(&self) -> (p: &CipherParams)
        ensures
            *p == self.spec_params(),
    {
        &self.params
    }

    /// The key in standard base64.
    pub fn key_base64(&self) -> (s: String)
        requires
            base64_len_fits(self.spec_params().key@.len()),
        ensures
            s@ == base64_encoding(self.spec_params().key@),
            s@.len() == base64_padded_len(self.spec_params().key@.len()),
            base64_decode_outcome(encode_utf8(s@)) == Ok::<Seq<u8>, Seq<char>>(self.spec_params().key@),
    {
        self.params.key_as_base64()
    }

    /// The algorithm in Ably's form, `aes-256-cbc`.
    pub fn algorithm(&self) -> (s: String)
        ensures
            s@ == self.spec_algorithm(),
    {
        self.params.algorithm_string()
    }

    /// The encoding after encryption: `cipher+<algorithm>` appended to a
    /// non-empty existing encoding with `/`.
    pub fn add_cipher_encoding(&self, existing: Option<&str>) -> (s: String)
        ensures
            s@ == match existing {
                Some(enc) => if enc@.len() > 0 {
                    enc@ + "/"@ + ("cipher+"@ + self.spec_algorithm())
                } else {
                    "cipher+"@ + self.spec_algorithm()
                },
                None => "cipher+"@ + self.spec_algorithm(),
            },
    {
        let mut cipher_encoding = owned("cipher+");
        let alg = self.algorithm();
        append(&mut cipher_encoding, alg.as_str());
        match existing {
            Some(enc) => {
                if !enc.is_empty() {
                    let mut s = owned(enc);
                    append(&mut s, "/");
                    append(&mut s, cipher_encoding.as_str());
                    s
                } else {
                    cipher_encoding
                }
            },
            None => cipher_encoding,
        }
    }

    /// Whether an encoding carries a cipher step.
    pub fn has_cipher_encoding(&self, encoding: &str) -> (b: bool)
        ensures
            b == (seq_contains(encoding@, "cipher+"@) || seq_contains(encoding@, self.spec_algorithm())),
    {
        let alg = self.algorithm();
        str_contains(encoding, "cipher+") || str_contains(encoding, alg.as_str())
    }

    /// The encoding without its cipher steps: the `/`-separated steps that
    /// do not contain `cipher+`.
    pub fn remove_cipher_encoding(&self, encoding: &str) -> (s: String)
        ensures
            s@ == spec_remove_cipher(encoding@),
    {
        let chars = chars_of(encoding);
        let parts = split_chars(&chars, '/');
        let ghost pieces = split_on(encoding@, '/');
        let needle = chars_of("cipher+");
        let mut kept: Vec<Vec<char>> = Vec::new();
        let mut i: usize = 0;
        while i < parts.len()
            invariant
                needle@ == "cipher+"@,
                parts@.len() == pieces.len(),
                forall|k: int| 0 <= k < parts@.len() ==> #[trigger] parts@[k]@ == pieces[k],
                0 <= i <= parts@.len(),
                kept@.map_values(|p: Vec<char>| p@) == without_cipher(pieces.take(i as int)),
            decreases parts@.len() - i,
        {
            proof {
                assert(pieces.take(i + 1).drop_last() =~= pieces.take(i as int));
                assert(pieces.take(i + 1).last() == pieces[i as int]);
            }
            let ghost before = kept@;
            if !crate::text::chars_contain(&parts[i], &needle) {
                let piece = parts[i].clone();
                proof {
                    assert(piece@ == parts@[i as int]@);
                }
                kept.push(piece);
                proof {
                    assert(kept@.map_values(|p: Vec<char>| p@) =~= before.map_values(|p: Vec<char>| p@).push(
                        pieces[i as int],
                    ));
                }
            }
            i = i + 1;
        }
        proof {
            assert(pieces.take(pieces.len() as int) =~= pieces);
        }
        let slash = chars_of("/");
        let joined = join_chars(&kept, &slash);
        string_of(joined.as_slice())
    }

    /// Encrypts the data of `message`, if it has any: the data becomes the
    /// base64 of the IV and ciphertext, and the encoding gains the cipher
    /// step. An array or object is encrypted from `json_text`, its JSON
    /// serialization, which the caller provides; when the message has no
    /// encoding yet, the cipher step follows a `json` step, so that
    /// decryption hands the JSON text back to be parsed.
    pub fn encrypt_message(&self, message: Message, json_text: Option<Vec<u8>>) -> (r: AblyResult<Message>)
        requires
            message.data matches Some(d) ==> (spec_plaintext(d) is None ==> json_text is Some),
            json_text matches Some(t) ==> padded_len(t@.len()) + 16 <= usize::MAX / 2,
            message.data matches Some(d) ==> (spec_plaintext(d) matches Some(p) ==> padded_len(p.len()) + 16
                <= usize::MAX / 2),
        ensures
            match message.data {
                None => r matches Ok(m) && m == message,
                Some(d) => {
                    let p = match spec_plaintext(d) {
                        Some(p) => p,
                        None => json_text.unwrap()@,
                    };
                    match r {
                        Ok(m) => encrypts_to(*self, message, p, m),
                        Err(e) => exists|m: Seq<char>| #[trigger] is_bad_request(e, m) && forall|iv: Seq<u8>|
                            spec_encrypt(self.spec_params().key_length, self.spec_params().key@, iv, p)
                                == Err::<Seq<u8>, Seq<char>>(m),
                    }
                },
            },
    {
        let (plaintext, structured) = match &message.data {
            None => {
                return Ok(message);
            },
            Some(d) => match plaintext_of(d) {
                Some(p) => (p, false),
                None => match json_text {
                    Some(t) => (t, true),
                    None => (Vec::new(), true),
                },
            },
        };
        let ciphertext = match AblyCrypto::encrypt(&self.params, plaintext.as_slice()) {
            Ok(c) => c,
            Err(e) => {
                return Err(e);
            },
        };
        proof {
            crate::codec::lemma_base64_len_fits(ciphertext@.len());
        }
        let encoded = base64_encode(ciphertext.as_slice());
        proof {
            reveal_strlit("json");
        }
        let encoding = match &message.encoding {
            Some(e) => if structured && e.as_str().is_empty() {
                self.add_cipher_encoding(Some("json"))
            } else {
                self.add_cipher_encoding(Some(e.as_str()))
            },
            None => if structured {
                self.add_cipher_encoding(Some("json"))
            } else {
                self.add_cipher_encoding(None)
            },
        };
        let mut m = message;
        m.data = Some(JsonValue::String(encoded));
        m.encoding = Some(encoding);
        Ok(m)
    }

    /// Decrypts the data of `message` when its encoding carries a cipher
    /// step and its data is a string; the cipher steps leave the encoding.
    /// When the encoding left is JSON, the decrypted bytes are handed back
    /// for the caller to parse, and the data is left empty.
    pub fn decrypt_message(&self, message: Message) -> (r: AblyResult<DecryptedMessage>)
        ensures
            decrypt_step(*self, message, r),
    {
        let is_cipher = match &message.encoding {
            Some(enc) => self.has_cipher_encoding(enc.as_str()),
            None => false,
        };
        if !is_cipher {
            return Ok(DecryptedMessage { message, json_payload: None });
        }
        let encrypted = match &message.data {
            Some(JsonValue::String(s)) => s,
            _ => {
                return Ok(DecryptedMessage { message, json_payload: None });
            },
        };
        let ciphertext = match base64_decode(encrypted.as_str().as_bytes()) {
            Ok(c) => c,
            Err(e) => {
                let mut text = owned("Failed to decode encrypted data: ");
                append(&mut text, e.as_str());
                return Err(AblyError::decoding(text));
            },
        };
        let plaintext = match AblyCrypto::decrypt(&self.params, ciphertext.as_slice()) {
            Ok(p) => p,
            Err(e) => {
                return Err(e);
            },
        };
        let new_encoding = match &message.encoding {
            Some(enc) => self.remove_cipher_encoding(enc.as_str()),
            None => String::new(),
        };
        proof {
            reveal_strlit("json");
            reveal_strlit("application/json");
            reveal_strlit("base64");
        }
        let is_json = new_encoding == owned("json") || new_encoding == owned("application/json");
        let mut m = message;
        if is_json {
            m.encoding = Some(new_encoding);
            m.data = None;
            Ok(DecryptedMessage { message: m, json_payload: Some(plaintext) })
        } else {
            let parsed = match self.parse_decrypted_data(plaintext.as_slice(), new_encoding.as_str()) {
                Ok(v) => v,
                Err(e) => {
                    return Err(e);
                },
            };
            m.encoding = Some(new_encoding);
            m.data = Some(parsed);
            Ok(DecryptedMessage { message: m, json_payload: None })
        }
    }

    /// The data decrypted bytes stand for under the encoding left, for
    /// encodings other than JSON: base64 text is decoded once more, and the
    /// bytes are read as UTF-8 text.
    pub fn parse_decrypted_data(&self, data: &[u8], encoding: &str) -> (r: AblyResult<JsonValue>)
        ensures
            if encoding@ == "base64"@ {
                match base64_decode_outcome(data@) {
                    Ok(b) => r matches Ok(JsonValue::String(t)) && t@ == utf8_lossy(b),
                    Err(e) => r matches Err(err) && err matches AblyError::Decode { message: t }
                        && t@ == "Failed to decode base64: "@ + e,
                }
            } else {
                r matches Ok(JsonValue::String(t)) && t@ == utf8_lossy(data@)
            },
    {
        if owned(encoding) == owned("base64") {
            match base64_decode(data) {
                Ok(decoded) => Ok(JsonValue::String(utf8_lossy_text(decoded.as_slice()))),
                Err(e) => {
                    let mut text = owned("Failed to decode base64: ");
                    append(&mut text, e.as_str());
                    Err(AblyError::decoding(text))
                },
            }
        } else {
            Ok(JsonValue::String(utf8_lossy_text(data)))
        }
    }
}

/// What decrypting `message` with `cipher` gives: a message whose
/// encoding carries a cipher step and whose data is a string is base64
/// decoded and decrypted, and the result read under the encoding left; any
/// other message comes back as it is.
pub open spec fn decrypt_step(cipher: ChannelCipher, message: Message, r: AblyResult<DecryptedMessage>) -> bool {
    match (message.encoding, message.data) {
        (Some(enc), Some(JsonValue::String(s))) => if seq_contains(enc@, "cipher+"@) || seq_contains(
            enc@,
            cipher.spec_algorithm(),
        ) {
            match base64_decode_outcome(encode_utf8(s@)) {
                Err(e) => r matches Err(err) && err matches AblyError::Decode { message: t }
                    && t@ == "Failed to decode encrypted data: "@ + e,
                Ok(c) => match spec_decrypt(cipher.spec_params().key_length, cipher.spec_params().key@, c) {
                    Err((true, m)) => r matches Err(e) && is_encryption_error(e, m),
                    Err((false, m)) => r matches Err(e) && is_bad_request(e, m),
                    Ok(p) => decrypt_result(message, spec_remove_cipher(enc@), p, r),
                },
            }
        } else {
            r matches Ok(d) && d.message == message && d.json_payload is None
        },
        _ => r matches Ok(d) && d.message == message && d.json_payload is None,
    }
}


/// The encoding of a message with encoding `existing` once encrypted with
/// algorithm `alg`: the cipher step after a non-empty existing encoding.
pub open spec fn encrypted_encoding(existing: Option<String>, alg: Seq<char>) -> Seq<char> {
    match existing {
        Some(e) => if e@.len() > 0 {
            e@ + "/"@ + ("cipher+"@ + alg)
        } else {
            "cipher+"@ + alg
        },
        None => "cipher+"@ + alg,
    }
}

/// `m1` is `m0` encrypted by `cipher` from plaintext `p`: its data is the
/// base64 of a ciphertext that the cipher decrypts back to `p` (and that
/// base64 decodes back to the ciphertext), and its encoding gains the
/// cipher step.
pub open spec fn encrypts_to(cipher: ChannelCipher, m0: Message, p: Seq<u8>, m1: Message) -> bool {
    &&& exists|c: Seq<u8>|
        #[trigger] spec_decrypt(cipher.spec_params().key_length, cipher.spec_params().key@, c)
            == Ok::<Seq<u8>, (bool, Seq<char>)>(p) && is_json_string_of(m1.data, base64_encoding(c))
            && base64_decode_outcome(encode_utf8(base64_encoding(c))) == Ok::<Seq<u8>, Seq<char>>(c)
    &&& opt_text(m1.encoding) == Some(message_encrypted_encoding(m0, cipher.spec_algorithm()))
    &&& same_but_payload(m0, m1)
}

/// The data is an array or an object, which is encrypted from its JSON
/// text.
pub open spec fn structured_data(data: Option<JsonValue>) -> bool {
    data matches Some(d) && spec_plaintext(d) is None
}

/// The message has no encoding, or an empty one.
pub open spec fn blank_encoding(encoding: Option<String>) -> bool {
    match encoding {
        Some(e) => e@.len() == 0,
        None => true,
    }
}

/// The encoding of message `m0` once encrypted with algorithm `alg`: the
/// cipher step after the existing encoding, or after a `json` step for an
/// array or object without encoding.
pub open spec fn message_encrypted_encoding(m0: Message, alg: Seq<char>) -> Seq<char> {
    if structured_data(m0.data) && blank_encoding(m0.encoding) {
        "json"@ + "/"@ + ("cipher+"@ + alg)
    } else {
        encrypted_encoding(m0.encoding, alg)
    }
}

/// `data` is the JSON string `t`.
pub open spec fn is_json_string_of(data: Option<JsonValue>, t: Seq<char>) -> bool {
    data matches Some(JsonValue::String(s)) && s@ == t
}

/// The outcome of decrypting message `base` to bytes `p`, the encoding left
/// being `enc`: JSON bytes are handed back to be parsed, base64 text is
/// decoded once more, and other bytes are read as UTF-8 text; the other
/// fields of the message stay as they are.
pub open spec fn decrypt_result(base: Message, enc: Seq<char>, p: Seq<u8>, r: AblyResult<DecryptedMessage>) -> bool {
    &&& r matches Ok(d) ==> same_but_payload(base, d.message)
    &&& if enc == "json"@ || enc == "application/json"@ {
        r matches Ok(d) && opt_text(d.message.encoding) == Some(enc) && d.message.data is None
            && (d.json_payload matches Some(v) && v@ == p)
    } else if enc == "base64"@ {
        match base64_decode_outcome(p) {
            Ok(b) => r matches Ok(d) && opt_text(d.message.encoding) == Some(enc) && d.json_payload is None
                && is_json_string_of(d.message.data, utf8_lossy(b)),
            Err(e) => r matches Err(err) && err matches AblyError::Decode { message: t }
                && t@ == "Failed to decode base64: "@ + e,
        }
    } else {
        r matches Ok(d) && opt_text(d.message.encoding) == Some(enc) && d.json_payload is None
            && is_json_string_of(d.message.data, utf8_lossy(p))
    }
}

/// The encodings under which decrypted bytes are not read back as text:
/// JSON, which the caller parses, and base64, which is decoded once more.
pub open spec fn rereads_payload(enc: Seq<char>) -> bool {
    enc == "json"@ || enc == "application/json"@ || enc == "base64"@
}

/// Decrypting a message that the same cipher encrypted from string data
/// gives that string back, with the message's other fields, unless the
/// encoding left once the cipher step is removed asks to read the bytes
/// again as JSON or base64.
#[verifier::spinoff_prover]
#[verifier::rlimit(40)]
pub proof fn law_string_message_round_trip(
    cipher: ChannelCipher,
    m0: Message,
    text: Seq<char>,
    m1: Message,
    r: AblyResult<DecryptedMessage>,
)
    requires
        is_json_string_of(m0.data, text),
        !rereads_payload(spec_remove_cipher(encrypted_encoding(m0.encoding, cipher.spec_algorithm()))),
        encrypts_to(cipher, m0, encode_utf8(text), m1),
        decrypt_step(cipher, m1, r),
    ensures
        r matches Ok(d) && is_json_string_of(d.message.data, text) && d.json_payload is None
            && same_but_payload(m0, d.message),
{
    let enc = encrypted_encoding(m0.encoding, cipher.spec_algorithm());
    let step = "cipher+"@ + cipher.spec_algorithm();
    let front: Seq<char> = match m0.encoding {
        Some(e) => if e@.len() > 0 {
            e@ + "/"@
        } else {
            Seq::<char>::empty()
        },
        None => Seq::<char>::empty(),
    };
    assert(enc =~= front + step);
    assert(seq_contains(enc, "cipher+"@)) by {
        assert((front + step).subrange(front.len() as int, front.len() + "cipher+"@.len() as int) =~= "cipher+"@);
        assert(crate::text::occurs_at(enc, "cipher+"@, front.len() as int));
    }
    let c = choose|c: Seq<u8>|
        #[trigger] spec_decrypt(cipher.spec_params().key_length, cipher.spec_params().key@, c)
            == Ok::<Seq<u8>, (bool, Seq<char>)>(encode_utf8(text)) && is_json_string_of(m1.data, base64_encoding(c))
            && base64_decode_outcome(encode_utf8(base64_encoding(c))) == Ok::<Seq<u8>, Seq<char>>(c);
    vstd::utf8::encode_utf8_valid_utf8(text);
    vstd::utf8::encode_utf8_decode_utf8(text);
    assert(utf8_lossy(encode_utf8(text)) == text);
}

/// The cipher's algorithm in Ably's form has no `/` when the algorithm
/// and mode names have none.
proof fn lemma_algorithm_lacks_slash(cipher: ChannelCipher)
    requires
        lacks_char(cipher.spec_params().algorithm@, '/'),
        lacks_char(cipher.spec_params().mode@, '/'),
    ensures
        lacks_char(cipher.spec_algorithm(), '/'),
{
    let a = cipher.spec_params().algorithm@;
    let d = crate::text::decimal(cipher.spec_params().key_length as nat);
    let m = cipher.spec_params().mode@;
    reveal_strlit("-");
    crate::text::lemma_decimal_lacks_slash(cipher.spec_params().key_length as nat);
    let alg = cipher.spec_algorithm();
    assert(alg =~= a + "-"@ + d + "-"@ + m);
    assert forall|i: int| 0 <= i < alg.len() implies #[trigger] alg[i] != '/' by {
        if i < a.len() {
            assert(alg[i] == a[i]);
        } else if i < a.len() + 1 {
            assert(alg[i] == '-');
        } else if i < a.len() + 1 + d.len() {
            assert(alg[i] == d[i - a.len() - 1]);
        } else if i < a.len() + 2 + d.len() {
            assert(alg[i] == '-');
        } else {
            assert(alg[i] == m[i - a.len() - 2 - d.len()]);
        }
    }
}

/// With no `/` in the algorithm, removing the cipher step from
/// `json/cipher+<algorithm>` leaves `json`.
proof fn lemma_remove_cipher_after_json(alg: Seq<char>)
    requires
        lacks_char(alg, '/'),
    ensures
        seq_contains("json"@ + "/"@ + ("cipher+"@ + alg), "cipher+"@),
        spec_remove_cipher("json"@ + "/"@ + ("cipher+"@ + alg)) == "json"@,
{
    reveal_strlit("json");
    reveal_strlit("/");
    reveal_strlit("cipher+");
    let json = "json"@;
    let step = "cipher+"@ + alg;
    let enc = json + "/"@ + step;
    assert(lacks_char(json, '/'));
    assert(lacks_char(step, '/')) by {
        assert forall|i: int| 0 <= i < step.len() implies #[trigger] step[i] != '/' by {
            if i >= 7 {
                assert(step[i] == alg[i - 7]);
            }
        }
    }
    assert(enc =~= json + seq!['/'] + step);
    crate::text::lemma_split_on_single(json, '/');
    crate::text::lemma_split_on_append(json, '/', step);
    let parts = split_on(enc, '/');
    assert(parts =~= seq![json, step]);
    assert(crate::text::occurs_at(step, "cipher+"@, 0)) by {
        assert(step.subrange(0, 7) =~= "cipher+"@);
    }
    assert(crate::text::occurs_at(enc, "cipher+"@, 5)) by {
        assert(enc.subrange(5, 12) =~= "cipher+"@);
    }
    assert(!seq_contains(json, "cipher+"@)) by {
        assert forall|i: int| !crate::text::occurs_at(json, "cipher+"@, i) by {
            assert(json.len() == 4);
            assert("cipher+"@.len() == 7);
        }
    }
    assert(parts.drop_last() =~= seq![json]);
    let single: Seq<Seq<char>> = seq![json];
    assert(single.drop_last() =~= Seq::<Seq<char>>::empty());
    assert(single.last() == json);
    assert(without_cipher(Seq::<Seq<char>>::empty()) =~= Seq::<Seq<char>>::empty());
    assert(without_cipher(single) =~= Seq::<Seq<char>>::empty().push(json));
    assert(without_cipher(single) =~= seq![json]);
    assert(without_cipher(parts) =~= seq![json]);
}

/// Decrypting a message that the same cipher encrypted from the JSON text
/// of an array or object, when the message had no encoding or a `json`
/// one, hands that JSON text back under the encoding `json`, for the
/// caller to parse into the data again, with the message's other fields.
#[verifier::spinoff_prover]
#[verifier::rlimit(40)]
pub proof fn law_object_message_round_trip(
    cipher: ChannelCipher,
    m0: Message,
    json_text: Seq<u8>,
    m1: Message,
    r: AblyResult<DecryptedMessage>,
)
    requires
        lacks_char(cipher.spec_params().algorithm@, '/'),
        lacks_char(cipher.spec_params().mode@, '/'),
        structured_data(m0.data),
        blank_encoding(m0.encoding) || opt_text(m0.encoding) == Some("json"@),
        encrypts_to(cipher, m0, json_text, m1),
        decrypt_step(cipher, m1, r),
    ensures
        r matches Ok(d) && (d.json_payload matches Some(v) && v@ == json_text) && d.message.data is None
            && opt_text(d.message.encoding) == Some("json"@) && same_but_payload(m0, d.message),
{
    reveal_strlit("json");
    let alg = cipher.spec_algorithm();
    lemma_algorithm_lacks_slash(cipher);
    lemma_remove_cipher_after_json(alg);
    let enc = "json"@ + "/"@ + ("cipher+"@ + alg);
    assert(message_encrypted_encoding(m0, alg) == enc);
    let c = choose|c: Seq<u8>|
        #[trigger] spec_decrypt(cipher.spec_params().key_length, cipher.spec_params().key@, c)
            == Ok::<Seq<u8>, (bool, Seq<char>)>(json_text) && is_json_string_of(m1.data, base64_encoding(c))
            && base64_decode_outcome(encode_utf8(base64_encoding(c))) == Ok::<Seq<u8>, Seq<char>>(c);
    assert(spec_remove_cipher(enc) == "json"@);
}

/// Channel options with encryption.
#[derive(Debug, Clone)]
pub struct ChannelOptions {
    /// The cipher of the channel's messages.
    pub cipher: Option<ChannelCipher>,
}

impl Default for ChannelOptions {
    fn default() -> (o: ChannelOptions)
        ensures
            o.cipher is None,
    {
        ChannelOptions { cipher: None }
    }
}

impl ChannelOptions {
    /// Options without encryption.
    pub fn new() -> (o: ChannelOptions)
        ensures
            o.cipher is None,
    {
        ChannelOptions::default()
    }

    /// Encrypts with `cipher`.
    pub fn with_cipher(self, cipher: ChannelCipher) -> (o: ChannelOptions)
        ensures
            o.cipher == Some(cipher),
    {
        ChannelOptions { cipher: Some(cipher) }
    }

    /// Encrypts with a key given in standard base64.
    pub fn with_cipher_key(self, base64_key: &str) -> (r: AblyResult<ChannelOptions>)
        ensures
            match base64_decode_outcome(encode_utf8(base64_key@)) {
                Ok(key) => (key.len() == 16 || key.len() == 32 <==> r is Ok) && (r matches Ok(o) ==> o.cipher matches Some(c)
                    && params_for(c.spec_params(), key))
                    && (r matches Err(e) ==> is_bad_request(e, unsupported_key_text(key.len() * 8))),
                Err(m) => r matches Err(e) && is_bad_request(e, "Invalid base64 key: "@ + m),
            },
    {
        match ChannelCipher::from_base64_key(base64_key) {
            Ok(cipher) => Ok(ChannelOptions { cipher: Some(cipher) }),
            Err(e) => Err(e),
        }
    }

    /// Encrypts with a fresh random key of `key_length` bits (256 when none
    /// is given).
    pub fn with_random_cipher(self, key_length: Option<usize>) -> (r: AblyResult<ChannelOptions>)
        ensures
            ({
                let bits = match key_length {
                    Some(b) => b,
                    None => 256,
                };
                &&& (bits == 128 || bits == 256 <==> r is Ok)
                &&& r matches Ok(o) ==> o.cipher matches Some(c) && c.spec_params().key_length == bits
                    && c.spec_params().algorithm@ == "aes"@ && c.spec_params().mode@ == "cbc"@
            
                &&& r matches Err(e) ==> is_bad_request(e, "Unsupported key length "@ + decimal(bits as nat)
                    + " bits. Must be 128 or 256 bits"@)
            }),
    {
        match ChannelCipher::generate_random(key_length) {
            Ok(cipher) => Ok(ChannelOptions { cipher: Some(cipher) }),
            Err(e) => Err(e),
        }
    }
}

} // verus!
