//! Channel encryption by algorithm: cipher parameters with an optional
//! fixed IV, encryption into IV, ciphertext and encoding, and the
//! encryption of a message's data in place.

use crate::aes_cbc::{
    aes128_cbc_decrypt, aes128_cbc_decryption, aes128_cbc_encrypt, aes128_cbc_encryption, aes256_cbc_decrypt,
    aes256_cbc_decryption, aes256_cbc_encrypt, aes256_cbc_encryption, padded_buffer, padded_len,
};
use crate::codec::{
    base64_decode, base64_decode_outcome, base64_encode, base64_encoding, lemma_base64_len_fits, random_bytes,
    utf8_decode_outcome, utf8_text,
};
use crate::encryption::channel_cipher::{plaintext_of, spec_plaintext};
use crate::error::{AblyError, AblyResult};
use crate::protocol::json::JsonValue;
use crate::protocol::messages::{opt_text, same_but_payload, Message};
use crate::text::{append, chars_of, decimal, join_chars, join_with, owned, seq_contains, split_chars, split_on, string_of, u64_to_string};
use vstd::prelude::*;
use vstd::utf8::encode_utf8;

verus! {

/// The AES variants.
#[derive(Debug, Clone, Copy, PartialEq, Eq, Structural)]
pub enum CipherAlgorithm {
    Aes128,
    Aes256,
}

/// The name of an AES variant.
pub open spec fn algorithm_name(a: CipherAlgorithm) -> Seq<char> {
    match a {
        CipherAlgorithm::Aes128 => "aes-128"@,
        CipherAlgorithm::Aes256 => "aes-256"@,
    }
}

/// The key size of an AES variant, in bytes.
pub open spec fn key_size(a: CipherAlgorithm) -> nat {
    match a {
        CipherAlgorithm::Aes128 => 16,
        CipherAlgorithm::Aes256 => 32,
    }
}

impl CipherAlgorithm {
    /// The variant's name: `aes-128` or `aes-256`.
    pub fn to_display_string(&self) -> (s: String)
        ensures
            s@ == algorithm_name(*self),
    {
        match self {
            CipherAlgorithm::Aes128 => owned("aes-128"),
            CipherAlgorithm::Aes256 => owned("aes-256"),
        }
    }
}

/// The cipher modes.
#[derive(Debug, Clone, Copy, PartialEq, Eq, Structural)]
pub enum CipherMode {
    Cbc,
}

impl CipherMode {
    /// The mode's name: `cbc`.
    pub fn to_display_string(&self) -> (s: String)
        ensures
            s@ == "cbc"@,
    {
        owned("cbc")
    }
}

/// `e` is an unexpected-error with message `msg`.
pub open spec fn is_unexpected(e: AblyError, msg: Seq<char>) -> bool {
    e matches AblyError::Internal { message } && message@ == msg
}

/// Parameters of a cipher: variant, mode, key and an optional fixed IV.
#[derive(Debug, Clone)]
pub struct CipherParams {
    pub algorithm: CipherAlgorithm,
    pub mode: CipherMode,
    pub key: Vec<u8>,
    pub iv: Option<Vec<u8>>,
}

impl CipherParams {
    /// Parameters with a key of the variant's size and, if given, a
    /// 16-byte IV.
    pub fn new(algorithm: CipherAlgorithm, mode: CipherMode, key: Vec<u8>, iv: Option<Vec<u8>>) -> (r: AblyResult<CipherParams>)
        ensures
            key@.len() != key_size(algorithm) ==> (r matches Err(e) && is_unexpected(e, "Invalid key size: expected "@
                + decimal(key_size(algorithm)) + " bytes, got "@ + decimal(key@.len()))),
            key@.len() == key_size(algorithm) ==> match iv {
                Some(v) => if v@.len() != 16 {
                    r matches Err(e) && is_unexpected(e, "Invalid IV size: expected 16 bytes, got "@ + decimal(v@.len()))
                } else {
                    r matches Ok(p) && p.algorithm == algorithm && p.mode == mode && p.key == key && p.iv == iv
                },
                None => r matches Ok(p) && p.algorithm == algorithm && p.mode == mode && p.key == key && p.iv is None,
            },
    {
        let expected: usize = match algorithm {
            CipherAlgorithm::Aes128 => 16,
            CipherAlgorithm::Aes256 => 32,
        };
        if key.len() != expected {
            let mut message = owned("Invalid key size: expected ");
            append(&mut message, u64_to_string(expected as u64).as_str());
            append(&mut message, " bytes, got ");
            append(&mut message, u64_to_string(key.len() as u64).as_str());
            return Err(AblyError::unexpected(message));
        }
        match &iv {
            Some(v) => {
                if v.len() != 16 {
                    let mut message = owned("Invalid IV size: expected 16 bytes, got ");
                    append(&mut message, u64_to_string(v.len() as u64).as_str());
                    return Err(AblyError::unexpected(message));
                }
            },
            None => {},
        }
        Ok(CipherParams { algorithm, mode, key, iv })
    }

    /// AES-128-CBC parameters for `key`.
    pub fn aes128_cbc(key: Vec<u8>) -> (r: AblyResult<CipherParams>)
        ensures
            key@.len() == 16 <==> r is Ok,
            r matches Ok(p) ==> p.algorithm == CipherAlgorithm::Aes128 && p.mode == CipherMode::Cbc && p.key == key
                && p.iv is None,
            key@.len() != 16 ==> (r matches Err(e) && is_unexpected(
                e,
                "Invalid key size: expected "@ + decimal(16) + " bytes, got "@ + decimal(key@.len()),
            )),
    {
        CipherParams::new(CipherAlgorithm::Aes128, CipherMode::Cbc, key, None)
    }

    /// AES-256-CBC parameters for `key`.
    pub fn aes256_cbc(key: Vec<u8>) -> (r: AblyResult<CipherParams>)
        ensures
            key@.len() == 32 <==> r is Ok,
            r matches Ok(p) ==> p.algorithm == CipherAlgorithm::Aes256 && p.mode == CipherMode::Cbc && p.key == key
                && p.iv is None,
            key@.len() != 32 ==> (r matches Err(e) && is_unexpected(
                e,
                "Invalid key size: expected "@ + decimal(32) + " bytes, got "@ + decimal(key@.len()),
            )),
    {
        CipherParams::new(CipherAlgorithm::Aes256, CipherMode::Cbc, key, None)
    }

    /// CBC parameters for a key in standard base64; the key's size picks
    /// the variant.
    pub fn from_key(key_str: &str) -> (r: AblyResult<CipherParams>)
        ensures
            match base64_decode_outcome(encode_utf8(key_str@)) {
                Err(m) => r matches Err(e) && is_unexpected(e, "Invalid base64 key: "@ + m),
                Ok(k) => if k.len() == 16 || k.len() == 32 {
                    r matches Ok(p) && p.key@ == k && p.mode == CipherMode::Cbc && p.iv is None
                        && p.algorithm == (if k.len() == 16 { CipherAlgorithm::Aes128 } else { CipherAlgorithm::Aes256 })
                } else {
                    r matches Err(e) && is_unexpected(e, "Invalid key size: "@ + decimal(k.len()) + " bytes"@)
                },
            },
    {
        let key = match base64_decode(key_str.as_bytes()) {
            Ok(k) => k,
            Err(e) => {
                let mut message = owned("Invalid base64 key: ");
                append(&mut message, e.as_str());
                return Err(AblyError::unexpected(message));
            },
        };
        let algorithm = if key.len() == 16 {
            CipherAlgorithm::Aes128
        } else if key.len() == 32 {
            CipherAlgorithm::Aes256
        } else {
            let mut message = owned("Invalid key size: ");
            append(&mut message, u64_to_string(key.len() as u64).as_str());
            append(&mut message, " bytes");
            return Err(AblyError::unexpected(message));
        };
        Ok(CipherParams { algorithm, mode: CipherMode::Cbc, key, iv: None })
    }

    /// The fixed IV, or sixteen fresh random bytes.
    pub fn get_or_generate_iv(&self) -> (iv: Vec<u8>)
        ensures
            match self.iv {
                Some(v) => iv@ == v@,
                None => iv@.len() == 16,
            },
    {
        match &self.iv {
            Some(v) => v.clone(),
            None => random_bytes(16),
        }
    }

    /// The encoding of data encrypted with these parameters:
    /// `cipher+<variant>-<mode>/base64`.
    pub fn encoding_string(&self) -> (s: String)
        ensures
            s@ == "cipher+"@ + algorithm_name(self.algorithm) + "-"@ + "cbc"@ + "/base64"@,
    {
        let mut s = owned("cipher+");
        append(&mut s, self.algorithm.to_display_string().as_str());
        append(&mut s, "-");
        append(&mut s, self.mode.to_display_string().as_str());
        append(&mut s, "/base64");
        s
    }
}

/// A fixed IV of the wrong size.
pub open spec fn iv_bad(iv: Option<Vec<u8>>) -> bool {
    iv matches Some(v) && v@.len() != 16
}

/// The ciphertext of `p` under key `key` and IV `iv` for a variant, when
/// the key and IV have the sizes it takes.
pub open spec fn spec_cipher_encrypt(a: CipherAlgorithm, key: Seq<u8>, iv: Seq<u8>, p: Seq<u8>) -> Option<Seq<u8>> {
    if key.len() != key_size(a) || iv.len() != 16 {
        None
    } else {
        match a {
            CipherAlgorithm::Aes128 => Some(aes128_cbc_encryption(key, iv, p)),
            CipherAlgorithm::Aes256 => Some(aes256_cbc_encryption(key, iv, p)),
        }
    }
}

/// The plaintext of `c` under key `key` and IV `iv` for a variant: the
/// error message when the key or IV has the wrong size or the padding is
/// malformed.
pub open spec fn spec_cipher_decrypt(a: CipherAlgorithm, key: Seq<u8>, iv: Seq<u8>, c: Seq<u8>) -> Result<Seq<u8>, Seq<char>> {
    if key.len() != key_size(a) || iv.len() != 16 {
        Err("Cipher init failed: Invalid Length"@)
    } else {
        match (match a {
            CipherAlgorithm::Aes128 => aes128_cbc_decryption(key, iv, c),
            CipherAlgorithm::Aes256 => aes256_cbc_decryption(key, iv, c),
        }) {
            Some(p) => Ok(p),
            None => Err("Decryption failed: Unpad Error"@),
        }
    }
}

/// `d` is `p` encrypted with `params`: the ciphertext under the IV of `d`
/// (the fixed one, when the parameters have one), the padded length long
/// and decrypting back to `p`, with the encoding that names the cipher.
pub open spec fn encrypted_under(params: CipherParams, p: Seq<u8>, d: EncryptedData) -> bool {
    &&& spec_cipher_encrypt(params.algorithm, params.key@, d.iv@, p) == Some(d.ciphertext@)
    &&& params.iv matches Some(v) ==> d.iv@ == v@
    &&& d.encoding@ == "cipher+"@ + algorithm_name(params.algorithm) + "-"@ + "cbc"@ + "/base64"@
    &&& d.ciphertext@.len() == padded_len(p.len())
    &&& spec_cipher_decrypt(params.algorithm, params.key@, d.iv@, d.ciphertext@) == Ok::<Seq<u8>, Seq<char>>(p)
}

/// `r` is the outcome of decrypting `d` with `params`.
pub open spec fn decrypted_under(params: CipherParams, d: EncryptedData, r: AblyResult<Vec<u8>>) -> bool {
    match spec_cipher_decrypt(params.algorithm, params.key@, d.iv@, d.ciphertext@) {
        Ok(p) => r matches Ok(v) && v@ == p,
        Err(m) => r matches Err(e) && is_unexpected(e, m),
    }
}

/// Decrypting what encryption produced gives the plaintext back, for every
/// plaintext; the IV is 16 bytes, the ciphertext is `16 * (n / 16 + 1)`
/// bytes for `n` bytes of plaintext, and a fixed IV is the one used.
pub proof fn law_cipher_decrypt_undoes_encrypt(
    params: CipherParams,
    p: Seq<u8>,
    d: EncryptedData,
    r: AblyResult<Vec<u8>>,
)
    requires
        encrypted_under(params, p, d),
        decrypted_under(params, d, r),
    ensures
        r matches Ok(v) && v@ == p,
        d.iv@.len() == 16,
        d.ciphertext@.len() == 16 * (p.len() / 16 + 1),
        params.iv matches Some(v) ==> d.iv@ == v@,
{
}

/// Encrypts and decrypts with one set of parameters.
#[derive(Debug, Clone)]
pub struct ChannelCipher {
    params: CipherParams,
}

/// Encrypted data: ciphertext, IV and the encoding that names the cipher.
#[derive(Debug, Clone)]
pub struct EncryptedData {
    pub ciphertext: Vec<u8>,
    pub iv: Vec<u8>,
    pub encoding: String,
}

impl ChannelCipher {
    /// The cipher parameters.
    pub closed spec fn spec_params(&self) -> CipherParams {
        self.params
    }

    /// A cipher with the given parameters.
    pub fn new(params: CipherParams) -> (c: ChannelCipher)
        ensures
            c.spec_params() == params,
    {
        ChannelCipher { params }
    }

    /// Encrypts `plaintext` under the fixed IV, or a fresh random one.
    pub fn encrypt(&self, plaintext: &[u8]) -> (r: AblyResult<EncryptedData>)
        requires
            padded_len(plaintext@.len()) + 16 <= usize::MAX,
        ensures
            match r {
                Ok(d) => encrypted_under(self.spec_params(), plaintext@, d),
                Err(e) => is_unexpected(e, "Cipher init failed: Invalid Length"@)
                    && (self.spec_params().key@.len() != key_size(self.spec_params().algorithm)
                    || iv_bad(self.spec_params().iv)),
            },
    {
        let iv = self.params.get_or_generate_iv();
        let ciphertext = match self.params.algorithm {
            CipherAlgorithm::Aes128 => match self.encrypt_aes128_cbc(plaintext, iv.as_slice()) {
                Ok(c) => c,
                Err(e) => {
                    return Err(e);
                },
            },
            CipherAlgorithm::Aes256 => match self.encrypt_aes256_cbc(plaintext, iv.as_slice()) {
                Ok(c) => c,
                Err(e) => {
                    return Err(e);
                },
            },
        };
        Ok(EncryptedData { ciphertext, iv, encoding: self.params.encoding_string() })
    }

    /// Decrypts `encrypted` with its IV.
    pub fn decrypt(&self, encrypted: &EncryptedData) -> (r: AblyResult<Vec<u8>>)
        ensures
            decrypted_under(self.spec_params(), *encrypted, r),
    {
        match self.params.algorithm {
            CipherAlgorithm::Aes128 => self.decrypt_aes128_cbc(encrypted.ciphertext.as_slice(), encrypted.iv.as_slice()),
            CipherAlgorithm::Aes256 => self.decrypt_aes256_cbc(encrypted.ciphertext.as_slice(), encrypted.iv.as_slice()),
        }
    }

    /// AES-128-CBC encryption of `plaintext` under `iv`.
    pub fn encrypt_aes128_cbc(&self, plaintext: &[u8], iv: &[u8]) -> (r: AblyResult<Vec<u8>>)
        requires
            padded_len(plaintext@.len()) + 16 <= usize::MAX,
        ensures
            self.spec_params().key@.len() == 16 && iv@.len() == 16 ==> (r matches Ok(c)
                && c@ == aes128_cbc_encryption(self.spec_params().key@, iv@, plaintext@)
                && c@.len() == padded_len(plaintext@.len())
                && aes128_cbc_decryption(self.spec_params().key@, iv@, c@) == Some(plaintext@)),
            !(self.spec_params().key@.len() == 16 && iv@.len() == 16) ==> (r matches Err(e)
                && is_unexpected(e, "Cipher init failed: Invalid Length"@)),
    {
        if self.params.key.len() != 16 || iv.len() != 16 {
            return Err(AblyError::unexpected("Cipher init failed: Invalid Length"));
        }
        let buffer = padded_buffer(plaintext);
        Ok(aes128_cbc_encrypt(self.params.key.as_slice(), iv, buffer, plaintext.len()))
    }

    /// AES-128-CBC decryption of `ciphertext` under `iv`.
    pub fn decrypt_aes128_cbc(&self, ciphertext: &[u8], iv: &[u8]) -> (r: AblyResult<Vec<u8>>)
        ensures
            match spec_cipher_decrypt(CipherAlgorithm::Aes128, self.spec_params().key@, iv@, ciphertext@) {
                Ok(p) => r matches Ok(v) && v@ == p,
                Err(m) => r matches Err(e) && is_unexpected(e, m),
            },
    {
        if self.params.key.len() != 16 || iv.len() != 16 {
            return Err(AblyError::unexpected("Cipher init failed: Invalid Length"));
        }
        match aes128_cbc_decrypt(self.params.key.as_slice(), iv, ciphertext) {
            Some(p) => Ok(p),
            None => Err(AblyError::unexpected("Decryption failed: Unpad Error")),
        }
    }

    /// AES-256-CBC encryption of `plaintext` under `iv`.
    pub fn encrypt_aes256_cbc(&self, plaintext: &[u8], iv: &[u8]) -> (r: AblyResult<Vec<u8>>)
        requires
            padded_len(plaintext@.len()) + 16 <= usize::MAX,
        ensures
            self.spec_params().key@.len() == 32 && iv@.len() == 16 ==> (r matches Ok(c)
                && c@ == aes256_cbc_encryption(self.spec_params().key@, iv@, plaintext@)
                && c@.len() == padded_len(plaintext@.len())
                && aes256_cbc_decryption(self.spec_params().key@, iv@, c@) == Some(plaintext@)),
            !(self.spec_params().key@.len() == 32 && iv@.len() == 16) ==> (r matches Err(e)
                && is_unexpected(e, "Cipher init failed: Invalid Length"@)),
    {
        if self.params.key.len() != 32 || iv.len() != 16 {
            return Err(AblyError::unexpected("Cipher init failed: Invalid Length"));
        }
        let buffer = padded_buffer(plaintext);
        Ok(aes256_cbc_encrypt(self.params.key.as_slice(), iv, buffer, plaintext.len()))
    }

    /// AES-256-CBC decryption of `ciphertext` under `iv`.
    pub fn decrypt_aes256_cbc(&self, ciphertext: &[u8], iv: &[u8]) -> (r: AblyResult<Vec<u8>>)
        ensures
            match spec_cipher_decrypt(CipherAlgorithm::Aes256, self.spec_params().key@, iv@, ciphertext@) {
                Ok(p) => r matches Ok(v) && v@ == p,
                Err(m) => r matches Err(e) && is_unexpected(e, m),
            },
    {
        if self.params.key.len() != 32 || iv.len() != 16 {
            return Err(AblyError::unexpected("Cipher init failed: Invalid Length"));
        }
        match aes256_cbc_decrypt(self.params.key.as_slice(), iv, ciphertext) {
            Some(p) => Ok(p),
            None => Err(AblyError::unexpected("Decryption failed: Unpad Error")),
        }
    }
}

impl EncryptedData {
    /// The IV followed by the ciphertext, in standard base64.
    pub fn to_base64(&self) -> (s: String)
        requires
            self.iv@.len() + self.ciphertext@.len() <= usize::MAX / 2,
        ensures
            s@ == base64_encoding(self.iv@ + self.ciphertext@),
            base64_decode_outcome(encode_utf8(s@)) == Ok::<Seq<u8>, Seq<char>>(self.iv@ + self.ciphertext@),
    {
        let mut combined: Vec<u8> = Vec::new();
        let mut i: usize = 0;
        while i < self.iv.len()
            invariant
                0 <= i <= self.iv@.len(),
                combined@ == self.iv@.subrange(0, i as int),
            decreases self.iv@.len() - i,
        {
            combined.push(self.iv[i]);
            i = i + 1;
        }
        let mut j: usize = 0;
        while j < self.ciphertext.len()
            invariant
                0 <= j <= self.ciphertext@.len(),
                combined@ == self.iv@ + self.ciphertext@.subrange(0, j as int),
                self.iv@.len() + self.ciphertext@.len() <= usize::MAX / 2,
            decreases self.ciphertext@.len() - j,
        {
            combined.push(self.ciphertext[j]);
            j = j + 1;
        }
        proof {
            assert(self.iv@.subrange(0, self.iv@.len() as int) =~= self.iv@);
            assert(self.ciphertext@.subrange(0, self.ciphertext@.len() as int) =~= self.ciphertext@);
            lemma_base64_len_fits(combined@.len());
            assert(combined@ =~= self.iv@ + self.ciphertext@);
        }
        base64_encode(combined.as_slice())
    }

    /// Splits standard base64 data into its IV (the first sixteen bytes)
    /// and ciphertext.
    pub fn from_base64(data: &str, encoding: String) -> (r: AblyResult<EncryptedData>)
        ensures
            match base64_decode_outcome(encode_utf8(data@)) {
                Err(m) => r matches Err(e) && is_unexpected(e, "Invalid base64: "@ + m),
                Ok(b) => if b.len() < 16 {
                    r matches Err(e) && is_unexpected(e, "Data too short for IV + ciphertext"@)
                } else {
                    r matches Ok(d) && d.iv@ == b.subrange(0, 16) && d.ciphertext@ == b.subrange(16, b.len() as int)
                        && d.encoding == encoding
                },
            },
    {
        let combined = match base64_decode(data.as_bytes()) {
            Ok(b) => b,
            Err(e) => {
                let mut message = owned("Invalid base64: ");
                append(&mut message, e.as_str());
                return Err(AblyError::unexpected(message));
            },
        };
        if combined.len() < 16 {
            return Err(AblyError::unexpected("Data too short for IV + ciphertext"));
        }
        let (iv, ciphertext) = combined.as_slice().split_at(16);
        Ok(EncryptedData { iv: crate::text::copy_bytes(iv), ciphertext: crate::text::copy_bytes(ciphertext), encoding })
    }
}

/// The encoding with its `cipher` steps removed: the `/`-separated steps
/// that do not contain `cipher`.
pub open spec fn without_cipher_steps(parts: Seq<Seq<char>>) -> Seq<Seq<char>>
    decreases parts.len(),
{
    if parts.len() == 0 {
        Seq::<Seq<char>>::empty()
    } else if seq_contains(parts.last(), "cipher"@) {
        without_cipher_steps(parts.drop_last())
    } else {
        without_cipher_steps(parts.drop_last()).push(parts.last())
    }
}

/// The encoding of a message with encoding `existing` once its data is
/// encrypted with algorithm `a`: the cipher's encoding, then the existing
/// one.
pub open spec fn crypto_encoding(a: CipherAlgorithm, existing: Option<String>) -> Seq<char> {
    let own = "cipher+"@ + algorithm_name(a) + "-"@ + "cbc"@ + "/base64"@;
    match existing {
        Some(e) => own + "/"@ + e@,
        None => own,
    }
}

/// `m1` is `m0` with its data encrypted by `cipher` from plaintext `p`:
/// the base64 of an IV and a ciphertext that the cipher decrypts back to
/// `p` (and that base64 decodes back to them), the cipher's encoding in
/// front of the existing one, and the other fields as they were.
pub open spec fn crypto_encrypts_to(cipher: ChannelCipher, m0: Message, p: Seq<u8>, m1: Message) -> bool {
    &&& exists|iv: Seq<u8>, c: Seq<u8>|
        #[trigger] spec_cipher_decrypt(cipher.spec_params().algorithm, cipher.spec_params().key@, iv, c)
            == Ok::<Seq<u8>, Seq<char>>(p) && iv.len() == 16
            && crate::encryption::channel_cipher::is_json_string_of(m1.data, base64_encoding(iv + c))
            && base64_decode_outcome(encode_utf8(base64_encoding(iv + c))) == Ok::<Seq<u8>, Seq<char>>(iv + c)
    &&& opt_text(m1.encoding) == Some(crypto_encoding(cipher.spec_params().algorithm, m0.encoding))
    &&& same_but_payload(m0, m1)
}

/// What decrypting message `m0` with `cipher` does, leaving `m1` and the
/// outcome `r`: when the encoding names a cipher, string data is base64
/// decoded, split into IV and ciphertext, decrypted and read as UTF-8; the
/// data becomes that text and the cipher steps leave the encoding. Other
/// messages are left as they are.
pub open spec fn crypto_decrypt_step(cipher: ChannelCipher, m0: Message, m1: Message, r: AblyResult<Option<String>>) -> bool {
    match m0.encoding {
        Some(enc) => if seq_contains(enc@, "cipher"@) {
            match m0.data {
                Some(JsonValue::String(s)) => match base64_decode_outcome(encode_utf8(s@)) {
                    Err(m) => r matches Err(e) && is_unexpected(e, "Invalid base64: "@ + m),
                    Ok(b) => if b.len() < 16 {
                        r matches Err(e) && is_unexpected(e, "Data too short for IV + ciphertext"@)
                    } else {
                        match spec_cipher_decrypt(cipher.spec_params().algorithm,
                            cipher.spec_params().key@, b.subrange(0, 16),
                            b.subrange(16, b.len() as int)) {
                            Err(m) => r matches Err(e) && is_unexpected(e, m),
                            Ok(p) => match utf8_decode_outcome(p) {
                                Err(m) => r matches Err(e) && is_unexpected(e, "Invalid UTF-8 in decrypted data: "@ + m),
                                Ok(t) => r matches Ok(Some(text)) && text@ == t && same_but_payload(m0, m1)
                                    && crate::encryption::channel_cipher::is_json_string_of(m1.data, t)
                                    && match m1.encoding {
                                        Some(e2) => e2@ == join_with(without_cipher_steps(split_on(enc@, '/')), "/"@)
                                            && e2@.len() > 0,
                                        None => join_with(without_cipher_steps(split_on(enc@, '/')), "/"@).len() == 0,
                                    },
                            },
                        }
                    },
                },
                _ => r matches Err(e) && is_unexpected(e, "Invalid encrypted data format"@),
            }
        } else {
            r matches Ok(None) && m1 == m0
        },
        None => r matches Ok(None) && m1 == m0,
    }
}

/// Decrypting a message that the same cipher encrypted from string data
/// gives that string back, as the data and as the text returned, with the
/// message's other fields.
pub proof fn law_crypto_message_round_trip(
    cipher: ChannelCipher,
    m0: Message,
    text: Seq<char>,
    m1: Message,
    m2: Message,
    r: AblyResult<Option<String>>,
)
    requires
        crate::encryption::channel_cipher::is_json_string_of(m0.data, text),
        crypto_encrypts_to(cipher, m0, encode_utf8(text), m1),
        crypto_decrypt_step(cipher, m1, m2, r),
    ensures
        r matches Ok(Some(t)) && t@ == text,
        crate::encryption::channel_cipher::is_json_string_of(m2.data, text),
        same_but_payload(m0, m2),
{
    let enc = crypto_encoding(cipher.spec_params().algorithm, m0.encoding);
    assert(seq_contains(enc, "cipher"@)) by {
        reveal_strlit("cipher");
        reveal_strlit("cipher+");
        let own = "cipher+"@ + algorithm_name(cipher.spec_params().algorithm) + "-"@ + "cbc"@ + "/base64"@;
        assert(own.subrange(0, 6) =~= "cipher"@);
        assert(enc.subrange(0, 6) =~= "cipher"@);
        assert(crate::text::occurs_at(enc, "cipher"@, 0));
    }
    let (iv, c) = choose|iv: Seq<u8>, c: Seq<u8>|
        #[trigger] spec_cipher_decrypt(cipher.spec_params().algorithm, cipher.spec_params().key@, iv, c)
            == Ok::<Seq<u8>, Seq<char>>(encode_utf8(text)) && iv.len() == 16
            && crate::encryption::channel_cipher::is_json_string_of(m1.data, base64_encoding(iv + c))
            && base64_decode_outcome(encode_utf8(base64_encoding(iv + c))) == Ok::<Seq<u8>, Seq<char>>(iv + c);
    let b = iv + c;
    assert(b.subrange(0, 16) =~= iv);
    assert(b.subrange(16, b.len() as int) =~= c);
    vstd::utf8::encode_utf8_valid_utf8(text);
    vstd::utf8::encode_utf8_decode_utf8(text);
}

/// Encrypts and decrypts the data of messages in place.
#[derive(Debug, Clone)]
pub struct MessageCrypto {
    cipher: ChannelCipher,
}

impl MessageCrypto {
    /// The cipher used.
    pub closed spec fn spec_cipher(&self) -> ChannelCipher {
        self.cipher
    }

    /// Message encryption with the given parameters.
    pub fn new(params: CipherParams) -> (m: MessageCrypto)
        ensures
            m.spec_cipher().spec_params() == params,
    {
        MessageCrypto { cipher: ChannelCipher::new(params) }
    }

    /// Encrypts the data of `message`, if any: it becomes the base64 of IV
    /// and ciphertext, and the cipher's encoding goes in front of the
    /// existing one. Data other than a string is encrypted from
    /// `json_text`, its JSON serialization, which the caller provides.
    pub fn encrypt_message(&self, message: &mut Message, json_text: Option<Vec<u8>>) -> (r: AblyResult<()>)
        requires
            old(message).data matches Some(d) ==> (!(d is String) ==> json_text is Some),
            json_text matches Some(t) ==> padded_len(t@.len()) + 16 <= usize::MAX / 4,
            old(message).data matches Some(d) ==> (d matches JsonValue::String(s) ==> padded_len(encode_utf8(s@).len())
                + 16 <= usize::MAX / 4),
        ensures
            old(message).data is None ==> r is Ok && *final(message) == *old(message),
            old(message).data matches Some(d) ==> match r {
                Ok(_) => crypto_encrypts_to(self.spec_cipher(), *old(message), match d {
                    JsonValue::String(s) => encode_utf8(s@),
                    _ => json_text.unwrap()@,
                }, *final(message)),
                Err(e) => is_unexpected(e, "Cipher init failed: Invalid Length"@) && *final(message) == *old(message),
            },
    {
        let plaintext = match &message.data {
            Some(JsonValue::String(s)) => crate::encryption::channel_cipher::plaintext_of(&JsonValue::String(s.clone())),
            Some(_) => json_text,
            None => {
                return Ok(());
            },
        };
        let plaintext = match plaintext {
            Some(p) => p,
            None => Vec::new(),
        };
        let encrypted = match self.cipher.encrypt(plaintext.as_slice()) {
            Ok(e) => e,
            Err(e) => {
                return Err(e);
            },
        };
        let encoded = encrypted.to_base64();
        let encoding = match &message.encoding {
            Some(existing) => {
                let mut s = encrypted.encoding.clone();
                append(&mut s, "/");
                append(&mut s, existing.as_str());
                s
            },
            None => encrypted.encoding.clone(),
        };
        message.data = Some(JsonValue::String(encoded));
        message.encoding = Some(encoding);
        Ok(())
    }

    /// Decrypts the data of `message` when its encoding names a cipher:
    /// the data becomes the decrypted UTF-8 text, and the cipher steps
    /// leave the encoding. The text is returned so that the caller can
    /// replace the data with its JSON value when it parses as JSON.
    pub fn decrypt_message(&self, message: &mut Message) -> (r: AblyResult<Option<String>>)
        ensures
            crypto_decrypt_step(self.spec_cipher(), *old(message), *final(message), r),
    {
        let encoding = match &message.encoding {
            Some(e) => {
                if crate::text::str_contains(e.as_str(), "cipher") {
                    e.clone()
                } else {
                    return Ok(None);
                }
            },
            None => {
                return Ok(None);
            },
        };
        let encrypted_str = match &message.data {
            Some(JsonValue::String(s)) => s.clone(),
            _ => {
                return Err(AblyError::unexpected("Invalid encrypted data format"));
            },
        };
        let encrypted = match EncryptedData::from_base64(encrypted_str.as_str(), encoding.clone()) {
            Ok(d) => d,
            Err(e) => {
                return Err(e);
            },
        };
        let plaintext = match self.cipher.decrypt(&encrypted) {
            Ok(p) => p,
            Err(e) => {
                return Err(e);
            },
        };
        let text = match utf8_text(plaintext) {
            Ok(t) => t,
            Err(m) => {
                let mut message_text = owned("Invalid UTF-8 in decrypted data: ");
                append(&mut message_text, m.as_str());
                return Err(AblyError::unexpected(message_text));
            },
        };
        let new_encoding = remove_cipher_steps(encoding.as_str());
        message.data = Some(JsonValue::String(text.clone()));
        message.encoding = if new_encoding.as_str().is_empty() {
            None
        } else {
            Some(new_encoding)
        };
        Ok(Some(text))
    }
}

/// The encoding without its `cipher` steps.
pub fn remove_cipher_steps(encoding: &str) -> (s: String)
    ensures
        s@ == join_with(without_cipher_steps(split_on(encoding@, '/')), "/"@),
{
    let chars = chars_of(encoding);
    let parts = split_chars(&chars, '/');
    let ghost pieces = split_on(encoding@, '/');
    let needle = chars_of("cipher");
    let mut kept: Vec<Vec<char>> = Vec::new();
    let mut i: usize = 0;
    while i < parts.len()
        invariant
            needle@ == "cipher"@,
            parts@.len() == pieces.len(),
            forall|k: int| 0 <= k < parts@.len() ==> #[trigger] parts@[k]@ == pieces[k],
            0 <= i <= parts@.len(),
            kept@.map_values(|p: Vec<char>| p@) == without_cipher_steps(pieces.take(i as int)),
        decreases parts@.len() - i,
    {
        proof {
            assert(pieces.take(i + 1).drop_last() =~= pieces.take(i as int));
            assert(pieces.take(i + 1).last() == pieces[i as int]);
        }
        let ghost before = kept@;
        if !crate::text::chars_contain(&parts[i], &needle) {
            let piece = parts[i].clone();
            proof {
                assert(piece@ == parts@[i as int]@);
            }
            kept.push(piece);
            proof {
                assert(kept@.map_values(|p: Vec<char>| p@) =~= before.map_values(|p: Vec<char>| p@).push(pieces[i as int]));
            }
        }
        i = i + 1;
    }
    proof {
        assert(pieces.take(pieces.len() as int) =~= pieces);
    }
    let slash = chars_of("/");
    let joined = join_chars(&kept, &slash);
    string_of(joined.as_slice())
}

/// A fresh random key for a variant.
pub fn generate_random_key(algorithm: CipherAlgorithm) -> (key: Vec<u8>)
    ensures
        key@.len() == key_size(algorithm),
{
    let size: usize = match algorithm {
        CipherAlgorithm::Aes128 => 16,
        CipherAlgorithm::Aes256 => 32,
    };
    random_bytes(size)
}

/// A fresh random key for a variant, in standard base64.
pub fn generate_random_key_string(algorithm: CipherAlgorithm) -> (s: String)
    ensures
        exists|k: Seq<u8>| k.len() == key_size(algorithm) && s@ == #[trigger] base64_encoding(k),
{
    let key = generate_random_key(algorithm);
    proof {
        lemma_base64_len_fits(key@.len());
    }
    base64_encode(key.as_slice())
}

} // verus!
