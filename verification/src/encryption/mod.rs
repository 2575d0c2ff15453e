//! Message encryption with AES-128 or AES-256 in CBC mode: cipher
//! parameters, and encryption framed as the IV followed by the ciphertext.

pub mod channel_cipher;

pub use channel_cipher::ChannelCipher;

use crate::aes_cbc::{
    aes128_cbc_decrypt, aes128_cbc_decryption, aes128_cbc_encrypt, aes128_cbc_encryption, aes256_cbc_decrypt,
    aes256_cbc_decryption, aes256_cbc_encrypt, aes256_cbc_encryption, padded_buffer, padded_len,
};
use crate::codec::{
    base64_decode, base64_decode_outcome, base64_encode, base64_encoding, base64_len_fits, base64_padded_len, random_bytes,
};
use crate::error::{AblyError, AblyResult};
use crate::text::{append, decimal, owned, u64_to_string};
use vstd::prelude::*;
use vstd::utf8::encode_utf8;

verus! {

/// The default algorithm.
pub const DEFAULT_ALGORITHM: &'static str = "aes";

/// The default key length, in bits.
pub const DEFAULT_KEY_LENGTH: usize = 256;

/// The default cipher mode.
pub const DEFAULT_MODE: &'static str = "cbc";

/// The AES block size, in bytes.
pub const BLOCK_SIZE: usize = 16;

/// Parameters of a cipher: algorithm, key length in bits, mode and key.
#[derive(Debug, Clone)]
pub struct CipherParams {
    /// Encryption algorithm (`aes`).
    pub algorithm: String,
    /// Key length in bits (128 or 256).
    pub key_length: usize,
    /// Cipher mode (`cbc`).
    pub mode: String,
    /// The key.
    pub key: Vec<u8>,
}

/// `e` is a bad-request error with message `msg`.
pub open spec fn is_bad_request(e: AblyError, msg: Seq<char>) -> bool {
    e matches AblyError::BadRequest { message } && message@ == msg
}

/// `e` is an encryption error with message `msg`.
pub open spec fn is_encryption_error(e: AblyError, msg: Seq<char>) -> bool {
    e matches AblyError::Encryption { message } && message@ == msg
}

/// The AES parameters for a key: `aes`, its length in bits, `cbc`.
pub open spec fn params_for(p: CipherParams, key: Seq<u8>) -> bool {
    &&& p.algorithm@ == "aes"@
    &&& p.key_length == key.len() * 8
    &&& p.mode@ == "cbc"@
    &&& p.key@ == key
}

/// The message refusing a key of `bits` bits.
pub open spec fn unsupported_key_text(bits: nat) -> Seq<char> {
    "Unsupported key length "@ + decimal(bits) + " bits. Must be 128 or 256 bits (16 or 32 bytes)"@
}

/// The encryption of `p` with IV `iv`: the IV followed by the ciphertext
/// for the key length, or the message of the error.
pub open spec fn spec_encrypt(key_length: usize, key: Seq<u8>, iv: Seq<u8>, p: Seq<u8>) -> Result<Seq<u8>, Seq<char>> {
    if key_length == 128 {
        if key.len() != 16 {
            Err("AES-128 requires 16-byte key"@)
        } else {
            Ok(iv + aes128_cbc_encryption(key, iv, p))
        }
    } else if key_length == 256 {
        if key.len() != 32 {
            Err("AES-256 requires 32-byte key"@)
        } else {
            Ok(iv + aes256_cbc_encryption(key, iv, p))
        }
    } else {
        Err("Unsupported key length: "@ + decimal(key_length as nat) + " bits"@)
    }
}

/// The decryption of `c`, the IV followed by the ciphertext: the plaintext,
/// or the error (`true` for an encryption error, `false` for a bad request)
/// with its message.
pub open spec fn spec_decrypt(key_length: usize, key: Seq<u8>, c: Seq<u8>) -> Result<Seq<u8>, (bool, Seq<char>)> {
    if c.len() < 16 {
        Err((false, "Ciphertext too short to contain IV"@))
    } else if key_length == 128 {
        if key.len() != 16 {
            Err((false, "AES-128 requires 16-byte key"@))
        } else {
            match aes128_cbc_decryption(key, c.subrange(0, 16), c.subrange(16, c.len() as int)) {
                Some(p) => Ok(p),
                None => Err((true, "AES-128 decryption failed: Unpad Error"@)),
            }
        }
    } else if key_length == 256 {
        if key.len() != 32 {
            Err((false, "AES-256 requires 32-byte key"@))
        } else {
            match aes256_cbc_decryption(key, c.subrange(0, 16), c.subrange(16, c.len() as int)) {
                Some(p) => Ok(p),
                None => Err((true, "AES-256 decryption failed: Unpad Error"@)),
            }
        }
    } else {
        Err((false, "Unsupported key length: "@ + decimal(key_length as nat) + " bits"@))
    }
}

/// `r` is the outcome of encrypting `p` with `params` under some 16-byte
/// IV: the IV followed by the ciphertext, which decrypts back to `p` and is
/// the padded length long; or the bad request that every IV meets.
pub open spec fn encryption_outcome(params: CipherParams, p: Seq<u8>, r: AblyResult<Vec<u8>>) -> bool {
    &&& match r {
        Ok(c) => exists|iv: Seq<u8>| iv.len() == 16 && #[trigger] spec_encrypt(params.key_length, params.key@, iv, p)
            == Ok::<Seq<u8>, Seq<char>>(c@),
        Err(e) => exists|m: Seq<char>| #[trigger] is_bad_request(e, m) && forall|iv: Seq<u8>|
            spec_encrypt(params.key_length, params.key@, iv, p) == Err::<Seq<u8>, Seq<char>>(m),
    }
    &&& r matches Ok(c) ==> spec_decrypt(params.key_length, params.key@, c@) == Ok::<Seq<u8>, (bool, Seq<char>)>(p)
    &&& r matches Ok(c) ==> c@.len() == 16 + padded_len(p.len())
}

/// Decrypting what encryption produced gives the plaintext back, for every
/// plaintext (the empty one and whole blocks included); the encryption is
/// longer than the plaintext.
pub proof fn law_decrypt_undoes_encrypt(
    params: CipherParams,
    p: Seq<u8>,
    c: Vec<u8>,
    r: AblyResult<Vec<u8>>,
)
    requires
        encryption_outcome(params, p, Ok(c)),
        decrypts_as(r, params.key_length, params.key@, c@),
    ensures
        r matches Ok(v) && v@ == p,
        c@.len() > p.len(),
{
}

/// A ciphertext too short to hold the IV is refused as a bad request.
pub proof fn law_short_ciphertext_refused(params: CipherParams, c: Seq<u8>, r: AblyResult<Vec<u8>>)
    requires
        c.len() < 16,
        decrypts_as(r, params.key_length, params.key@, c),
    ensures
        r matches Err(e) && is_bad_request(e, "Ciphertext too short to contain IV"@),
{
}

/// `r` is the outcome of decrypting `c` with the key length and key.
pub open spec fn decrypts_as(r: AblyResult<Vec<u8>>, key_length: usize, key: Seq<u8>, c: Seq<u8>) -> bool {
    match spec_decrypt(key_length, key, c) {
        Ok(p) => r matches Ok(v) && v@ == p,
        Err((true, m)) => r matches Err(e) && is_encryption_error(e, m),
        Err((false, m)) => r matches Err(e) && is_bad_request(e, m),
    }
}

impl CipherParams {
    /// AES-CBC parameters for `key`, which must be 16 or 32 bytes long.
    pub fn new(key: Vec<u8>) -> (r: AblyResult<CipherParams>)
        ensures
            key@.len() == 16 || key@.len() == 32 <==> r is Ok,
            r matches Ok(p) ==> params_for(p, key@),
            r matches Err(e) ==> is_bad_request(e, unsupported_key_text(key@.len() * 8)),
    {
        let n = key.len();
        if n != 16 && n != 32 {
            let bits = (n as u64 as u128) * 8;
            let mut message = owned("Unsupported key length ");
            let digits = crate::text::u128_to_string(bits);
            append(&mut message, digits.as_str());
            append(&mut message, " bits. Must be 128 or 256 bits (16 or 32 bytes)");
            return Err(AblyError::invalid_request(message));
        }
        Ok(CipherParams {
            algorithm: owned(DEFAULT_ALGORITHM),
            key_length: n * 8,
            mode: owned(DEFAULT_MODE),
            key,
        })
    }

    /// Parameters for a key given in standard base64.
    pub fn from_base64_key(base64_key: &str) -> (r: AblyResult<CipherParams>)
        ensures
            match base64_decode_outcome(encode_utf8(base64_key@)) {
                Ok(key) => (key.len() == 16 || key.len() == 32 <==> r is Ok) && (r matches Ok(p) ==> params_for(p, key))
                    && (r matches Err(e) ==> is_bad_request(e, unsupported_key_text(key.len() * 8))),
                Err(m) => r matches Err(e) && is_bad_request(e, "Invalid base64 key: "@ + m),
            },
    {
        match base64_decode(base64_key.as_bytes()) {
            Ok(key) => CipherParams::new(key),
            Err(e) => {
                let mut message = owned("Invalid base64 key: ");
                append(&mut message, e.as_str());
                Err(AblyError::invalid_request(message))
            },
        }
    }

    /// Parameters for a fresh random key of `key_length` bits (256 when
    /// none is given), which must be 128 or 256.
    pub fn generate_random_key(key_length: Option<usize>) -> (r: AblyResult<CipherParams>)
        ensures
            ({
                let bits = match key_length {
                    Some(b) => b,
                    None => 256,
                };
                &&& (bits == 128 || bits == 256 <==> r is Ok)
                &&& r matches Ok(p) ==> p.key_length == bits && p.key@.len() == bits / 8 && p.algorithm@ == "aes"@
                    && p.mode@ == "cbc"@
                &&& r matches Err(e) ==> is_bad_request(e, "Unsupported key length "@ + decimal(bits as nat)
                    + " bits. Must be 128 or 256 bits"@)
            }),
    {
        let bits = match key_length {
            Some(b) => b,
            None => DEFAULT_KEY_LENGTH,
        };
        if bits != 128 && bits != 256 {
            let mut message = owned("Unsupported key length ");
            let digits = u64_to_string(bits as u64);
            append(&mut message, digits.as_str());
            append(&mut message, " bits. Must be 128 or 256 bits");
            return Err(AblyError::invalid_request(message));
        }
        let key = random_bytes(bits / 8);
        CipherParams::new(key)
    }

    /// The key in standard base64.
    pub fn key_as_base64(&self) -> (s: String)
        requires
            base64_len_fits(self.key@.len()),
        ensures
            s@ == base64_encoding(self.key@),
            s@.len() == base64_padded_len(self.key@.len()),
            base64_decode_outcome(encode_utf8(s@)) == Ok::<Seq<u8>, Seq<char>>(self.key@),
    {
        proof {
            crate::codec::lemma_base64_encoding_len(self.key@);
        }
        base64_encode(self.key.as_slice())
    }

    /// The algorithm in Ably's form, `aes-256-cbc`.
    pub fn algorithm_string(&self) -> (s: String)
        ensures
            s@ == self.algorithm@ + "-"@ + decimal(self.key_length as nat) + "-"@ + self.mode@,
    {
        let mut s = self.algorithm.clone();
        append(&mut s, "-");
        let digits = u64_to_string(self.key_length as u64);
        append(&mut s, digits.as_str());
        append(&mut s, "-");
        append(&mut s, self.mode.as_str());
        s
    }
}

/// AES-CBC encryption as Ably frames it: the IV, then the ciphertext.
pub struct AblyCrypto;

impl AblyCrypto {
    /// Encrypts `plaintext` under a fresh random IV; the result is the IV
    /// followed by the ciphertext, and decrypts back to the plaintext.
    pub fn encrypt(params: &CipherParams, plaintext: &[u8]) -> (r: AblyResult<Vec<u8>>)
        requires
            padded_len(plaintext@.len()) + 16 <= usize::MAX,
        ensures
            encryption_outcome(*params, plaintext@, r),
    {
        let iv = random_bytes(BLOCK_SIZE);
        let ciphertext = if params.key_length == 128 {
            match AblyCrypto::encrypt_aes128(params.key.as_slice(), iv.as_slice(), plaintext) {
                Ok(c) => c,
                Err(e) => {
                    assert(is_bad_request(e, "AES-128 requires 16-byte key"@));
                    return Err(e);
                },
            }
        } else if params.key_length == 256 {
            match AblyCrypto::encrypt_aes256(params.key.as_slice(), iv.as_slice(), plaintext) {
                Ok(c) => c,
                Err(e) => {
                    assert(is_bad_request(e, "AES-256 requires 32-byte key"@));
                    return Err(e);
                },
            }
        } else {
            let mut message = owned("Unsupported key length: ");
            let digits = u64_to_string(params.key_length as u64);
            append(&mut message, digits.as_str());
            append(&mut message, " bits");
            let e = AblyError::invalid_request(message);
            assert(is_bad_request(e, message@));
            return Err(e);
        };
        let mut result: Vec<u8> = Vec::new();
        let mut i: usize = 0;
        while i < iv.len()
            invariant
                0 <= i <= iv@.len(),
                result@ == iv@.subrange(0, i as int),
            decreases iv@.len() - i,
        {
            result.push(iv[i]);
            i = i + 1;
        }
        let mut j: usize = 0;
        while j < ciphertext.len()
            invariant
                iv@.len() == 16,
                0 <= j <= ciphertext@.len(),
                result@ == iv@ + ciphertext@.subrange(0, j as int),
                ciphertext@.len() + 16 <= usize::MAX,
            decreases ciphertext@.len() - j,
        {
            result.push(ciphertext[j]);
            j = j + 1;
        }
        proof {
            assert(iv@.subrange(0, 16) =~= iv@);
            assert(ciphertext@.subrange(0, ciphertext@.len() as int) =~= ciphertext@);
            assert(result@.subrange(0, 16) =~= iv@);
            assert(result@.subrange(16, result@.len() as int) =~= ciphertext@);
            assert(spec_encrypt(params.key_length, params.key@, iv@, plaintext@) == Ok::<Seq<u8>, Seq<char>>(result@));
        }
        Ok(result)
    }

    /// Decrypts `ciphertext`, the IV followed by the ciphertext proper.
    pub fn decrypt(params: &CipherParams, ciphertext: &[u8]) -> (r: AblyResult<Vec<u8>>)
        ensures
            decrypts_as(r, params.key_length, params.key@, ciphertext@),
    {
        if ciphertext.len() < BLOCK_SIZE {
            return Err(AblyError::invalid_request("Ciphertext too short to contain IV"));
        }
        let (iv, body) = ciphertext.split_at(BLOCK_SIZE);
        if params.key_length == 128 {
            AblyCrypto::decrypt_aes128(params.key.as_slice(), iv, body)
        } else if params.key_length == 256 {
            AblyCrypto::decrypt_aes256(params.key.as_slice(), iv, body)
        } else {
            let mut message = owned("Unsupported key length: ");
            let digits = u64_to_string(params.key_length as u64);
            append(&mut message, digits.as_str());
            append(&mut message, " bits");
            Err(AblyError::invalid_request(message))
        }
    }

    /// AES-128-CBC encryption of `plaintext`.
    pub fn encrypt_aes128(key: &[u8], iv: &[u8], plaintext: &[u8]) -> (r: AblyResult<Vec<u8>>)
        requires
            iv@.len() == 16,
            padded_len(plaintext@.len()) + 16 <= usize::MAX,
        ensures
            key@.len() == 16 ==> (r matches Ok(c) && c@ == aes128_cbc_encryption(key@, iv@, plaintext@)
                && c@.len() == padded_len(plaintext@.len())
                && aes128_cbc_decryption(key@, iv@, c@) == Some(plaintext@)),
            key@.len() != 16 ==> (r matches Err(e) && is_bad_request(e, "AES-128 requires 16-byte key"@)),
    {
        if key.len() != 16 {
            return Err(AblyError::invalid_request("AES-128 requires 16-byte key"));
        }
        let buffer = padded_buffer(plaintext);
        Ok(aes128_cbc_encrypt(key, iv, buffer, plaintext.len()))
    }

    /// AES-128-CBC decryption of `ciphertext`.
    pub fn decrypt_aes128(key: &[u8], iv: &[u8], ciphertext: &[u8]) -> (r: AblyResult<Vec<u8>>)
        requires
            iv@.len() == 16,
        ensures
            key@.len() != 16 ==> (r matches Err(e) && is_bad_request(e, "AES-128 requires 16-byte key"@)),
            key@.len() == 16 ==> match aes128_cbc_decryption(key@, iv@, ciphertext@) {
                Some(p) => r matches Ok(v) && v@ == p,
                None => r matches Err(e) && is_encryption_error(e, "AES-128 decryption failed: Unpad Error"@),
            },
    {
        if key.len() != 16 {
            return Err(AblyError::invalid_request("AES-128 requires 16-byte key"));
        }
        match aes128_cbc_decrypt(key, iv, ciphertext) {
            Some(p) => Ok(p),
            None => Err(AblyError::encryption("AES-128 decryption failed: Unpad Error")),
        }
    }

    /// AES-256-CBC encryption of `plaintext`.
    pub fn encrypt_aes256(key: &[u8], iv: &[u8], plaintext: &[u8]) -> (r: AblyResult<Vec<u8>>)
        requires
            iv@.len() == 16,
            padded_len(plaintext@.len()) + 16 <= usize::MAX,
        ensures
            key@.len() == 32 ==> (r matches Ok(c) && c@ == aes256_cbc_encryption(key@, iv@, plaintext@)
                && c@.len() == padded_len(plaintext@.len())
                && aes256_cbc_decryption(key@, iv@, c@) == Some(plaintext@)),
            key@.len() != 32 ==> (r matches Err(e) && is_bad_request(e, "AES-256 requires 32-byte key"@)),
    {
        if key.len() != 32 {
            return Err(AblyError::invalid_request("AES-256 requires 32-byte key"));
        }
        let buffer = padded_buffer(plaintext);
        Ok(aes256_cbc_encrypt(key, iv, buffer, plaintext.len()))
    }

    /// AES-256-CBC decryption of `ciphertext`.
    pub fn decrypt_aes256(key: &[u8], iv: &[u8], ciphertext: &[u8]) -> (r: AblyResult<Vec<u8>>)
        requires
            iv@.len() == 16,
        ensures
            key@.len() != 32 ==> (r matches Err(e) && is_bad_request(e, "AES-256 requires 32-byte key"@)),
            key@.len() == 32 ==> match aes256_cbc_decryption(key@, iv@, ciphertext@) {
                Some(p) => r matches Ok(v) && v@ == p,
                None => r matches Err(e) && is_encryption_error(e, "AES-256 decryption failed: Unpad Error"@),
            },
    {
        if key.len() != 32 {
            return Err(AblyError::invalid_request("AES-256 requires 32-byte key"));
        }
        match aes256_cbc_decrypt(key, iv, ciphertext) {
            Some(p) => Ok(p),
            None => Err(AblyError::encryption("AES-256 decryption failed: Unpad Error")),
        }
    }
}

} // verus!
