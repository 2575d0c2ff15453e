//! AES in CBC mode with PKCS#7 padding, through the `aes` and `cbc` crates:
//! the block cipher operations that channel encryption is framed around.

use aes::cipher::block_padding::Pkcs7;
use aes::cipher::{BlockDecryptMut, BlockEncryptMut, KeyIvInit};
use vstd::prelude::*;

verus! {

/// The AES-128-CBC encryption, with PKCS#7 padding, of `plaintext` under
/// `key` and `iv`.
pub uninterp spec fn aes128_cbc_encryption(key: Seq<u8>, iv: Seq<u8>, plaintext: Seq<u8>) -> Seq<u8>;

/// The AES-128-CBC decryption of `ciphertext` under `key` and `iv`, with
/// the PKCS#7 padding removed; `None` when the padding is malformed.
pub uninterp spec fn aes128_cbc_decryption(key: Seq<u8>, iv: Seq<u8>, ciphertext: Seq<u8>) -> Option<Seq<u8>>;

/// The AES-256-CBC encryption, with PKCS#7 padding, of `plaintext` under
/// `key` and `iv`.
pub uninterp spec fn aes256_cbc_encryption(key: Seq<u8>, iv: Seq<u8>, plaintext: Seq<u8>) -> Seq<u8>;

/// The AES-256-CBC decryption of `ciphertext` under `key` and `iv`, with
/// the PKCS#7 padding removed; `None` when the padding is malformed.
pub uninterp spec fn aes256_cbc_decryption(key: Seq<u8>, iv: Seq<u8>, ciphertext: Seq<u8>) -> Option<Seq<u8>>;

/// The length of a PKCS#7-padded message of `n` bytes: the next multiple
/// of the 16-byte block strictly above `n`.
pub open spec fn padded_len(n: nat) -> nat {
    (n / 16 + 1) * 16
}

/// Encrypts with `cbc::Encryptor::<Aes128>::new_from_slices` and
/// `encrypt_padded_mut::<Pkcs7>` the first `msg_len` bytes of `buffer`,
/// which has room for the padding. The contract claims that the ciphertext
/// is a function of key, IV and plaintext, is the padded length long, and
/// decrypts back to the plaintext; the key and IV lengths that
/// `new_from_slices` accepts, and a buffer of the padded length, are
/// required, on which neither call fails.
#[verifier::external_body]
pub(crate) fn aes128_cbc_encrypt(key: &[u8], iv: &[u8], mut buffer: Vec<u8>, msg_len: usize) -> (r: Vec<u8>)
    requires
        key@.len() == 16,
        iv@.len() == 16,
        msg_len <= buffer@.len(),
        buffer@.len() == padded_len(msg_len as nat),
    ensures
        r@ == aes128_cbc_encryption(key@, iv@, buffer@.subrange(0, msg_len as int)),
        r@.len() == padded_len(msg_len as nat),
        aes128_cbc_decryption(key@, iv@, r@) == Some(buffer@.subrange(0, msg_len as int)),
{
    let cipher = cbc::Encryptor::<aes::Aes128>::new_from_slices(key, iv).unwrap();
    cipher.encrypt_padded_mut::<Pkcs7>(&mut buffer, msg_len).unwrap().to_vec()
}

/// Decrypts with `cbc::Decryptor::<Aes128>::new_from_slices` and
/// `decrypt_padded_mut::<Pkcs7>`. The contract claims that the outcome is a
/// function of key, IV and ciphertext, and that a ciphertext that is not a
/// whole number of blocks is refused, as the crate's source does.
#[verifier::external_body]
pub(crate) fn aes128_cbc_decrypt(key: &[u8], iv: &[u8], ciphertext: &[u8]) -> (r: Option<Vec<u8>>)
    requires
        key@.len() == 16,
        iv@.len() == 16,
    ensures
        match r {
            Some(p) => aes128_cbc_decryption(key@, iv@, ciphertext@) == Some(p@),
            None => aes128_cbc_decryption(key@, iv@, ciphertext@) is None,
        },
        ciphertext@.len() % 16 != 0 ==> r is None,
{
    let cipher = cbc::Decryptor::<aes::Aes128>::new_from_slices(key, iv).unwrap();
    let mut buffer = ciphertext.to_vec();
    cipher.decrypt_padded_mut::<Pkcs7>(&mut buffer).ok().map(|p| p.to_vec())
}

/// Encrypts with `cbc::Encryptor::<Aes256>::new_from_slices` and
/// `encrypt_padded_mut::<Pkcs7>`, as `aes128_cbc_encrypt` does with a
/// 32-byte key. The contract claims the same facts.
#[verifier::external_body]
pub(crate) fn aes256_cbc_encrypt(key: &[u8], iv: &[u8], mut buffer: Vec<u8>, msg_len: usize) -> (r: Vec<u8>)
    requires
        key@.len() == 32,
        iv@.len() == 16,
        msg_len <= buffer@.len(),
        buffer@.len() == padded_len(msg_len as nat),
    ensures
        r@ == aes256_cbc_encryption(key@, iv@, buffer@.subrange(0, msg_len as int)),
        r@.len() == padded_len(msg_len as nat),
        aes256_cbc_decryption(key@, iv@, r@) == Some(buffer@.subrange(0, msg_len as int)),
{
    let cipher = cbc::Encryptor::<aes::Aes256>::new_from_slices(key, iv).unwrap();
    cipher.encrypt_padded_mut::<Pkcs7>(&mut buffer, msg_len).unwrap().to_vec()
}

/// Decrypts with `cbc::Decryptor::<Aes256>::new_from_slices` and
/// `decrypt_padded_mut::<Pkcs7>`, as `aes128_cbc_decrypt` does with a
/// 32-byte key. The contract claims the same facts.
#[verifier::external_body]
pub(crate) fn aes256_cbc_decrypt(key: &[u8], iv: &[u8], ciphertext: &[u8]) -> (r: Option<Vec<u8>>)
    requires
        key@.len() == 32,
        iv@.len() == 16,
    ensures
        match r {
            Some(p) => aes256_cbc_decryption(key@, iv@, ciphertext@) == Some(p@),
            None => aes256_cbc_decryption(key@, iv@, ciphertext@) is None,
        },
        ciphertext@.len() % 16 != 0 ==> r is None,
{
    let cipher = cbc::Decryptor::<aes::Aes256>::new_from_slices(key, iv).unwrap();
    let mut buffer = ciphertext.to_vec();
    cipher.decrypt_padded_mut::<Pkcs7>(&mut buffer).ok().map(|p| p.to_vec())
}

/// `plaintext` followed by zeros up to its padded length: the buffer the
/// encryptions pad and encrypt in place.
pub(crate) fn padded_buffer(plaintext: &[u8]) -> (buffer: Vec<u8>)
    requires
        padded_len(plaintext@.len()) <= usize::MAX,
    ensures
        buffer@.len() == padded_len(plaintext@.len()),
        buffer@.subrange(0, plaintext@.len() as int) == plaintext@,
{
    let n = plaintext.len();
    let total = (n / 16 + 1) * 16;
    let mut buffer: Vec<u8> = Vec::new();
    let mut i: usize = 0;
    while i < total
        invariant
            n == plaintext@.len(),
            total == padded_len(n as nat),
            n < total,
            0 <= i <= total,
            buffer@.len() == i,
            forall|j: int| 0 <= j < i && j < n ==> buffer@[j] == plaintext@[j],
        decreases total - i,
    {
        if i < n {
            buffer.push(plaintext[i]);
        } else {
            buffer.push(0u8);
        }
        i = i + 1;
    }
    assert(buffer@.subrange(0, n as int) =~= plaintext@);
    buffer
}

} // verus!
