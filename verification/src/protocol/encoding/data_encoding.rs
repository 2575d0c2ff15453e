//! Names of payload encodings and what an encoding string says of the
//! payload.

use crate::codec::{base64_decode, base64_decode_outcome};
use crate::text::{
    append, chars_of, has_prefix, owned, seq_contains, split_chars, split_on, str_contains, str_starts_with, string_of,
};
use vstd::prelude::*;

verus! {

/// Text in UTF-8.
pub const UTF8: &'static str = "utf-8";
/// JSON text.
pub const JSON: &'static str = "json";
/// Bytes in standard base64.
pub const BASE64: &'static str = "base64";
/// Encrypted with AES-128 in CBC mode.
pub const CIPHER_AES128: &'static str = "cipher+aes-128-cbc";
/// Encrypted with AES-256 in CBC mode.
pub const CIPHER_AES256: &'static str = "cipher+aes-256-cbc";

/// Whether the encoding includes encryption.
pub fn is_encrypted(encoding: &str) -> (r: bool)
    ensures
        r == seq_contains(encoding@, "cipher+"@),
{
    str_contains(encoding, "cipher+")
}

/// The key size in bytes that the cipher named in the encoding needs:
/// 16 for AES-128, 32 for AES-256.
pub fn get_key_size(encoding: &str) -> (r: Option<usize>)
    ensures
        r == if seq_contains(encoding@, "aes-128"@) {
            Some(16usize)
        } else if seq_contains(encoding@, "aes-256"@) {
            Some(32usize)
        } else {
            None
        },
{
    if str_contains(encoding, "aes-128") {
        Some(16)
    } else if str_contains(encoding, "aes-256") {
        Some(32)
    } else {
        None
    }
}

/// What one step of an encoding string does to a payload.
#[derive(Debug, Clone, Copy, PartialEq, Eq, Structural)]
pub enum EncodingStep {
    /// `utf-8` or `json`: the bytes stay as they are.
    Identity,
    /// `base64`.
    Base64,
    /// A `cipher+...` step, which these paths do not handle.
    Cipher,
    /// Any other name.
    Unknown,
}

/// The kind of the step named `name`.
pub open spec fn step_kind(name: Seq<char>) -> EncodingStep {
    if name == "utf-8"@ || name == "json"@ {
        EncodingStep::Identity
    } else if name == "base64"@ {
        EncodingStep::Base64
    } else if has_prefix(name, "cipher+"@) {
        EncodingStep::Cipher
    } else {
        EncodingStep::Unknown
    }
}

/// The kind of the step named `name`.
pub fn encoding_step(name: &str) -> (k: EncodingStep)
    ensures
        k == step_kind(name@),
{
    let s = owned(name);
    if s == owned("utf-8") || s == owned("json") {
        EncodingStep::Identity
    } else if s == owned("base64") {
        EncodingStep::Base64
    } else if str_starts_with(name, "cipher+") {
        EncodingStep::Cipher
    } else {
        EncodingStep::Unknown
    }
}

/// Encoding a payload along `steps`, in order: how many times it is
/// base64-encoded, or the error of the first step that cannot be applied.
pub open spec fn encode_plan_of(steps: Seq<Seq<char>>) -> Result<nat, Seq<char>>
    decreases steps.len(),
{
    if steps.len() == 0 {
        Ok(0)
    } else {
        match encode_plan_of(steps.drop_last()) {
            Err(e) => Err(e),
            Ok(n) => match step_kind(steps.last()) {
                EncodingStep::Identity => Ok(n),
                EncodingStep::Base64 => Ok(n + 1),
                EncodingStep::Cipher => Err("Cipher encoding not yet implemented: "@ + steps.last()),
                EncodingStep::Unknown => Err("Unknown encoding: "@ + steps.last()),
            },
        }
    }
}

/// How encoding a payload along `encoding` (steps separated by `/`, applied
/// in order) goes: the number of base64 passes over its JSON text, or the
/// error of the first step that cannot be applied.
pub fn encode_plan(encoding: &str) -> (r: Result<usize, String>)
    ensures
        match encode_plan_of(split_on(encoding@, '/')) {
            Ok(n) => r matches Ok(k) && k == n,
            Err(m) => r matches Err(e) && e@ == m,
        },
{
    let chars = chars_of(encoding);
    let parts = split_chars(&chars, '/');
    let ghost steps = split_on(encoding@, '/');
    let mut count: usize = 0;
    let mut i: usize = 0;
    while i < parts.len()
        invariant
            0 <= i <= parts@.len(),
            steps == split_on(encoding@, '/'),
            parts@.len() == steps.len(),
            forall|k: int| 0 <= k < parts@.len() ==> #[trigger] parts@[k]@ == steps[k],
            encode_plan_of(steps.subrange(0, i as int)) == Ok::<nat, Seq<char>>(count as nat),
            count <= i,
        decreases parts@.len() - i,
    {
        proof {
            assert(steps.subrange(0, i + 1).drop_last() =~= steps.subrange(0, i as int));
            assert(steps.subrange(0, i + 1).last() == steps[i as int]);
            assert(parts@[i as int]@ == steps[i as int]);
        }
        let name = string_of(parts[i].as_slice());
        assert(name@ == steps[i as int]);
        match encoding_step(name.as_str()) {
            EncodingStep::Identity => {},
            EncodingStep::Base64 => {
                count = count + 1;
            },
            EncodingStep::Cipher => {
                let mut e = owned("Cipher encoding not yet implemented: ");
                append(&mut e, name.as_str());
                proof {
                    lemma_encode_plan_stops(steps, i as int);
                }
                return Err(e);
            },
            EncodingStep::Unknown => {
                let mut e = owned("Unknown encoding: ");
                append(&mut e, name.as_str());
                proof {
                    lemma_encode_plan_stops(steps, i as int);
                }
                return Err(e);
            },
        }
        i = i + 1;
    }
    proof {
        assert(steps.subrange(0, steps.len() as int) =~= steps);
    }
    Ok(count)
}

/// Once a step cannot be applied, the plan of every longer prefix fails
/// with its error.
proof fn lemma_encode_plan_stops(steps: Seq<Seq<char>>, i: int)
    requires
        0 <= i < steps.len(),
        encode_plan_of(steps.subrange(0, i)) is Ok,
        step_kind(steps[i]) == EncodingStep::Cipher || step_kind(steps[i]) == EncodingStep::Unknown,
    ensures
        encode_plan_of(steps) == encode_plan_of(steps.subrange(0, i + 1)),
        encode_plan_of(steps) is Err,
    decreases steps.len() - i,
{
    assert(steps.subrange(0, i + 1).drop_last() =~= steps.subrange(0, i));
    if i + 1 < steps.len() {
        lemma_encode_plan_err_extends(steps, i + 1);
    } else {
        assert(steps.subrange(0, i + 1) =~= steps);
    }
}

/// A failing plan keeps failing, with the same error, as steps are added.
proof fn lemma_encode_plan_err_extends(steps: Seq<Seq<char>>, j: int)
    requires
        0 < j <= steps.len(),
        encode_plan_of(steps.subrange(0, j)) is Err,
    ensures
        encode_plan_of(steps) == encode_plan_of(steps.subrange(0, j)),
    decreases steps.len() - j,
{
    if j == steps.len() {
        assert(steps.subrange(0, j) =~= steps);
    } else {
        assert(steps.subrange(0, j + 1).drop_last() =~= steps.subrange(0, j));
        lemma_encode_plan_err_extends(steps, j + 1);
    }
}

/// Decoding a payload along `steps`, last step first: the bytes left to
/// parse as JSON, or the error of the first step that cannot be undone.
pub open spec fn decode_steps(data: Seq<u8>, steps: Seq<Seq<char>>) -> Result<Seq<u8>, Seq<char>>
    decreases steps.len(),
{
    if steps.len() == 0 {
        Ok(data)
    } else {
        match step_kind(steps.last()) {
            EncodingStep::Identity => decode_steps(data, steps.drop_last()),
            EncodingStep::Base64 => match base64_decode_outcome(data) {
                Ok(b) => decode_steps(b, steps.drop_last()),
                Err(m) => Err("Base64 decoding failed: "@ + m),
            },
            EncodingStep::Cipher => Err("Cipher decoding not yet implemented: "@ + steps.last()),
            EncodingStep::Unknown => Err("Unknown encoding: "@ + steps.last()),
        }
    }
}

/// Undoes the steps of `encoding` on `data`, last step first, leaving the
/// bytes of its JSON text, or the error of the first step that cannot be
/// undone.
pub fn decode_payload(data: &[u8], encoding: &str) -> (r: Result<Vec<u8>, String>)
    ensures
        match decode_steps(data@, split_on(encoding@, '/')) {
            Ok(b) => r matches Ok(v) && v@ == b,
            Err(m) => r matches Err(e) && e@ == m,
        },
{
    let chars = chars_of(encoding);
    let parts = split_chars(&chars, '/');
    let ghost steps = split_on(encoding@, '/');
    let mut result: Vec<u8> = crate::text::copy_bytes(data);
    let mut i: usize = parts.len();
    proof {
        assert(steps.subrange(0, i as int) =~= steps);
    }
    while i > 0
        invariant
            0 <= i <= parts@.len(),
            steps == split_on(encoding@, '/'),
            parts@.len() == steps.len(),
            forall|k: int| 0 <= k < parts@.len() ==> #[trigger] parts@[k]@ == steps[k],
            decode_steps(data@, steps) == decode_steps(result@, steps.subrange(0, i as int)),
        decreases i,
    {
        let ghost prefix = steps.subrange(0, i as int);
        proof {
            assert(prefix.drop_last() =~= steps.subrange(0, i - 1));
            assert(prefix.last() == steps[i - 1]);
        }
        proof {
            assert(parts@[i - 1]@ == steps[i - 1]);
        }
        let name = string_of(parts[i - 1].as_slice());
        assert(name@ == prefix.last());
        match encoding_step(name.as_str()) {
            EncodingStep::Identity => {},
            EncodingStep::Base64 => {
                match base64_decode(result.as_slice()) {
                    Ok(b) => {
                        result = b;
                    },
                    Err(m) => {
                        let mut e = owned("Base64 decoding failed: ");
                        append(&mut e, m.as_str());
                        return Err(e);
                    },
                }
            },
            EncodingStep::Cipher => {
                let mut e = owned("Cipher decoding not yet implemented: ");
                append(&mut e, name.as_str());
                return Err(e);
            },
            EncodingStep::Unknown => {
                let mut e = owned("Unknown encoding: ");
                append(&mut e, name.as_str());
                return Err(e);
            },
        }
        i = i - 1;
    }
    Ok(result)
}

} // verus!
