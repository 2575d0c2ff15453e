//! The built-in plugins' own logic: plugin configuration, the logging
//! plugin's level, and the encryption plugin's handling of message data.
//! Running plugins, which is asynchronous, is left to the client around
//! the library.

use crate::codec::{base64_decode_outcome, base64_encoding, utf8_decode_outcome, utf8_text};
use crate::crypto::{is_unexpected, iv_bad, key_size, spec_cipher_decrypt, ChannelCipher, EncryptedData};
use crate::aes_cbc::padded_len;
use crate::encryption::channel_cipher::is_json_string_of;
use crate::error::{AblyError, AblyResult};
use crate::protocol::json::JsonValue;
use crate::protocol::messages::{same_but_payload, Message};
use crate::strmap::StringMap;
use crate::text::{append, owned, seq_contains, str_contains};
use vstd::prelude::*;
use vstd::utf8::encode_utf8;

verus! {

/// The configuration a plugin is initialized with.
#[derive(Debug, Clone)]
pub struct PluginConfig {
    pub enabled: bool,
    pub settings: StringMap<String>,
}

impl Default for PluginConfig {
    /// Enabled, with no settings.
    fn default() -> (c: PluginConfig)
        ensures
            c.enabled,
            c.settings@ == Map::<Seq<char>, String>::empty(),
    {
        PluginConfig { enabled: true, settings: StringMap::new() }
    }
}

/// The plugin that logs the names of messages passing through.
pub struct LoggingPlugin {
    level: String,
}

impl LoggingPlugin {
    /// The level it logs at.
    pub closed spec fn spec_level(&self) -> Seq<char> {
        self.level@
    }

    /// A logging plugin at `level`.
    pub fn new(level: &str) -> (p: LoggingPlugin)
        ensures
            p.spec_level() == level@,
    {
        LoggingPlugin { level: owned(level) }
    }

    /// The plugin's name, `logging`.
    pub fn name(&self) -> (s: &'static str)
        ensures
            s@ == "logging"@,
    {
        "logging"
    }

    /// The plugin's version, `1.0.0`.
    pub fn version(&self) -> (s: &'static str)
        ensures
            s@ == "1.0.0"@,
    {
        "1.0.0"
    }

    /// The level it logs at.
    pub fn level(&self) -> (s: &str)
        ensures
            s@ == self.spec_level(),
    {
        self.level.as_str()
    }

    /// Takes the level from the `level` setting, when there is one.
    pub fn initialize(&mut self, config: PluginConfig) -> (r: AblyResult<()>)
        ensures
            r is Ok,
            final(self).spec_level() == if config.settings@.contains_key("level"@) {
                config.settings@["level"@]@
            } else {
                old(self).spec_level()
            },
    {
        if let Some(level) = config.settings.get("level") {
            self.level = level.clone();
        }
        Ok(())
    }
}

/// The encoding the encryption plugin gives the data it encrypts.
pub open spec fn plugin_encoding() -> Seq<char> {
    "utf-8/cipher+aes-128-cbc/base64"@
}


/// `m1` is `m0` with its data encrypted by `cipher` from the JSON text
/// `p`: the base64 of an IV and a ciphertext that the cipher decrypts back
/// to `p` (and that base64 decodes back to them), the plugin's encoding,
/// and the other fields as they were.
pub open spec fn plugin_encrypts_to(cipher: ChannelCipher, m0: Message, p: Seq<u8>, m1: Message) -> bool {
    &&& exists|iv: Seq<u8>, c: Seq<u8>|
        #[trigger] spec_cipher_decrypt(cipher.spec_params().algorithm, cipher.spec_params().key@, iv, c)
            == Ok::<Seq<u8>, Seq<char>>(p) && iv.len() == 16 && is_json_string_of(m1.data, base64_encoding(iv + c))
            && base64_decode_outcome(encode_utf8(base64_encoding(iv + c))) == Ok::<Seq<u8>, Seq<char>>(iv + c)
    &&& opt_text_is(m1.encoding, plugin_encoding())
    &&& same_but_payload(m0, m1)
}

/// What the plugin makes of an incoming message `m`: when its encoding
/// names a cipher and its data is a string, the UTF-8 text of the data
/// base64 decoded, split into IV and ciphertext and decrypted; otherwise
/// nothing.
pub open spec fn inbound_step(cipher: ChannelCipher, m: Message, r: AblyResult<Option<String>>) -> bool {
    match (m.encoding, m.data) {
        (Some(enc), Some(JsonValue::String(s))) => if seq_contains(enc@, "cipher"@) {
            match base64_decode_outcome(encode_utf8(s@)) {
                Err(m) => r matches Err(e) && is_unexpected(e, "Invalid base64: "@ + m),
                Ok(b) => if b.len() < 16 {
                    r matches Err(e) && is_unexpected(e, "Data too short for IV + ciphertext"@)
                } else {
                    match spec_cipher_decrypt(
                        cipher.spec_params().algorithm,
                        cipher.spec_params().key@,
                        b.subrange(0, 16),
                        b.subrange(16, b.len() as int),
                    ) {
                        Err(m) => r matches Err(e) && is_unexpected(e, m),
                        Ok(p) => match utf8_decode_outcome(p) {
                            Err(m) => r matches Err(e) && is_unexpected(
                                e,
                                "Failed to decode UTF-8: "@ + m,
                            ),
                            Ok(t) => r matches Ok(Some(text)) && text@ == t,
                        },
                    }
                }
            }
        } else {
            r matches Ok(None)
        },
        _ => r matches Ok(None),
    }
}

/// What the plugin encrypts on the way out, it decrypts on the way in: the
/// JSON text comes back, when it is UTF-8.
pub proof fn law_plugin_round_trip(
    cipher: ChannelCipher,
    m0: Message,
    json: Seq<char>,
    m1: Message,
    r: AblyResult<Option<String>>,
)
    requires
        m0.data is Some,
        plugin_encrypts_to(cipher, m0, encode_utf8(json), m1),
        inbound_step(cipher, m1, r),
    ensures
        r matches Ok(Some(t)) && t@ == json,
{
    assert(seq_contains(plugin_encoding(), "cipher"@)) by {
        reveal_strlit("cipher");
        reveal_strlit("utf-8/cipher+aes-128-cbc/base64");
        assert(plugin_encoding().subrange(6, 12) =~= "cipher"@);
        assert(crate::text::occurs_at(plugin_encoding(), "cipher"@, 6));
    }
    let (iv, c) = choose|iv: Seq<u8>, c: Seq<u8>|
        #[trigger] spec_cipher_decrypt(cipher.spec_params().algorithm, cipher.spec_params().key@, iv, c)
            == Ok::<Seq<u8>, Seq<char>>(encode_utf8(json)) && iv.len() == 16 && is_json_string_of(
            m1.data,
            base64_encoding(iv + c),
        ) && base64_decode_outcome(encode_utf8(base64_encoding(iv + c))) == Ok::<Seq<u8>, Seq<char>>(iv + c);
    let b = iv + c;
    assert(b.subrange(0, 16) =~= iv);
    assert(b.subrange(16, b.len() as int) =~= c);
    vstd::utf8::encode_utf8_valid_utf8(json);
    vstd::utf8::encode_utf8_decode_utf8(json);
}

/// The plugin that encrypts the data of outgoing messages and decrypts
/// that of incoming ones.
pub struct EncryptionPlugin {
    cipher: ChannelCipher,
}

impl EncryptionPlugin {
    /// The cipher used.
    pub closed spec fn spec_cipher(&self) -> ChannelCipher {
        self.cipher
    }

    /// An encryption plugin with `cipher`.
    pub fn new(cipher: ChannelCipher) -> (p: EncryptionPlugin)
        ensures
            p.spec_cipher() == cipher,
    {
        EncryptionPlugin { cipher }
    }

    /// The plugin's name, `encryption`.
    pub fn name(&self) -> (s: &'static str)
        ensures
            s@ == "encryption"@,
    {
        "encryption"
    }

    /// The plugin's version, `1.0.0`.
    pub fn version(&self) -> (s: &'static str)
        ensures
            s@ == "1.0.0"@,
    {
        "1.0.0"
    }

    /// Encrypts the data of an outgoing message, if it has any: the data
    /// becomes the base64 of IV and ciphertext of `json_text`, the data's
    /// JSON serialization, which the caller provides, and the encoding
    /// becomes `utf-8/cipher+aes-128-cbc/base64`.
    pub fn process_outbound(&self, message: &mut Message, json_text: &[u8]) -> (r: AblyResult<()>)
        requires
            padded_len(json_text@.len()) + 16 <= usize::MAX / 4,
        ensures
            old(message).data is None ==> r is Ok && *final(message) == *old(message),
            old(message).data is Some ==> match r {
                Ok(_) => plugin_encrypts_to(self.spec_cipher(), *old(message), json_text@, *final(message)),
                Err(e) => is_unexpected(e, "Cipher init failed: Invalid Length"@) && *final(message)
                    == *old(message) && (self.spec_cipher().spec_params().key@.len() != key_size(
                    self.spec_cipher().spec_params().algorithm,
                ) || iv_bad(self.spec_cipher().spec_params().iv)),
            },
    {
        if message.data.is_none() {
            return Ok(());
        }
        let encrypted = match self.cipher.encrypt(json_text) {
            Ok(e) => e,
            Err(e) => {
                return Err(e);
            },
        };
        let encoded = encrypted.to_base64();
        message.data = Some(JsonValue::String(encoded));
        message.encoding = Some(owned("utf-8/cipher+aes-128-cbc/base64"));
        Ok(())
    }

    /// The decrypted JSON text of an incoming message whose encoding names
    /// a cipher and whose data is a string; `None` for any other message,
    /// which is left as it is. The caller parses the text into the
    /// message's new data and then clears its encoding.
    pub fn process_inbound(&self, message: &Message) -> (r: AblyResult<Option<String>>)
        ensures
            inbound_step(self.spec_cipher(), *message, r),
    {
        let encoding = match &message.encoding {
            Some(e) => e,
            None => {
                return Ok(None);
            },
        };
        if !str_contains(encoding.as_str(), "cipher") {
            return Ok(None);
        }
        let encoded = match &message.data {
            Some(JsonValue::String(s)) => s,
            _ => {
                return Ok(None);
            },
        };
        let encrypted = match EncryptedData::from_base64(encoded.as_str(), encoding.clone()) {
            Ok(d) => d,
            Err(e) => {
                return Err(e);
            },
        };
        let decrypted = match self.cipher.decrypt(&encrypted) {
            Ok(p) => p,
            Err(e) => {
                return Err(e);
            },
        };
        match utf8_text(decrypted) {
            Ok(t) => Ok(Some(t)),
            Err(m) => {
                let mut text = owned("Failed to decode UTF-8: ");
                append(&mut text, m.as_str());
                Err(AblyError::unexpected(text))
            },
        }
    }
}

/// `o` holds the text `t`.
pub open spec fn opt_text_is(o: Option<String>, t: Seq<char>) -> bool {
    o matches Some(s) && s@ == t
}

} // verus!
