//! Delta compression for channels: the VCDIFF decoder, the plugin that
//! wraps a decoder, and the processing of delta-encoded messages.

pub mod channel_delta;
pub mod error_codes;
pub mod vcdiff;

pub use channel_delta::ChannelDeltaHandler;
pub use vcdiff::VcdiffDecoder;

use crate::codec::{base64_decode, base64_decode_outcome, utf8_lossy, utf8_lossy_text};
use crate::error::{AblyError, AblyResult};
use crate::protocol::json::{member_of, spec_get, JsonValue};
use crate::protocol::messages::{
    copy_members, copy_messages, clone_opt_string, opt_text, same_members, same_messages, Message,
    ProtocolMessage,
};
use crate::strmap::StringMap;
use crate::text::{append, owned};
use vcdiff::{fault_message, spec_decode};
use vstd::prelude::*;
use vstd::utf8::encode_utf8;

verus! {

/// A decoder of delta-encoded payloads, as a delta plugin uses it.
pub trait DeltaDecoder {
    /// Decodes `delta` against the base payload `source`.
    fn decode(&self, delta: &[u8], source: &[u8]) -> AblyResult<Vec<u8>>;
}

/// `c` raised by one, staying at `usize::MAX` once there.
pub open spec fn bump(c: usize) -> usize {
    if c < usize::MAX {
        (c + 1) as usize
    } else {
        c
    }
}

/// `c` raised by `k`, staying at `usize::MAX` once there.
pub open spec fn bump_by(c: usize, k: nat) -> usize {
    if c + k <= usize::MAX {
        (c + k) as usize
    } else {
        usize::MAX
    }
}

/// The delta compression plugin of a channel: a VCDIFF decoder and the
/// number of payloads it decoded.
#[derive(Debug, Clone)]
pub struct DeltaPlugin {
    decoder: VcdiffDecoder,
    decode_count: usize,
}

impl DeltaPlugin {
    /// The output limit of the plugin's decoder.
    pub closed spec fn spec_max(&self) -> usize {
        self.decoder.max_output_size
    }

    /// The number of payloads decoded so far.
    pub closed spec fn spec_count(&self) -> usize {
        self.decode_count
    }

    /// A plugin around `decoder` that has decoded nothing yet.
    pub fn new(decoder: VcdiffDecoder) -> (p: DeltaPlugin)
        ensures
            p.spec_max() == decoder.max_output_size,
            p.spec_count() == 0,
    {
        DeltaPlugin { decoder, decode_count: 0 }
    }

    /// Decodes `delta_data` against `base_payload`, counting the success.
    pub fn decode_message(&mut self, delta_data: &[u8], base_payload: &[u8]) -> (r: AblyResult<Vec<u8>>)
        ensures
            vcdiff::agrees(
                r,
                spec_decode(delta_data@, base_payload@, old(self).spec_max() as nat),
                |v: Vec<u8>, s: Seq<u8>| v@ == s,
            ),
            final(self).spec_max() == old(self).spec_max(),
            final(self).spec_count() == (if r is Ok {
                bump(old(self).spec_count())
            } else {
                old(self).spec_count()
            }),
    {
        let decoded = match self.decoder.decode_with_source(delta_data, base_payload) {
            Ok(v) => v,
            Err(e) => {
                return Err(e);
            },
        };
        if self.decode_count < usize::MAX {
            self.decode_count = self.decode_count + 1;
        }
        Ok(decoded)
    }

    /// The number of payloads decoded so far.
    pub fn decode_count(&self) -> (n: usize)
        ensures
            n == self.spec_count(),
    {
        self.decode_count
    }
}

/// What delta decoding of a channel works with: the channel options, the
/// plugins by name, and the payload the next delta applies to.
#[derive(Debug, Clone)]
pub struct DeltaContext {
    /// Channel options.
    pub channel_options: StringMap<String>,
    /// Available plugins, by name.
    pub plugins: StringMap<DeltaPlugin>,
    /// The payload of the previous message, base of the next delta.
    pub base_encoded_previous_payload: Option<Vec<u8>>,
}

/// The output limit of the context's `vcdiff` plugin, when it has one.
pub open spec fn vcdiff_limit(ctx: DeltaContext) -> Option<usize> {
    if ctx.plugins@.dom().contains("vcdiff"@) {
        Some(ctx.plugins@["vcdiff"@].spec_max())
    } else {
        None
    }
}

/// The base payload of a context, as bytes.
pub open spec fn base_of(ctx: DeltaContext) -> Option<Seq<u8>> {
    match ctx.base_encoded_previous_payload {
        Some(b) => Some(b@),
        None => None,
    }
}

impl Default for DeltaContext {
    fn default() -> (c: DeltaContext)
        ensures
            c.channel_options@ == Map::<Seq<char>, String>::empty(),
            c.plugins@ == Map::<Seq<char>, DeltaPlugin>::empty(),
            c.base_encoded_previous_payload is None,
    {
        DeltaContext {
            channel_options: StringMap::new(),
            plugins: StringMap::new(),
            base_encoded_previous_payload: None,
        }
    }
}

impl DeltaContext {
    /// A context with no options, no plugins and no base payload.
    pub fn new() -> (c: DeltaContext)
        ensures
            c.channel_options@ == Map::<Seq<char>, String>::empty(),
            c.plugins@ == Map::<Seq<char>, DeltaPlugin>::empty(),
            c.base_encoded_previous_payload is None,
    {
        DeltaContext::default()
    }

    /// Adds `plugin` under `name`, in place of a plugin of that name.
    pub fn add_plugin(&mut self, name: &str, plugin: DeltaPlugin)
        ensures
            final(self).plugins@ == old(self).plugins@.insert(name@, plugin),
            final(self).channel_options@ == old(self).channel_options@,
            final(self).base_encoded_previous_payload == old(self).base_encoded_previous_payload,
    {
        let _ = self.plugins.insert(owned(name), plugin);
    }

    /// Sets the base payload for the next delta.
    pub fn set_base_payload(&mut self, payload: Vec<u8>)
        ensures
            final(self).base_encoded_previous_payload == Some(payload),
            final(self).plugins@ == old(self).plugins@,
            final(self).channel_options@ == old(self).channel_options@,
    {
        self.base_encoded_previous_payload = Some(payload);
    }

    /// Drops the base payload.
    pub fn clear_base_payload(&mut self)
        ensures
            final(self).base_encoded_previous_payload is None,
            final(self).plugins@ == old(self).plugins@,
            final(self).channel_options@ == old(self).channel_options@,
    {
        self.base_encoded_previous_payload = None;
    }

    /// Whether a `vcdiff` plugin is there to decode deltas.
    pub fn has_delta_support(&self) -> (b: bool)
        ensures
            b == self.plugins@.dom().contains("vcdiff"@),
    {
        self.plugins.contains_key("vcdiff")
    }
}

/// The text a delta-encoded message decodes to, or the message of the
/// decode error, given the `vcdiff` plugin's limit and the base payload.
pub open spec fn spec_decode_one(limit: Option<usize>, base: Option<Seq<u8>>, m: Message) -> Result<Seq<char>, Seq<char>> {
    match limit {
        None => Err("Missing Vcdiff decoder (https://github.com/ably-forks/vcdiff-decoder)"@),
        Some(max) => match base {
            None => Err("No base payload available for delta decode"@),
            Some(b) => match m.data {
                None => Err("No delta data in message"@),
                Some(JsonValue::String(s)) => match base64_decode_outcome(encode_utf8(s@)) {
                    Err(e) => Err("Failed to decode base64 delta data: "@ + e),
                    Ok(bytes) => match spec_decode(bytes, b, max as nat) {
                        Err(f) => Err("Vcdiff delta decode failed: "@ + ("Decode error: "@ + fault_message(f))),
                        Ok(out) => Ok(utf8_lossy(out)),
                    },
                },
                Some(_) => Err("Delta data must be base64 string"@),
            },
        },
    }
}

/// `r` is `m` with its data replaced by the string `text`.
pub open spec fn decoded_as(m: Message, r: Message, text: Seq<char>) -> bool {
    &&& opt_text(r.id) == opt_text(m.id)
    &&& opt_text(r.client_id) == opt_text(m.client_id)
    &&& opt_text(r.connection_id) == opt_text(m.connection_id)
    &&& opt_text(r.connection_key) == opt_text(m.connection_key)
    &&& opt_text(r.name) == opt_text(m.name)
    &&& r.data matches Some(JsonValue::String(t)) && t@ == text
    &&& opt_text(r.encoding) == opt_text(m.encoding)
    &&& match (m.extras, r.extras) {
        (None, None) => true,
        (Some(x), Some(y)) => same_members(x@, y@),
        _ => false,
    }
    &&& r.timestamp == m.timestamp
}

/// Message `m` decodes, and `r` is what it decodes to.
pub open spec fn decodes_into(limit: Option<usize>, base: Option<Seq<u8>>, m: Message, r: Message) -> bool {
    match spec_decode_one(limit, base, m) {
        Ok(t) => decoded_as(m, r, t),
        Err(_) => false,
    }
}

/// Message `m` does not decode, and `e` is the error for it.
pub open spec fn fails_with(limit: Option<usize>, base: Option<Seq<u8>>, m: Message, e: AblyError) -> bool {
    match spec_decode_one(limit, base, m) {
        Ok(_) => false,
        Err(msg) => is_decoding(e, msg),
    }
}

/// Every message before index `i` decodes.
pub open spec fn decodes_before(limit: Option<usize>, base: Option<Seq<u8>>, ms: Seq<Message>, i: int) -> bool {
    forall|j: int| 0 <= j < i ==> (#[trigger] spec_decode_one(limit, base, ms[j])) is Ok
}

/// The `delta` extra of the first message, when there is one.
pub open spec fn delta_extra(pm: ProtocolMessage) -> Option<JsonValue> {
    match pm.messages {
        Some(ms) => if ms@.len() > 0 {
            match ms@[0].extras {
                Some(ex) => member_of(ex@, "delta"@),
                None => None,
            }
        } else {
            None
        },
        None => None,
    }
}

/// The message that a delta applies to, as a delta extra names it.
pub open spec fn delta_from(d: JsonValue) -> Option<Seq<char>> {
    match spec_get(d, "from"@) {
        Some(JsonValue::String(f)) => Some(f@),
        _ => None,
    }
}

/// The text of the error for a delta whose base message is not the last
/// one seen.
pub open spec fn missing_base_text(first: Message) -> Seq<char> {
    "Delta message decode failure - previous message not available for message \""@
        + (match first.id {
        Some(id) => id@,
        None => "unknown"@,
    }) + "\""@
}

/// `e` is a decode error with message `msg`.
pub open spec fn is_decoding(e: AblyError, msg: Seq<char>) -> bool {
    e matches AblyError::Decode { message } && message@ == msg
}

/// What processing protocol message `pm` does: `p0` is the processor
/// before, `p1` after, `r` the outcome.
pub open spec fn process_relation(p0: DeltaProcessor, pm: ProtocolMessage, r: AblyResult<Vec<Message>>, p1: DeltaProcessor) -> bool {
    &&& p1.spec_recovering() == p0.spec_recovering()
    &&& p1.spec_context().channel_options@ == p0.spec_context().channel_options@
    &&& p1.spec_context().base_encoded_previous_payload
        == p0.spec_context().base_encoded_previous_payload
    &&& p1.spec_context().plugins@.dom() == p0.spec_context().plugins@.dom()
    &&& forall|k: Seq<char>| k != "vcdiff"@ && #[trigger] p0.spec_context().plugins@.dom().contains(k)
        ==> p1.spec_context().plugins@[k] == p0.spec_context().plugins@[k]
    &&& p0.spec_context().plugins@.dom().contains("vcdiff"@) ==>
        p1.spec_context().plugins@["vcdiff"@].spec_max()
            == p0.spec_context().plugins@["vcdiff"@].spec_max()
    &&& match pm.messages {
        None => r matches Ok(v) && v@.len() == 0 && p1.spec_last_id() == p0.spec_last_id()
            && p1.spec_last_serial() == p0.spec_last_serial()
            && p1.spec_context().plugins@ == p0.spec_context().plugins@,
        Some(ms) => if ms@.len() == 0 {
            r matches Ok(v) && v@.len() == 0 && p1.spec_last_id() == p0.spec_last_id()
                && p1.spec_last_serial() == p0.spec_last_serial()
                && p1.spec_context().plugins@ == p0.spec_context().plugins@
        } else {
            match delta_extra(pm) {
                None => r matches Ok(v) && same_messages(ms@, v@)
                    && p1.spec_last_id() == opt_text(ms@.last().id)
                    && p1.spec_last_serial() == opt_text(pm.channel_serial)
                    && p1.spec_context().plugins@ == p0.spec_context().plugins@,
                Some(d) => {
                    let limit = vcdiff_limit(p0.spec_context());
                    let base = base_of(p0.spec_context());
                    let count = p0.spec_context().plugins@["vcdiff"@].spec_count();
                    let after = p1.spec_context().plugins@["vcdiff"@].spec_count();
                    if delta_from(d) is None {
                        r matches Err(e) && is_decoding(e, "Missing delta.from field"@)
                            && p1.spec_last_id() == p0.spec_last_id()
                            && p1.spec_last_serial() == p0.spec_last_serial()
                            && p1.spec_context().plugins@ == p0.spec_context().plugins@
                    } else if delta_from(d) != p0.spec_last_id() {
                        r matches Err(e) && is_decoding(e, missing_base_text(ms@[0]))
                            && p1.spec_last_id() == p0.spec_last_id()
                            && p1.spec_last_serial() == p0.spec_last_serial()
                            && p1.spec_context().plugins@ == p0.spec_context().plugins@
                    } else {
                        match r {
                            Ok(v) => decodes_before(limit, base, ms@, ms@.len() as int)
                                && v@.len() == ms@.len()
                                && (forall|i: int| 0 <= i < ms@.len() ==> #[trigger] decodes_into(limit, base, ms@[i], v@[i]))
                                && p1.spec_last_id() == opt_text(ms@.last().id)
                                && p1.spec_last_serial() == opt_text(pm.channel_serial)
                                && (limit is Some ==> after == bump_by(count, ms@.len())),
                            Err(e) => exists|i: int| 0 <= i < ms@.len() && decodes_before(limit, base, ms@, i)
                                && #[trigger] fails_with(limit, base, ms@[i], e)
                                && p1.spec_last_id() == p0.spec_last_id()
                                && p1.spec_last_serial() == p0.spec_last_serial()
                                && (limit is Some ==> after == bump_by(count, i as nat)),
                        }
                    }
                },
            }
        }
    }
}

/// Processes incoming messages, decoding deltas against the previous
/// message's payload, and tracks what a recovery needs.
#[derive(Debug)]
pub struct DeltaProcessor {
    context: DeltaContext,
    last_message_id: Option<String>,
    last_channel_serial: Option<String>,
    decode_failure_recovery_in_progress: bool,
}

impl DeltaProcessor {
    /// The decoding context.
    pub closed spec fn spec_context(&self) -> DeltaContext {
        self.context
    }

    /// The id of the last message processed.
    pub closed spec fn spec_last_id(&self) -> Option<Seq<char>> {
        opt_text(self.last_message_id)
    }

    /// The channel serial of the last protocol message processed.
    pub closed spec fn spec_last_serial(&self) -> Option<Seq<char>> {
        opt_text(self.last_channel_serial)
    }

    /// Whether a decode failure recovery is under way.
    pub closed spec fn spec_recovering(&self) -> bool {
        self.decode_failure_recovery_in_progress
    }

    /// A processor over `context`, with nothing seen yet.
    pub fn new(context: DeltaContext) -> (p: DeltaProcessor)
        ensures
            p.spec_context() == context,
            p.spec_last_id() is None,
            p.spec_last_serial() is None,
            !p.spec_recovering(),
    {
        DeltaProcessor {
            context,
            last_message_id: None,
            last_channel_serial: None,
            decode_failure_recovery_in_progress: false,
        }
    }

    /// Makes `payload` the base of the next delta; the rest of the context
    /// and what was seen stay.
    pub fn set_base_payload(&mut self, payload: Vec<u8>)
        ensures
            final(self).spec_context().base_encoded_previous_payload == Some(payload),
            final(self).spec_context().channel_options@ == old(self).spec_context().channel_options@,
            final(self).spec_context().plugins@ == old(self).spec_context().plugins@,
            final(self).spec_last_id() == old(self).spec_last_id(),
            final(self).spec_last_serial() == old(self).spec_last_serial(),
            final(self).spec_recovering() == old(self).spec_recovering(),
    {
        self.context.set_base_payload(payload);
    }

    /// Whether the context has a `vcdiff` plugin.
    pub fn has_delta_support(&self) -> (b: bool)
        ensures
            b == self.spec_context().plugins@.dom().contains("vcdiff"@),
    {
        self.context.has_delta_support()
    }

    /// Processes the messages of a protocol message. Without a `delta`
    /// extra on the first message they come back as they are; with one,
    /// each is decoded against the base payload, provided the delta
    /// applies to the last message seen.
    pub fn process_message(&mut self, message: &ProtocolMessage) -> (r: AblyResult<Vec<Message>>)
        ensures
            process_relation(*old(self), *message, r, *final(self)),
    {
        match &message.messages {
            None => Ok(Vec::new()),
            Some(messages) => {
                if messages.len() == 0 {
                    return Ok(Vec::new());
                }
                let n = messages.len();
                let delta = match &messages[0].extras {
                    Some(extras) => lookup_member(extras, "delta"),
                    None => None,
                };
                match delta {
                    Some(d) => self.process_delta_message(messages, d, message),
                    None => {
                        self.last_message_id = clone_opt_string(&messages[n - 1].id);
                        self.last_channel_serial = clone_opt_string(&message.channel_serial);
                        Ok(copy_messages(messages))
                    },
                }
            },
        }
    }

    fn process_delta_message(&mut self, messages: &Vec<Message>, delta: &JsonValue, protocol_message: &ProtocolMessage) -> (r: AblyResult<Vec<Message>>)
        requires
            messages@.len() > 0,
            protocol_message.messages == Some(*messages),
            delta_extra(*protocol_message) == Some(*delta),
        ensures
            final(self).spec_recovering() == old(self).spec_recovering(),
            final(self).spec_context().channel_options@ == old(self).spec_context().channel_options@,
            final(self).spec_context().base_encoded_previous_payload
                == old(self).spec_context().base_encoded_previous_payload,
            final(self).spec_context().plugins@.dom() == old(self).spec_context().plugins@.dom(),
            forall|k: Seq<char>| k != "vcdiff"@ && #[trigger] old(self).spec_context().plugins@.dom().contains(k)
                ==> final(self).spec_context().plugins@[k] == old(self).spec_context().plugins@[k],
            old(self).spec_context().plugins@.dom().contains("vcdiff"@) ==>
                final(self).spec_context().plugins@["vcdiff"@].spec_max()
                    == old(self).spec_context().plugins@["vcdiff"@].spec_max(),
            ({
                let ms = *messages;
                let limit = vcdiff_limit(old(self).spec_context());
                let base = base_of(old(self).spec_context());
                let count = old(self).spec_context().plugins@["vcdiff"@].spec_count();
                let after = final(self).spec_context().plugins@["vcdiff"@].spec_count();
                if delta_from(*delta) is None {
                    r matches Err(e) && is_decoding(e, "Missing delta.from field"@)
                        && final(self).spec_last_id() == old(self).spec_last_id()
                        && final(self).spec_last_serial() == old(self).spec_last_serial()
                        && final(self).spec_context().plugins@ == old(self).spec_context().plugins@
                } else if delta_from(*delta) != old(self).spec_last_id() {
                    r matches Err(e) && is_decoding(e, missing_base_text(ms@[0]))
                        && final(self).spec_last_id() == old(self).spec_last_id()
                        && final(self).spec_last_serial() == old(self).spec_last_serial()
                        && final(self).spec_context().plugins@ == old(self).spec_context().plugins@
                } else {
                    match r {
                        Ok(v) => decodes_before(limit, base, ms@, ms@.len() as int)
                            && v@.len() == ms@.len()
                            && (forall|i: int| 0 <= i < ms@.len() ==> #[trigger] decodes_into(limit, base, ms@[i], v@[i]))
                            && final(self).spec_last_id() == opt_text(ms@.last().id)
                            && final(self).spec_last_serial() == opt_text(protocol_message.channel_serial)
                            && (limit is Some ==> after == bump_by(count, ms@.len())),
                        Err(e) => exists|i: int| 0 <= i < ms@.len() && decodes_before(limit, base, ms@, i)
                            && #[trigger] fails_with(limit, base, ms@[i], e)
                            && final(self).spec_last_id() == old(self).spec_last_id()
                            && final(self).spec_last_serial() == old(self).spec_last_serial()
                            && (limit is Some ==> after == bump_by(count, i as nat)),
                    }
                }
            }),
    {
        let from = match delta.get("from") {
            Some(JsonValue::String(f)) => f,
            _ => {
                return Err(AblyError::decoding("Missing delta.from field"));
            },
        };
        let matches_last = match &self.last_message_id {
            Some(id) => *id == *from,
            None => false,
        };
        if !matches_last {
            let mut text = owned("Delta message decode failure - previous message not available for message \"");
            match &messages[0].id {
                Some(id) => append(&mut text, id.as_str()),
                None => append(&mut text, "unknown"),
            }
            append(&mut text, "\"");
            return Err(AblyError::decoding(text));
        }
        assert(delta_from(*delta) == Some(from@));
        let ghost limit = vcdiff_limit(self.context);
        let ghost base = base_of(self.context);
        let ghost old_plugins = self.context.plugins@;
        let ghost count = self.context.plugins@["vcdiff"@].spec_count();
        let mut decoded: Vec<Message> = Vec::new();
        let mut i: usize = 0;
        while i < messages.len()
            invariant
                0 <= i <= messages@.len(),
                delta_from(*delta) is Some,
                delta_from(*delta) == opt_text(old(self).last_message_id),
                limit == vcdiff_limit(old(self).context),
                base == base_of(old(self).context),
                count == old(self).context.plugins@["vcdiff"@].spec_count(),
                limit == vcdiff_limit(self.context),
                base == base_of(self.context),
                decoded@.len() == i,
                decodes_before(limit, base, messages@, i as int),
                forall|j: int| 0 <= j < i ==> #[trigger] decodes_into(limit, base, messages@[j], decoded@[j]),
                self.context.plugins@.dom() == old_plugins.dom(),
                forall|k: Seq<char>| k != "vcdiff"@ && #[trigger] old_plugins.dom().contains(k)
                    ==> self.context.plugins@[k] == old_plugins[k],
                old_plugins.dom().contains("vcdiff"@) ==> self.context.plugins@["vcdiff"@].spec_max()
                    == old_plugins["vcdiff"@].spec_max(),
                limit is Some ==> self.context.plugins@["vcdiff"@].spec_count() == bump_by(count, i as nat),
                limit is None ==> self.context.plugins@ == old_plugins,
                self.context.channel_options@ == old(self).context.channel_options@,
                self.context.base_encoded_previous_payload == old(self).context.base_encoded_previous_payload,
                self.last_message_id == old(self).last_message_id,
                self.last_channel_serial == old(self).last_channel_serial,
                self.decode_failure_recovery_in_progress == old(self).decode_failure_recovery_in_progress,
                old(self).context.plugins@ == old_plugins,
            decreases messages@.len() - i,
        {
            match self.decode_delta_message(&messages[i]) {
                Ok(m) => {
                    decoded.push(m);
                },
                Err(e) => {
                    assert(fails_with(limit, base, messages@[i as int], e));
                    return Err(e);
                },
            }
            i = i + 1;
        }
        self.last_message_id = clone_opt_string(&messages[messages.len() - 1].id);
        self.last_channel_serial = clone_opt_string(&protocol_message.channel_serial);
        Ok(decoded)
    }

    fn decode_delta_message(&mut self, message: &Message) -> (r: AblyResult<Message>)
        ensures
            match spec_decode_one(vcdiff_limit(old(self).context), base_of(old(self).context), *message) {
                Ok(t) => r matches Ok(m) && decoded_as(*message, m, t),
                Err(msg) => r matches Err(e) && is_decoding(e, msg),
            },
            final(self).context.plugins@.dom() == old(self).context.plugins@.dom(),
            forall|k: Seq<char>| k != "vcdiff"@ && #[trigger] old(self).context.plugins@.dom().contains(k)
                ==> final(self).context.plugins@[k] == old(self).context.plugins@[k],
            old(self).context.plugins@.dom().contains("vcdiff"@) ==> {
                &&& final(self).context.plugins@["vcdiff"@].spec_max() == old(self).context.plugins@["vcdiff"@].spec_max()
                &&& final(self).context.plugins@["vcdiff"@].spec_count() == if r is Ok {
                    bump(old(self).context.plugins@["vcdiff"@].spec_count())
                } else {
                    old(self).context.plugins@["vcdiff"@].spec_count()
                }
            },
            !old(self).context.plugins@.dom().contains("vcdiff"@) ==> final(self).context.plugins@
                == old(self).context.plugins@,
            final(self).context.channel_options@ == old(self).context.channel_options@,
            final(self).context.base_encoded_previous_payload == old(self).context.base_encoded_previous_payload,
            final(self).last_message_id == old(self).last_message_id,
            final(self).last_channel_serial == old(self).last_channel_serial,
            final(self).decode_failure_recovery_in_progress == old(self).decode_failure_recovery_in_progress,
    {
        if !self.context.plugins.contains_key("vcdiff") {
            return Err(AblyError::decoding("Missing Vcdiff decoder (https://github.com/ably-forks/vcdiff-decoder)"));
        }
        let base_payload = match &self.context.base_encoded_previous_payload {
            Some(b) => b,
            None => {
                return Err(AblyError::decoding("No base payload available for delta decode"));
            },
        };
        let delta_data = match &message.data {
            Some(JsonValue::String(s)) => match base64_decode(s.as_str().as_bytes()) {
                Ok(bytes) => bytes,
                Err(e) => {
                    let mut text = owned("Failed to decode base64 delta data: ");
                    append(&mut text, e.as_str());
                    return Err(AblyError::decoding(text));
                },
            },
            Some(_) => {
                return Err(AblyError::decoding("Delta data must be base64 string"));
            },
            None => {
                return Err(AblyError::decoding("No delta data in message"));
            },
        };
        let ghost old_plugins = self.context.plugins@;
        let mut plugin = match self.context.plugins.remove("vcdiff") {
            Some(p) => p,
            None => {
                return Err(AblyError::decoding("Missing Vcdiff decoder (https://github.com/ably-forks/vcdiff-decoder)"));
            },
        };
        let outcome = plugin.decode_message(delta_data.as_slice(), base_payload.as_slice());
        let _ = self.context.plugins.insert(owned("vcdiff"), plugin);
        proof {
            assert(self.context.plugins@ =~= old_plugins.insert("vcdiff"@, plugin));
        }
        let decoded_data = match outcome {
            Ok(v) => v,
            Err(e) => {
                let mut text = owned("Vcdiff delta decode failed: ");
                let shown = e.to_display_string();
                append(&mut text, shown.as_str());
                return Err(AblyError::decoding(text));
            },
        };
        let text = utf8_lossy_text(decoded_data.as_slice());
        Ok(Message {
            id: clone_opt_string(&message.id),
            name: clone_opt_string(&message.name),
            data: Some(JsonValue::String(text)),
            encoding: clone_opt_string(&message.encoding),
            timestamp: message.timestamp,
            client_id: clone_opt_string(&message.client_id),
            connection_id: clone_opt_string(&message.connection_id),
            connection_key: clone_opt_string(&message.connection_key),
            extras: match &message.extras {
                Some(x) => Some(copy_members(x)),
                None => None,
            },
        })
    }

    /// Starts a decode failure recovery; `false` when one is already under
    /// way.
    pub fn start_decode_failure_recovery(&mut self) -> (started: bool)
        ensures
            started == !old(self).spec_recovering(),
            !started ==> *final(self) == *old(self),
            final(self).spec_recovering(),
            final(self).spec_context() == old(self).spec_context(),
            final(self).spec_last_id() == old(self).spec_last_id(),
            final(self).spec_last_serial() == old(self).spec_last_serial(),
    {
        if !self.decode_failure_recovery_in_progress {
            self.decode_failure_recovery_in_progress = true;
            true
        } else {
            false
        }
    }

    /// Ends the decode failure recovery.
    pub fn complete_decode_failure_recovery(&mut self)
        ensures
            !final(self).spec_recovering(),
            final(self).spec_context() == old(self).spec_context(),
            final(self).spec_last_id() == old(self).spec_last_id(),
            final(self).spec_last_serial() == old(self).spec_last_serial(),
    {
        self.decode_failure_recovery_in_progress = false;
    }

    /// Whether a decode failure recovery is under way.
    pub fn is_recovery_in_progress(&self) -> (b: bool)
        ensures
            b == self.spec_recovering(),
    {
        self.decode_failure_recovery_in_progress
    }

    /// The channel serial of the last protocol message processed.
    pub fn last_channel_serial(&self) -> (r: Option<&str>)
        ensures
            match r {
                Some(s) => self.spec_last_serial() == Some(s@),
                None => self.spec_last_serial() is None,
            },
    {
        match &self.last_channel_serial {
            Some(s) => Some(s.as_str()),
            None => None,
        }
    }
}

/// The value of the first member named `key`.
fn lookup_member<'a>(members: &'a Vec<(String, JsonValue)>, key: &str) -> (r: Option<&'a JsonValue>)
    ensures
        match r {
            Some(v) => member_of(members@, key@) == Some(*v),
            None => member_of(members@, key@) is None,
        },
{
    let wanted = owned(key);
    let mut i: usize = 0;
    assert(members@.subrange(0, members@.len() as int) =~= members@);
    while i < members.len()
        invariant
            wanted@ == key@,
            0 <= i <= members@.len(),
            member_of(members@.subrange(i as int, members@.len() as int), key@) == member_of(members@, key@),
        decreases members@.len() - i,
    {
        let ghost rest = members@.subrange(i as int, members@.len() as int);
        assert(rest[0] == members@[i as int]);
        assert(rest.drop_first() =~= members@.subrange(i + 1, members@.len() as int));
        if members[i].0 == wanted {
            return Some(&members[i].1);
        }
        i = i + 1;
    }
    assert(members@.subrange(members@.len() as int, members@.len() as int).len() == 0);
    None
}

} // verus!
