//! Delta compression at the level of a channel: whether the channel asked
//! for deltas, the decode statistics, and recovery from decode failures by
//! reattaching.

use super::error_codes;
use super::{process_relation, DeltaContext, DeltaProcessor};
use crate::error::{spec_from_ably_code_matches, AblyError, AblyResult};
use crate::protocol::json::{is_json_string, is_string_object, JsonValue};
use crate::protocol::messages::{copy_messages, opt_text, same_messages, Message, ProtocolMessage};
use crate::strmap::StringMap;
use crate::text::{append, owned, seq_contains, str_contains};
use vstd::prelude::*;

verus! {

/// Counters of delta decoding on a channel.
#[derive(Debug, Clone, Copy, PartialEq, Eq, Structural)]
pub struct DeltaDecodeStats {
    /// Number of successful delta decodes.
    pub successful_decodes: usize,
    /// Number of failed delta decodes.
    pub failed_decodes: usize,
    /// Number of recovery attempts.
    pub recovery_attempts: usize,
    /// Number of successful recoveries.
    pub successful_recoveries: usize,
}

impl Default for DeltaDecodeStats {
    fn default() -> (s: DeltaDecodeStats)
        ensures
            s == (DeltaDecodeStats {
                successful_decodes: 0,
                failed_decodes: 0,
                recovery_attempts: 0,
                successful_recoveries: 0,
            }),
    {
        DeltaDecodeStats {
            successful_decodes: 0,
            failed_decodes: 0,
            recovery_attempts: 0,
            successful_recoveries: 0,
        }
    }
}

/// Statistics with every counter at zero.
pub open spec fn zero_stats() -> DeltaDecodeStats {
    DeltaDecodeStats { successful_decodes: 0, failed_decodes: 0, recovery_attempts: 0, successful_recoveries: 0 }
}

/// Whether the channel parameters ask for VCDIFF deltas.
pub open spec fn spec_delta_enabled(params: Map<Seq<char>, String>) -> bool {
    params.dom().contains("delta"@) && params["delta"@]@ == "vcdiff"@
}

/// Whether an error's rendering marks a delta decode failure that a
/// reattachment recovers from.
pub open spec fn spec_recoverable(e: AblyError) -> bool {
    seq_contains(e.spec_display(), "Delta message decode failure"@)
        || seq_contains(e.spec_display(), "previous message not available"@)
}

/// The message of the error reported when a decode failure starts a
/// recovery.
pub open spec fn recovery_error_text(channel: Seq<char>, e: AblyError) -> Seq<char> {
    "Delta decode failure for channel "@ + channel + ": "@ + e.spec_display()
}

/// How the handler answers the processor's outcome `r0`, the processor
/// being `mid` after processing: it counts the outcome in the statistics,
/// and for a recoverable failure that starts a recovery it reports a
/// `40018` error in its stead.
pub open spec fn handled_as(
    stats0: DeltaDecodeStats,
    channel: Seq<char>,
    r0: AblyResult<Vec<Message>>,
    mid: DeltaProcessor,
    r: AblyResult<Vec<Message>>,
    stats1: DeltaDecodeStats,
    p1: DeltaProcessor,
) -> bool {
    match r0 {
        Ok(v) => {
            &&& r == Ok::<Vec<Message>, AblyError>(v)
            &&& p1 == mid
            &&& stats1 == DeltaDecodeStats { successful_decodes: (stats0.successful_decodes + 1) as usize, ..stats0 }
        },
        Err(e0) => if spec_recoverable(e0) && !mid.spec_recovering() {
            &&& r matches Err(e) && spec_from_ably_code_matches(e, error_codes::VCDIFF_DECODE_FAILED, recovery_error_text(channel, e0))
            &&& p1.spec_recovering()
            &&& p1.spec_context() == mid.spec_context()
            &&& p1.spec_last_id() == mid.spec_last_id()
            &&& p1.spec_last_serial() == mid.spec_last_serial()
            &&& stats1 == DeltaDecodeStats {
                failed_decodes: (stats0.failed_decodes + 1) as usize,
                recovery_attempts: (stats0.recovery_attempts + 1) as usize,
                ..stats0
            }
        } else {
            &&& r == Err::<Vec<Message>, AblyError>(e0)
            &&& p1 == mid
            &&& stats1 == DeltaDecodeStats { failed_decodes: (stats0.failed_decodes + 1) as usize, ..stats0 }
        },
    }
}

/// Delta compression of one channel: its parameters, the processor of its
/// messages and the decode statistics.
#[derive(Debug)]
pub struct ChannelDeltaHandler {
    /// The channel's name.
    pub channel_name: String,
    processor: DeltaProcessor,
    channel_params: StringMap<String>,
    decode_stats: DeltaDecodeStats,
}

impl ChannelDeltaHandler {
    /// The channel's name.
    pub closed spec fn spec_name(&self) -> Seq<char> {
        self.channel_name@
    }

    /// The message processor.
    pub closed spec fn spec_processor(&self) -> DeltaProcessor {
        self.processor
    }

    /// The channel parameters.
    pub closed spec fn spec_params(&self) -> Map<Seq<char>, String> {
        self.channel_params@
    }

    /// The channel parameters in the order they were set.
    pub closed spec fn spec_param_pairs(&self) -> Seq<(String, String)> {
        self.channel_params.pairs()
    }

    /// The decode statistics.
    pub closed spec fn spec_stats(&self) -> DeltaDecodeStats {
        self.decode_stats
    }

    /// A handler for `channel_name` with no parameters and zeroed
    /// statistics.
    pub fn new(channel_name: String, context: DeltaContext) -> (h: ChannelDeltaHandler)
        ensures
            h.spec_name() == channel_name@,
            h.spec_params() == Map::<Seq<char>, String>::empty(),
            h.spec_stats() == zero_stats(),
            h.spec_processor().spec_context() == context,
            h.spec_processor().spec_last_id() is None,
            h.spec_processor().spec_last_serial() is None,
            !h.spec_processor().spec_recovering(),
    {
        ChannelDeltaHandler {
            channel_name,
            processor: DeltaProcessor::new(context),
            channel_params: StringMap::new(),
            decode_stats: DeltaDecodeStats::default(),
        }
    }

    /// Replaces the channel parameters.
    pub fn set_channel_params(&mut self, params: StringMap<String>)
        ensures
            final(self).spec_params() == params@,
            final(self).spec_name() == old(self).spec_name(),
            final(self).spec_processor() == old(self).spec_processor(),
            final(self).spec_stats() == old(self).spec_stats(),
    {
        self.channel_params = params;
    }

    /// Statistics with every counter at zero.
pub open spec fn zero_stats() -> DeltaDecodeStats {
    DeltaDecodeStats { successful_decodes: 0, failed_decodes: 0, recovery_attempts: 0, successful_recoveries: 0 }
}

/// Whether the channel parameters ask for VCDIFF deltas.
    pub fn is_delta_enabled(&self) -> (b: bool)
        ensures
            b == spec_delta_enabled(self.spec_params()),
    {
        let wanted = owned("vcdiff");
        match self.channel_params.get("delta") {
            Some(v) => *v == wanted,
            None => false,
        }
    }

    /// Processes an incoming protocol message. On a channel without deltas
    /// its messages pass through; otherwise the processor decodes them,
    /// the statistics count the outcome, and a recoverable failure starts a
    /// recovery, reported as a `40018` error.
    pub fn process_protocol_message(&mut self, message: &ProtocolMessage) -> (r: AblyResult<Vec<Message>>)
        requires
            old(self).spec_stats().successful_decodes < usize::MAX,
            old(self).spec_stats().failed_decodes < usize::MAX,
            old(self).spec_stats().recovery_attempts < usize::MAX,
        ensures
            final(self).spec_name() == old(self).spec_name(),
            final(self).spec_params() == old(self).spec_params(),
            final(self).spec_stats().successful_recoveries == old(self).spec_stats().successful_recoveries,
            !spec_delta_enabled(old(self).spec_params()) ==> {
                &&& final(self).spec_processor() == old(self).spec_processor()
                &&& final(self).spec_stats() == old(self).spec_stats()
                &&& r matches Ok(v) && match message.messages {
                    Some(ms) => same_messages(ms@, v@),
                    None => v@.len() == 0,
                }
            },
            spec_delta_enabled(old(self).spec_params()) ==> exists|r0: AblyResult<Vec<Message>>, mid: DeltaProcessor|
                #[trigger] process_relation(old(self).spec_processor(), *message, r0, mid)
                && handled_as(old(self).spec_stats(), old(self).spec_name(), r0, mid, r, final(self).spec_stats(),
                    final(self).spec_processor()),
    {
        if !self.is_delta_enabled() {
            return match &message.messages {
                Some(ms) => Ok(copy_messages(ms)),
                None => Ok(Vec::new()),
            };
        }
        let ghost p0 = self.processor;
        let outcome = self.processor.process_message(message);
        let ghost r0 = outcome;
        let ghost mid = self.processor;
        let result = match outcome {
            Ok(messages) => {
                self.decode_stats.successful_decodes = self.decode_stats.successful_decodes + 1;
                Ok(messages)
            },
            Err(e) => {
                self.decode_stats.failed_decodes = self.decode_stats.failed_decodes + 1;
                if self.is_recoverable_delta_error(&e) && self.processor.start_decode_failure_recovery() {
                    self.decode_stats.recovery_attempts = self.decode_stats.recovery_attempts + 1;
                    let mut text = owned("Delta decode failure for channel ");
                    append(&mut text, self.channel_name.as_str());
                    append(&mut text, ": ");
                    let shown = e.to_display_string();
                    append(&mut text, shown.as_str());
                    Err(AblyError::from_ably_code(error_codes::VCDIFF_DECODE_FAILED, text.as_str()))
                } else {
                    Err(e)
                }
            },
        };
        proof {
            assert(process_relation(p0, *message, r0, mid));
            assert(handled_as(old(self).spec_stats(), old(self).spec_name(), r0, mid, result, self.spec_stats(),
                self.spec_processor()));
        }
        result
    }

    /// Ends the decode failure recovery.
    pub fn complete_recovery(&mut self)
        ensures
            !final(self).spec_processor().spec_recovering(),
            final(self).spec_processor().spec_context() == old(self).spec_processor().spec_context(),
            final(self).spec_processor().spec_last_id() == old(self).spec_processor().spec_last_id(),
            final(self).spec_processor().spec_last_serial() == old(self).spec_processor().spec_last_serial(),
            final(self).spec_name() == old(self).spec_name(),
            final(self).spec_params() == old(self).spec_params(),
            final(self).spec_stats() == old(self).spec_stats(),
    {
        self.processor.complete_decode_failure_recovery();
    }

    /// Whether a decode failure recovery is under way.
    pub fn is_recovery_in_progress(&self) -> (b: bool)
        ensures
            b == self.spec_processor().spec_recovering(),
    {
        self.processor.is_recovery_in_progress()
    }

    /// The channel serial a recovery resumes from.
    pub fn last_channel_serial(&self) -> (r: Option<String>)
        ensures
            opt_text(r) == self.spec_processor().spec_last_serial(),
    {
        match self.processor.last_channel_serial() {
            Some(s) => Some(owned(s)),
            None => None,
        }
    }

    /// The decode statistics.
    pub fn decode_stats(&self) -> (s: &DeltaDecodeStats)
        ensures
            *s == self.spec_stats(),
    {
        &self.decode_stats
    }

    /// Zeroes the decode statistics.
    pub fn reset_stats(&mut self)
        ensures
            final(self).spec_stats() == zero_stats(),
            final(self).spec_processor() == old(self).spec_processor(),
            final(self).spec_params() == old(self).spec_params(),
            final(self).spec_name() == old(self).spec_name(),
    {
        self.decode_stats = DeltaDecodeStats::default();
    }

    /// Makes `payload` the base payload of the next delta decode; it is
    /// kept in the decoding context.
    pub fn update_base_payload(&mut self, payload: Vec<u8>)
        ensures
            final(self).spec_processor().spec_context().base_encoded_previous_payload == Some(payload),
            final(self).spec_processor().spec_context().channel_options@
                == old(self).spec_processor().spec_context().channel_options@,
            final(self).spec_processor().spec_context().plugins@ == old(self).spec_processor().spec_context().plugins@,
            final(self).spec_processor().spec_last_id() == old(self).spec_processor().spec_last_id(),
            final(self).spec_processor().spec_last_serial() == old(self).spec_processor().spec_last_serial(),
            final(self).spec_processor().spec_recovering() == old(self).spec_processor().spec_recovering(),
            final(self).spec_stats() == old(self).spec_stats(),
            final(self).spec_params() == old(self).spec_params(),
            final(self).spec_name() == old(self).spec_name(),
    {
        self.processor.set_base_payload(payload);
    }

    /// Whether `error` is a delta decode failure that reattaching the
    /// channel recovers from.
    pub fn is_recoverable_delta_error(&self, error: &AblyError) -> (b: bool)
        ensures
            b == spec_recoverable(*error),
    {
        let text = error.to_display_string();
        str_contains(text.as_str(), "Delta message decode failure")
            || str_contains(text.as_str(), "previous message not available")
    }

    /// The attach data of a recovery: the last channel serial, and the
    /// channel parameters when deltas are on.
    pub fn create_recovery_attach_message(&self) -> (m: StringMap<JsonValue>)
        ensures
            m@.dom().contains("channelSerial"@) == (self.spec_processor().spec_last_serial() is Some),
            m@.dom().contains("channelSerial"@) ==> (self.spec_processor().spec_last_serial() matches Some(s)
                && is_json_string(m@["channelSerial"@], s)),
            m@.dom().contains("params"@) == spec_delta_enabled(self.spec_params()),
            m@.dom().contains("params"@) ==> is_string_object(m@["params"@], self.spec_param_pairs()),
            forall|k: Seq<char>| #[trigger] m@.dom().contains(k) ==> k == "channelSerial"@ || k == "params"@,
    {
        let mut attach_data: StringMap<JsonValue> = StringMap::new();
        match self.last_channel_serial() {
            Some(serial) => {
                let _ = attach_data.insert(owned("channelSerial"), JsonValue::String(serial));
            },
            None => {},
        }
        assert(attach_data@.dom().contains("channelSerial"@) == (self.spec_processor().spec_last_serial() is Some));
        assert("params"@ != "channelSerial"@) by {
            reveal_strlit("channelSerial");
            reveal_strlit("params");
            assert("params"@.len() != "channelSerial"@.len());
        }
        if self.is_delta_enabled() {
            let mut members: Vec<(String, JsonValue)> = Vec::new();
            let n = self.channel_params.len();
            let mut i: usize = 0;
            while i < n
                invariant
                    n == self.channel_params.pairs().len(),
                    0 <= i <= n,
                    members@.len() == i,
                    forall|j: int| 0 <= j < i ==> (#[trigger] members@[j]).0@ == self.channel_params.pairs()[j].0@
                        && is_json_string(members@[j].1, self.channel_params.pairs()[j].1@),
                decreases n - i,
            {
                let k = self.channel_params.key_at(i).clone();
                let v = self.channel_params.value_at(i).clone();
                members.push((k, JsonValue::String(v)));
                i = i + 1;
            }
            let _ = attach_data.insert(owned("params"), JsonValue::Object(members));
        }
        attach_data
    }

    /// Checks that a channel asking for deltas has a decoder for them.
    pub fn validate_configuration(&self) -> (r: AblyResult<()>)
        ensures
            r is Ok <==> (!spec_delta_enabled(self.spec_params())
                || self.spec_processor().spec_context().plugins@.dom().contains("vcdiff"@)),
            r matches Err(e) ==> spec_from_ably_code_matches(
                e,
                error_codes::MISSING_VCDIFF_DECODER,
                "Missing Vcdiff decoder plugin for delta compression"@,
            ),
    {
        if self.is_delta_enabled() {
            if !self.processor.has_delta_support() {
                return Err(AblyError::from_ably_code(
                    error_codes::MISSING_VCDIFF_DECODER,
                    "Missing Vcdiff decoder plugin for delta compression",
                ));
            }
        }
        Ok(())
    }
}

/// Configuration of a delta channel, built step by step.
#[derive(Debug)]
pub struct DeltaChannelConfig {
    delta_mode: Option<String>,
    max_output_size: Option<usize>,
    recovery_enabled: bool,
}

impl DeltaChannelConfig {
    /// The delta mode asked for.
    pub closed spec fn spec_mode(&self) -> Option<Seq<char>> {
        opt_text(self.delta_mode)
    }

    /// The output limit asked for.
    pub closed spec fn spec_max_output(&self) -> Option<usize> {
        self.max_output_size
    }

    /// Whether automatic recovery is on.
    pub closed spec fn spec_recovery(&self) -> bool {
        self.recovery_enabled
    }

    /// No delta mode, no output limit, recovery on.
    pub fn new() -> (c: DeltaChannelConfig)
        ensures
            c.spec_mode() is None,
            c.spec_max_output() is None,
            c.spec_recovery(),
    {
        DeltaChannelConfig { delta_mode: None, max_output_size: None, recovery_enabled: true }
    }

    /// Asks for VCDIFF deltas.
    pub fn with_vcdiff(self) -> (c: DeltaChannelConfig)
        ensures
            c.spec_mode() == Some("vcdiff"@),
            c.spec_max_output() == self.spec_max_output(),
            c.spec_recovery() == self.spec_recovery(),
    {
        DeltaChannelConfig { delta_mode: Some(owned("vcdiff")), ..self }
    }

    /// Sets the output limit.
    pub fn with_max_output_size(self, size: usize) -> (c: DeltaChannelConfig)
        ensures
            c.spec_mode() == self.spec_mode(),
            c.spec_max_output() == Some(size),
            c.spec_recovery() == self.spec_recovery(),
    {
        DeltaChannelConfig { max_output_size: Some(size), ..self }
    }

    /// Turns automatic recovery on or off.
    pub fn with_recovery(self, enabled: bool) -> (c: DeltaChannelConfig)
        ensures
            c.spec_mode() == self.spec_mode(),
            c.spec_max_output() == self.spec_max_output(),
            c.spec_recovery() == enabled,
    {
        DeltaChannelConfig { recovery_enabled: enabled, ..self }
    }

    /// The channel parameters for Ably: `delta` set to the mode, when one
    /// was asked for.
    pub fn build_params(&self) -> (p: StringMap<String>)
        ensures
            match self.spec_mode() {
                Some(m) => p@.dom() == set![("delta"@)] && p@["delta"@]@ == m,
                None => p@.dom().len() == 0 && p@ == Map::<Seq<char>, String>::empty(),
            },
    {
        let mut params: StringMap<String> = StringMap::new();
        match &self.delta_mode {
            Some(mode) => {
                let _ = params.insert(owned("delta"), mode.clone());
                proof {
                    assert(params@.dom() =~= set![("delta"@)]);
                }
            },
            None => {},
        }
        params
    }
}

} // verus!
