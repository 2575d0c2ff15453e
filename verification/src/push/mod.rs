//! Push notification data: channel subscriptions, push channels, the
//! targets a push can be addressed to, and push statistics.

use crate::protocol::json::{is_json_string, JsonValue};
use crate::text::owned;
use vstd::prelude::*;

verus! {

/// A device's or client's subscription to push on a channel.
#[derive(Debug, Clone)]
pub struct PushChannelSubscription {
    pub channel: String,
    pub device_id: Option<String>,
    pub client_id: Option<String>,
}

/// A channel with push subscriptions.
#[derive(Debug, Clone)]
pub struct PushChannel {
    pub channel: String,
    pub subscriptions: Option<i32>,
}

/// Whom a push notification is for.
#[derive(Debug, Clone)]
pub enum PushTarget {
    Channel(String),
    DeviceId(String),
    ClientId(String),
    Devices(Vec<String>),
}

/// Push statistics.
#[derive(Debug, Clone)]
pub struct PushStats {
    pub messages_sent: i64,
    pub messages_failed: i64,
    pub devices_registered: i64,
    pub channels_active: i64,
}

/// The name of the recipient field for target `t`.
pub open spec fn recipient_key(t: PushTarget) -> Seq<char> {
    match t {
        PushTarget::Channel(_) => "channel"@,
        PushTarget::DeviceId(_) => "deviceId"@,
        PushTarget::ClientId(_) => "clientId"@,
        PushTarget::Devices(_) => "deviceIds"@,
    }
}

/// `v` holds the recipient value of target `t`: its string, or for a list
/// of devices an array of their ids, in order.
pub open spec fn recipient_value(t: PushTarget, v: JsonValue) -> bool {
    match t {
        PushTarget::Channel(s) => is_json_string(v, s@),
        PushTarget::DeviceId(s) => is_json_string(v, s@),
        PushTarget::ClientId(s) => is_json_string(v, s@),
        PushTarget::Devices(ids) => v matches JsonValue::Array(items) && items.len() == ids.len()
            && forall|i: int| 0 <= i < ids.len() ==> is_json_string(#[trigger] items[i], ids[i]@),
    }
}

/// `v` is the recipient object of target `t`: one member, named by the
/// target's kind, holding its value.
pub open spec fn is_recipient_of(t: PushTarget, v: JsonValue) -> bool {
    &&& v matches JsonValue::Object(members)
    &&& members.len() == 1
    &&& members[0].0@ == recipient_key(t)
    &&& recipient_value(t, members[0].1)
}

impl PushTarget {
    /// The recipient object of a push request for this target.
    pub fn to_recipient(&self) -> (v: JsonValue)
        ensures
            is_recipient_of(*self, v),
    {
        let (key, value) = match self {
            PushTarget::Channel(s) => (owned("channel"), JsonValue::String(owned(s.as_str()))),
            PushTarget::DeviceId(s) => (owned("deviceId"), JsonValue::String(owned(s.as_str()))),
            PushTarget::ClientId(s) => (owned("clientId"), JsonValue::String(owned(s.as_str()))),
            PushTarget::Devices(ids) => {
                let mut items: Vec<JsonValue> = Vec::new();
                let mut i: usize = 0;
                while i < ids.len()
                    invariant
                        i <= ids.len(),
                        items.len() == i,
                        forall|k: int| 0 <= k < i ==> is_json_string(#[trigger] items[k], ids[k]@),
                    decreases ids.len() - i,
                {
                    items.push(JsonValue::String(owned(ids[i].as_str())));
                    i = i + 1;
                }
                (owned("deviceIds"), JsonValue::Array(items))
            },
        };
        let mut members: Vec<(String, JsonValue)> = Vec::new();
        members.push((key, value));
        JsonValue::Object(members)
    }
}

} // verus!
