//! Protocol message types: the realtime protocol message with its 22
//! actions, channel messages, presence messages, error information and
//! connection details.

pub mod flags;

use super::json::{json_model, same_json, JsonModel, JsonValue};
use vstd::prelude::*;

verus! {

/// A copy of an optional string.
pub fn clone_opt_string(o: &Option<String>) -> (r: Option<String>)
    ensures
        r == *o,
{
    match o {
        Some(s) => Some(s.clone()),
        None => None,
    }
}

/// The action of a protocol message.
#[derive(Debug, Clone, Copy, PartialEq, Eq, Structural)]
pub enum Action {
    Heartbeat,
    Ack,
    Nack,
    Connect,
    Connected,
    Disconnect,
    Disconnected,
    Close,
    Closed,
    Error,
    Attach,
    Attached,
    Detach,
    Detached,
    Presence,
    Message,
    Sync,
    Auth,
    Activate,
    Object,
    ObjectSync,
    Annotation,
}

/// The wire number of an action.
pub open spec fn spec_action_number(a: Action) -> u8 {
    match a {
        Action::Heartbeat => 0,
        Action::Ack => 1,
        Action::Nack => 2,
        Action::Connect => 3,
        Action::Connected => 4,
        Action::Disconnect => 5,
        Action::Disconnected => 6,
        Action::Close => 7,
        Action::Closed => 8,
        Action::Error => 9,
        Action::Attach => 10,
        Action::Attached => 11,
        Action::Detach => 12,
        Action::Detached => 13,
        Action::Presence => 14,
        Action::Message => 15,
        Action::Sync => 16,
        Action::Auth => 17,
        Action::Activate => 18,
        Action::Object => 19,
        Action::ObjectSync => 20,
        Action::Annotation => 21,
    }
}

impl Action {
    /// The wire number of the action.
    pub fn to_u8(self) -> (n: u8)
        ensures
            n == spec_action_number(self),
    {
        match self {
            Action::Heartbeat => 0,
            Action::Ack => 1,
            Action::Nack => 2,
            Action::Connect => 3,
            Action::Connected => 4,
            Action::Disconnect => 5,
            Action::Disconnected => 6,
            Action::Close => 7,
            Action::Closed => 8,
            Action::Error => 9,
            Action::Attach => 10,
            Action::Attached => 11,
            Action::Detach => 12,
            Action::Detached => 13,
            Action::Presence => 14,
            Action::Message => 15,
            Action::Sync => 16,
            Action::Auth => 17,
            Action::Activate => 18,
            Action::Object => 19,
            Action::ObjectSync => 20,
            Action::Annotation => 21,
        }
    }

    /// The action with the given wire number, if there is one.
    pub fn from_u8(n: u8) -> (r: Option<Action>)
        ensures
            match r {
                Some(a) => spec_action_number(a) == n,
                None => n > 21,
            },
    {
        if n == 0 { Some(Action::Heartbeat) }
        else if n == 1 { Some(Action::Ack) }
        else if n == 2 { Some(Action::Nack) }
        else if n == 3 { Some(Action::Connect) }
        else if n == 4 { Some(Action::Connected) }
        else if n == 5 { Some(Action::Disconnect) }
        else if n == 6 { Some(Action::Disconnected) }
        else if n == 7 { Some(Action::Close) }
        else if n == 8 { Some(Action::Closed) }
        else if n == 9 { Some(Action::Error) }
        else if n == 10 { Some(Action::Attach) }
        else if n == 11 { Some(Action::Attached) }
        else if n == 12 { Some(Action::Detach) }
        else if n == 13 { Some(Action::Detached) }
        else if n == 14 { Some(Action::Presence) }
        else if n == 15 { Some(Action::Message) }
        else if n == 16 { Some(Action::Sync) }
        else if n == 17 { Some(Action::Auth) }
        else if n == 18 { Some(Action::Activate) }
        else if n == 19 { Some(Action::Object) }
        else if n == 20 { Some(Action::ObjectSync) }
        else if n == 21 { Some(Action::Annotation) }
        else { None }
    }
}

/// Distinct actions have distinct wire numbers.
pub proof fn law_action_numbers_distinct(a: Action, b: Action)
    ensures
        spec_action_number(a) == spec_action_number(b) ==> a == b,
{
}

/// The action of a presence message.
#[derive(Debug, Clone, Copy, PartialEq, Eq, Structural)]
pub enum PresenceAction {
    Absent,
    Present,
    Enter,
    Leave,
    Update,
}

/// The wire number of a presence action.
pub open spec fn spec_presence_number(a: PresenceAction) -> u8 {
    match a {
        PresenceAction::Absent => 0,
        PresenceAction::Present => 1,
        PresenceAction::Enter => 2,
        PresenceAction::Leave => 3,
        PresenceAction::Update => 4,
    }
}

impl PresenceAction {
    /// The wire number of the presence action.
    pub fn to_u8(self) -> (n: u8)
        ensures
            n == spec_presence_number(self),
    {
        match self {
            PresenceAction::Absent => 0,
            PresenceAction::Present => 1,
            PresenceAction::Enter => 2,
            PresenceAction::Leave => 3,
            PresenceAction::Update => 4,
        }
    }

    /// The presence action with the given wire number, if there is one.
    pub fn from_u8(n: u8) -> (r: Option<PresenceAction>)
        ensures
            match r {
                Some(a) => spec_presence_number(a) == n,
                None => n > 4,
            },
    {
        if n == 0 { Some(PresenceAction::Absent) }
        else if n == 1 { Some(PresenceAction::Present) }
        else if n == 2 { Some(PresenceAction::Enter) }
        else if n == 3 { Some(PresenceAction::Leave) }
        else if n == 4 { Some(PresenceAction::Update) }
        else { None }
    }
}

/// The text of an optional string.
pub open spec fn opt_text(o: Option<String>) -> Option<Seq<char>> {
    match o {
        Some(s) => Some(s@),
        None => None,
    }
}

/// `b` is `a` with at most its data and encoding changed.
pub open spec fn same_but_payload(a: Message, b: Message) -> bool {
    &&& b.id == a.id
    &&& b.name == a.name
    &&& b.timestamp == a.timestamp
    &&& b.client_id == a.client_id
    &&& b.connection_id == a.connection_id
    &&& b.connection_key == a.connection_key
    &&& b.extras == a.extras
}

/// Both are absent, or both hold the same JSON value.
pub open spec fn same_opt_json(a: Option<JsonValue>, b: Option<JsonValue>) -> bool {
    match (a, b) {
        (None, None) => true,
        (Some(x), Some(y)) => same_json(x, y),
        _ => false,
    }
}

/// The same names with the same JSON values, in the same order.
pub open spec fn same_members(a: Seq<(String, JsonValue)>, b: Seq<(String, JsonValue)>) -> bool {
    &&& b.len() == a.len()
    &&& forall|i: int| 0 <= i < a.len() ==> (#[trigger] b[i]).0@ == a[i].0@ && same_json(a[i].1, b[i].1)
}

/// `b` holds the same message as `a`, field by field.
pub open spec fn same_message(a: Message, b: Message) -> bool {
    &&& opt_text(b.id) == opt_text(a.id)
    &&& opt_text(b.client_id) == opt_text(a.client_id)
    &&& opt_text(b.connection_id) == opt_text(a.connection_id)
    &&& opt_text(b.connection_key) == opt_text(a.connection_key)
    &&& opt_text(b.name) == opt_text(a.name)
    &&& same_opt_json(a.data, b.data)
    &&& opt_text(b.encoding) == opt_text(a.encoding)
    &&& match (a.extras, b.extras) {
        (None, None) => true,
        (Some(x), Some(y)) => same_members(x@, y@),
        _ => false,
    }
    &&& b.timestamp == a.timestamp
}

/// Message by message, the same messages in the same order.
pub open spec fn same_messages(a: Seq<Message>, b: Seq<Message>) -> bool {
    &&& b.len() == a.len()
    &&& forall|i: int| 0 <= i < a.len() ==> same_message(a[i], #[trigger] b[i])
}

/// A copy of a list of named JSON values.
pub fn copy_members(members: &Vec<(String, JsonValue)>) -> (r: Vec<(String, JsonValue)>)
    ensures
        same_members(members@, r@),
{
    let mut out: Vec<(String, JsonValue)> = Vec::new();
    let mut i: usize = 0;
    while i < members.len()
        invariant
            0 <= i <= members.len(),
            out@.len() == i,
            forall|j: int| 0 <= j < i ==> (#[trigger] out@[j]).0@ == members@[j].0@ && same_json(members@[j].1, out@[j].1),
        decreases members.len() - i,
    {
        let v = members[i].1.duplicate();
        out.push((members[i].0.clone(), v));
        i = i + 1;
    }
    out
}

/// A copy of a list of messages.
pub fn copy_messages(messages: &Vec<Message>) -> (r: Vec<Message>)
    ensures
        same_messages(messages@, r@),
{
    let mut out: Vec<Message> = Vec::new();
    let mut i: usize = 0;
    while i < messages.len()
        invariant
            0 <= i <= messages.len(),
            out@.len() == i,
            forall|j: int| 0 <= j < i ==> same_message(messages@[j], #[trigger] out@[j]),
        decreases messages.len() - i,
    {
        let m = messages[i].clone();
        out.push(m);
        i = i + 1;
    }
    out
}

impl Clone for Message {
    fn clone(&self) -> (r: Message)
        ensures
            same_message(*self, r),
    {
        Message {
            id: clone_opt_string(&self.id),
            client_id: clone_opt_string(&self.client_id),
            connection_id: clone_opt_string(&self.connection_id),
            connection_key: clone_opt_string(&self.connection_key),
            name: clone_opt_string(&self.name),
            data: match &self.data {
                Some(v) => Some(v.duplicate()),
                None => None,
            },
            encoding: clone_opt_string(&self.encoding),
            extras: match &self.extras {
                Some(members) => Some(copy_members(members)),
                None => None,
            },
            timestamp: self.timestamp,
        }
    }
}

/// A channel message.
#[derive(Debug)]
pub struct Message {
    pub id: Option<String>,
    pub client_id: Option<String>,
    pub connection_id: Option<String>,
    pub connection_key: Option<String>,
    pub name: Option<String>,
    pub data: Option<JsonValue>,
    pub encoding: Option<String>,
    pub extras: Option<Vec<(String, JsonValue)>>,
    pub timestamp: Option<i64>,
}

impl Message {
    /// A message with no fields set.
    pub fn empty() -> (m: Message)
        ensures
            m.id is None && m.client_id is None && m.connection_id is None
                && m.connection_key is None && m.name is None && m.data is None
                && m.encoding is None && m.extras is None && m.timestamp is None,
    {
        Message {
            id: None,
            client_id: None,
            connection_id: None,
            connection_key: None,
            name: None,
            data: None,
            encoding: None,
            extras: None,
            timestamp: None,
        }
    }

}

/// A presence message.
#[derive(Debug)]
pub struct PresenceMessage {
    pub id: Option<String>,
    pub action: PresenceAction,
    pub client_id: Option<String>,
    pub connection_id: Option<String>,
    pub data: Option<JsonValue>,
    pub encoding: Option<String>,
    pub timestamp: Option<i64>,
}

/// What optional JSON data denotes.
pub open spec fn opt_model(o: Option<JsonValue>) -> Option<JsonModel> {
    match o {
        Some(v) => Some(json_model(v)),
        None => None,
    }
}

/// What a presence message says: its texts by their characters, its data
/// by what it denotes.
pub struct PresenceView {
    pub id: Option<Seq<char>>,
    pub action: PresenceAction,
    pub client_id: Option<Seq<char>>,
    pub connection_id: Option<Seq<char>>,
    pub data: Option<JsonModel>,
    pub encoding: Option<Seq<char>>,
    pub timestamp: Option<i64>,
}

impl View for PresenceMessage {
    type V = PresenceView;

    open spec fn view(&self) -> PresenceView {
        PresenceView {
            id: opt_text(self.id),
            action: self.action,
            client_id: opt_text(self.client_id),
            connection_id: opt_text(self.connection_id),
            data: opt_model(self.data),
            encoding: opt_text(self.encoding),
            timestamp: self.timestamp,
        }
    }
}

/// A copy of optional JSON data.
pub fn clone_opt_json(o: &Option<JsonValue>) -> (r: Option<JsonValue>)
    ensures
        opt_model(r) == opt_model(*o),
{
    match o {
        Some(v) => Some(v.clone()),
        None => None,
    }
}

impl Clone for PresenceMessage {
    /// A copy that says the same.
    fn clone(&self) -> (r: PresenceMessage)
        ensures
            r@ == self@,
            r.id == self.id,
            r.action == self.action,
            r.client_id == self.client_id,
            r.connection_id == self.connection_id,
            r.encoding == self.encoding,
            r.timestamp == self.timestamp,
    {
        PresenceMessage {
            id: clone_opt_string(&self.id),
            action: self.action,
            client_id: clone_opt_string(&self.client_id),
            connection_id: clone_opt_string(&self.connection_id),
            data: clone_opt_json(&self.data),
            encoding: clone_opt_string(&self.encoding),
            timestamp: self.timestamp,
        }
    }
}

/// Error information carried by protocol messages.
#[derive(Debug)]
pub struct ErrorInfo {
    pub code: u16,
    pub message: Option<String>,
    pub status_code: Option<u16>,
    pub href: Option<String>,
    pub cause: Option<Box<ErrorInfo>>,
}

impl ErrorInfo {
    /// A copy of the error information, causes included.
    pub fn duplicate(&self) -> (r: ErrorInfo)
        ensures
            r == *self,
        decreases self,
    {
        ErrorInfo {
            code: self.code,
            message: clone_opt_string(&self.message),
            status_code: self.status_code,
            href: clone_opt_string(&self.href),
            cause: match &self.cause {
                Some(c) => Some(Box::new(c.duplicate())),
                None => None,
            },
        }
    }
}

impl Clone for ErrorInfo {
    fn clone(&self) -> (r: ErrorInfo)
        ensures
            r == *self,
    {
        self.duplicate()
    }
}

/// Authentication details of a connection.
#[derive(Debug, Clone)]
pub struct AuthDetails {
    pub access_token: Option<String>,
}

/// Details of an established connection.
#[derive(Debug, Clone)]
pub struct ConnectionDetails {
    pub client_id: Option<String>,
    pub connection_key: Option<String>,
    pub max_message_size: Option<u32>,
    pub max_frame_size: Option<u32>,
    pub max_inbound_rate: Option<u32>,
    pub connection_state_ttl: Option<u32>,
    pub server_id: Option<String>,
}

impl Default for ConnectionDetails {
    fn default() -> (d: ConnectionDetails)
        ensures
            d.client_id is None && d.connection_key is None && d.max_message_size is None
                && d.max_frame_size is None && d.max_inbound_rate is None
                && d.connection_state_ttl is None && d.server_id is None,
    {
        ConnectionDetails {
            client_id: None,
            connection_key: None,
            max_message_size: None,
            max_frame_size: None,
            max_inbound_rate: None,
            connection_state_ttl: None,
            server_id: None,
        }
    }
}


/// A realtime protocol message.
#[derive(Debug, Clone)]
pub struct ProtocolMessage {
    pub action: Action,
    pub flags: Option<u32>,
    pub count: Option<u32>,
    pub error: Option<ErrorInfo>,
    pub id: Option<String>,
    pub channel: Option<String>,
    pub channel_serial: Option<String>,
    pub connection_id: Option<String>,
    pub connection_key: Option<String>,
    pub connection_serial: Option<i64>,
    pub msg_serial: Option<i64>,
    pub timestamp: Option<i64>,
    pub messages: Option<Vec<Message>>,
    pub presence: Option<Vec<PresenceMessage>>,
    pub auth: Option<AuthDetails>,
    pub connection_details: Option<ConnectionDetails>,
}

/// A heartbeat message with no field set: what every constructor starts
/// from.
pub open spec fn is_bare(m: ProtocolMessage) -> bool {
    &&& m.flags is None
    &&& m.count is None
    &&& m.error is None
    &&& m.id is None
    &&& m.channel is None
    &&& m.channel_serial is None
    &&& m.connection_id is None
    &&& m.connection_key is None
    &&& m.connection_serial is None
    &&& m.msg_serial is None
    &&& m.timestamp is None
    &&& m.messages is None
    &&& m.presence is None
    &&& m.auth is None
    &&& m.connection_details is None
}

impl Default for ProtocolMessage {
    fn default() -> (m: ProtocolMessage)
        ensures
            m.action == Action::Heartbeat,
            is_bare(m),
    {
        ProtocolMessage {
            action: Action::Heartbeat,
            flags: None,
            count: None,
            error: None,
            id: None,
            channel: None,
            channel_serial: None,
            connection_id: None,
            connection_key: None,
            connection_serial: None,
            msg_serial: None,
            timestamp: None,
            messages: None,
            presence: None,
            auth: None,
            connection_details: None,
        }
    }
}

impl ProtocolMessage {
    /// A CONNECT message, with the client id (if any) in the connection
    /// details.
    pub fn connect(client_id: Option<String>, auth: Option<AuthDetails>) -> (m: ProtocolMessage)
        ensures
            m.action == Action::Connect,
            m.auth == auth,
            match client_id {
                Some(id) => m.connection_details matches Some(d) && d.client_id == Some(id)
                    && d.connection_key is None && d.max_message_size is None
                    && d.max_frame_size is None && d.max_inbound_rate is None
                    && d.connection_state_ttl is None && d.server_id is None,
                None => m.connection_details is None,
            },
            is_bare(ProtocolMessage { auth: None, connection_details: None, ..m }),
    {
        let mut m = ProtocolMessage::default();
        m.action = Action::Connect;
        m.auth = auth;
        m.connection_details = match client_id {
            Some(id) => {
                let mut d = ConnectionDetails::default();
                d.client_id = Some(id);
                Some(d)
            },
            None => None,
        };
        m
    }

    /// An ATTACH message for a channel.
    pub fn attach(channel: String, flags: Option<u32>) -> (m: ProtocolMessage)
        ensures
            m.action == Action::Attach,
            m.channel == Some(channel),
            m.flags == flags,
            is_bare(ProtocolMessage { channel: None, flags: None, ..m }),
    {
        let mut m = ProtocolMessage::default();
        m.action = Action::Attach;
        m.channel = Some(channel);
        m.flags = flags;
        m
    }

    /// A DETACH message for a channel.
    pub fn detach(channel: String) -> (m: ProtocolMessage)
        ensures
            m.action == Action::Detach,
            m.channel == Some(channel),
            is_bare(ProtocolMessage { channel: None, ..m }),
    {
        let mut m = ProtocolMessage::default();
        m.action = Action::Detach;
        m.channel = Some(channel);
        m
    }

    /// A MESSAGE message publishing `messages` on a channel.
    pub fn message(channel: String, messages: Vec<Message>) -> (m: ProtocolMessage)
        ensures
            m.action == Action::Message,
            m.channel == Some(channel),
            m.messages == Some(messages),
            is_bare(ProtocolMessage { channel: None, messages: None, ..m }),
    {
        let mut m = ProtocolMessage::default();
        m.action = Action::Message;
        m.channel = Some(channel);
        m.messages = Some(messages);
        m
    }

    /// A PRESENCE message on a channel.
    pub fn presence(channel: String, presence: Vec<PresenceMessage>) -> (m: ProtocolMessage)
        ensures
            m.action == Action::Presence,
            m.channel == Some(channel),
            m.presence == Some(presence),
            is_bare(ProtocolMessage { channel: None, presence: None, ..m }),
    {
        let mut m = ProtocolMessage::default();
        m.action = Action::Presence;
        m.channel = Some(channel);
        m.presence = Some(presence);
        m
    }

    /// A HEARTBEAT message.
    pub fn heartbeat() -> (m: ProtocolMessage)
        ensures
            m.action == Action::Heartbeat,
            is_bare(m),
    {
        ProtocolMessage::default()
    }

    /// An ACK message.
    pub fn ack(msg_serial: i64, count: Option<u32>) -> (m: ProtocolMessage)
        ensures
            m.action == Action::Ack,
            m.msg_serial == Some(msg_serial),
            m.count == count,
            is_bare(ProtocolMessage { msg_serial: None, count: None, ..m }),
    {
        let mut m = ProtocolMessage::default();
        m.action = Action::Ack;
        m.msg_serial = Some(msg_serial);
        m.count = count;
        m
    }

    /// A NACK message.
    pub fn nack(msg_serial: i64, count: Option<u32>, error: Option<ErrorInfo>) -> (m: ProtocolMessage)
        ensures
            m.action == Action::Nack,
            m.msg_serial == Some(msg_serial),
            m.count == count,
            m.error == error,
            is_bare(ProtocolMessage { msg_serial: None, count: None, error: None, ..m }),
    {
        let mut m = ProtocolMessage::default();
        m.action = Action::Nack;
        m.msg_serial = Some(msg_serial);
        m.count = count;
        m.error = error;
        m
    }

    /// An ERROR message, for a channel or the connection.
    pub fn error(error: ErrorInfo, channel: Option<String>) -> (m: ProtocolMessage)
        ensures
            m.action == Action::Error,
            m.error == Some(error),
            m.channel == channel,
            is_bare(ProtocolMessage { error: None, channel: None, ..m }),
    {
        let mut m = ProtocolMessage::default();
        m.action = Action::Error;
        m.error = Some(error);
        m.channel = channel;
        m
    }
}

} // verus!
