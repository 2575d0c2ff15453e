//! The realtime client's builder.

use crate::connection::state_machine::ConnectionEvent;
use crate::error::{AblyError, AblyResult, IntoText};
use crate::protocol::json::JsonValue;
use crate::protocol::messages::{
    is_bare, opt_text, Action, Message, PresenceAction, PresenceMessage, ProtocolMessage,
};
use crate::text::owned;
use vstd::prelude::*;

verus! {

/// Builder of the realtime client.
pub struct RealtimeClientBuilder {
    api_key: Option<String>,
    token: Option<String>,
    client_id: Option<String>,
    recover: Option<String>,
    auto_connect: bool,
}

impl Default for RealtimeClientBuilder {
    /// Nothing set, and connecting as soon as the client is built.
    fn default() -> (b: RealtimeClientBuilder)
        ensures
            b.spec_api_key() is None,
            b.spec_token() is None,
            b.spec_client_id() is None,
            b.spec_recover() is None,
            b.spec_auto_connect(),
    {
        RealtimeClientBuilder {
            api_key: None,
            token: None,
            client_id: None,
            recover: None,
            auto_connect: true,
        }
    }
}

impl RealtimeClientBuilder {
    /// The API key set, if any.
    pub closed spec fn spec_api_key(&self) -> Option<Seq<char>> {
        opt_text(self.api_key)
    }

    /// The token set, if any.
    pub closed spec fn spec_token(&self) -> Option<Seq<char>> {
        opt_text(self.token)
    }

    /// The client id set, if any.
    pub closed spec fn spec_client_id(&self) -> Option<Seq<char>> {
        opt_text(self.client_id)
    }

    /// The recovery key set, if any.
    pub closed spec fn spec_recover(&self) -> Option<Seq<char>> {
        opt_text(self.recover)
    }

    /// Whether the client connects as soon as it is built.
    pub closed spec fn spec_auto_connect(&self) -> bool {
        self.auto_connect
    }

    /// Sets the API key.
    pub fn api_key<K: IntoText>(self, key: K) -> (b: RealtimeClientBuilder)
        ensures
            b.spec_api_key() == Some(key.text_view()),
            b.spec_token() == self.spec_token(),
            b.spec_client_id() == self.spec_client_id(),
            b.spec_recover() == self.spec_recover(),
            b.spec_auto_connect() == self.spec_auto_connect(),
    {
        RealtimeClientBuilder { api_key: Some(key.into_text()), ..self }
    }

    /// Sets the token.
    pub fn token<K: IntoText>(self, token: K) -> (b: RealtimeClientBuilder)
        ensures
            b.spec_api_key() == self.spec_api_key(),
            b.spec_token() == Some(token.text_view()),
            b.spec_client_id() == self.spec_client_id(),
            b.spec_recover() == self.spec_recover(),
            b.spec_auto_connect() == self.spec_auto_connect(),
    {
        RealtimeClientBuilder { token: Some(token.into_text()), ..self }
    }

    /// Sets the client id.
    pub fn client_id<K: IntoText>(self, id: K) -> (b: RealtimeClientBuilder)
        ensures
            b.spec_api_key() == self.spec_api_key(),
            b.spec_token() == self.spec_token(),
            b.spec_client_id() == Some(id.text_view()),
            b.spec_recover() == self.spec_recover(),
            b.spec_auto_connect() == self.spec_auto_connect(),
    {
        RealtimeClientBuilder { client_id: Some(id.into_text()), ..self }
    }

    /// Sets the key to recover a connection with.
    pub fn recover<K: IntoText>(self, recover: K) -> (b: RealtimeClientBuilder)
        ensures
            b.spec_api_key() == self.spec_api_key(),
            b.spec_token() == self.spec_token(),
            b.spec_client_id() == self.spec_client_id(),
            b.spec_recover() == Some(recover.text_view()),
            b.spec_auto_connect() == self.spec_auto_connect(),
    {
        RealtimeClientBuilder { recover: Some(recover.into_text()), ..self }
    }

    /// Sets whether the client connects as soon as it is built.
    pub fn auto_connect(self, auto: bool) -> (b: RealtimeClientBuilder)
        ensures
            b.spec_api_key() == self.spec_api_key(),
            b.spec_token() == self.spec_token(),
            b.spec_client_id() == self.spec_client_id(),
            b.spec_recover() == self.spec_recover(),
            b.spec_auto_connect() == auto,
    {
        RealtimeClientBuilder { auto_connect: auto, ..self }
    }

    /// What building the client starts from: the API key, which is
    /// required, and whether to connect at once. Without an API key the
    /// build fails with the internal error `API key required`.
    pub fn into_settings(self) -> (r: AblyResult<(String, bool)>)
        ensures
            match self.spec_api_key() {
                Some(k) => r matches Ok((key, auto)) && key@ == k && auto == self.spec_auto_connect(),
                None => r matches Err(AblyError::Internal { message }) && message@
                    == "API key required"@,
            },
    {
        match self.api_key {
            Some(key) => Ok((key, self.auto_connect)),
            None => Err(AblyError::unexpected("API key required")),
        }
    }
}

/// What the realtime client does with a protocol message from the server.
pub enum InboundRoute {
    /// Feeds this event to the connection state machine.
    Connection(ConnectionEvent),
    /// Hands the message to the channels.
    Channels,
    /// Nothing.
    Ignore,
}

/// The connection id a CONNECTED message announces: its connection id,
/// else the connection key of its details, else `unknown`.
pub open spec fn announced_connection_id(m: ProtocolMessage) -> Seq<char> {
    match m.connection_id {
        Some(id) => id@,
        None => match m.connection_details {
            Some(d) => match d.connection_key {
                Some(k) => k@,
                None => "unknown"@,
            },
            None => "unknown"@,
        },
    }
}

/// Where a protocol message from the server goes: CONNECTED, DISCONNECTED
/// and ERROR (when it carries the error) become connection events;
/// MESSAGE, ATTACHED, DETACHED and PRESENCE go to the channels when they
/// name one; anything else is ignored.
pub fn route_inbound(message: &ProtocolMessage) -> (r: InboundRoute)
    ensures
        match message.action {
            Action::Connected => r matches InboundRoute::Connection(ConnectionEvent::Connected(id)) && id@
                == announced_connection_id(*message),
            Action::Disconnected => r matches InboundRoute::Connection(ConnectionEvent::Disconnected(None)),
            Action::Error => match message.error {
                Some(e) => r matches InboundRoute::Connection(ConnectionEvent::Error(x)) && x == e,
                None => r is Ignore,
            },
            Action::Message | Action::Attached | Action::Detached | Action::Presence => if message.channel is Some {
                r is Channels
            } else {
                r is Ignore
            },
            _ => r is Ignore,
        },
{
    match message.action {
        Action::Connected => {
            let id = match &message.connection_id {
                Some(id) => id.clone(),
                None => match &message.connection_details {
                    Some(d) => match &d.connection_key {
                        Some(k) => k.clone(),
                        None => owned("unknown"),
                    },
                    None => owned("unknown"),
                },
            };
            InboundRoute::Connection(ConnectionEvent::Connected(id))
        },
        Action::Disconnected => InboundRoute::Connection(ConnectionEvent::Disconnected(None)),
        Action::Error => match &message.error {
            Some(e) => InboundRoute::Connection(ConnectionEvent::Error(e.clone())),
            None => InboundRoute::Ignore,
        },
        Action::Message | Action::Attached | Action::Detached | Action::Presence => {
            if message.channel.is_some() {
                InboundRoute::Channels
            } else {
                InboundRoute::Ignore
            }
        },
        _ => InboundRoute::Ignore,
    }
}

/// Moves the message serial on by one and returns the new serial.
pub fn next_msg_serial(serial: &mut i64) -> (n: i64)
    requires
        *old(serial) < i64::MAX,
    ensures
        *final(serial) == *old(serial) + 1,
        n == *final(serial),
{
    *serial = *serial + 1;
    *serial
}

/// The MESSAGE that publishes `message` on channel `channel` with serial
/// `serial`.
pub fn publish_request(channel: &str, message: Message, serial: i64) -> (m: ProtocolMessage)
    ensures
        m.action == Action::Message,
        opt_text(m.channel) == Some(channel@),
        m.messages matches Some(ms) && ms@ == seq![message],
        m.msg_serial == Some(serial),
        is_bare(ProtocolMessage { channel: None, messages: None, msg_serial: None, ..m }),
{
    let mut ms: Vec<Message> = Vec::new();
    ms.push(message);
    let mut m = ProtocolMessage::message(owned(channel), ms);
    m.msg_serial = Some(serial);
    m
}

/// The PRESENCE message on channel `channel`, with serial `serial`, that
/// makes the client `rust-client` enter (with `data`) or leave.
pub fn presence_request(channel: &str, action: PresenceAction, data: Option<JsonValue>, serial: i64) -> (m: ProtocolMessage)
    ensures
        m.action == Action::Presence,
        opt_text(m.channel) == Some(channel@),
        m.presence matches Some(ps) && ps@.len() == 1 && ps@[0].action == action && opt_text(ps@[0].client_id)
            == Some("rust-client"@) && ps@[0].data == data && ps@[0].id is None && ps@[0].connection_id is None
            && ps@[0].encoding is None && ps@[0].timestamp is None,
        m.msg_serial == Some(serial),
        is_bare(ProtocolMessage { channel: None, presence: None, msg_serial: None, ..m }),
{
    let p = PresenceMessage {
        id: None,
        action,
        client_id: Some(owned("rust-client")),
        connection_id: None,
        data,
        encoding: None,
        timestamp: None,
    };
    let mut ps: Vec<PresenceMessage> = Vec::new();
    ps.push(p);
    let mut m = ProtocolMessage::presence(owned(channel), ps);
    m.msg_serial = Some(serial);
    m
}

} // verus!
