//! Realtime channels: their states and options, the state a channel keeps
//! (state information, message queue, presence set, serials), and the
//! decisions of attaching, detaching, publishing and handling what the
//! server sends. Sending and waiting belong to whoever drives the channel
//! over a transport.

use crate::error::{AblyError, AblyResult};
use crate::protocol::json::JsonValue;
use crate::protocol::messages::flags;
use crate::protocol::messages::{
    clone_opt_string, opt_text, Action, ErrorInfo, Message, PresenceMessage, ProtocolMessage,
};
use crate::protocol::messages::PresenceAction as WirePresenceAction;
use crate::strmap::StringMap;
use crate::text::{append, owned};
use vstd::prelude::*;

verus! {

/// The states of a channel.
#[derive(Debug, Clone, Copy, PartialEq, Eq, Structural)]
pub enum ChannelState {
    Initialized,
    Attaching,
    Attached,
    Detaching,
    Detached,
    Suspended,
    Failed,
}

/// What a client may do on a channel.
#[derive(Debug, Clone, Copy, PartialEq, Eq, Structural)]
pub enum ChannelMode {
    Publish,
    Subscribe,
    PresenceSubscribe,
    Presence,
    History,
}

/// Cipher parameters of an encrypted channel.
#[derive(Debug, Clone)]
pub struct CipherParams {
    pub key: Vec<u8>,
    pub algorithm: String,
}

/// Options of a channel.
#[derive(Debug, Clone)]
pub struct ChannelOptions {
    pub params: Option<Vec<(String, String)>>,
    pub modes: Option<Vec<ChannelMode>>,
    pub cipher: Option<CipherParams>,
}

impl Default for ChannelOptions {
    fn default() -> (o: ChannelOptions)
        ensures
            o.params is None,
            o.modes is None,
            o.cipher is None,
    {
        ChannelOptions { params: None, modes: None, cipher: None }
    }
}

/// What is known of a channel's state, for recovery.
#[derive(Debug, Clone)]
pub struct ChannelStateInfo {
    pub state: ChannelState,
    pub resume: Option<String>,
    pub reason: Option<ErrorInfo>,
    pub has_presence: bool,
    pub has_backlog: bool,
}

/// A change of a channel's state, as listeners receive it.
#[derive(Debug, Clone)]
pub struct StateChangeEvent {
    pub from: ChannelState,
    pub to: ChannelState,
    pub reason: Option<ErrorInfo>,
}

/// The presence actions a channel records of its members.
#[derive(Debug, Clone, Copy, PartialEq, Eq, Structural)]
pub enum PresenceAction {
    Enter,
    Leave,
    Update,
    Present,
    Absent,
}

/// A member present on a channel.
#[derive(Debug, Clone)]
pub struct PresenceMember {
    pub client_id: String,
    pub connection_id: String,
    pub data: Option<JsonValue>,
    pub action: PresenceAction,
}

/// A member present as the channel records it: client id, connection id,
/// data and last action.
pub type MemberView = (Seq<char>, Seq<char>, Option<JsonValue>, PresenceAction);

/// The record of a present member.
pub open spec fn member_view(v: PresenceMember) -> MemberView {
    (v.client_id@, v.connection_id@, v.data, v.action)
}

/// The attach flag of a channel mode; `History` has none.
pub open spec fn mode_flag(m: ChannelMode) -> u32 {
    match m {
        ChannelMode::Publish => flags::PUBLISH,
        ChannelMode::Subscribe => flags::SUBSCRIBE,
        ChannelMode::PresenceSubscribe => flags::PRESENCE_SUBSCRIBE,
        ChannelMode::Presence => flags::PRESENCE,
        ChannelMode::History => 0,
    }
}

/// The union of the attach flags of the modes.
pub open spec fn modes_flags(ms: Seq<ChannelMode>) -> u32
    decreases ms.len(),
{
    if ms.len() == 0 {
        0
    } else {
        modes_flags(ms.drop_last()) | mode_flag(ms.last())
    }
}

/// The attach flags that channel options ask for: none when no mode sets
/// a flag.
pub open spec fn spec_attach_flags(options: ChannelOptions) -> Option<u32> {
    let f = match options.modes {
        Some(ms) => modes_flags(ms@),
        None => 0,
    };
    if f > 0 {
        Some(f)
    } else {
        None
    }
}

/// The most messages a channel queues before dropping the older half.
pub const QUEUE_LIMIT: usize = 1000;

/// The subscriber keys a message with event name `name` goes to: its own
/// name and, unless it is the wildcard itself, the wildcard `*`.
pub open spec fn spec_delivery_keys(name: Seq<char>) -> Seq<Seq<char>> {
    if name == "*"@ {
        seq![name]
    } else {
        seq![name, "*"@]
    }
}


/// The next step of an attach, decided from the channel's state.
#[derive(Debug)]
pub enum AttachStep {
    /// The channel's name is empty: the channel fails with this reason.
    InvalidName(ErrorInfo),
    /// Already attached: nothing to do.
    Done,
    /// An attach is under way: wait for `Attached`.
    Wait,
    /// Send this ATTACH message and wait for `Attached`.
    Send(ProtocolMessage),
}

/// What follows a failed attach attempt.
#[derive(Debug)]
pub enum AttachNext {
    /// Wait `delay_ms` milliseconds, then send `message` again; the
    /// channel is `Attaching`.
    Retry { delay_ms: u64, message: ProtocolMessage },
    /// Every attempt failed: the channel has failed and the attach
    /// returns this error.
    GiveUp(AblyError),
}

/// The first step of a publish, decided from the channel's state.
#[derive(Debug, Clone, Copy, PartialEq, Eq, Structural)]
pub enum PublishStep {
    /// The channel is not attached: attach it first.
    AttachFirst,
    /// The channel is attached: send at once.
    Send,
}

/// What follows a failed publish attempt.
#[derive(Debug)]
pub enum PublishNext {
    /// Wait `delay_ms` milliseconds, then send the message again.
    Retry { delay_ms: u64 },
    /// Every attempt failed: the publish returns this error.
    GiveUp(AblyError),
}

/// The next step of a detach, decided from the channel's state.
#[derive(Debug, Clone, Copy, PartialEq, Eq, Structural)]
pub enum DetachStep {
    /// Nothing attached: nothing to do.
    Done,
    /// A detach is under way: wait for `Detached`.
    Wait,
    /// A failed channel is simply marked detached.
    MarkDetached,
    /// Send a DETACH message and wait for `Detached`.
    Send,
}

/// What a wait for a target state sees at one look.
#[derive(Debug, Clone, Copy, PartialEq, Eq, Structural)]
pub enum WaitStep {
    Reached,
    ChannelFailed,
    TimedOut,
    KeepWaiting,
}

/// How many times attaching or publishing is tried.
pub const MAX_ATTEMPTS: u32 = 3;

/// A channel's state: its name and options, its state and state
/// information, the queue of received messages, the members present, and
/// the message and attach serials.
#[derive(Debug)]
pub struct Channel {
    name: String,
    state_info: ChannelStateInfo,
    options: ChannelOptions,
    message_queue: Vec<Message>,
    presence_map: StringMap<PresenceMember>,
    msg_serial: i64,
    attach_serial: Option<String>,
}

impl Channel {
    #[verifier::type_invariant]
    spec fn consistent(self) -> bool {
        self.message_queue@.len() <= QUEUE_LIMIT
    }

    /// The channel's name.
    pub closed spec fn spec_name(&self) -> Seq<char> {
        self.name@
    }

    /// The channel's state.
    pub closed spec fn spec_state(&self) -> ChannelState {
        self.state_info.state
    }

    /// The state information.
    pub closed spec fn spec_info(&self) -> ChannelStateInfo {
        self.state_info
    }

    /// The channel's options.
    pub closed spec fn spec_options(&self) -> ChannelOptions {
        self.options
    }

    /// The queued messages, oldest first.
    pub closed spec fn spec_queue(&self) -> Seq<Message> {
        self.message_queue@
    }

    /// The members present, by client id.
    pub closed spec fn spec_presence(&self) -> Map<Seq<char>, MemberView> {
        self.presence_map@.map_values(|v: PresenceMember| member_view(v))
    }

    /// The serial of the last message published.
    pub closed spec fn spec_msg_serial(&self) -> i64 {
        self.msg_serial
    }

    /// The serial to resume from on attach.
    pub closed spec fn spec_attach_serial(&self) -> Option<Seq<char>> {
        opt_text(self.attach_serial)
    }

    /// A channel with default options.
    pub fn new(name: String) -> (c: Channel)
        ensures
            c.spec_name() == name@,
            c.spec_state() == ChannelState::Initialized,
            c.spec_options().modes is None,
            c.spec_queue().len() == 0,
            c.spec_presence() == Map::<Seq<char>, MemberView>::empty(),
            c.spec_msg_serial() == 0,
            c.spec_attach_serial() is None,
    {
        Channel::with_options(name, ChannelOptions::default())
    }

    /// A channel with the given options, in state `Initialized`, with
    /// nothing received yet.
    pub fn with_options(name: String, options: ChannelOptions) -> (c: Channel)
        ensures
            c.spec_name() == name@,
            c.spec_state() == ChannelState::Initialized,
            c.spec_info().resume is None && c.spec_info().reason is None,
            !c.spec_info().has_presence && !c.spec_info().has_backlog,
            c.spec_options() == options,
            c.spec_queue().len() == 0,
            c.spec_presence() == Map::<Seq<char>, MemberView>::empty(),
            c.spec_msg_serial() == 0,
            c.spec_attach_serial() is None,
    {
        let state_info = ChannelStateInfo {
            state: ChannelState::Initialized,
            resume: None,
            reason: None,
            has_presence: false,
            has_backlog: false,
        };
        Channel {
            name,
            state_info,
            options,
            message_queue: Vec::new(),
            presence_map: StringMap::new(),
            msg_serial: 0,
            attach_serial: None,
        }
    }

    /// The channel's name.
    pub fn name(&self) -> (n: &str)
        ensures
            n@ == self.spec_name(),
    {
        self.name.as_str()
    }

    /// The channel's state.
    pub fn state(&self) -> (s: ChannelState)
        ensures
            s == self.spec_state(),
    {
        self.state_info.state
    }

    /// The state information.
    pub fn state_info(&self) -> (i: &ChannelStateInfo)
        ensures
            *i == self.spec_info(),
    {
        &self.state_info
    }

    /// Moves to `new_state` for `reason`, and returns the change for the
    /// listeners.
    pub fn update_state(&mut self, new_state: ChannelState, reason: Option<ErrorInfo>) -> (ev: StateChangeEvent)
        ensures
            ev.from == old(self).spec_state(),
            ev.to == new_state,
            ev.reason == reason,
            final(self).spec_state() == new_state,
            final(self).spec_info() == (ChannelStateInfo { state: new_state, reason, ..old(self).spec_info() }),
            unchanged_but_state(*old(self), *final(self)),
    {
        proof {
            use_type_invariant(&*self);
        }
        let old_state = self.state_info.state;
        let copy = match &reason {
            Some(e) => Some(e.clone()),
            None => None,
        };
        self.state_info.state = new_state;
        self.state_info.reason = copy;
        StateChangeEvent { from: old_state, to: new_state, reason }
    }

    /// The serial of the last message published.
    pub fn get_msg_serial(&self) -> (n: i64)
        ensures
            n == self.spec_msg_serial(),
    {
        self.msg_serial
    }

    /// The serial to resume from on attach.
    pub fn get_attach_serial(&self) -> (r: Option<String>)
        ensures
            opt_text(r) == self.spec_attach_serial(),
    {
        clone_opt_string(&self.attach_serial)
    }

    /// The number of queued messages.
    pub fn get_queue_size(&self) -> (n: usize)
        ensures
            n == self.spec_queue().len(),
    {
        self.message_queue.len()
    }

    /// The channel fails with `error`.
    pub fn handle_error(&mut self, error: ErrorInfo) -> (ev: StateChangeEvent)
        ensures
            ev.from == old(self).spec_state(),
            ev.to == ChannelState::Failed,
            final(self).spec_state() == ChannelState::Failed,
            final(self).spec_info().reason == Some(error),
            unchanged_but_state(*old(self), *final(self)),
    {
        self.update_state(ChannelState::Failed, Some(error))
    }

    /// The channel is suspended.
    pub fn suspend(&mut self) -> (ev: StateChangeEvent)
        ensures
            ev.from == old(self).spec_state(),
            ev.to == ChannelState::Suspended,
            final(self).spec_state() == ChannelState::Suspended,
            final(self).spec_info().reason is None,
            unchanged_but_state(*old(self), *final(self)),
    {
        self.update_state(ChannelState::Suspended, None)
    }

    /// A recovery is only for a failed channel.
    pub fn check_recoverable(&self) -> (r: AblyResult<()>)
        ensures
            r is Ok <==> self.spec_state() == ChannelState::Failed,
            r matches Err(e) ==> e matches AblyError::BadRequest { message }
                && message@ == "Channel is not in failed state"@,
    {
        if self.state_info.state != ChannelState::Failed {
            return Err(AblyError::invalid_request("Channel is not in failed state"));
        }
        Ok(())
    }

    /// Resuming keeps the serial to resume from, when one is given.
    pub fn set_resume_serial(&mut self, serial: Option<String>)
        ensures
            final(self).spec_attach_serial() == match serial {
                Some(s) => Some(s@),
                None => old(self).spec_attach_serial(),
            },
            final(self).spec_name() == old(self).spec_name(),
            final(self).spec_state() == old(self).spec_state(),
            final(self).spec_info() == old(self).spec_info(),
            final(self).spec_queue() == old(self).spec_queue(),
            final(self).spec_presence() == old(self).spec_presence(),
            final(self).spec_msg_serial() == old(self).spec_msg_serial(),
    {
        proof {
            use_type_invariant(&*self);
        }
        match serial {
            Some(s) => {
                self.attach_serial = Some(s);
            },
            None => {},
        }
    }

    /// The attach flags the channel's modes ask for.
    pub fn build_attach_flags(&self) -> (f: Option<u32>)
        ensures
            f == spec_attach_flags(self.spec_options()),
    {
        let mut flags: u32 = 0;
        match &self.options.modes {
            Some(modes) => {
                let mut i: usize = 0;
                while i < modes.len()
                    invariant
                        0 <= i <= modes@.len(),
                        flags == modes_flags(modes@.take(i as int)),
                    decreases modes@.len() - i,
                {
                    proof {
                        assert(modes@.take(i + 1).drop_last() =~= modes@.take(i as int));
                    }
                    let bit: u32 = match modes[i] {
                        ChannelMode::Publish => flags::PUBLISH,
                        ChannelMode::Subscribe => flags::SUBSCRIBE,
                        ChannelMode::PresenceSubscribe => flags::PRESENCE_SUBSCRIBE,
                        ChannelMode::Presence => flags::PRESENCE,
                        ChannelMode::History => 0,
                    };
                    flags = flags | bit;
                    i = i + 1;
                }
                proof {
                    assert(modes@.take(modes@.len() as int) =~= modes@);
                }
            },
            None => {},
        }
        if flags > 0 {
            Some(flags)
        } else {
            None
        }
    }

    /// The first step of an attach. An empty name fails the channel; an
    /// attached channel is done; an attaching one waits; any other sends
    /// an ATTACH with the channel's flags, after moving to `Attaching`.
    pub fn attach_plan(&mut self) -> (step: AttachStep)
        ensures
            self_attach_plan(*old(self), *final(self), step),
    {
        if self.name.as_str().is_empty() {
            let reason = ErrorInfo {
                code: 40003,
                message: Some(owned("Channel name cannot be empty")),
                status_code: None,
                href: None,
                cause: None,
            };
            let _ = self.update_state(ChannelState::Failed, Some(reason.duplicate()));
            return AttachStep::InvalidName(reason);
        }
        match self.state_info.state {
            ChannelState::Attached => AttachStep::Done,
            ChannelState::Attaching => AttachStep::Wait,
            _ => {
                let _ = self.update_state(ChannelState::Attaching, None);
                let flags = self.build_attach_flags();
                AttachStep::Send(ProtocolMessage::attach(self.name.clone(), flags))
            },
        }
    }

    /// What follows the failure, with `last_error`, of attach attempt
    /// number `attempt` (counting from 1). Before the last attempt the
    /// channel moves to `Attaching` again and the ATTACH message is sent
    /// once more after 500 ms times `attempt`; after it the channel fails,
    /// with the code and message of `last_error` when that is an API
    /// error, and the attach returns `last_error`.
    pub fn attach_attempt_failed(&mut self, attempt: u32, last_error: AblyError) -> (next: AttachNext)
        ensures
            attach_failure_step(*old(self), *final(self), attempt, last_error, next),
    {
        match attach_retry_delay_ms(attempt) {
            Some(delay_ms) => {
                let _ = self.update_state(ChannelState::Attaching, None);
                let flags = self.build_attach_flags();
                AttachNext::Retry { delay_ms, message: ProtocolMessage::attach(self.name.clone(), flags) }
            },
            None => {
                let last = Some(last_error);
                let reason = attach_failure_reason(&last);
                let _ = self.update_state(ChannelState::Failed, reason);
                AttachNext::GiveUp(last.unwrap())
            },
        }
    }

    /// The first step of a publish: a channel that is not attached is
    /// attached first.
    pub fn publish_plan(&self) -> (p: PublishStep)
        ensures
            (p == PublishStep::AttachFirst) == (self.spec_state() != ChannelState::Attached),
            (p == PublishStep::Send) == (self.spec_state() == ChannelState::Attached),
    {
        match self.state_info.state {
            ChannelState::Attached => PublishStep::Send,
            _ => PublishStep::AttachFirst,
        }
    }

    /// What follows the failure, with `error`, of publish attempt number
    /// `attempt` (counting from 1): before the last attempt the message is
    /// sent again after 200 ms times `attempt`; after it the publish
    /// returns `error`.
    pub fn publish_attempt_failed(attempt: u32, error: AblyError) -> (n: PublishNext)
        ensures
            attempt < MAX_ATTEMPTS ==> (n matches PublishNext::Retry { delay_ms } && delay_ms == 200 * attempt),
            attempt >= MAX_ATTEMPTS ==> (n matches PublishNext::GiveUp(e) && e == error),
    {
        match publish_retry_delay_ms(attempt) {
            Some(delay_ms) => PublishNext::Retry { delay_ms },
            None => PublishNext::GiveUp(error),
        }
    }

    /// The first step of a detach, moving to `Detaching` or `Detached`
    /// as it requires.
    pub fn detach_plan(&mut self) -> (step: DetachStep)
        ensures
            match old(self).spec_state() {
                ChannelState::Detached | ChannelState::Initialized => step == DetachStep::Done
                    && final(self).spec_state() == old(self).spec_state(),
                ChannelState::Detaching => step == DetachStep::Wait
                    && final(self).spec_state() == old(self).spec_state(),
                ChannelState::Failed => step == DetachStep::MarkDetached
                    && final(self).spec_state() == ChannelState::Detached,
                _ => step == DetachStep::Send && final(self).spec_state() == ChannelState::Detaching,
            },
            unchanged_but_state(*old(self), *final(self)),
    {
        match self.state_info.state {
            ChannelState::Detached | ChannelState::Initialized => DetachStep::Done,
            ChannelState::Detaching => DetachStep::Wait,
            ChannelState::Failed => {
                let _ = self.update_state(ChannelState::Detached, None);
                DetachStep::MarkDetached
            },
            _ => {
                let _ = self.update_state(ChannelState::Detaching, None);
                DetachStep::Send
            },
        }
    }

    /// The DETACH message of the channel.
    pub fn detach_message(&self) -> (m: ProtocolMessage)
        ensures
            m.action == Action::Detach,
            opt_text(m.channel) == Some(self.spec_name()),
    {
        ProtocolMessage::detach(self.name.clone())
    }

    /// What a wait for `target` sees now; `timed_out` tells whether the
    /// wait has run past its limit.
    pub fn wait_step(&self, target: ChannelState, timed_out: bool) -> (w: WaitStep)
        ensures
            w == (if self.spec_state() == target {
                WaitStep::Reached
            } else if self.spec_state() == ChannelState::Failed {
                WaitStep::ChannelFailed
            } else if timed_out {
                WaitStep::TimedOut
            } else {
                WaitStep::KeepWaiting
            }),
    {
        if self.state_info.state == target {
            WaitStep::Reached
        } else if self.state_info.state == ChannelState::Failed {
            WaitStep::ChannelFailed
        } else if timed_out {
            WaitStep::TimedOut
        } else {
            WaitStep::KeepWaiting
        }
    }

    /// Counts one more published message and builds its MESSAGE: the
    /// message carries `name`, the text `data`, the id `msg:<channel>:<id>`
    /// and `timestamp`.
    pub fn publish_message(&mut self, name: &str, data: String, unique: &str, timestamp: i64) -> (m: ProtocolMessage)
        requires
            old(self).spec_msg_serial() < i64::MAX,
        ensures
            publish_step(*old(self), *final(self), m, name@, data@, unique@, timestamp),
    {
        proof {
            use_type_invariant(&*self);
        }
        self.msg_serial = self.msg_serial + 1;
        let mut id = owned("msg:");
        append(&mut id, self.name.as_str());
        append(&mut id, ":");
        append(&mut id, unique);
        let mut message = Message::empty();
        message.name = Some(owned(name));
        message.data = Some(JsonValue::String(data));
        message.id = Some(id);
        message.timestamp = Some(timestamp);
        let mut ms: Vec<Message> = Vec::new();
        ms.push(message);
        ProtocolMessage::message(self.name.clone(), ms)
    }

    /// Marks presence entered and builds the PRESENCE message entering
    /// with `data`.
    pub fn presence_enter_message(&mut self, data: Option<JsonValue>) -> (m: ProtocolMessage)
        ensures
            final(self).spec_info().has_presence,
            final(self).spec_state() == old(self).spec_state(),
            final(self).spec_queue() == old(self).spec_queue(),
            final(self).spec_presence() == old(self).spec_presence(),
            final(self).spec_msg_serial() == old(self).spec_msg_serial(),
            m.action == Action::Presence,
            opt_text(m.channel) == Some(old(self).spec_name()),
            m.presence matches Some(ps) && ps@.len() == 1 && ps@[0].action == WirePresenceAction::Enter
                && opt_text(ps@[0].client_id) == Some("rust-client"@) && ps@[0].data == data,
    {
        proof {
            use_type_invariant(&*self);
        }
        self.state_info.has_presence = true;
        self.presence_message(WirePresenceAction::Enter, data)
    }

    /// Marks presence left and builds the PRESENCE message leaving.
    pub fn presence_leave_message(&mut self) -> (m: ProtocolMessage)
        ensures
            !final(self).spec_info().has_presence,
            final(self).spec_state() == old(self).spec_state(),
            final(self).spec_queue() == old(self).spec_queue(),
            final(self).spec_presence() == old(self).spec_presence(),
            final(self).spec_msg_serial() == old(self).spec_msg_serial(),
            m.action == Action::Presence,
            opt_text(m.channel) == Some(old(self).spec_name()),
            m.presence matches Some(ps) && ps@.len() == 1 && ps@[0].action == WirePresenceAction::Leave
                && opt_text(ps@[0].client_id) == Some("rust-client"@) && ps@[0].data is None,
    {
        proof {
            use_type_invariant(&*self);
        }
        self.state_info.has_presence = false;
        self.presence_message(WirePresenceAction::Leave, None)
    }

    fn presence_message(&self, action: WirePresenceAction, data: Option<JsonValue>) -> (m: ProtocolMessage)
        ensures
            m.action == Action::Presence,
            opt_text(m.channel) == Some(self.spec_name()),
            m.presence matches Some(ps) && ps@.len() == 1 && ps@[0].action == action
                && opt_text(ps@[0].client_id) == Some("rust-client"@) && ps@[0].data == data,
    {
        let p = PresenceMessage {
            id: None,
            action,
            client_id: Some(owned("rust-client")),
            connection_id: None,
            data,
            encoding: None,
            timestamp: None,
        };
        let mut ps: Vec<PresenceMessage> = Vec::new();
        ps.push(p);
        ProtocolMessage::presence(self.name.clone(), ps)
    }

    /// Handles a protocol message sent to this channel: ATTACHED,
    /// DETACHED and ERROR move the channel, MESSAGE queues the messages,
    /// PRESENCE updates the members present. Returns the state change, if
    /// any, for the listeners.
    pub fn handle_protocol_message(&mut self, msg: ProtocolMessage) -> (r: Option<StateChangeEvent>)
        ensures
            protocol_step(*old(self), *final(self), msg, r),
    {
        proof {
            use_type_invariant(&*self);
        }
        match msg.action {
            Action::Attached => {
                let ev = self.update_state(ChannelState::Attached, None);
                match &msg.channel_serial {
                    Some(serial) => {
                        self.attach_serial = Some(serial.clone());
                    },
                    None => {},
                }
                match msg.flags {
                    Some(f) => {
                        self.state_info.has_presence = f & flags::HAS_PRESENCE != 0;
                        self.state_info.has_backlog = f & flags::HAS_BACKLOG != 0;
                        self.state_info.resume = msg.channel_serial;
                    },
                    None => {},
                }
                Some(ev)
            },
            Action::Detached => {
                let ev = self.update_state(ChannelState::Detached, msg.error);
                self.state_info.has_presence = false;
                self.state_info.has_backlog = false;
                self.state_info.resume = None;
                Some(ev)
            },
            Action::Message => {
                match msg.messages {
                    Some(messages) => {
                        self.handle_messages(messages);
                    },
                    None => {},
                }
                None
            },
            Action::Presence => {
                match msg.presence {
                    Some(presence) => {
                        self.handle_presence(presence);
                    },
                    None => {},
                }
                None
            },
            Action::Error => {
                let ev = self.update_state(ChannelState::Failed, msg.error);
                Some(ev)
            },
            _ => None,
        }
    }

    /// Queues incoming messages in order, dropping the older half of the
    /// queue whenever it grows past its limit; any message marks a backlog.
    pub fn handle_messages(&mut self, messages: Vec<Message>)
        ensures
            final(self).spec_queue() == queued(old(self).spec_queue(), messages@),
            final(self).spec_info() == (ChannelStateInfo {
                has_backlog: old(self).spec_info().has_backlog || messages@.len() > 0,
                ..old(self).spec_info()
            }),
            unchanged_but_queue(*old(self), *final(self)),
    {
        proof {
            use_type_invariant(&*self);
        }
        let ghost q0 = self.message_queue@;
        let ghost all = messages@;
        let mut queue: Vec<Message> = Vec::new();
        std::mem::swap(&mut queue, &mut self.message_queue);
        let n: usize = messages.len();
        let mut rest = messages;
        let mut i: usize = 0;
        while rest.len() > 0
            invariant
                all.len() == n,
                0 <= i <= all.len(),
                rest@ == all.subrange(i as int, all.len() as int),
                queue@ == queued(q0, all.take(i as int)),
                queue@.len() <= QUEUE_LIMIT,
            decreases rest@.len(),
        {
            proof {
                assert(all.take(i + 1).drop_last() =~= all.take(i as int));
                assert(all.take(i + 1).last() == all[i as int]);
            }
            let m = rest.remove(0);
            queue.push(m);
            if queue.len() > QUEUE_LIMIT {
                queue = queue.split_off(500);
            }
            i = i + 1;
            proof {
                assert(rest@ =~= all.subrange(i as int, all.len() as int));
            }
        }
        proof {
            assert(all.take(all.len() as int) =~= all);
        }
        self.message_queue = queue;
        if i > 0 {
            self.state_info.has_backlog = true;
        }
    }

    /// Applies presence messages in order to the members present: entering
    /// or present members are recorded as present, leaving or absent ones
    /// removed, and an update changes the data of a member already there.
    /// Messages without a client id are ignored.
    pub fn handle_presence(&mut self, presence: Vec<PresenceMessage>)
        ensures
            final(self).spec_presence() == presence_after(old(self).spec_presence(), presence@),
            final(self).spec_info() == old(self).spec_info(),
            final(self).spec_queue() == old(self).spec_queue(),
            final(self).spec_state() == old(self).spec_state(),
            final(self).spec_name() == old(self).spec_name(),
            final(self).spec_msg_serial() == old(self).spec_msg_serial(),
            final(self).spec_attach_serial() == old(self).spec_attach_serial(),
    {
        let ghost all = presence@;
        let ghost p0 = self.spec_presence();
        let n: usize = presence.len();
        let mut rest = presence;
        let mut i: usize = 0;
        while rest.len() > 0
            invariant
                all.len() == n,
                0 <= i <= all.len(),
                rest@ == all.subrange(i as int, all.len() as int),
                self.spec_presence() == presence_after(p0, all.take(i as int)),
                self.spec_info() == old(self).spec_info(),
                self.spec_queue() == old(self).spec_queue(),
                self.spec_state() == old(self).spec_state(),
                self.spec_name() == old(self).spec_name(),
                self.spec_msg_serial() == old(self).spec_msg_serial(),
                self.spec_attach_serial() == old(self).spec_attach_serial(),
            decreases rest@.len(),
        {
            proof {
                assert(all.take(i + 1).drop_last() =~= all.take(i as int));
                assert(all.take(i + 1).last() == all[i as int]);
            }
            let p = rest.remove(0);
            self.apply_presence(p);
            i = i + 1;
            proof {
                assert(rest@ =~= all.subrange(i as int, all.len() as int));
            }
        }
        proof {
            assert(all.take(all.len() as int) =~= all);
        }
    }

    fn apply_presence(&mut self, p: PresenceMessage)
        ensures
            final(self).spec_presence() == presence_step(old(self).spec_presence(), p),
            final(self).spec_info() == old(self).spec_info(),
            final(self).spec_queue() == old(self).spec_queue(),
            final(self).spec_state() == old(self).spec_state(),
            final(self).spec_name() == old(self).spec_name(),
            final(self).spec_msg_serial() == old(self).spec_msg_serial(),
            final(self).spec_attach_serial() == old(self).spec_attach_serial(),
    {
        proof {
            use_type_invariant(&*self);
        }
        let ghost m0 = self.presence_map@;
        let client_id = match p.client_id {
            Some(c) => c,
            None => {
                return;
            },
        };
        let mut map: StringMap<PresenceMember> = StringMap::new();
        std::mem::swap(&mut map, &mut self.presence_map);
        match p.action {
            WirePresenceAction::Enter | WirePresenceAction::Present => {
                let connection_id = match p.connection_id {
                    Some(c) => c,
                    None => String::new(),
                };
                let key = client_id.clone();
                let member = PresenceMember {
                    client_id,
                    connection_id,
                    data: p.data,
                    action: PresenceAction::Present,
                };
                let _ = map.insert(key, member);
                self.presence_map = map;
                proof {
                    assert(self.spec_presence() =~= presence_step(m0.map_values(|v: PresenceMember| member_view(v)), p));
                }
            },
            WirePresenceAction::Leave | WirePresenceAction::Absent => {
                let _ = map.remove(client_id.as_str());
                self.presence_map = map;
                proof {
                    assert(self.spec_presence() =~= presence_step(m0.map_values(|v: PresenceMember| member_view(v)), p));
                }
            },
            WirePresenceAction::Update => {
                match map.remove(client_id.as_str()) {
                    Some(member) => {
                        let updated = PresenceMember { data: p.data, action: PresenceAction::Update, ..member };
                        let _ = map.insert(client_id, updated);
                    },
                    None => {},
                }
                self.presence_map = map;
                proof {
                    assert(self.spec_presence() =~= presence_step(m0.map_values(|v: PresenceMember| member_view(v)), p));
                }
            },
        }
    }
}

/// Nothing of the channel but its state and state information changed.
pub open spec fn unchanged_but_state(c0: Channel, c1: Channel) -> bool {
    &&& c1.spec_name() == c0.spec_name()
    &&& c1.spec_options() == c0.spec_options()
    &&& c1.spec_queue() == c0.spec_queue()
    &&& c1.spec_presence() == c0.spec_presence()
    &&& c1.spec_msg_serial() == c0.spec_msg_serial()
    &&& c1.spec_attach_serial() == c0.spec_attach_serial()
}

/// Nothing of the channel but its queue and state information changed.
pub open spec fn unchanged_but_queue(c0: Channel, c1: Channel) -> bool {
    &&& c1.spec_name() == c0.spec_name()
    &&& c1.spec_state() == c0.spec_state()
    &&& c1.spec_options() == c0.spec_options()
    &&& c1.spec_presence() == c0.spec_presence()
    &&& c1.spec_msg_serial() == c0.spec_msg_serial()
    &&& c1.spec_attach_serial() == c0.spec_attach_serial()
}

/// The queue after receiving `m`: older half dropped past the limit.
pub open spec fn push_bounded(q: Seq<Message>, m: Message) -> Seq<Message> {
    let q2 = q.push(m);
    if q2.len() > QUEUE_LIMIT {
        q2.subrange(500, q2.len() as int)
    } else {
        q2
    }
}

/// The queue after receiving `ms` in order.
pub open spec fn queued(q: Seq<Message>, ms: Seq<Message>) -> Seq<Message>
    decreases ms.len(),
{
    if ms.len() == 0 {
        q
    } else {
        push_bounded(queued(q, ms.drop_last()), ms.last())
    }
}

/// The members present after presence message `p`.
pub open spec fn presence_step(m: Map<Seq<char>, MemberView>, p: PresenceMessage) -> Map<Seq<char>, MemberView> {
    match p.client_id {
        None => m,
        Some(c) => match p.action {
            WirePresenceAction::Enter | WirePresenceAction::Present => {
                let conn = match p.connection_id {
                    Some(x) => x@,
                    None => Seq::<char>::empty(),
                };
                m.insert(c@, (c@, conn, p.data, PresenceAction::Present))
            },
            WirePresenceAction::Leave | WirePresenceAction::Absent => m.remove(c@),
            WirePresenceAction::Update => if m.dom().contains(c@) {
                m.insert(c@, (m[c@].0, m[c@].1, p.data, PresenceAction::Update))
            } else {
                m
            },
        },
    }
}

/// The members present after presence messages `ps`, in order.
pub open spec fn presence_after(m: Map<Seq<char>, MemberView>, ps: Seq<PresenceMessage>) -> Map<Seq<char>, MemberView>
    decreases ps.len(),
{
    if ps.len() == 0 {
        m
    } else {
        presence_step(presence_after(m, ps.drop_last()), ps.last())
    }
}

/// An UPDATE presence message for a client that is present replaces that
/// member's data with the data the message carries and marks it updated,
/// keeping its client and connection; the other members stay as they are.
/// This holds after any presence messages that came before it.
pub proof fn law_update_replaces_member_data(
    m: Map<Seq<char>, MemberView>,
    before: Seq<PresenceMessage>,
    p: PresenceMessage,
)
    requires
        p.action == WirePresenceAction::Update,
        p.client_id is Some,
        presence_after(m, before).dom().contains(p.client_id.unwrap()@),
    ensures
        ({
            let c = p.client_id.unwrap()@;
            let m0 = presence_after(m, before);
            let m1 = presence_after(m, before.push(p));
            &&& m1.dom() == m0.dom()
            &&& m1[c].2 == p.data
            &&& m1[c].3 == PresenceAction::Update
            &&& m1[c].0 == m0[c].0
            &&& m1[c].1 == m0[c].1
            &&& forall|k: Seq<char>| k != c && #[trigger] m0.dom().contains(k) ==> m1[k] == m0[k]
        }),
{
    assert(before.push(p).drop_last() =~= before);
    assert(before.push(p).last() == p);
    let c = p.client_id.unwrap()@;
    let m0 = presence_after(m, before);
    assert(presence_after(m, before.push(p)).dom() =~= m0.dom());
}

/// A channel whose modes are exactly one mode attaches with that mode's
/// protocol flag: PRESENCE 1, PUBLISH 2, SUBSCRIBE 4, PRESENCE_SUBSCRIBE 8;
/// `History` sets no flag, so none are sent.
pub proof fn law_single_mode_attach_flags(o: ChannelOptions, v: Vec<ChannelMode>)
    requires
        o.modes == Some(v),
        v@.len() == 1,
    ensures
        spec_attach_flags(o) == match v@[0] {
            ChannelMode::Presence => Some(1u32),
            ChannelMode::Publish => Some(2u32),
            ChannelMode::Subscribe => Some(4u32),
            ChannelMode::PresenceSubscribe => Some(8u32),
            ChannelMode::History => None::<u32>,
        },
{
    let ms = v@;
    assert(ms.drop_last() =~= Seq::<ChannelMode>::empty());
    assert(modes_flags(ms.drop_last()) == 0);
    assert(ms.last() == ms[0]);
    assert(modes_flags(ms) == 0u32 | mode_flag(ms[0]));
    assert(0u32 | 1u32 == 1u32 && 0u32 | 2u32 == 2u32 && 0u32 | 4u32 == 4u32 && 0u32 | 8u32 == 8u32
        && 0u32 | 0u32 == 0u32) by (bit_vector);
}

/// Every mode in a channel's modes sets its own protocol flag bit in the
/// attach flags (PRESENCE 1, PUBLISH 2, SUBSCRIBE 4, PRESENCE_SUBSCRIBE 8),
/// whatever the other modes are.
pub proof fn law_attach_flags_carry_each_mode(ms: Seq<ChannelMode>, i: int)
    requires
        0 <= i < ms.len(),
    ensures
        ({
            let bit: u32 = match ms[i] {
                ChannelMode::Presence => 1u32,
                ChannelMode::Publish => 2u32,
                ChannelMode::Subscribe => 4u32,
                ChannelMode::PresenceSubscribe => 8u32,
                ChannelMode::History => 0u32,
            };
            modes_flags(ms) & bit == bit
        }),
    decreases ms.len(),
{
    let bit: u32 = match ms[i] {
        ChannelMode::Presence => 1u32,
        ChannelMode::Publish => 2u32,
        ChannelMode::Subscribe => 4u32,
        ChannelMode::PresenceSubscribe => 8u32,
        ChannelMode::History => 0u32,
    };
    let front = ms.drop_last();
    let f = modes_flags(front);
    let l = mode_flag(ms.last());
    if i == ms.len() - 1 {
        assert(l == bit);
        assert((f | l) & l == l) by (bit_vector);
    } else {
        law_attach_flags_carry_each_mode(front, i);
        assert(front[i] == ms[i]);
        assert(f & bit == bit);
        assert(f & bit == bit ==> (f | l) & bit == bit) by (bit_vector);
    }
}

/// A channel handling a PRESENCE protocol message that carries one UPDATE
/// for a present client records the data of that UPDATE for the client.
pub proof fn law_presence_update_message_sets_data(
    c0: Channel,
    c1: Channel,
    msg: ProtocolMessage,
    r: Option<StateChangeEvent>,
    ps: Vec<PresenceMessage>,
)
    requires
        protocol_step(c0, c1, msg, r),
        msg.action == Action::Presence,
        msg.presence == Some(ps),
        ps@.len() == 1,
        ps@[0].action == WirePresenceAction::Update,
        ps@[0].client_id is Some,
        c0.spec_presence().dom().contains(ps@[0].client_id.unwrap()@),
    ensures
        c1.spec_presence().dom().contains(ps@[0].client_id.unwrap()@),
        c1.spec_presence()[ps@[0].client_id.unwrap()@].2 == ps@[0].data,
        c1.spec_presence()[ps@[0].client_id.unwrap()@].3 == PresenceAction::Update,
{
    let none = Seq::<PresenceMessage>::empty();
    assert(none.push(ps@[0]) =~= ps@);
    assert(presence_after(c0.spec_presence(), none) == c0.spec_presence());
    law_update_replaces_member_data(c0.spec_presence(), none, ps@[0]);
}

/// An ENTER (or PRESENT) presence message records its client as present,
/// with the connection and the data the message carries, whether or not it
/// was present before; the other members stay as they are.
pub proof fn law_enter_records_member(m: Map<Seq<char>, MemberView>, before: Seq<PresenceMessage>, p: PresenceMessage)
    requires
        p.action == WirePresenceAction::Enter || p.action == WirePresenceAction::Present,
        p.client_id is Some,
    ensures
        ({
            let c = p.client_id.unwrap()@;
            let m0 = presence_after(m, before);
            let m1 = presence_after(m, before.push(p));
            &&& m1.dom().contains(c)
            &&& m1[c].0 == c
            &&& m1[c].1 == (match p.connection_id {
                Some(x) => x@,
                None => Seq::<char>::empty(),
            })
            &&& m1[c].2 == p.data
            &&& m1[c].3 == PresenceAction::Present
            &&& forall|k: Seq<char>| k != c && #[trigger] m0.dom().contains(k) ==> m1.dom().contains(k) && m1[k]
                == m0[k]
        }),
{
    assert(before.push(p).drop_last() =~= before);
    assert(before.push(p).last() == p);
}

/// A LEAVE (or ABSENT) presence message removes its client; the other
/// members stay as they are.
pub proof fn law_leave_removes_member(m: Map<Seq<char>, MemberView>, before: Seq<PresenceMessage>, p: PresenceMessage)
    requires
        p.action == WirePresenceAction::Leave || p.action == WirePresenceAction::Absent,
        p.client_id is Some,
    ensures
        ({
            let c = p.client_id.unwrap()@;
            let m0 = presence_after(m, before);
            let m1 = presence_after(m, before.push(p));
            &&& !m1.dom().contains(c)
            &&& forall|k: Seq<char>| k != c && #[trigger] m0.dom().contains(k) ==> m1.dom().contains(k) && m1[k]
                == m0[k]
        }),
{
    assert(before.push(p).drop_last() =~= before);
    assert(before.push(p).last() == p);
}

/// A channel's queue of received messages never grows past its limit,
/// however many messages arrive.
pub proof fn law_queue_stays_bounded(q: Seq<Message>, ms: Seq<Message>)
    requires
        q.len() <= QUEUE_LIMIT,
    ensures
        queued(q, ms).len() <= QUEUE_LIMIT,
    decreases ms.len(),
{
    if ms.len() > 0 {
        law_queue_stays_bounded(q, ms.drop_last());
    }
}

/// A client that enters is present, with the data it entered with, and
/// absent again once it leaves.
pub proof fn law_enter_then_leave(
    m: Map<Seq<char>, MemberView>,
    enter: PresenceMessage,
    leave: PresenceMessage,
    client: Seq<char>,
)
    requires
        enter.action == WirePresenceAction::Enter,
        leave.action == WirePresenceAction::Leave,
        opt_text(enter.client_id) == Some(client),
        opt_text(leave.client_id) == Some(client),
    ensures
        presence_after(m, seq![enter]).contains_key(client),
        presence_after(m, seq![enter])[client].2 == enter.data,
        presence_after(m, seq![enter])[client].3 == PresenceAction::Present,
        !presence_after(m, seq![enter, leave]).contains_key(client),
{
    assert(seq![enter].drop_last() =~= Seq::<PresenceMessage>::empty());
    assert(seq![enter, leave].drop_last() =~= seq![enter]);
}

/// What handling protocol message `msg` does to channel `c0`, leaving
/// `c1` and the state change `r`: ATTACHED, DETACHED and ERROR move the
/// channel, MESSAGE queues the messages, PRESENCE updates the members
/// present, anything else changes nothing.
pub open spec fn protocol_step(c0: Channel, c1: Channel, msg: ProtocolMessage, r: Option<StateChangeEvent>) -> bool {
    &&& c1.spec_name() == c0.spec_name()
    &&& match msg.action {
        Action::Attached => {
            &&& r matches Some(ev) && ev.to == ChannelState::Attached && ev.from == c0.spec_state()
            &&& c1.spec_state() == ChannelState::Attached
            &&& c1.spec_info().reason is None
            &&& c1.spec_attach_serial() == match msg.channel_serial {
                Some(s) => Some(s@),
                None => c0.spec_attach_serial(),
            }
            &&& match msg.flags {
                Some(f) => c1.spec_info().has_presence == (f & flags::HAS_PRESENCE != 0)
                    && c1.spec_info().has_backlog == (f & flags::HAS_BACKLOG != 0)
                    && opt_text(c1.spec_info().resume) == opt_text(msg.channel_serial),
                None => c1.spec_info().has_presence == c0.spec_info().has_presence
                    && c1.spec_info().has_backlog == c0.spec_info().has_backlog
                    && c1.spec_info().resume == c0.spec_info().resume,
            }
            &&& c1.spec_queue() == c0.spec_queue()
            &&& c1.spec_presence() == c0.spec_presence()
        },
        Action::Detached => {
            &&& r matches Some(ev) && ev.to == ChannelState::Detached && ev.from == c0.spec_state()
                && ev.reason == msg.error
            &&& c1.spec_state() == ChannelState::Detached
            &&& c1.spec_info().reason == msg.error
            &&& !c1.spec_info().has_presence && !c1.spec_info().has_backlog
            &&& c1.spec_info().resume is None
            &&& c1.spec_queue() == c0.spec_queue()
            &&& c1.spec_presence() == c0.spec_presence()
        },
        Action::Error => {
            &&& r matches Some(ev) && ev.to == ChannelState::Failed && ev.from == c0.spec_state()
                && ev.reason == msg.error
            &&& c1.spec_state() == ChannelState::Failed
            &&& c1.spec_info().reason == msg.error
            &&& c1.spec_queue() == c0.spec_queue()
            &&& c1.spec_presence() == c0.spec_presence()
        },
        Action::Message => {
            &&& r is None
            &&& c1.spec_state() == c0.spec_state()
            &&& c1.spec_presence() == c0.spec_presence()
            &&& match msg.messages {
                Some(ms) => c1.spec_queue() == queued(c0.spec_queue(), ms@)
                    && c1.spec_info().has_backlog == (c0.spec_info().has_backlog
                    || ms@.len() > 0),
                None => c1.spec_queue() == c0.spec_queue(),
            }
        },
        Action::Presence => {
            &&& r is None
            &&& c1.spec_state() == c0.spec_state()
            &&& c1.spec_queue() == c0.spec_queue()
            &&& match msg.presence {
                Some(ps) => c1.spec_presence() == presence_after(c0.spec_presence(), ps@),
                None => c1.spec_presence() == c0.spec_presence(),
            }
        },
        _ => {
            &&& r is None
            &&& c1.spec_state() == c0.spec_state()
            &&& c1.spec_queue() == c0.spec_queue()
            &&& c1.spec_presence() == c0.spec_presence()
        },
    }
}

/// `m` is the single message a publish builds.
pub open spec fn published_as(m: Message, name: Seq<char>, data: Seq<char>, id: Seq<char>, timestamp: i64) -> bool {
    &&& opt_text(m.name) == Some(name)
    &&& m.data matches Some(JsonValue::String(d)) && d@ == data
    &&& opt_text(m.id) == Some(id)
    &&& m.timestamp == Some(timestamp)
    &&& m.client_id is None && m.connection_id is None && m.connection_key is None
    &&& m.encoding is None && m.extras is None
}

/// What an attach plan does: `c0` the channel before, `c1` after.
pub open spec fn self_attach_plan(c0: Channel, c1: Channel, step: AttachStep) -> bool {
    &&& unchanged_but_state(c0, c1)
    &&& if c0.spec_name().len() == 0 {
        &&& step matches AttachStep::InvalidName(e) && e.code == 40003
            && opt_text(e.message) == Some("Channel name cannot be empty"@)
        &&& c1.spec_state() == ChannelState::Failed
    } else {
        match c0.spec_state() {
            ChannelState::Attached => step is Done && c1.spec_state() == c0.spec_state(),
            ChannelState::Attaching => step is Wait && c1.spec_state() == c0.spec_state(),
            _ => {
                &&& step matches AttachStep::Send(m) && m.action == Action::Attach
                    && opt_text(m.channel) == Some(c0.spec_name())
                    && m.flags == spec_attach_flags(c0.spec_options())
                &&& c1.spec_state() == ChannelState::Attaching
            },
        }
    }
}

/// What publishing does to channel `c0`, leaving `c1`: one more message
/// counted, and the MESSAGE `m` carrying the event name, the text, the id
/// `msg:<channel>:<unique>` and the timestamp.
pub open spec fn publish_step(
    c0: Channel,
    c1: Channel,
    m: ProtocolMessage,
    name: Seq<char>,
    data: Seq<char>,
    unique: Seq<char>,
    timestamp: i64,
) -> bool {
    &&& c1.spec_msg_serial() == c0.spec_msg_serial() + 1
    &&& c1.spec_name() == c0.spec_name()
    &&& c1.spec_state() == c0.spec_state()
    &&& c1.spec_info() == c0.spec_info()
    &&& c1.spec_queue() == c0.spec_queue()
    &&& c1.spec_presence() == c0.spec_presence()
    &&& m.action == Action::Message
    &&& opt_text(m.channel) == Some(c0.spec_name())
    &&& m.messages matches Some(ms) && ms@.len() == 1 && published_as(ms@[0], name, data,
        "msg:"@ + c0.spec_name() + ":"@ + unique, timestamp)
}

/// What a failed attach attempt does: `c0` the channel before, `c1`
/// after, `attempt` the number of the attempt that failed (counting from
/// 1) and `last_error` its error.
pub open spec fn attach_failure_step(
    c0: Channel,
    c1: Channel,
    attempt: u32,
    last_error: AblyError,
    next: AttachNext,
) -> bool {
    &&& unchanged_but_state(c0, c1)
    &&& attempt < MAX_ATTEMPTS ==> {
        &&& next matches AttachNext::Retry { delay_ms, message } && delay_ms == 500 * attempt
            && message.action == Action::Attach && opt_text(message.channel) == Some(c0.spec_name())
            && message.flags == spec_attach_flags(c0.spec_options())
        &&& c1.spec_state() == ChannelState::Attaching
        &&& c1.spec_info().reason is None
    }
    &&& attempt >= MAX_ATTEMPTS ==> {
        &&& next matches AttachNext::GiveUp(e) && e == last_error
        &&& c1.spec_state() == ChannelState::Failed
        &&& is_attach_failure_reason(c1.spec_info().reason, Some(last_error))
    }
}

/// The subscriber keys a message with event name `name` goes to.
pub fn delivery_keys(name: &str) -> (keys: Vec<String>)
    ensures
        keys@.len() == spec_delivery_keys(name@).len(),
        forall|i: int| 0 <= i < keys@.len() ==> (#[trigger] keys@[i])@ == spec_delivery_keys(name@)[i],
{
    let mut keys: Vec<String> = Vec::new();
    keys.push(owned(name));
    let wildcard = owned("*");
    let own = owned(name);
    if !(own == wildcard) {
        keys.push(wildcard);
    }
    keys
}

/// The wait before attempt `attempt + 1` of an attach, in milliseconds:
/// none after the last attempt.
pub fn attach_retry_delay_ms(attempt: u32) -> (d: Option<u64>)
    ensures
        d == (if attempt < MAX_ATTEMPTS { Some((500 * attempt) as u64) } else { None::<u64> }),
{
    if attempt < MAX_ATTEMPTS {
        Some(500 * attempt as u64)
    } else {
        None
    }
}

/// The wait before attempt `attempt + 1` of a publish, in milliseconds:
/// none after the last attempt.
pub fn publish_retry_delay_ms(attempt: u32) -> (d: Option<u64>)
    ensures
        d == (if attempt < MAX_ATTEMPTS { Some((200 * attempt) as u64) } else { None::<u64> }),
{
    if attempt < MAX_ATTEMPTS {
        Some(200 * attempt as u64)
    } else {
        None
    }
}

/// The next wait between looks at a channel's state: doubled, at most a
/// second.
pub fn next_wait_delay_ms(delay_ms: u64) -> (d: u64)
    ensures
        d == (if 2 * delay_ms < 1000 { 2 * delay_ms } else { 1000 }),
{
    if delay_ms >= 500 {
        1000
    } else {
        2 * delay_ms
    }
}

/// Whether `r` is the reason a channel fails with after its last attach
/// attempt failed with `last_error`: the code and message of an API error,
/// else none.
pub open spec fn is_attach_failure_reason(r: Option<ErrorInfo>, last_error: Option<AblyError>) -> bool {
    match last_error {
        Some(AblyError::Api { code, message }) => r matches Some(e) && e.code == code && opt_text(e.message)
            == Some(message@) && e.status_code is None && e.href is None && e.cause is None,
        _ => r is None,
    }
}

/// The reason a channel fails with after its last attach attempt failed
/// with `last_error`: the code and message of an API error, else none.
pub fn attach_failure_reason(last_error: &Option<AblyError>) -> (r: Option<ErrorInfo>)
    ensures
        is_attach_failure_reason(r, *last_error),
{
    match last_error {
        Some(AblyError::Api { code, message }) => Some(ErrorInfo {
            code: *code,
            message: Some(message.clone()),
            status_code: None,
            href: None,
            cause: None,
        }),
        _ => None,
    }
}

/// The members of channels, by name.
#[derive(Debug)]
pub struct ChannelManager {
    channels: StringMap<Channel>,
}

impl ChannelManager {
    #[verifier::type_invariant]
    spec fn named_by_key(self) -> bool {
        forall|k: Seq<char>| #[trigger] self.channels@.dom().contains(k) ==> self.channels@[k].spec_name() == k
    }

    /// The channels, by name.
    pub closed spec fn spec_channels(&self) -> Map<Seq<char>, Channel> {
        self.channels@
    }

    /// A manager with no channel.
    pub fn new() -> (m: ChannelManager)
        ensures
            m.spec_channels() == Map::<Seq<char>, Channel>::empty(),
    {
        ChannelManager { channels: StringMap::new() }
    }

    /// The channel named `name`, created with default options when there
    /// is none yet.
    pub fn get_or_create(&mut self, name: &str) -> (c: &Channel)
        ensures
            old(self).spec_channels().dom().contains(name@) ==> final(self).spec_channels() == old(self).spec_channels(),
            !old(self).spec_channels().dom().contains(name@) ==> final(self).spec_channels().dom()
                == old(self).spec_channels().dom().insert(name@),
            final(self).spec_channels().dom().contains(name@),
            *c == final(self).spec_channels()[name@],
            c.spec_name() == name@,
    {
        self.get_or_create_with_options(name, ChannelOptions::default())
    }

    /// The channel named `name`, created with `options` when there is none
    /// yet; an existing channel keeps its options.
    pub fn get_or_create_with_options(&mut self, name: &str, options: ChannelOptions) -> (c: &Channel)
        ensures
            old(self).spec_channels().dom().contains(name@) ==> final(self).spec_channels() == old(self).spec_channels(),
            !old(self).spec_channels().dom().contains(name@) ==> final(self).spec_channels().dom()
                == old(self).spec_channels().dom().insert(name@),
            !old(self).spec_channels().dom().contains(name@) ==> final(self).spec_channels()[name@].spec_options() == options,
            final(self).spec_channels().dom().contains(name@),
            *c == final(self).spec_channels()[name@],
            c.spec_name() == name@,
    {
        proof {
            use_type_invariant(&*self);
        }
        if !self.channels.contains_key(name) {
            let channel = Channel::with_options(owned(name), options);
            let mut channels: StringMap<Channel> = StringMap::new();
            std::mem::swap(&mut channels, &mut self.channels);
            let _ = channels.insert(owned(name), channel);
            self.channels = channels;
        }
        match self.channels.get(name) {
            Some(c) => c,
            None => {
                proof {
                    assert(false);
                }
                self.channels.value_at(0)
            },
        }
    }

    /// The first step of attaching the channel named `name`, if the
    /// manager has it; the other channels stay as they are.
    pub fn attach_plan(&mut self, name: &str) -> (r: Option<AttachStep>)
        ensures
            final(self).spec_channels().dom() == old(self).spec_channels().dom(),
            forall|k: Seq<char>| k != name@ && #[trigger] old(self).spec_channels().dom().contains(k)
                ==> final(self).spec_channels()[k] == old(self).spec_channels()[k],
            if old(self).spec_channels().dom().contains(name@) {
                r matches Some(step) && self_attach_plan(
                    old(self).spec_channels()[name@],
                    final(self).spec_channels()[name@],
                    step,
                )
            } else {
                r is None && final(self).spec_channels() == old(self).spec_channels()
            },
    {
        proof {
            use_type_invariant(&*self);
        }
        let mut channels: StringMap<Channel> = StringMap::new();
        std::mem::swap(&mut channels, &mut self.channels);
        let ghost before = channels@;
        let r = match channels.remove(name) {
            Some(mut channel) => {
                let step = channel.attach_plan();
                let _ = channels.insert(owned(name), channel);
                Some(step)
            },
            None => None,
        };
        proof {
            assert(channels@.dom() =~= before.dom());
        }
        self.channels = channels;
        r
    }

    /// Builds the MESSAGE publishing `data` under event name `name` on the
    /// channel named `channel`, counting it there; `None` when the manager
    /// has no such channel or its message serial is at its maximum. The
    /// other channels stay as they are.
    pub fn publish_message(
        &mut self,
        channel: &str,
        name: &str,
        data: String,
        unique: &str,
        timestamp: i64,
    ) -> (r: Option<ProtocolMessage>)
        ensures
            final(self).spec_channels().dom() == old(self).spec_channels().dom(),
            forall|k: Seq<char>| k != channel@ && #[trigger] old(self).spec_channels().dom().contains(k)
                ==> final(self).spec_channels()[k] == old(self).spec_channels()[k],
            if old(self).spec_channels().dom().contains(channel@) && old(self).spec_channels()[channel@].spec_msg_serial()
                < i64::MAX {
                r matches Some(m) && publish_step(
                    old(self).spec_channels()[channel@],
                    final(self).spec_channels()[channel@],
                    m,
                    name@,
                    data@,
                    unique@,
                    timestamp,
                )
            } else {
                r is None && final(self).spec_channels() == old(self).spec_channels()
            },
    {
        proof {
            use_type_invariant(&*self);
        }
        let mut channels: StringMap<Channel> = StringMap::new();
        std::mem::swap(&mut channels, &mut self.channels);
        let ghost before = channels@;
        let r = match channels.remove(channel) {
            Some(mut c) => {
                if c.get_msg_serial() < i64::MAX {
                    let m = c.publish_message(name, data, unique, timestamp);
                    let _ = channels.insert(owned(channel), c);
                    Some(m)
                } else {
                    let _ = channels.insert(owned(channel), c);
                    None
                }
            },
            None => None,
        };
        proof {
            assert(channels@.dom() =~= before.dom());
            if !(before.dom().contains(channel@) && before[channel@].spec_msg_serial() < i64::MAX) {
                assert(channels@ =~= before);
            }
        }
        self.channels = channels;
        r
    }

    /// The first step of detaching the channel named `name`, if the
    /// manager has it; the other channels stay as they are.
    pub fn detach_plan(&mut self, name: &str) -> (r: Option<DetachStep>)
        ensures
            final(self).spec_channels().dom() == old(self).spec_channels().dom(),
            forall|k: Seq<char>| k != name@ && #[trigger] old(self).spec_channels().dom().contains(k)
                ==> final(self).spec_channels()[k] == old(self).spec_channels()[k],
            if old(self).spec_channels().dom().contains(name@) {
                let c0 = old(self).spec_channels()[name@];
                let c1 = final(self).spec_channels()[name@];
                &&& unchanged_but_state(c0, c1)
                &&& r matches Some(step) && match c0.spec_state() {
                    ChannelState::Detached | ChannelState::Initialized => step == DetachStep::Done
                        && c1.spec_state() == c0.spec_state(),
                    ChannelState::Detaching => step == DetachStep::Wait && c1.spec_state() == c0.spec_state(),
                    ChannelState::Failed => step == DetachStep::MarkDetached && c1.spec_state()
                        == ChannelState::Detached,
                    _ => step == DetachStep::Send && c1.spec_state() == ChannelState::Detaching,
                }
            } else {
                r is None && final(self).spec_channels() == old(self).spec_channels()
            },
    {
        proof {
            use_type_invariant(&*self);
        }
        let mut channels: StringMap<Channel> = StringMap::new();
        std::mem::swap(&mut channels, &mut self.channels);
        let ghost before = channels@;
        let r = match channels.remove(name) {
            Some(mut channel) => {
                let step = channel.detach_plan();
                let _ = channels.insert(owned(name), channel);
                Some(step)
            },
            None => None,
        };
        proof {
            assert(channels@.dom() =~= before.dom());
        }
        self.channels = channels;
        r
    }

    /// What follows the failure of attach attempt number `attempt` of the
    /// channel named `name`, if the manager has it; the other channels stay
    /// as they are.
    pub fn attach_attempt_failed(&mut self, name: &str, attempt: u32, last_error: AblyError) -> (r: Option<AttachNext>)
        ensures
            final(self).spec_channels().dom() == old(self).spec_channels().dom(),
            forall|k: Seq<char>| k != name@ && #[trigger] old(self).spec_channels().dom().contains(k)
                ==> final(self).spec_channels()[k] == old(self).spec_channels()[k],
            if old(self).spec_channels().dom().contains(name@) {
                r matches Some(next) && attach_failure_step(
                    old(self).spec_channels()[name@],
                    final(self).spec_channels()[name@],
                    attempt,
                    last_error,
                    next,
                )
            } else {
                r is None && final(self).spec_channels() == old(self).spec_channels()
            },
    {
        proof {
            use_type_invariant(&*self);
        }
        let mut channels: StringMap<Channel> = StringMap::new();
        std::mem::swap(&mut channels, &mut self.channels);
        let ghost before = channels@;
        let r = match channels.remove(name) {
            Some(mut channel) => {
                let next = channel.attach_attempt_failed(attempt, last_error);
                let _ = channels.insert(owned(name), channel);
                Some(next)
            },
            None => None,
        };
        proof {
            assert(channels@.dom() =~= before.dom());
        }
        self.channels = channels;
        r
    }

    /// Sets the serial the channel named `name` resumes from, when one is
    /// given and the manager has the channel; the other channels stay as
    /// they are.
    pub fn set_resume_serial(&mut self, name: &str, serial: Option<String>)
        ensures
            final(self).spec_channels().dom() == old(self).spec_channels().dom(),
            forall|k: Seq<char>| k != name@ && #[trigger] old(self).spec_channels().dom().contains(k)
                ==> final(self).spec_channels()[k] == old(self).spec_channels()[k],
            old(self).spec_channels().dom().contains(name@) ==> {
                let c0 = old(self).spec_channels()[name@];
                let c1 = final(self).spec_channels()[name@];
                &&& c1.spec_attach_serial() == match serial {
                    Some(s) => Some(s@),
                    None => c0.spec_attach_serial(),
                }
                &&& c1.spec_name() == c0.spec_name()
                &&& c1.spec_state() == c0.spec_state()
                &&& c1.spec_info() == c0.spec_info()
                &&& c1.spec_queue() == c0.spec_queue()
                &&& c1.spec_presence() == c0.spec_presence()
            },
            !old(self).spec_channels().dom().contains(name@) ==> final(self).spec_channels()
                == old(self).spec_channels(),
    {
        proof {
            use_type_invariant(&*self);
        }
        let mut channels: StringMap<Channel> = StringMap::new();
        std::mem::swap(&mut channels, &mut self.channels);
        let ghost before = channels@;
        match channels.remove(name) {
            Some(mut channel) => {
                channel.set_resume_serial(serial);
                let _ = channels.insert(owned(name), channel);
            },
            None => {},
        }
        proof {
            assert(channels@.dom() =~= before.dom());
            if !before.dom().contains(name@) {
                assert(channels@ =~= before);
            }
        }
        self.channels = channels;
    }

    /// Hands a protocol message to the channel it names, if the manager
    /// has it; returns that channel's state change.
    pub fn handle_protocol_message(&mut self, msg: ProtocolMessage) -> (r: Option<StateChangeEvent>)
        ensures
            final(self).spec_channels().dom() == old(self).spec_channels().dom(),
            match msg.channel {
                Some(name) => {
                    &&& forall|k: Seq<char>| k != name@ && #[trigger] old(self).spec_channels().dom().contains(k)
                        ==> final(self).spec_channels()[k] == old(self).spec_channels()[k]
                    &&& if old(self).spec_channels().dom().contains(name@) {
                        protocol_step(old(self).spec_channels()[name@], final(self).spec_channels()[name@], msg, r)
                    } else {
                        final(self).spec_channels() == old(self).spec_channels() && r is None
                    }
                },
                None => final(self).spec_channels() == old(self).spec_channels() && r is None,
            },
    {
        proof {
            use_type_invariant(&*self);
        }
        let name = match &msg.channel {
            Some(n) => n.clone(),
            None => {
                return None;
            },
        };
        let mut channels: StringMap<Channel> = StringMap::new();
        std::mem::swap(&mut channels, &mut self.channels);
        let ghost before = channels@;
        let r = match channels.remove(name.as_str()) {
            Some(mut channel) => {
                let r = channel.handle_protocol_message(msg);
                let _ = channels.insert(name, channel);
                r
            },
            None => None,
        };
        proof {
            assert(channels@.dom() =~= before.dom());
        }
        self.channels = channels;
        r
    }
}

} // verus!
