use ably_core::error::AblyError;
use ably_core::channel::{
    attach_retry_delay_ms, delivery_keys, next_wait_delay_ms, AttachNext, AttachStep, Channel, ChannelManager,
    ChannelMode, ChannelOptions, ChannelState, DetachStep, PublishNext, PublishStep, WaitStep,
};
use ably_core::connection::state_machine::{
    suspend_due, ChannelEvent, ChannelState as MachineChannelState, ChannelStateMachine, ConnectionEvent,
    ConnectionState, ConnectionStateMachine,
};
use ably_core::protocol::json::JsonValue;
use ably_core::protocol::messages::{
    Action, ErrorInfo, Message, PresenceAction, PresenceMessage, ProtocolMessage,
};

fn error_info(code: u16) -> ErrorInfo {
    ErrorInfo { code, message: Some("boom".to_string()), status_code: None, href: None, cause: None }
}

#[test]
fn test_connection_state_transitions() {
    let mut sm = ConnectionStateMachine::new();
    assert_eq!(sm.state(), ConnectionState::Initialized);
    sm.process_event(ConnectionEvent::Connect);
    assert_eq!(sm.state(), ConnectionState::Connecting);
    sm.process_event(ConnectionEvent::Connected("test-id".to_string()));
    assert_eq!(sm.state(), ConnectionState::Connected);
    assert_eq!(sm.connection_id().as_deref(), Some("test-id"));
}

#[test]
fn test_channel_state_transitions() {
    let mut sm = ChannelStateMachine::new("test-channel".to_string());
    assert_eq!(sm.state(), MachineChannelState::Initialized);
    sm.process_event(ChannelEvent::Attach);
    assert_eq!(sm.state(), MachineChannelState::Attaching);
    sm.process_event(ChannelEvent::Attached);
    assert_eq!(sm.state(), MachineChannelState::Attached);
}

#[test]
fn closed_connection_ignores_connect() {
    let mut sm = ConnectionStateMachine::new();
    sm.process_event(ConnectionEvent::Connect);
    sm.process_event(ConnectionEvent::Close);
    assert_eq!(sm.state(), ConnectionState::Closing);
    sm.process_event(ConnectionEvent::Closed);
    assert_eq!(sm.state(), ConnectionState::Closed);
    assert!(sm.process_event(ConnectionEvent::Connect).is_none());
    assert_eq!(sm.state(), ConnectionState::Closed);
}

#[test]
fn fatal_error_fails_connection() {
    let mut sm = ConnectionStateMachine::new();
    sm.process_event(ConnectionEvent::Connect);
    let moved = sm.process_event(ConnectionEvent::Error(error_info(40101)));
    assert_eq!(moved, Some((ConnectionState::Connecting, ConnectionState::Failed)));
    assert_eq!(sm.error().map(|e| e.code), Some(40101));
    assert!(sm.is_fatal_error(&error_info(40000)));
    assert!(!sm.is_fatal_error(&error_info(50000)));
    assert_eq!(sm.history().len(), 2);
}

#[test]
fn suspension_after_many_retries() {
    assert!(!suspend_due(2, false));
    assert!(suspend_due(2, true));
    assert!(!suspend_due(10, false));
    assert!(suspend_due(11, false));
}

#[test]
fn channel_attach_plan_sends_attach_with_flags() {
    let options = ChannelOptions {
        params: None,
        modes: Some(vec![ChannelMode::Publish, ChannelMode::Subscribe]),
        cipher: None,
    };
    let mut channel = Channel::with_options("room".to_string(), options);
    match channel.attach_plan() {
        AttachStep::Send(m) => {
            assert_eq!(m.action, Action::Attach);
            assert_eq!(m.channel.as_deref(), Some("room"));
            assert!(m.flags.is_some());
        }
        other => panic!("unexpected step {:?}", other),
    }
    assert_eq!(channel.state(), ChannelState::Attaching);
    assert!(matches!(channel.attach_plan(), AttachStep::Wait));
}

#[test]
fn empty_channel_name_fails_attach() {
    let mut channel = Channel::new(String::new());
    match channel.attach_plan() {
        AttachStep::InvalidName(e) => assert_eq!(e.code, 40003),
        other => panic!("unexpected step {:?}", other),
    }
    assert_eq!(channel.state(), ChannelState::Failed);
    assert!(channel.check_recoverable().is_ok());
    assert_eq!(channel.detach_plan(), DetachStep::MarkDetached);
    assert_eq!(channel.state(), ChannelState::Detached);
}

#[test]
fn attached_message_moves_channel() {
    let mut channel = Channel::new("room".to_string());
    let _ = channel.attach_plan();
    let mut msg = ProtocolMessage::default();
    msg.action = Action::Attached;
    msg.channel = Some("room".to_string());
    msg.channel_serial = Some("serial-1".to_string());
    let change = channel.handle_protocol_message(msg).unwrap();
    assert_eq!(change.from, ChannelState::Attaching);
    assert_eq!(change.to, ChannelState::Attached);
    assert_eq!(channel.get_attach_serial().as_deref(), Some("serial-1"));
    assert_eq!(channel.wait_step(ChannelState::Attached, false), WaitStep::Reached);
    assert_eq!(channel.wait_step(ChannelState::Detached, true), WaitStep::TimedOut);
    assert!(channel.check_recoverable().is_err());
}

#[test]
fn published_messages_count_serials() {
    let mut channel = Channel::new("room".to_string());
    let m = channel.publish_message("greeting", "hello".to_string(), "1", 42);
    assert_eq!(m.action, Action::Message);
    assert_eq!(channel.get_msg_serial(), 1);
    let ms = m.messages.unwrap();
    assert_eq!(ms[0].id.as_deref(), Some("msg:room:1"));
    assert_eq!(ms[0].name.as_deref(), Some("greeting"));
}

#[test]
fn received_messages_are_queued() {
    let mut channel = Channel::new("room".to_string());
    let mut batch = Vec::new();
    for _ in 0..3 {
        batch.push(Message::empty());
    }
    channel.handle_messages(batch);
    assert_eq!(channel.get_queue_size(), 3);
    assert!(channel.state_info().has_backlog);
}

#[test]
fn queue_drops_older_half_past_its_limit() {
    let mut channel = Channel::new("room".to_string());
    let mut batch = Vec::new();
    for _ in 0..1001 {
        batch.push(Message::empty());
    }
    channel.handle_messages(batch);
    assert_eq!(channel.get_queue_size(), 501);
}

#[test]
fn presence_enter_then_leave() {
    let mut channel = Channel::new("room".to_string());
    let enter = channel.presence_enter_message(Some(JsonValue::String("hi".to_string())));
    assert_eq!(enter.action, Action::Presence);
    assert!(channel.state_info().has_presence);
    let ps = enter.presence.unwrap();
    assert_eq!(ps[0].action, PresenceAction::Enter);
    assert_eq!(ps[0].client_id.as_deref(), Some("rust-client"));
    let leave = channel.presence_leave_message();
    assert_eq!(leave.presence.unwrap()[0].action, PresenceAction::Leave);
    assert!(!channel.state_info().has_presence);
    channel.handle_presence(vec![PresenceMessage {
        id: None,
        action: PresenceAction::Enter,
        client_id: Some("a".to_string()),
        connection_id: Some("c".to_string()),
        data: None,
        encoding: None,
        timestamp: None,
    }]);
}

#[test]
fn retry_delays_and_event_keys() {
    assert_eq!(attach_retry_delay_ms(0), Some(0));
    assert_eq!(attach_retry_delay_ms(2), Some(1000));
    assert_eq!(attach_retry_delay_ms(3), None);
    assert_eq!(next_wait_delay_ms(100), 200);
    assert_eq!(next_wait_delay_ms(800), 1000);
    let keys = delivery_keys("greeting");
    assert_eq!(keys, vec!["greeting".to_string(), "*".to_string()]);
}

#[test]
fn channel_manager_creates_once() {
    let mut manager = ChannelManager::new();
    assert_eq!(manager.get_or_create("a").name(), "a");
    assert_eq!(manager.get_or_create("a").state(), ChannelState::Initialized);
    let mut msg = ProtocolMessage::default();
    msg.action = Action::Error;
    msg.channel = Some("a".to_string());
    msg.error = Some(error_info(50001));
    let change = manager.handle_protocol_message(msg);
    assert!(change.is_some());
    assert_eq!(manager.get_or_create("a").state(), ChannelState::Failed);
}

#[test]
fn manager_plans_attach_and_resume() {
    let mut manager = ChannelManager::new();
    assert!(manager.attach_plan("missing").is_none());
    manager.get_or_create("room");
    manager.set_resume_serial("room", Some("s-9".to_string()));
    assert_eq!(manager.get_or_create("room").get_attach_serial().as_deref(), Some("s-9"));
    match manager.attach_plan("room") {
        Some(AttachStep::Send(m)) => assert_eq!(m.channel.as_deref(), Some("room")),
        other => panic!("unexpected step {:?}", other),
    }
    assert_eq!(manager.get_or_create("room").state(), ChannelState::Attaching);
    manager.set_resume_serial("room", None);
    assert_eq!(manager.get_or_create("room").get_attach_serial().as_deref(), Some("s-9"));
}

#[test]
fn failed_attach_attempts_retry_then_fail_channel() {
    let mut channel = Channel::new("room".to_string());
    let _ = channel.attach_plan();
    match channel.attach_attempt_failed(1, AblyError::timeout("no reply".to_string())) {
        AttachNext::Retry { delay_ms, message } => {
            assert_eq!(delay_ms, 500);
            assert_eq!(message.action, Action::Attach);
            assert_eq!(message.channel.as_deref(), Some("room"));
        }
        other => panic!("unexpected next {:?}", other),
    }
    assert_eq!(channel.state(), ChannelState::Attaching);
    match channel.attach_attempt_failed(2, AblyError::timeout("no reply".to_string())) {
        AttachNext::Retry { delay_ms, .. } => assert_eq!(delay_ms, 1000),
        other => panic!("unexpected next {:?}", other),
    }
    match channel.attach_attempt_failed(3, AblyError::api(40160, "denied".to_string())) {
        AttachNext::GiveUp(AblyError::Api { code, message }) => {
            assert_eq!(code, 40160);
            assert_eq!(message, "denied");
        }
        other => panic!("unexpected next {:?}", other),
    }
    assert_eq!(channel.state(), ChannelState::Failed);
    let reason = channel.state_info().reason.as_ref().unwrap();
    assert_eq!(reason.code, 40160);
    assert_eq!(reason.message.as_deref(), Some("denied"));
}

#[test]
fn last_attach_failure_without_api_error_leaves_no_reason() {
    let mut channel = Channel::new("room".to_string());
    match channel.attach_attempt_failed(3, AblyError::timeout("no reply".to_string())) {
        AttachNext::GiveUp(e) => assert!(matches!(e, AblyError::Network { .. })),
        other => panic!("unexpected next {:?}", other),
    }
    assert_eq!(channel.state(), ChannelState::Failed);
    assert!(channel.state_info().reason.is_none());
}

#[test]
fn publish_attaches_first_and_retries() {
    let mut channel = Channel::new("room".to_string());
    assert_eq!(channel.publish_plan(), PublishStep::AttachFirst);
    let _ = channel.update_state(ChannelState::Attached, None);
    assert_eq!(channel.publish_plan(), PublishStep::Send);
    match Channel::publish_attempt_failed(1, AblyError::timeout("x".to_string())) {
        PublishNext::Retry { delay_ms } => assert_eq!(delay_ms, 200),
        other => panic!("unexpected next {:?}", other),
    }
    match Channel::publish_attempt_failed(2, AblyError::timeout("x".to_string())) {
        PublishNext::Retry { delay_ms } => assert_eq!(delay_ms, 400),
        other => panic!("unexpected next {:?}", other),
    }
    match Channel::publish_attempt_failed(3, AblyError::timeout("x".to_string())) {
        PublishNext::GiveUp(e) => assert!(matches!(e, AblyError::Network { .. })),
        other => panic!("unexpected next {:?}", other),
    }
}

#[test]
fn manager_detach_plan_follows_channel_state() {
    let mut manager = ChannelManager::new();
    assert!(manager.detach_plan("room").is_none());
    manager.get_or_create("room");
    assert_eq!(manager.detach_plan("room"), Some(DetachStep::Done));
    let _ = manager.attach_plan("room");
    assert_eq!(manager.detach_plan("room"), Some(DetachStep::Send));
    assert_eq!(manager.get_or_create("room").state(), ChannelState::Detaching);
    assert_eq!(manager.detach_plan("room"), Some(DetachStep::Wait));
    match manager.attach_attempt_failed("room", 3, AblyError::timeout("x".to_string())) {
        Some(AttachNext::GiveUp(_)) => {}
        other => panic!("unexpected next {:?}", other),
    }
    assert_eq!(manager.detach_plan("room"), Some(DetachStep::MarkDetached));
    assert_eq!(manager.get_or_create("room").state(), ChannelState::Detached);
}

#[test]
fn history_drops_its_oldest_half_past_the_limit() {
    let mut sm = ConnectionStateMachine::new();
    for i in 0..100 {
        let to = if i % 2 == 0 { ConnectionState::Connecting } else { ConnectionState::Disconnected };
        sm.transition_to(to, ConnectionEvent::Connect);
    }
    let before = sm.history();
    assert_eq!(before.len(), 100);
    sm.transition_to(ConnectionState::Closed, ConnectionEvent::Connect);
    let after = sm.history();
    assert_eq!(after.len(), 51);
    for k in 0..50 {
        assert_eq!(after[k].from, before[50 + k].from);
        assert_eq!(after[k].to, before[50 + k].to);
    }
    assert_eq!(after[50].from, ConnectionState::Disconnected);
    assert_eq!(after[50].to, ConnectionState::Closed);
}

#[test]
fn manager_builds_publish_message_with_id_and_time() {
    let mut manager = ChannelManager::new();
    assert!(manager.publish_message("room", "greeting", "hi".to_string(), "u1", 7).is_none());
    manager.get_or_create("room");
    let m = manager.publish_message("room", "greeting", "hi".to_string(), "u1", 7).unwrap();
    assert_eq!(m.action, Action::Message);
    let ms = m.messages.unwrap();
    assert_eq!(ms.len(), 1);
    assert_eq!(ms[0].id.as_deref(), Some("msg:room:u1"));
    assert_eq!(ms[0].name.as_deref(), Some("greeting"));
    assert_eq!(ms[0].timestamp, Some(7));
    assert_eq!(manager.get_or_create("room").get_msg_serial(), 1);
}
