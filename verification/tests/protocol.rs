//! Tests of line classification and the protocol state machine.

use tmux_domain::Event;
use tmux_domain::LineClass;
use tmux_domain::ProtocolState;
use tmux_domain::StateMachine;
use tmux_domain::classify;

#[test]
fn markers_are_classified_with_their_tag() {
    assert_eq!(classify("%begin 1 2 0"), LineClass::Begin { seq: 2 });
    assert_eq!(classify("%end 1 0 0"), LineClass::End { seq: 0 });
    assert_eq!(classify("%error 5 7 1"), LineClass::Failed { seq: 7 });
}

#[test]
fn other_percent_lines_are_notifications() {
    assert_eq!(classify("%output %1 hello"), LineClass::Notification);
    assert_eq!(classify("%"), LineClass::Notification);
    assert_eq!(classify("%end"), LineClass::Notification);
    assert_eq!(classify("%ending 1 2 3"), LineClass::Notification);
}

#[test]
fn a_marker_with_a_malformed_tag_is_a_notification() {
    assert_eq!(classify("%end 1"), LineClass::Notification);
    assert_eq!(classify("%end 1 x 0"), LineClass::Notification);
    assert_eq!(classify("%begin 1  0"), LineClass::Notification);
    assert_eq!(classify("%begin 1 99999999999999999999 0"), LineClass::Notification);
}

#[test]
fn unprefixed_lines_are_payload() {
    assert_eq!(classify("plain text"), LineClass::Payload);
    assert_eq!(classify(""), LineClass::Payload);
    assert_eq!(classify("percent % later"), LineClass::Payload);
}

#[test]
fn first_end_marker_moves_the_machine_to_ready_once() {
    let mut sm = StateMachine::new();
    assert_eq!(sm.state, ProtocolState::AwaitingFirstReply);

    let first = sm.process_line("%end 1 0 0".to_string());
    assert!(matches!(first, Some(Event::ScheduleInterrogation)));
    assert_eq!(sm.state, ProtocolState::Ready);

    // The identical line while already ready schedules nothing further.
    let second = sm.process_line("%end 1 0 0".to_string());
    assert!(second.is_none());
    assert_eq!(sm.state, ProtocolState::Ready);
}

#[test]
fn lines_before_the_first_reply_are_discarded() {
    let mut sm = StateMachine::new();
    assert!(sm.process_line("%output noise".to_string()).is_none());
    assert!(sm.process_line("payload".to_string()).is_none());
    assert!(sm.process_line("%begin 1 1 0".to_string()).is_none());
    assert_eq!(sm.state, ProtocolState::AwaitingFirstReply);
    assert!(sm.open.is_none());
}

fn ready_machine() -> StateMachine {
    let mut sm = StateMachine::new();
    sm.process_line("%end 1 0 0".to_string());
    sm
}

#[test]
fn a_begin_end_pair_completes_one_block() {
    let mut sm = ready_machine();
    assert!(sm.process_line("%begin 1 1 0".to_string()).is_none());
    assert!(sm.process_line("ok".to_string()).is_none());
    match sm.process_line("%end 1 1 0".to_string()) {
        Some(Event::Completed { block }) => {
            assert_eq!(block.seq, 1);
            assert_eq!(block.payload, vec!["ok".to_string()]);
            assert!(block.ok);
        },
        other => panic!("expected a completed block, got {:?}", other.is_some()),
    }
    assert!(sm.open.is_none());
}

#[test]
fn an_error_marker_completes_the_block_as_a_failure() {
    let mut sm = ready_machine();
    sm.process_line("%begin 9 2 0".to_string());
    sm.process_line("oops".to_string());
    match sm.process_line("%error 9 2 0".to_string()) {
        Some(Event::Completed { block }) => {
            assert_eq!(block.seq, 2);
            assert_eq!(block.payload, vec!["oops".to_string()]);
            assert!(!block.ok);
        },
        _ => panic!("expected a completed block"),
    }
    // An error block does not change the lifecycle state.
    assert_eq!(sm.state, ProtocolState::Ready);
}

#[test]
fn an_unmatched_end_marker_is_ignored() {
    let mut sm = ready_machine();
    assert!(sm.process_line("%end 1 5 0".to_string()).is_none());
    assert_eq!(sm.state, ProtocolState::Ready);
}

#[test]
fn payload_without_an_open_block_is_discarded() {
    let mut sm = ready_machine();
    assert!(sm.process_line("stray".to_string()).is_none());
    assert!(sm.open.is_none());
}

#[test]
fn a_second_begin_discards_the_open_block() {
    let mut sm = ready_machine();
    sm.process_line("%begin 1 1 0".to_string());
    sm.process_line("lost".to_string());
    assert!(sm.process_line("%begin 1 2 0".to_string()).is_none());
    match sm.process_line("%end 1 2 0".to_string()) {
        Some(Event::Completed { block }) => {
            assert_eq!(block.seq, 2);
            assert!(block.payload.is_empty());
            assert!(block.ok);
        },
        _ => panic!("expected a completed block"),
    }
}

#[test]
fn notifications_are_handed_through_while_ready() {
    let mut sm = ready_machine();
    sm.process_line("%begin 1 1 0".to_string());
    match sm.process_line("%layout-change @1".to_string()) {
        Some(Event::Note { text }) => assert_eq!(text, "%layout-change @1"),
        _ => panic!("expected a notification"),
    }
    // The open block is untouched by the notification.
    assert!(sm.open.is_some());
}
