//! Tests of the domain controller.

use tmux_domain::DomainError;
use tmux_domain::DomainState;
use tmux_domain::IdAllocator;
use tmux_domain::ProtocolState;
use tmux_domain::PtySize;
use tmux_domain::TmuxDomain;
use tmux_domain::list_windows_command;

fn feed(d: &mut TmuxDomain, input: &[u8]) {
    for &b in input {
        d.advance(b);
    }
}

#[test]
fn two_controllers_never_share_a_domain_id() {
    let mut ids = IdAllocator::new();
    let a = TmuxDomain::new(7, &mut ids);
    let b = TmuxDomain::new(8, &mut ids);
    assert_ne!(a.domain_id(), b.domain_id());
}

#[test]
fn domain_name_is_constant() {
    let mut ids = IdAllocator::new();
    let d = TmuxDomain::new(7, &mut ids);
    let first = d.domain_name();
    assert_eq!(first, "tmux");
    assert_eq!(d.domain_name(), first);
    let e = TmuxDomain::new(9, &mut ids);
    assert_eq!(e.domain_name(), first);
}

#[test]
fn the_domain_is_always_attached() {
    let mut ids = IdAllocator::new();
    let d = TmuxDomain::new(7, &mut ids);
    assert_eq!(d.state(), DomainState::Attached);
}

#[test]
fn attach_succeeds_and_may_be_repeated() {
    let mut ids = IdAllocator::new();
    let d = TmuxDomain::new(7, &mut ids);
    assert!(d.attach().is_ok());
    assert!(d.attach().is_ok());
}

#[test]
fn detach_always_fails() {
    let mut ids = IdAllocator::new();
    let d = TmuxDomain::new(7, &mut ids);
    assert_eq!(d.detach(), Err(DomainError::DetachUnsupported));
}

#[test]
fn spawn_always_fails() {
    let mut ids = IdAllocator::new();
    let d = TmuxDomain::new(7, &mut ids);
    let size = PtySize { rows: 24, cols: 80, pixel_width: 0, pixel_height: 0 };
    let r = d.spawn(size, Some("true".to_string()), None, 3);
    assert_eq!(r, Err(DomainError::SpawnUnsupported));
}

#[test]
fn error_messages_name_the_operation() {
    assert_eq!(
        DomainError::SpawnUnsupported.message(),
        "spawn not supported by the tmux domain"
    );
    assert_eq!(
        DomainError::DetachUnsupported.message(),
        "detach not supported by the tmux domain"
    );
}

#[test]
fn first_end_marker_schedules_exactly_one_interrogation() {
    let mut ids = IdAllocator::new();
    let mut d = TmuxDomain::new(42, &mut ids);
    feed(&mut d, b"%end 1 0 0\n");
    assert_eq!(d.machine.state, ProtocolState::Ready);
    assert_eq!(d.pending.len(), 1);
    assert_eq!(d.pending[0].text, list_windows_command());
    assert_eq!(d.pending[0].tab, 42);

    // The identical input while already ready schedules nothing further.
    feed(&mut d, b"%end 1 0 0\n");
    assert_eq!(d.machine.state, ProtocolState::Ready);
    assert_eq!(d.pending.len(), 1);
}

#[test]
fn a_reply_block_fed_as_bytes_is_recorded() {
    let mut ids = IdAllocator::new();
    let mut d = TmuxDomain::new(42, &mut ids);
    feed(&mut d, b"%end 1 0 0\n");
    feed(&mut d, b"%begin 1 1 0\r\nok\r\n%end 1 1 0\r\n");
    assert_eq!(d.blocks.len(), 1);
    assert_eq!(d.blocks[0].seq, 1);
    assert_eq!(d.blocks[0].payload, vec!["ok".to_string()]);
    assert!(d.blocks[0].ok);
}

#[test]
fn lines_before_the_first_reply_change_nothing() {
    let mut ids = IdAllocator::new();
    let mut d = TmuxDomain::new(42, &mut ids);
    feed(&mut d, b"noise\n%output x\n");
    assert_eq!(d.machine.state, ProtocolState::AwaitingFirstReply);
    assert!(d.pending.is_empty());
    assert!(d.blocks.is_empty());
}

#[test]
fn notifications_are_recorded_in_arrival_order() {
    let mut ids = IdAllocator::new();
    let mut d = TmuxDomain::new(2, &mut ids);
    feed(&mut d, b"%end 1 0 0\n%output one\n%layout-change two\n");
    assert_eq!(
        d.notes,
        vec!["%output one".to_string(), "%layout-change two".to_string()]
    );
    assert!(d.blocks.is_empty());
}

#[test]
fn commands_queue_in_issue_order() {
    let mut ids = IdAllocator::new();
    let mut d = TmuxDomain::new(5, &mut ids);
    d.send_command("kill-window -t @1");
    d.send_command("list-panes");
    assert_eq!(d.pending.len(), 2);
    assert_eq!(d.pending[0].text, "kill-window -t @1");
    assert_eq!(d.pending[1].text, "list-panes");
    assert_eq!(d.pending[0].tab, 5);
    assert_eq!(d.pending[1].tab, 5);
}
