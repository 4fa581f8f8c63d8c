//! Tests of listing parsing and proxy reconciliation.

use tmux_domain::EntityMapper;
use tmux_domain::Event;
use tmux_domain::IdAllocator;
use tmux_domain::RemoteWindowDescriptor;
use tmux_domain::TmuxDomain;
use tmux_domain::parse_listing;
use tmux_domain::parse_window_line;

#[test]
fn a_record_parses_into_its_four_fields() {
    let d = parse_window_line("sess\tw1\t80\t24").expect("record should parse");
    assert_eq!(d.session_name, "sess");
    assert_eq!(d.window_id, "w1");
    assert_eq!(d.width, 80);
    assert_eq!(d.height, 24);
}

#[test]
fn malformed_records_do_not_parse() {
    assert!(parse_window_line("bad").is_none());
    assert!(parse_window_line("a\tb").is_none());
    assert!(parse_window_line("a\tb\tc\td").is_none());
    assert!(parse_window_line("a\tb\t1\t2\t3").is_none());
    assert!(parse_window_line("a\tb\t80\t").is_none());
    assert!(parse_window_line("a\tb\t80\t-1").is_none());
    assert!(parse_window_line("a\tb\t80\t99999999999999999999999").is_none());
}

#[test]
fn empty_fields_before_the_sizes_are_tolerated() {
    let d = parse_window_line("\t\t1\t2").expect("record should parse");
    assert_eq!(d.session_name, "");
    assert_eq!(d.window_id, "");
    assert_eq!(d.width, 1);
    assert_eq!(d.height, 2);
}

fn listing_block(d: &mut TmuxDomain, lines: &[&str]) -> tmux_domain::ReplyBlock {
    let before = d.blocks.len();
    for &b in b"%begin 1 1 0\n" {
        d.advance(b);
    }
    for line in lines {
        for &b in line.as_bytes() {
            d.advance(b);
        }
        d.advance(b'\n');
    }
    for &b in b"%end 1 1 0\n" {
        d.advance(b);
    }
    assert_eq!(d.blocks.len(), before + 1);
    d.blocks.pop().unwrap()
}

#[test]
fn a_listing_reply_parses_line_by_line() {
    let mut ids = IdAllocator::new();
    let mut d = TmuxDomain::new(1, &mut ids);
    for &b in b"%end 1 0 0\n" {
        d.advance(b);
    }
    let block = listing_block(&mut d, &["sess\tw1\t80\t24", "sess\tw2\t80\t24"]);
    let listing = parse_listing(&block).expect("listing should parse");
    assert_eq!(listing.len(), 2);
    assert_eq!(listing[0].window_id, "w1");
    assert_eq!(listing[1].window_id, "w2");
}

#[test]
fn a_block_with_other_payload_is_no_listing() {
    let mut ids = IdAllocator::new();
    let mut d = TmuxDomain::new(1, &mut ids);
    for &b in b"%end 1 0 0\n" {
        d.advance(b);
    }
    let block = listing_block(&mut d, &["ok"]);
    assert!(parse_listing(&block).is_none());
}

fn descriptor(window_id: &str) -> RemoteWindowDescriptor {
    RemoteWindowDescriptor {
        session_name: "sess".to_string(),
        window_id: window_id.to_string(),
        width: 80,
        height: 24,
    }
}

#[test]
fn an_empty_listing_tears_down_the_proxy_created_before() {
    let mut ids = IdAllocator::new();
    let mut mapper = EntityMapper::new();

    let first = vec![descriptor("w1")];
    let removed = mapper.reconcile(&first, &mut ids);
    assert!(removed.is_empty());
    assert_eq!(mapper.proxies.len(), 1);
    assert_eq!(mapper.proxies[0].window_id, "w1");

    let removed = mapper.reconcile(&Vec::new(), &mut ids);
    assert_eq!(removed.len(), 1);
    assert_eq!(removed[0].window_id, "w1");
    assert!(mapper.proxies.is_empty());
}

#[test]
fn a_window_listed_again_keeps_its_proxy() {
    let mut ids = IdAllocator::new();
    let mut mapper = EntityMapper::new();

    mapper.reconcile(&vec![descriptor("w1"), descriptor("w2")], &mut ids);
    let w2_tab = mapper
        .proxies
        .iter()
        .find(|p| p.window_id == "w2")
        .expect("w2 should be mirrored")
        .tab;

    let removed = mapper.reconcile(&vec![descriptor("w2"), descriptor("w3")], &mut ids);
    assert_eq!(removed.len(), 1);
    assert_eq!(removed[0].window_id, "w1");
    assert_eq!(mapper.proxies.len(), 2);
    let kept_w2 = mapper.proxies.iter().find(|p| p.window_id == "w2").unwrap();
    assert_eq!(kept_w2.tab, w2_tab);
    let new_w3 = mapper.proxies.iter().find(|p| p.window_id == "w3").unwrap();
    assert_ne!(new_w3.tab, w2_tab);
}

#[test]
fn duplicate_records_yield_one_proxy() {
    let mut ids = IdAllocator::new();
    let mut mapper = EntityMapper::new();
    mapper.reconcile(&vec![descriptor("w1"), descriptor("w1")], &mut ids);
    assert_eq!(mapper.proxies.len(), 1);
}

#[test]
fn a_full_session_from_bytes_to_teardown() {
    let mut ids = IdAllocator::new();
    let mut d = TmuxDomain::new(0, &mut ids);
    let mut mapper = EntityMapper::new();

    for &b in b"%end 1 0 0\n" {
        d.advance(b);
    }
    assert_eq!(d.pending.len(), 1);

    let block = listing_block(&mut d, &["sess\tw1\t80\t24"]);
    let listing = parse_listing(&block).expect("listing should parse");
    mapper.reconcile(&listing, &mut ids);
    assert_eq!(mapper.proxies.len(), 1);

    let block = listing_block(&mut d, &[]);
    let listing = parse_listing(&block).expect("empty listing should parse");
    let removed = mapper.reconcile(&listing, &mut ids);
    assert_eq!(removed.len(), 1);
    assert_eq!(removed[0].window_id, "w1");
    assert!(mapper.proxies.is_empty());
}

#[test]
fn notifications_do_not_become_blocks() {
    let mut ids = IdAllocator::new();
    let mut d = TmuxDomain::new(0, &mut ids);
    for &b in b"%end 1 0 0\n%output %1 data\n" {
        d.advance(b);
    }
    assert!(d.blocks.is_empty());
    assert_eq!(d.notes, vec!["%output %1 data".to_string()]);
    // A machine-level notification is also observable directly.
    let mut sm = tmux_domain::StateMachine::new();
    sm.process_line("%end 1 0 0".to_string());
    assert!(matches!(
        sm.process_line("%output %1 data".to_string()),
        Some(Event::Note { .. })
    ));
}
