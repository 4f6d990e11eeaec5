use block_watch::block::BlockRecord;
use block_watch::message::{format_blocks, format_unreachable_notice, uptime_text};
use block_watch::reconcile::{ReconcileError, Reconciler, Step};
use block_watch::scheduler::BotState;

fn record(id: &str, parent: &str, height: u64) -> BlockRecord {
    BlockRecord {
        id: id.to_string(),
        parent: parent.to_string(),
        height,
        timestamp: 1_690_000_000,
        tx_count: 2_500,
        size: 1_500_000,
        weight: 4_000_000,
    }
}

#[test]
fn formats_one_block_section_exactly() {
    let blocks = vec![BlockRecord {
        id: "abc".to_string(),
        parent: "def".to_string(),
        height: 800_000,
        timestamp: 1_690_000_000,
        tx_count: 2_500,
        size: 1_500_000,
        weight: 4_000_000,
    }];
    let m = format_blocks(&blocks, 7);
    assert_eq!(m.created_at, 7);
    assert_eq!(m.kind, 1);
    assert!(m.content.starts_with("Got 1 newly mined block(s):\n"));
    assert!(m.content.contains("abc\n"));
    assert!(m.content.contains("- height: 800,000\n"));
    assert!(m.content.contains("- timestamp: 2023-07-22 04:26:40 UTC\n"));
    assert!(m.content.contains("- tx count: 2,500\n"));
    assert!(m.content.contains("- size: 1,500,000\n"));
    assert!(m.content.contains("- weight: 4,000,000\n"));
    assert!(m.content.contains("- https://mempool.space/block/abc\n"));
    assert!(!m.content.ends_with("\n\n"));
    assert_eq!(m.tags.len(), 2);
    assert_eq!(m.tags[0], ("#t".to_string(), "bitcoin".to_string()));
    assert_eq!(
        m.tags[1],
        ("#r".to_string(), "https://mempool.space/block/abc".to_string())
    );
}

#[test]
fn formats_batch_with_blank_line_between_sections() {
    let blocks = vec![record("bbb", "aaa", 2), record("aaa", "zzz", 1)];
    let m = format_blocks(&blocks, 0);
    assert!(m.content.starts_with("Got 2 newly mined block(s):\n"));
    // one blank line between the two sections, none at the end
    assert!(m
        .content
        .contains("- https://mempool.space/block/bbb\n\naaa\n"));
    assert!(m.content.ends_with("- https://mempool.space/block/aaa\n"));
    assert_eq!(m.tags.len(), 3);
    assert_eq!(m.tags[2].1, "https://mempool.space/block/aaa");
}

#[test]
fn formats_small_figures_without_separator() {
    let mut b = record("abc", "def", 0);
    b.tx_count = 999;
    b.size = 1_000;
    b.weight = 1_000_000;
    let m = format_blocks(&vec![b], 0);
    assert!(m.content.contains("- height: 0\n"));
    assert!(m.content.contains("- tx count: 999\n"));
    assert!(m.content.contains("- size: 1,000\n"));
    assert!(m.content.contains("- weight: 1,000,000\n"));
}

#[test]
fn unreachable_notice_is_fixed() {
    let m = format_unreachable_notice(42);
    assert_eq!(m.content, "I'm unable to reach the API.");
    assert_eq!(m.created_at, 42);
    assert_eq!(m.kind, 1);
    assert!(m.tags.is_empty());
}

#[test]
fn uptime_renders_compound_duration() {
    assert_eq!(uptime_text(7259), "Running for 2h59s");
    assert_eq!(uptime_text(0), "Running for 0s");
    assert_eq!(uptime_text(90061), "Running for 1d1h1m1s");
}

#[test]
fn uptime_reply_uses_elapsed_seconds() {
    let state = BotState::new("aaa".to_string(), 100, 3600);
    assert_eq!(state.uptime_reply(7359), "Running for 2h59s");
}

#[test]
fn reconcile_unmoved_tip_is_empty() {
    let mut r = Reconciler::new("aaa".to_string(), 100);
    match r.on_tip("aaa".to_string()) {
        Step::Done(result) => {
            assert!(result.blocks.is_empty());
            assert_eq!(result.tip, "aaa");
        }
        _ => panic!("expected an empty completed run"),
    }
}

#[test]
fn reconcile_twice_against_unmoved_tip_is_empty_twice() {
    let mut state = BotState::new("aaa".to_string(), 0, 3600);
    for _ in 0..2 {
        let mut r = Reconciler::new(state.last_seen.clone(), 100);
        match r.on_tip("aaa".to_string()) {
            Step::Done(result) => {
                assert!(result.blocks.is_empty());
                assert_eq!(result.tip, "aaa");
                let m = state.on_reconcile_success(result, 0);
                assert!(m.is_none());
            }
            _ => panic!("expected an empty completed run"),
        }
        assert_eq!(state.last_seen, "aaa");
    }
}

#[test]
fn reconcile_walks_back_to_last_seen() {
    let mut r = Reconciler::new("aaa".to_string(), 100);
    match r.on_tip("ccc".to_string()) {
        Step::Fetch(id) => assert_eq!(id, "ccc"),
        _ => panic!("expected a fetch of the tip"),
    }
    match r.on_block(record("ccc", "bbb", 3)) {
        Step::Fetch(id) => assert_eq!(id, "bbb"),
        _ => panic!("expected a fetch of the parent"),
    }
    match r.on_block(record("bbb", "aaa", 2)) {
        Step::Done(result) => {
            assert_eq!(result.tip, "ccc");
            let ids: Vec<&str> = result.blocks.iter().map(|b| b.id.as_str()).collect();
            assert_eq!(ids, vec!["ccc", "bbb"]);
            // newest first: each parent pointer names the next entry
            assert_eq!(result.blocks[0].parent, result.blocks[1].id);
            assert_eq!(result.blocks[1].parent, "aaa");
        }
        _ => panic!("expected a completed run"),
    }
}

#[test]
fn reconcile_diverges_at_backtrack_bound() {
    let mut r = Reconciler::new("aaa".to_string(), 2);
    match r.on_tip("x2".to_string()) {
        Step::Fetch(id) => assert_eq!(id, "x2"),
        _ => panic!("expected a fetch of the tip"),
    }
    match r.on_block(record("x2", "x1", 2)) {
        Step::Fetch(id) => assert_eq!(id, "x1"),
        _ => panic!("expected a fetch of the parent"),
    }
    match r.on_block(record("x1", "x0", 1)) {
        Step::Failed(e) => assert_eq!(e, ReconcileError::Diverged),
        _ => panic!("expected the run to diverge"),
    }
}

#[test]
fn reconcile_diverges_immediately_with_zero_bound() {
    let mut r = Reconciler::new("aaa".to_string(), 0);
    match r.on_tip("bbb".to_string()) {
        Step::Failed(e) => assert_eq!(e, ReconcileError::Diverged),
        _ => panic!("expected the run to diverge"),
    }
}

#[test]
fn reconcile_rejects_block_that_was_not_asked_for() {
    let mut r = Reconciler::new("aaa".to_string(), 10);
    match r.on_tip("ccc".to_string()) {
        Step::Fetch(_) => {}
        _ => panic!("expected a fetch of the tip"),
    }
    match r.on_block(record("bbb", "aaa", 2)) {
        Step::Failed(e) => assert_eq!(e, ReconcileError::Decode),
        _ => panic!("expected a decode failure"),
    }
}

#[test]
fn success_with_new_blocks_advances_state_and_dispatches() {
    let mut r = Reconciler::new("aaa".to_string(), 10);
    r.on_tip("bbb".to_string());
    let result = match r.on_block(record("bbb", "aaa", 2)) {
        Step::Done(result) => result,
        _ => panic!("expected a completed run"),
    };
    let mut state = BotState::new("aaa".to_string(), 0, 3600);
    let m = state.on_reconcile_success(result, 5);
    assert_eq!(state.last_seen, "bbb");
    let m = m.expect("a non-empty batch is dispatched");
    assert!(m.content.starts_with("Got 1 newly mined block(s):\n"));
    assert!(m.content.contains("bbb\n"));
}

#[test]
fn empty_batch_dispatches_nothing() {
    let mut r = Reconciler::new("aaa".to_string(), 10);
    let result = match r.on_tip("aaa".to_string()) {
        Step::Done(result) => result,
        _ => panic!("expected an empty completed run"),
    };
    let mut state = BotState::new("aaa".to_string(), 0, 3600);
    let m = state.on_reconcile_success(result, 5);
    assert!(m.is_none());
    assert_eq!(state.last_seen, "aaa");
}

#[test]
fn three_failures_in_window_dispatch_one_notice() {
    let mut state = BotState::new("aaa".to_string(), 0, 3600);
    let mut notices = 0;
    for now in [1000u64, 1005, 1010] {
        if let Some(m) = state.on_reconcile_failure(now) {
            assert_eq!(m.content, "I'm unable to reach the API.");
            notices += 1;
        }
    }
    assert_eq!(notices, 1);
    // a fourth failure after the cooldown elapses dispatches a second notice
    let m = state.on_reconcile_failure(1000 + 3600 + 1);
    assert!(m.is_some());
    // and the cooldown clock was reset by it
    assert!(state.on_reconcile_failure(1000 + 3600 + 2).is_none());
}

#[test]
fn failure_does_not_move_last_seen() {
    let mut state = BotState::new("aaa".to_string(), 0, 3600);
    state.on_reconcile_failure(50);
    assert_eq!(state.last_seen, "aaa");
    assert_eq!(state.start_time, 0);
}
