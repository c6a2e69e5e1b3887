//! The queue that arbitrates the single surface.

use dynamicnoti::config::QueuePolicy;
use dynamicnoti::queue::{
    deadline, CloseReason, QueueInput, QueueManager, QueueOutput, QueueSettings,
};
use dynamicnoti::scene::{LayoutAttrs, Scene};
use dynamicnoti::style::{ResolvedAnimProfile, ResolvedStyle};
use dynamicnoti::theme::Theme;

fn scene() -> Scene {
    Scene::Row { attrs: LayoutAttrs::default(), children: Vec::new() }
}

fn style() -> ResolvedStyle {
    Theme::default().resolve_style(None)
}

fn anim() -> ResolvedAnimProfile {
    Theme::default().resolve_anim("island_soft", None)
}

fn post(id: u64, key: Option<&str>, prio: i32, timeout: u32) -> QueueInput {
    QueueInput::Post {
        id,
        replace_key: key.map(str::to_string),
        priority: prio,
        timeout_ms: timeout,
        scene: scene(),
        style: style(),
        anim: anim(),
    }
}

fn mgr(policy: QueuePolicy) -> QueueManager {
    QueueManager::new(QueueSettings { policy, coalesce_replace: true })
}

#[test]
fn empty_post_shows() {
    let mut m = mgr(QueuePolicy::PriorityPreempt);
    let out = m.handle(post(1, None, 10, 5000), 0);
    assert!(matches!(out.as_slice(), [QueueOutput::Show { id: 1, .. }]));
    assert_eq!(m.next_deadline(), Some(5000));
}

#[test]
fn coalesce_morphs_same_key_keeping_id() {
    let mut m = mgr(QueuePolicy::PriorityPreempt);
    m.handle(post(1, Some("k"), 10, 0), 0);
    let out = m.handle(post(2, Some("k"), 10, 0), 100);
    assert!(matches!(out.as_slice(), [QueueOutput::Morph { id: 1, .. }]));
}

#[test]
fn no_coalesce_queues_second() {
    let mut m = QueueManager::new(QueueSettings {
        policy: QueuePolicy::PriorityPreempt,
        coalesce_replace: false,
    });
    m.handle(post(1, Some("k"), 10, 0), 0);
    let out = m.handle(post(2, Some("k"), 10, 0), 0);
    assert!(out.is_empty()); // second waits (no coalesce, equal priority)
}

#[test]
fn higher_priority_preempts() {
    let mut m = mgr(QueuePolicy::PriorityPreempt);
    m.handle(post(1, None, 10, 0), 0);
    let out = m.handle(post(2, None, 50, 0), 0);
    assert!(matches!(
        out.as_slice(),
        [QueueOutput::Close { id: 1, reason: CloseReason::Preempted, .. }, QueueOutput::Show { id: 2, .. }]
    ));
}

#[test]
fn lower_priority_waits_then_resumes() {
    let mut m = mgr(QueuePolicy::PriorityPreempt);
    m.handle(post(1, None, 50, 1000), 0);
    let out = m.handle(post(2, None, 10, 1000), 0);
    assert!(out.is_empty());
    // Live (id 1) times out: id 2 promoted.
    let out = m.handle(QueueInput::Tick, 1000);
    assert!(matches!(
        out.as_slice(),
        [QueueOutput::Close { id: 1, reason: CloseReason::Timeout, .. }, QueueOutput::Show { id: 2, .. }]
    ));
}

#[test]
fn fifo_never_preempts() {
    let mut m = mgr(QueuePolicy::Fifo);
    m.handle(post(1, None, 10, 1000), 0);
    let out = m.handle(post(2, None, 99, 1000), 0);
    assert!(out.is_empty());
}

#[test]
fn sticky_never_times_out() {
    let mut m = mgr(QueuePolicy::PriorityPreempt);
    m.handle(post(1, None, 10, 0), 0);
    assert_eq!(m.next_deadline(), None);
    assert!(m.handle(QueueInput::Tick, 1_000_000).is_empty());
}

#[test]
fn timeout_closes_and_promotes() {
    let mut m = mgr(QueuePolicy::PriorityPreempt);
    m.handle(post(1, None, 10, 100), 0);
    // Before deadline: nothing.
    assert!(m.handle(QueueInput::Tick, 50).is_empty());
    // At deadline: close.
    let out = m.handle(QueueInput::Tick, 100);
    assert!(matches!(out.as_slice(), [QueueOutput::Close { id: 1, reason: CloseReason::Timeout, .. }]));
}

#[test]
fn close_by_key_promotes_waiting() {
    let mut m = mgr(QueuePolicy::PriorityPreempt);
    m.handle(post(1, Some("a"), 10, 0), 0);
    m.handle(post(2, Some("b"), 5, 0), 0); // waits
    let out = m.handle(QueueInput::Close { replace_key: "a".into() }, 10);
    assert!(matches!(
        out.as_slice(),
        [QueueOutput::Close { id: 1, reason: CloseReason::Explicit, .. }, QueueOutput::Show { id: 2, .. }]
    ));
}

#[test]
fn close_waiting_is_silent() {
    let mut m = mgr(QueuePolicy::Fifo);
    m.handle(post(1, Some("a"), 10, 0), 0);
    m.handle(post(2, Some("b"), 10, 0), 0); // waits
    let out = m.handle(QueueInput::Close { replace_key: "b".into() }, 0);
    assert!(out.is_empty());
    // Closing the live one now has nothing to promote.
    let out = m.handle(QueueInput::Close { replace_key: "a".into() }, 0);
    assert!(matches!(out.as_slice(), [QueueOutput::Close { id: 1, .. }]));
}

fn drain(m: &mut QueueManager) -> Vec<u64> {
    let mut order = Vec::new();
    let mut live = true;
    let mut id = 0;
    while live {
        let out = m.handle(QueueInput::CloseId { id }, 0);
        live = false;
        for o in out {
            if let QueueOutput::Show { id: n, .. } = o {
                order.push(n);
                id = n;
                live = true;
            }
        }
    }
    order
}

#[test]
fn waiting_is_ordered_by_priority_then_arrival() {
    let mut m = mgr(QueuePolicy::PriorityPreempt);
    m.handle(post(0, None, 100, 0), 0);
    for (id, prio) in [(1, 5), (2, 9), (3, 5), (4, 9), (5, 1)] {
        assert!(m.handle(post(id, None, prio, 0), 0).is_empty());
    }
    assert_eq!(drain(&mut m), vec![2, 4, 1, 3, 5]);
}

#[test]
fn a_preempted_one_waits_behind_its_equals() {
    let mut m = mgr(QueuePolicy::PriorityPreempt);
    for id in [1, 2, 3, 4] {
        m.handle(post(id, None, 10, 0), 0);
    }
    m.handle(post(0, None, 50, 0), 0); // preempts 1, which waits from now on
    m.handle(post(5, None, 20, 0), 0);
    assert!(m.handle(QueueInput::CloseId { id: 3 }, 0).is_empty());
    assert_eq!(drain(&mut m), vec![5, 2, 4, 1]);
}

#[test]
fn fifo_keeps_the_order_of_arrival() {
    let mut m = mgr(QueuePolicy::Fifo);
    m.handle(post(0, None, 1, 0), 0);
    for (id, prio) in [(1, 5), (2, 9), (3, 5)] {
        m.handle(post(id, None, prio, 0), 0);
    }
    assert_eq!(drain(&mut m), vec![1, 2, 3]);
}

#[test]
fn preempted_one_resumes_with_a_fresh_deadline() {
    let mut m = mgr(QueuePolicy::PriorityPreempt);
    m.handle(post(1, None, 10, 100), 0);
    m.handle(post(2, None, 50, 100), 40);
    assert_eq!(m.next_deadline(), Some(140));
    let out = m.handle(QueueInput::Tick, 140);
    assert!(matches!(out.as_slice(), [QueueOutput::Close { id: 2, .. }, QueueOutput::Show { id: 1, timeout_ms: 100, .. }]));
    assert_eq!(m.next_deadline(), Some(240));
}

#[test]
fn coalescing_replaces_a_waiting_one_silently() {
    let mut m = mgr(QueuePolicy::Fifo);
    m.handle(post(1, None, 10, 0), 0);
    m.handle(post(2, Some("k"), 10, 0), 0);
    assert!(m.handle(post(3, Some("k"), 10, 7), 0).is_empty());
    assert_eq!(drain_first(&mut m, 1), Some((3, 7)));
}

fn drain_first(m: &mut QueueManager, live: u64) -> Option<(u64, u32)> {
    for o in m.handle(QueueInput::CloseId { id: live }, 0) {
        if let QueueOutput::Show { id, timeout_ms, .. } = o {
            return Some((id, timeout_ms));
        }
    }
    None
}

#[test]
fn morph_rearms_the_deadline_and_echoes_the_key() {
    let mut m = mgr(QueuePolicy::PriorityPreempt);
    m.handle(post(1, Some("k"), 10, 100), 0);
    let out = m.handle(post(2, Some("k"), 10, 300), 50);
    assert!(matches!(out.as_slice(), [QueueOutput::Morph { id: 1, timeout_ms: 300, .. }]));
    assert_eq!(m.next_deadline(), Some(350));
    let out = m.handle(QueueInput::Tick, 350);
    assert!(matches!(out.as_slice(), [QueueOutput::Close { id: 1, replace_key: Some(k), .. }] if k == "k"));
}

#[test]
fn close_drops_every_waiting_match() {
    let mut m = QueueManager::new(QueueSettings { policy: QueuePolicy::Fifo, coalesce_replace: false });
    for id in 1..=4 {
        m.handle(post(id, if id % 2 == 0 { Some("k") } else { None }, 0, 0), 0);
    }
    assert!(m.handle(QueueInput::Close { replace_key: "k".into() }, 0).is_empty());
    assert_eq!(drain_first(&mut m, 1), Some((3, 0)));
}

#[test]
fn new_settings_count_from_the_next_input() {
    let mut m = mgr(QueuePolicy::Fifo);
    m.handle(post(1, None, 1, 0), 0);
    m.set_settings(QueueSettings { policy: QueuePolicy::PriorityPreempt, coalesce_replace: true });
    let out = m.handle(post(2, None, 5, 0), 0);
    assert_eq!(out.len(), 2);
}

#[test]
fn outputs_follow_a_single_surface() {
    let mut m = mgr(QueuePolicy::PriorityPreempt);
    let mut up: Option<u64> = None;
    let inputs = vec![
        (post(1, Some("a"), 1, 50), 0),
        (post(2, Some("b"), 5, 50), 10),
        (post(3, Some("b"), 9, 50), 20),
        (post(4, None, 3, 0), 30),
        (QueueInput::Tick, 70),
        (QueueInput::CloseId { id: 4 }, 80),
        (QueueInput::Close { replace_key: "a".into() }, 90),
        (QueueInput::Tick, 500),
    ];
    for (input, now) in inputs {
        for o in m.handle(input, now) {
            match o {
                QueueOutput::Show { id, .. } => {
                    assert_eq!(up, None);
                    up = Some(id);
                }
                QueueOutput::Morph { id, .. } => assert_eq!(up, Some(id)),
                QueueOutput::Close { id, .. } => {
                    assert_eq!(up, Some(id));
                    up = None;
                }
            }
        }
    }
    assert_eq!(up, None);
}

#[test]
fn deadlines() {
    assert_eq!(deadline(5, 0), None);
    assert_eq!(deadline(5, 10), Some(15));
}

#[test]
fn a_wakeup_leaves_no_deadline_behind() {
    let mut m = mgr(QueuePolicy::Fifo);
    m.handle(post(1, None, 0, 10), 0);
    m.handle(post(2, None, 0, 10), 0);
    m.handle(QueueInput::Tick, 1000);
    assert_eq!(m.next_deadline(), Some(1010));
}
