use gilt_tui::lifecycle::{LifecycleEvent, LifecycleTracker};
use gilt_tui::node::NodeId;

struct IdGen(u64);

fn make_id(sm: &mut IdGen) -> NodeId {
    sm.0 += 1;
    NodeId(sm.0)
}

#[test]
fn new_tracker_is_empty() {
    let tracker = LifecycleTracker::new();
    assert_eq!(tracker.mounted_count(), 0);
    assert!(tracker.mounted_nodes().is_empty());
    assert!(!tracker.has_pending());
}

#[test]
fn mount_adds_node() {
    let mut sm = IdGen(0);
    let id = make_id(&mut sm);
    let mut tracker = LifecycleTracker::new();

    tracker.on_mount(id);
    assert!(tracker.is_mounted(id));
    assert_eq!(tracker.mounted_count(), 1);
}

#[test]
fn mount_produces_event() {
    let mut sm = IdGen(0);
    let id = make_id(&mut sm);
    let mut tracker = LifecycleTracker::new();

    tracker.on_mount(id);
    let events = tracker.pending_events();
    assert_eq!(events.len(), 1);
    assert_eq!(events[0], LifecycleEvent::Mount { node_id: id });
}

#[test]
fn double_mount_is_noop() {
    let mut sm = IdGen(0);
    let id = make_id(&mut sm);
    let mut tracker = LifecycleTracker::new();

    tracker.on_mount(id);
    tracker.on_mount(id); // duplicate
    assert_eq!(tracker.mounted_count(), 1);
    let events = tracker.pending_events();
    assert_eq!(events.len(), 1); // only one Mount event
}

#[test]
fn unmount_removes_node() {
    let mut sm = IdGen(0);
    let id = make_id(&mut sm);
    let mut tracker = LifecycleTracker::new();

    tracker.on_mount(id);
    tracker.on_unmount(id);
    assert!(!tracker.is_mounted(id));
    assert_eq!(tracker.mounted_count(), 0);
}

#[test]
fn unmount_produces_event() {
    let mut sm = IdGen(0);
    let id = make_id(&mut sm);
    let mut tracker = LifecycleTracker::new();

    tracker.on_mount(id);
    let _ = tracker.pending_events(); // drain mount event
    tracker.on_unmount(id);
    let events = tracker.pending_events();
    assert_eq!(events.len(), 1);
    assert_eq!(events[0], LifecycleEvent::Unmount { node_id: id });
}

#[test]
fn unmount_not_mounted_is_noop() {
    let mut sm = IdGen(0);
    let id = make_id(&mut sm);
    let mut tracker = LifecycleTracker::new();

    tracker.on_unmount(id); // never mounted
    assert!(!tracker.has_pending());
}

#[test]
fn update_mounted_node() {
    let mut sm = IdGen(0);
    let id = make_id(&mut sm);
    let mut tracker = LifecycleTracker::new();

    tracker.on_mount(id);
    let _ = tracker.pending_events();
    tracker.on_update(id);
    let events = tracker.pending_events();
    assert_eq!(events.len(), 1);
    assert_eq!(events[0], LifecycleEvent::Update { node_id: id });
}

#[test]
fn update_unmounted_is_noop() {
    let mut sm = IdGen(0);
    let id = make_id(&mut sm);
    let mut tracker = LifecycleTracker::new();

    tracker.on_update(id); // never mounted
    assert!(!tracker.has_pending());
}

#[test]
fn pending_events_drains() {
    let mut sm = IdGen(0);
    let a = make_id(&mut sm);
    let b = make_id(&mut sm);
    let mut tracker = LifecycleTracker::new();

    tracker.on_mount(a);
    tracker.on_mount(b);
    let events = tracker.pending_events();
    assert_eq!(events.len(), 2);

    // Second drain is empty.
    let events2 = tracker.pending_events();
    assert!(events2.is_empty());
}

#[test]
fn mounted_nodes_returns_all() {
    let mut sm = IdGen(0);
    let a = make_id(&mut sm);
    let b = make_id(&mut sm);
    let c = make_id(&mut sm);
    let mut tracker = LifecycleTracker::new();

    tracker.on_mount(a);
    tracker.on_mount(b);
    tracker.on_mount(c);

    let nodes = tracker.mounted_nodes();
    assert_eq!(nodes.len(), 3);
}

#[test]
fn clear_resets_everything() {
    let mut sm = IdGen(0);
    let id = make_id(&mut sm);
    let mut tracker = LifecycleTracker::new();

    tracker.on_mount(id);
    tracker.clear();
    assert!(!tracker.is_mounted(id));
    assert_eq!(tracker.mounted_count(), 0);
    assert!(!tracker.has_pending());
}

#[test]
fn full_lifecycle_sequence() {
    let mut sm = IdGen(0);
    let id = make_id(&mut sm);
    let mut tracker = LifecycleTracker::new();

    // Mount
    tracker.on_mount(id);
    // Update
    tracker.on_update(id);
    // Unmount
    tracker.on_unmount(id);

    let events = tracker.pending_events();
    assert_eq!(events.len(), 3);
    assert_eq!(events[0], LifecycleEvent::Mount { node_id: id });
    assert_eq!(events[1], LifecycleEvent::Update { node_id: id });
    assert_eq!(events[2], LifecycleEvent::Unmount { node_id: id });
}

#[test]
fn lifecycle_default_impl() {
    let tracker = LifecycleTracker::default();
    assert_eq!(tracker.mounted_count(), 0);
}

