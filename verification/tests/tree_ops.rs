use wm::WmError;
use wm::geometry::Rect;
use wm::tree::{ContainerKind, Tree, WindowState};

fn rect(x: i64, y: i64, w: i64, h: i64) -> Rect {
    Rect::from_xy(x, y, w, h)
}

fn sample_tree() -> (Tree, usize, usize) {
    let mut t = Tree::new();
    let monitor = t
        .create_container(ContainerKind::Monitor, rect(0, 0, 1920, 1080))
        .unwrap();
    t.insert_child(0, 0, monitor).unwrap();
    let workspace = t
        .create_container(ContainerKind::Workspace, rect(0, 0, 1920, 1080))
        .unwrap();
    t.insert_child(monitor, 0, workspace).unwrap();
    (t, monitor, workspace)
}

#[test]
fn new_tree_has_single_root() {
    let t = Tree::new();
    assert_eq!(t.containers.len(), 1);
    assert_eq!(t.parent_of(0), None);
}

#[test]
fn insert_child_sets_parent_and_order() {
    let (mut t, _monitor, workspace) = sample_tree();
    let a = t.create_window(11, rect(0, 0, 100, 100), WindowState::Tiling).unwrap();
    let b = t.create_window(22, rect(0, 0, 100, 100), WindowState::Tiling).unwrap();
    t.insert_child(workspace, 0, a).unwrap();
    t.insert_child(workspace, 1, b).unwrap();
    assert_eq!(t.parent_of(a), Some(workspace));
    assert_eq!(t.parent_of(b), Some(workspace));
    assert_eq!(t.children(workspace), vec![a, b]);

    // Insertion in the middle shifts later children right.
    let c = t.create_window(33, rect(0, 0, 100, 100), WindowState::Tiling).unwrap();
    t.insert_child(workspace, 1, c).unwrap();
    assert_eq!(t.children(workspace), vec![a, c, b]);
}

#[test]
fn detach_removes_child_and_clears_parent() {
    let (mut t, _monitor, workspace) = sample_tree();
    let a = t.create_window(11, rect(0, 0, 100, 100), WindowState::Tiling).unwrap();
    let b = t.create_window(22, rect(0, 0, 100, 100), WindowState::Tiling).unwrap();
    t.insert_child(workspace, 0, a).unwrap();
    t.insert_child(workspace, 1, b).unwrap();
    t.detach(a).unwrap();
    assert_eq!(t.parent_of(a), None);
    assert_eq!(t.children(workspace), vec![b]);
    // Detaching an already-detached container changes nothing.
    t.detach(a).unwrap();
    assert_eq!(t.parent_of(a), None);
}

#[test]
fn one_parent_rule_is_enforced() {
    let (mut t, _monitor, workspace) = sample_tree();
    let a = t.create_window(11, rect(0, 0, 100, 100), WindowState::Tiling).unwrap();
    t.insert_child(workspace, 0, a).unwrap();
    // A second insert of the same attached child is an invariant
    // violation, never silently corrected.
    assert_eq!(
        t.insert_child(workspace, 0, a),
        Err(WmError::InvariantViolation)
    );
}

#[test]
fn insert_rejects_bad_inputs() {
    let (mut t, _monitor, workspace) = sample_tree();
    let a = t.create_window(11, rect(0, 0, 100, 100), WindowState::Tiling).unwrap();
    // Unknown identifiers are lookup failures.
    assert_eq!(t.insert_child(999, 0, a), Err(WmError::LookupFailure));
    assert_eq!(t.insert_child(workspace, 0, 999), Err(WmError::LookupFailure));
    // An index past the end is refused.
    assert_eq!(
        t.insert_child(workspace, 5, a),
        Err(WmError::InvariantViolation)
    );
    // A window owns no children sequence.
    t.insert_child(workspace, 0, a).unwrap();
    let b = t.create_window(22, rect(0, 0, 100, 100), WindowState::Tiling).unwrap();
    assert_eq!(t.insert_child(a, 0, b), Err(WmError::InvariantViolation));
    // The root cannot be attached anywhere.
    assert_eq!(
        t.insert_child(workspace, 0, 0),
        Err(WmError::InvariantViolation)
    );
}

#[test]
fn detach_unknown_is_lookup_failure() {
    let mut t = Tree::new();
    assert_eq!(t.detach(42), Err(WmError::LookupFailure));
}

#[test]
fn create_window_rejects_duplicate_handle() {
    let mut t = Tree::new();
    t.create_window(7, rect(0, 0, 10, 10), WindowState::Tiling).unwrap();
    assert_eq!(
        t.create_window(7, rect(0, 0, 10, 10), WindowState::Tiling),
        Err(WmError::InvariantViolation)
    );
}

#[test]
fn create_container_rejects_window_kinds_and_root() {
    let mut t = Tree::new();
    assert_eq!(
        t.create_container(ContainerKind::Root, rect(0, 0, 1, 1)),
        Err(WmError::InvariantViolation)
    );
    assert_eq!(
        t.create_container(ContainerKind::TilingWindow, rect(0, 0, 1, 1)),
        Err(WmError::InvariantViolation)
    );
}

#[test]
fn lookup_by_handle_finds_windows() {
    let (mut t, _monitor, workspace) = sample_tree();
    let a = t.create_window(501, rect(0, 0, 10, 10), WindowState::Tiling).unwrap();
    t.insert_child(workspace, 0, a).unwrap();
    assert_eq!(t.lookup_by_handle(501), Some(a));
    assert_eq!(t.lookup_by_handle(502), None);
}

#[test]
fn root_ancestor_walks_to_the_top() {
    let (mut t, monitor, workspace) = sample_tree();
    let a = t.create_window(11, rect(0, 0, 10, 10), WindowState::Tiling).unwrap();
    t.insert_child(workspace, 0, a).unwrap();
    assert_eq!(t.root_ancestor(a), Ok(0));
    assert_eq!(t.root_ancestor(workspace), Ok(0));
    assert_eq!(t.root_ancestor(monitor), Ok(0));
    assert_eq!(t.root_ancestor(0), Ok(0));
    // A detached container is its own top.
    let b = t.create_window(22, rect(0, 0, 10, 10), WindowState::Tiling).unwrap();
    assert_eq!(t.root_ancestor(b), Ok(b));
    assert_eq!(t.root_ancestor(999), Err(WmError::LookupFailure));
}

#[test]
fn parent_child_consistency_holds_after_mutations() {
    let (mut t, monitor, workspace) = sample_tree();
    let a = t.create_window(11, rect(0, 0, 10, 10), WindowState::Tiling).unwrap();
    let b = t.create_window(22, rect(0, 0, 10, 10), WindowState::Tiling).unwrap();
    t.insert_child(workspace, 0, a).unwrap();
    t.insert_child(workspace, 1, b).unwrap();
    t.detach(a).unwrap();
    for c in 0..t.containers.len() {
        if let Some(p) = t.parent_of(c) {
            assert!(t.children(p).contains(&c));
        }
        for child in t.children(c) {
            assert_eq!(t.parent_of(child), Some(c));
        }
    }
    let _ = monitor;
}

#[test]
fn tiling_children_filters_non_tiling() {
    let (mut t, _monitor, workspace) = sample_tree();
    let a = t.create_window(11, rect(0, 0, 10, 10), WindowState::Tiling).unwrap();
    let split = t
        .create_container(ContainerKind::Split, rect(0, 0, 10, 10))
        .unwrap();
    let f = t
        .create_window(
            22,
            rect(0, 0, 10, 10),
            WindowState::Floating(wm::tree::FloatingConfig {
                centered: false,
                shown_on_top: false,
            }),
        )
        .unwrap();
    t.insert_child(workspace, 0, a).unwrap();
    t.insert_child(workspace, 1, split).unwrap();
    t.insert_child(workspace, 2, f).unwrap();
    assert_eq!(t.children(workspace), vec![a, split, f]);
    assert_eq!(t.tiling_children(workspace), vec![a, split]);
}

#[test]
fn insert_tiling_child_requires_tiling_kinds() {
    let (mut t, monitor, workspace) = sample_tree();
    let a = t.create_window(11, rect(0, 0, 10, 10), WindowState::Tiling).unwrap();
    // A monitor does not lay out tiling children.
    assert_eq!(
        t.insert_tiling_child(monitor, 0, a),
        Err(WmError::InvariantViolation)
    );
    t.insert_tiling_child(workspace, 0, a).unwrap();
    assert_eq!(t.children(workspace), vec![a]);
    // A floating window is not a tiling container.
    let f = t
        .create_window(
            22,
            rect(0, 0, 10, 10),
            WindowState::Floating(wm::tree::FloatingConfig {
                centered: true,
                shown_on_top: false,
            }),
        )
        .unwrap();
    assert_eq!(
        t.insert_tiling_child(workspace, 0, f),
        Err(WmError::InvariantViolation)
    );
}

#[test]
fn cached_metadata_is_populated_at_most_once() {
    let mut t = Tree::new();
    let a = t.create_window(11, rect(0, 0, 10, 10), WindowState::Tiling).unwrap();
    t.cache_title(a, String::from("first"));
    t.cache_title(a, String::from("second"));
    t.cache_process_name(a, String::from("proc"));
    t.cache_class_name(a, String::from("class"));
    let data = t.containers[a].window.as_ref().unwrap();
    assert_eq!(data.title.as_deref(), Some("first"));
    assert_eq!(data.process_name.as_deref(), Some("proc"));
    assert_eq!(data.class_name.as_deref(), Some("class"));
}

#[test]
fn position_accessors_read_the_frame() {
    let mut t = Tree::new();
    let a = t
        .create_window(11, rect(15, -20, 300, 200), WindowState::Tiling)
        .unwrap();
    assert_eq!(t.x(a), 15);
    assert_eq!(t.y(a), -20);
    assert_eq!(t.width(a), 300);
    assert_eq!(t.height(a), 200);
    assert_eq!(t.frame_of(a), rect(15, -20, 300, 200));
}
