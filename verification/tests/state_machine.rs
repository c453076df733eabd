use wm::WmError;
use wm::geometry::Rect;
use wm::tree::{ContainerKind, FloatingConfig, WindowState};
use wm::wm_state::WmState;

fn rect(x: i64, y: i64, w: i64, h: i64) -> Rect {
    Rect::from_xy(x, y, w, h)
}

fn floating(centered: bool, shown_on_top: bool) -> WindowState {
    WindowState::Floating(FloatingConfig {
        centered,
        shown_on_top,
    })
}

/// A state with root → monitor → workspace and two tiled windows.
fn sample_state() -> (WmState, usize, usize, usize) {
    let mut state = WmState::new();
    let monitor = state
        .tree
        .create_container(ContainerKind::Monitor, rect(0, 0, 1920, 1080))
        .unwrap();
    state.tree.insert_child(0, 0, monitor).unwrap();
    let workspace = state
        .tree
        .create_container(ContainerKind::Workspace, rect(0, 0, 1920, 1080))
        .unwrap();
    state.tree.insert_child(monitor, 0, workspace).unwrap();
    let a = state
        .tree
        .create_window(100, rect(0, 0, 960, 1080), WindowState::Tiling)
        .unwrap();
    state.tree.insert_child(workspace, 0, a).unwrap();
    let b = state
        .tree
        .create_window(200, rect(960, 0, 960, 1080), WindowState::Tiling)
        .unwrap();
    state.tree.insert_child(workspace, 1, b).unwrap();
    (state, workspace, a, b)
}

#[test]
fn tiling_to_floating_detaches_and_remembers() {
    let (mut state, workspace, a, b) = sample_state();
    state.set_state(a, floating(false, true)).unwrap();
    // Detached from the workspace; position remembered for restoration.
    assert_eq!(state.tree.parent_of(a), None);
    assert_eq!(state.tree.children(workspace), vec![b]);
    let data = state.tree.containers[a].window.as_ref().unwrap();
    assert_eq!(data.prev_tiling_position, Some((workspace, 0)));
    assert!(matches!(
        state.tree.window_state(a),
        WindowState::Floating(FloatingConfig {
            centered: false,
            shown_on_top: true
        })
    ));
    // Non-centered placement keeps the window's explicit bounds.
    assert_eq!(state.tree.frame_of(a), rect(0, 0, 960, 1080));
    // The transition is flagged for redraw.
    assert_eq!(state.pending_sync.containers_to_redraw, vec![a]);
}

#[test]
fn centered_floating_centers_within_parent() {
    let (mut state, _workspace, a, _b) = sample_state();
    state.set_state(a, floating(true, false)).unwrap();
    // 1920x1080 area, 960x1080 window: centered at x = (1920-960)/2.
    assert_eq!(state.tree.frame_of(a), rect(480, 0, 960, 1080));
}

#[test]
fn set_state_is_idempotent() {
    let (mut state, workspace, a, _b) = sample_state();
    state.set_state(a, floating(false, true)).unwrap();
    let frame1 = state.tree.frame_of(a);
    let redraw1 = state.pending_sync.containers_to_redraw.clone();
    // The second identical call succeeds and observes no change.
    state.set_state(a, floating(false, true)).unwrap();
    assert_eq!(state.tree.frame_of(a), frame1);
    assert_eq!(state.tree.parent_of(a), None);
    assert_eq!(state.pending_sync.containers_to_redraw, redraw1);
    assert_eq!(state.tree.children(workspace).len(), 1);
}

#[test]
fn floating_back_to_tiling_restores_position() {
    let (mut state, workspace, a, b) = sample_state();
    state.set_state(a, floating(false, true)).unwrap();
    state.set_state(a, WindowState::Tiling).unwrap();
    // Reinserted at the remembered original position.
    assert_eq!(state.tree.parent_of(a), Some(workspace));
    assert_eq!(state.tree.children(workspace), vec![a, b]);
    assert!(matches!(state.tree.window_state(a), WindowState::Tiling));
    let data = state.tree.containers[a].window.as_ref().unwrap();
    assert_eq!(data.prev_tiling_position, None);
}

#[test]
fn retile_falls_back_to_slot_after_focused() {
    let (mut state, workspace, a, b) = sample_state();
    state.set_state(a, floating(false, true)).unwrap();
    // Make the remembered position unusable by clearing it.
    state.tree.containers[a].window.as_mut().unwrap().prev_tiling_position = None;
    state.set_focused_descendant(b);
    state.set_state(a, WindowState::Tiling).unwrap();
    // Inserted right after the focused container.
    assert_eq!(state.tree.children(workspace), vec![b, a]);
}

#[test]
fn retile_without_anchor_is_lookup_failure() {
    let mut state = WmState::new();
    let a = state
        .tree
        .create_window(100, rect(0, 0, 10, 10), floating(false, false))
        .unwrap();
    // No remembered position and no focused container to sit next to.
    assert_eq!(
        state.set_state(a, WindowState::Tiling),
        Err(WmError::LookupFailure)
    );
    assert!(matches!(
        state.tree.window_state(a),
        WindowState::Floating(_)
    ));
}

#[test]
fn minimize_records_prior_state_and_restores_it() {
    let (mut state, workspace, a, b) = sample_state();
    state
        .set_state(a, WindowState::Minimized(Box::new(WindowState::Tiling)))
        .unwrap();
    // The machine records the actual pre-transition state.
    match state.tree.window_state(a) {
        WindowState::Minimized(prior) => assert!(matches!(**prior, WindowState::Tiling)),
        other => panic!("unexpected state {:?}", other),
    }
    // A minimized window has left the tiling layout.
    assert_eq!(state.tree.parent_of(a), None);
    // The reverse transition restores exactly the recorded state.
    state.set_state(a, WindowState::Tiling).unwrap();
    assert!(matches!(state.tree.window_state(a), WindowState::Tiling));
    assert_eq!(state.tree.children(workspace), vec![a, b]);
}

#[test]
fn fullscreen_records_floating_prior_exactly() {
    let (mut state, _workspace, a, _b) = sample_state();
    state.set_state(a, floating(false, true)).unwrap();
    state
        .set_state(a, WindowState::Fullscreen(Box::new(WindowState::Tiling)))
        .unwrap();
    match state.tree.window_state(a) {
        WindowState::Fullscreen(prior) => match &**prior {
            WindowState::Floating(cfg) => {
                assert!(!cfg.centered);
                assert!(cfg.shown_on_top);
            }
            other => panic!("unexpected prior {:?}", other),
        },
        other => panic!("unexpected state {:?}", other),
    }
    // Leaving fullscreen for the recorded floating state keeps it.
    state.set_state(a, floating(false, true)).unwrap();
    assert!(matches!(
        state.tree.window_state(a),
        WindowState::Floating(_)
    ));
}

#[test]
fn transition_of_focused_window_flags_focus_change() {
    let (mut state, _workspace, a, _b) = sample_state();
    state.set_focused_descendant(a);
    assert!(!state.pending_sync.focus_change);
    state.set_state(a, floating(false, true)).unwrap();
    assert!(state.pending_sync.focus_change);
}

#[test]
fn transition_of_unfocused_window_leaves_flag() {
    let (mut state, _workspace, a, b) = sample_state();
    state.set_focused_descendant(b);
    state.set_state(a, floating(false, true)).unwrap();
    assert!(!state.pending_sync.focus_change);
}

#[test]
fn set_state_on_non_window_is_lookup_failure() {
    let (mut state, workspace, _a, _b) = sample_state();
    assert_eq!(
        state.set_state(workspace, WindowState::Tiling),
        Err(WmError::LookupFailure)
    );
    assert_eq!(
        state.set_state(9999, WindowState::Tiling),
        Err(WmError::LookupFailure)
    );
}

#[test]
fn pending_sync_drains_all_or_nothing() {
    let (mut state, _workspace, a, b) = sample_state();
    state.set_state(a, floating(false, true)).unwrap();
    state.set_state(b, floating(false, true)).unwrap();
    state.pending_sync.focus_change = true;
    let (focus_change, redraw) = state.pending_sync.drain();
    assert!(focus_change);
    assert_eq!(redraw, vec![a, b]);
    assert!(!state.pending_sync.focus_change);
    assert!(state.pending_sync.containers_to_redraw.is_empty());
}
