use wm::WmError;
use wm::events::{MouseMoveEvent, handle_alt_snap, handle_focus_on_hover, handle_mouse_move};
use wm::geometry::{Point, Rect};
use wm::tree::{ContainerKind, FloatingConfig, WindowState};
use wm::wm_state::{UserConfig, WmState};

fn rect(x: i64, y: i64, w: i64, h: i64) -> Rect {
    Rect::from_xy(x, y, w, h)
}

fn event(x: i64, y: i64, down: bool, modifier: bool) -> MouseMoveEvent {
    MouseMoveEvent {
        point: Point { x, y },
        is_mouse_down: down,
        is_modifier_down: modifier,
    }
}

const HANDLE_A: u64 = 100;
const HANDLE_B: u64 = 200;

/// A state with two tiled windows `a` (focusable) and `b`.
fn sample_state() -> (WmState, usize, usize) {
    let mut state = WmState::new();
    let monitor = state
        .tree
        .create_container(ContainerKind::Monitor, rect(0, 0, 1920, 1080))
        .unwrap();
    state.tree.insert_child(0, 0, monitor).unwrap();
    let workspace = state
        .tree
        .create_container(ContainerKind::Workspace, rect(0, 0, 1920, 1080))
        .unwrap();
    state.tree.insert_child(monitor, 0, workspace).unwrap();
    let a = state
        .tree
        .create_window(HANDLE_A, rect(0, 0, 960, 1080), WindowState::Tiling)
        .unwrap();
    state.tree.insert_child(workspace, 0, a).unwrap();
    let b = state
        .tree
        .create_window(HANDLE_B, rect(960, 0, 960, 1080), WindowState::Tiling)
        .unwrap();
    state.tree.insert_child(workspace, 1, b).unwrap();
    (state, a, b)
}

fn follow_cursor() -> UserConfig {
    UserConfig {
        focus_follows_cursor: true,
    }
}

#[test]
fn drag_translates_by_delta_between_samples() {
    let (mut state, _a, b) = sample_state();
    let pre_drag = state.tree.frame_of(b);
    // First sample of the session at (100, 100): zero delta.
    handle_mouse_move(
        &event(100, 100, true, true),
        Some(HANDLE_B),
        &mut state,
        &follow_cursor(),
    )
    .unwrap();
    assert_eq!(state.tree.frame_of(b), pre_drag);
    // Next sample at (110, 95): the frame translates by (+10, -5)
    // relative to the pre-drag frame.
    handle_mouse_move(
        &event(110, 95, true, true),
        Some(HANDLE_B),
        &mut state,
        &follow_cursor(),
    )
    .unwrap();
    assert_eq!(
        state.tree.frame_of(b),
        rect(pre_drag.x + 10, pre_drag.y - 5, pre_drag.width, pre_drag.height)
    );
}

#[test]
fn drag_promotes_to_floating_exactly_once() {
    let (mut state, _a, b) = sample_state();
    for (x, y) in [(100, 100), (110, 95), (120, 90)] {
        handle_mouse_move(
            &event(x, y, true, true),
            Some(HANDLE_B),
            &mut state,
            &follow_cursor(),
        )
        .unwrap();
        // After every qualifying event of the session the window is
        // floating with the drag placement, promoted exactly once.
        assert!(state.drag.is_currently_moving);
        assert!(matches!(
            state.tree.window_state(b),
            WindowState::Floating(FloatingConfig {
                centered: false,
                shown_on_top: true
            })
        ));
    }
    // The original tiling position was remembered by the single
    // promotion and not overwritten by later events.
    let data = state.tree.containers[b].window.as_ref().unwrap();
    assert_eq!(data.prev_tiling_position.map(|p| p.1), Some(1));
    assert_eq!(data.active_drag.map(|d| d.is_from_tiling), Some(true));
}

#[test]
fn drag_session_resets_on_button_up() {
    let (mut state, _a, b) = sample_state();
    handle_mouse_move(
        &event(100, 100, true, true),
        Some(HANDLE_B),
        &mut state,
        &follow_cursor(),
    )
    .unwrap();
    assert!(state.drag.is_currently_moving);
    assert_eq!(state.drag.old_mouse_position, Some(Point { x: 100, y: 100 }));
    // Button up ends the session.
    handle_mouse_move(
        &event(105, 100, false, true),
        Some(HANDLE_B),
        &mut state,
        &UserConfig {
            focus_follows_cursor: false,
        },
    )
    .unwrap();
    assert!(!state.drag.is_currently_moving);
    assert_eq!(state.drag.old_mouse_position, None);
}

#[test]
fn drag_enqueues_redraw_and_focus_change() {
    let (mut state, _a, b) = sample_state();
    handle_mouse_move(
        &event(100, 100, true, true),
        Some(HANDLE_B),
        &mut state,
        &follow_cursor(),
    )
    .unwrap();
    // One entry for the window, though the promotion and the move both
    // flag it.
    assert_eq!(state.pending_sync.containers_to_redraw, vec![b]);
    assert!(state.pending_sync.focus_change);
}

#[test]
fn redraw_set_deduplicates() {
    let mut pending = wm::pending::PendingSync::new();
    pending.enqueue(7);
    pending.enqueue(7);
    assert_eq!(pending.containers_to_redraw, vec![7]);
    pending.enqueue(9);
    pending.enqueue(7);
    assert_eq!(pending.containers_to_redraw, vec![7, 9]);
}

#[test]
fn drag_without_resolution_is_platform_failure() {
    let (mut state, _a, _b) = sample_state();
    assert_eq!(
        handle_mouse_move(&event(100, 100, true, true), None, &mut state, &follow_cursor()),
        Err(WmError::PlatformCallFailure)
    );
    // The failed event left no trace, not even a sampled point.
    assert_eq!(state.drag.old_mouse_position, None);
}

#[test]
fn drag_over_unmanaged_window_is_lookup_failure() {
    let (mut state, _a, _b) = sample_state();
    assert_eq!(
        handle_mouse_move(&event(100, 100, true, true), Some(999), &mut state, &follow_cursor()),
        Err(WmError::LookupFailure)
    );
}

#[test]
fn button_down_without_modifier_only_samples() {
    let (mut state, _a, b) = sample_state();
    let pre = state.tree.frame_of(b);
    handle_mouse_move(
        &event(100, 100, true, false),
        Some(HANDLE_B),
        &mut state,
        &follow_cursor(),
    )
    .unwrap();
    assert_eq!(state.tree.frame_of(b), pre);
    assert!(!state.drag.is_currently_moving);
    assert_eq!(state.drag.old_mouse_position, Some(Point { x: 100, y: 100 }));
}

#[test]
fn focus_suppressed_while_button_down() {
    let (mut state, a, _b) = sample_state();
    state.set_focused_descendant(a);
    // Pointer over B with the button held: focus must not move.
    handle_mouse_move(
        &event(1000, 500, true, false),
        Some(HANDLE_B),
        &mut state,
        &follow_cursor(),
    )
    .unwrap();
    assert_eq!(state.focused_container(), Some(a));
    assert!(!state.pending_sync.focus_change);
}

#[test]
fn focus_follows_cursor_over_other_window() {
    let (mut state, a, b) = sample_state();
    state.set_focused_descendant(a);
    // Pointer moves over window B, button up, feature on.
    handle_mouse_move(
        &event(1000, 500, false, false),
        Some(HANDLE_B),
        &mut state,
        &follow_cursor(),
    )
    .unwrap();
    assert_eq!(state.focused_container(), Some(b));
    assert!(state.pending_sync.focus_change);
}

#[test]
fn focus_follow_disabled_changes_nothing() {
    let (mut state, a, _b) = sample_state();
    state.set_focused_descendant(a);
    handle_mouse_move(
        &event(1000, 500, false, false),
        Some(HANDLE_B),
        &mut state,
        &UserConfig {
            focus_follows_cursor: false,
        },
    )
    .unwrap();
    assert_eq!(state.focused_container(), Some(a));
    assert!(!state.pending_sync.focus_change);
}

#[test]
fn focus_on_already_focused_window_is_a_no_op() {
    let (mut state, a, _b) = sample_state();
    state.set_focused_descendant(a);
    handle_mouse_move(
        &event(10, 10, false, false),
        Some(HANDLE_A),
        &mut state,
        &follow_cursor(),
    )
    .unwrap();
    assert_eq!(state.focused_container(), Some(a));
    assert!(!state.pending_sync.focus_change);
}

#[test]
fn focus_over_unmanaged_window_is_a_no_op() {
    let (mut state, a, _b) = sample_state();
    state.set_focused_descendant(a);
    handle_focus_on_hover(
        &event(10, 10, false, false),
        Some(12345),
        &mut state,
        &follow_cursor(),
    )
    .unwrap();
    assert_eq!(state.focused_container(), Some(a));
    assert!(!state.pending_sync.focus_change);
}

#[test]
fn focus_without_focused_container_is_lookup_failure() {
    let (mut state, _a, _b) = sample_state();
    assert_eq!(
        handle_focus_on_hover(
            &event(10, 10, false, false),
            Some(HANDLE_B),
            &mut state,
            &follow_cursor(),
        ),
        Err(WmError::LookupFailure)
    );
}

#[test]
fn alt_snap_alone_never_touches_focus() {
    let (mut state, a, _b) = sample_state();
    state.set_focused_descendant(a);
    handle_alt_snap(&event(100, 100, true, true), Some(HANDLE_B), &mut state).unwrap();
    assert_eq!(state.focused_container(), Some(a));
}

#[test]
fn drag_of_floating_window_records_non_tiling_origin() {
    let (mut state, _a, b) = sample_state();
    state
        .set_state(
            b,
            WindowState::Floating(FloatingConfig {
                centered: false,
                shown_on_top: false,
            }),
        )
        .unwrap();
    let frame = state.tree.frame_of(b);
    handle_alt_snap(&event(50, 60, true, true), Some(HANDLE_B), &mut state).unwrap();
    // The session starts, the drag placement applies, and the drag
    // records that the window did not come from the tiling layout.
    assert!(state.drag.is_currently_moving);
    assert!(matches!(
        state.tree.window_state(b),
        WindowState::Floating(FloatingConfig {
            centered: false,
            shown_on_top: true
        })
    ));
    assert_eq!(state.tree.frame_of(b), frame);
    let data = state.tree.containers[b].window.as_ref().unwrap();
    assert_eq!(data.active_drag.map(|d| d.is_from_tiling), Some(false));
}
