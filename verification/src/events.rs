//! The event pipeline: one pointer-move event becomes, in fixed order,
//! interactive drag handling and then focus-follow handling. Processing
//! is synchronous and run-to-completion; a failing step aborts the
//! event with the state exactly as the preceding steps left it.
//!
//! The platform binding resolves the native window under the pointer
//! and passes the result in as `under_cursor`: the handle of the
//! top-level window there, or nothing when the query failed.

use vstd::prelude::*;

use crate::WmError;
use crate::geometry::{Point, sat64, sat_sub_i64};
use crate::pending::{PendingSync, enqueue_spec};
use crate::tree::{ActiveDrag, ContainerKind, FloatingConfig, WindowState};
use crate::wm_state::{DragSession, UserConfig, WmState};

verus! {

/// One pointer-move sample: where the pointer is, and which of the
/// gesture keys are held.
#[derive(Clone, Copy, Debug, PartialEq, Eq, Structural)]
pub struct MouseMoveEvent {
    /// The pointer position in virtual-desktop coordinates.
    pub point: Point,
    /// Whether the primary button is held.
    pub is_mouse_down: bool,
    /// Whether the designated drag modifier is held.
    pub is_modifier_down: bool,
}

/// The floating placement a drag promotion applies.
pub open spec fn drag_promotion_config() -> FloatingConfig {
    FloatingConfig { centered: false, shown_on_top: true }
}

/// Everything `handle_alt_snap` does, for every input. With the button
/// up the session resets. With the button held but no modifier, only
/// the last sampled point advances. With both held, the window under
/// the cursor is promoted to floating once per session, translated by
/// the delta from the previous sample, and flagged for redraw and
/// focus sync; a resolution failure or a lookup miss aborts the event
/// with the state unchanged.
pub open spec fn drag_post(
    pre: WmState,
    post: WmState,
    event: MouseMoveEvent,
    under_cursor: Option<u64>,
    r: Result<(), WmError>,
) -> bool {
    if !event.is_mouse_down {
        &&& post == WmState { drag: DragSession::initial(), ..pre }
        &&& r == Ok::<(), WmError>(())
    } else if !event.is_modifier_down {
        &&& post == WmState {
            drag: DragSession {
                old_mouse_position: Some(event.point),
                is_currently_moving: pre.drag.is_currently_moving,
            },
            ..pre
        }
        &&& r == Ok::<(), WmError>(())
    } else {
        match under_cursor {
            None => post == pre && r == Err::<(), WmError>(WmError::PlatformCallFailure),
            Some(h) => {
                if !pre.tree.handle_index@.contains_key(h) {
                    post == pre && r == Err::<(), WmError>(WmError::LookupFailure)
                } else {
                    let w = pre.tree.handle_index@[h];
                    let wi = w as int;
                    let old_pos = if pre.drag.old_mouse_position is Some {
                        pre.drag.old_mouse_position.unwrap()
                    } else {
                        event.point
                    };
                    let dx = sat64(event.point.x - old_pos.x) as i64;
                    let dy = sat64(event.point.y - old_pos.y) as i64;
                    &&& r == Ok::<(), WmError>(())
                    &&& post.focused == pre.focused
                    &&& post.drag == DragSession {
                        old_mouse_position: Some(event.point),
                        is_currently_moving: true,
                    }
                    &&& post.pending_sync.containers_to_redraw@ == enqueue_spec(
                        pre.pending_sync.containers_to_redraw@,
                        w,
                    )
                    &&& post.pending_sync.focus_change
                    &&& post.tree.spec_len() == pre.tree.spec_len()
                    &&& post.tree.handle_index@ == pre.tree.handle_index@
                    &&& post.tree.is_window(wi)
                    &&& post.tree.node(wi).frame == pre.tree.node(wi).frame.spec_translate(
                        dx,
                        dy,
                    )
                    &&& post.tree.win(wi).floating_placement == post.tree.node(wi).frame
                    &&& post.tree.win(wi).handle == pre.tree.win(wi).handle
                    &&& post.tree.win(wi).title == pre.tree.win(wi).title
                    &&& post.tree.win(wi).process_name == pre.tree.win(wi).process_name
                    &&& post.tree.win(wi).class_name == pre.tree.win(wi).class_name
                    &&& if pre.drag.is_currently_moving {
                        // The session is already running: no state
                        // transition, no structural change.
                        &&& post.tree.win(wi).state == pre.tree.win(wi).state
                        &&& post.tree.win(wi).active_drag == pre.tree.win(wi).active_drag
                        &&& post.tree.win(wi).prev_tiling_position == pre.tree.win(
                            wi,
                        ).prev_tiling_position
                        &&& post.tree.node(wi).parent == pre.tree.node(wi).parent
                        &&& post.tree.node(wi).kind == pre.tree.node(wi).kind
                        &&& forall|j: int|
                            0 <= j < pre.tree.spec_len() && j != wi ==> post.tree.node(j)
                                == pre.tree.node(j)
                    } else {
                        // First qualifying sample: promote to floating
                        // exactly once and record the drag.
                        &&& post.tree.win(wi).state == WindowState::Floating(
                            drag_promotion_config(),
                        )
                        &&& post.tree.node(wi).kind == ContainerKind::NonTilingWindow
                        &&& post.tree.win(wi).active_drag == Some(
                            ActiveDrag {
                                is_from_tiling: pre.tree.win(wi).state is Tiling,
                            },
                        )
                        &&& crate::wm_state::leave_layout_tree(pre.tree, post.tree, w)
                    }
                }
            },
        }
    }
}

/// Everything `handle_focus_on_hover` does, for every input. The
/// handler is inert while the button is held or the feature is off;
/// otherwise the managed window under the cursor, when there is one
/// and it is not already focused, becomes the focused container and
/// the focus change is flagged. An unmanaged window under the cursor
/// is no work; a resolution failure or a missing focus cursor aborts
/// the event with the state unchanged.
pub open spec fn focus_post(
    pre: WmState,
    post: WmState,
    event: MouseMoveEvent,
    under_cursor: Option<u64>,
    config: UserConfig,
    r: Result<(), WmError>,
) -> bool {
    if event.is_mouse_down || !config.focus_follows_cursor {
        post == pre && r == Ok::<(), WmError>(())
    } else {
        match under_cursor {
            None => post == pre && r == Err::<(), WmError>(WmError::PlatformCallFailure),
            Some(h) => {
                if !pre.tree.handle_index@.contains_key(h) {
                    post == pre && r == Ok::<(), WmError>(())
                } else if pre.focused is None {
                    post == pre && r == Err::<(), WmError>(WmError::LookupFailure)
                } else {
                    let w = pre.tree.handle_index@[h];
                    if pre.focused == Some(w) {
                        post == pre && r == Ok::<(), WmError>(())
                    } else {
                        &&& r == Ok::<(), WmError>(())
                        &&& post == WmState {
                            focused: Some(w),
                            pending_sync: PendingSync {
                                focus_change: true,
                                containers_to_redraw: pre.pending_sync.containers_to_redraw,
                            },
                            ..pre
                        }
                    }
                }
            },
        }
    }
}

/// Everything `handle_mouse_move` does: drag handling first; then,
/// only with the button up, focus-follow handling over the state the
/// drag handler left (with the button up that is the state with the
/// drag session reset).
pub open spec fn mouse_move_post(
    pre: WmState,
    post: WmState,
    event: MouseMoveEvent,
    under_cursor: Option<u64>,
    config: UserConfig,
    r: Result<(), WmError>,
) -> bool {
    if event.is_mouse_down {
        drag_post(pre, post, event, under_cursor, r)
    } else {
        focus_post(
            WmState { drag: DragSession::initial(), ..pre },
            post,
            event,
            under_cursor,
            config,
            r,
        )
    }
}

/// Interactive drag handling: see `drag_post` for the full contract.
pub fn handle_alt_snap(
    event: &MouseMoveEvent,
    under_cursor: Option<u64>,
    state: &mut WmState,
) -> (r: Result<(), WmError>)
    requires
        old(state).wf(),
    ensures
        final(state).wf(),
        drag_post(*old(state), *final(state), *event, under_cursor, r),
{
    if !event.is_mouse_down {
        // Button release: the session ends.
        state.drag = DragSession::reset();
        return Ok(());
    }
    if !event.is_modifier_down {
        // Not a drag gesture; keep deltas relative to the immediately
        // preceding sample.
        state.drag.old_mouse_position = Some(event.point);
        return Ok(());
    }
    let h = match under_cursor {
        Some(h) => h,
        None => {
            return Err(WmError::PlatformCallFailure);
        },
    };
    let w = match state.tree.lookup_by_handle(h) {
        Some(w) => w,
        None => {
            return Err(WmError::LookupFailure);
        },
    };
    let ghost pre = *state;
    let old_pos = match state.drag.old_mouse_position {
        Some(p) => p,
        None => event.point,
    };
    let dx = sat_sub_i64(event.point.x, old_pos.x);
    let dy = sat_sub_i64(event.point.y, old_pos.y);
    let ghost promoting = !state.drag.is_currently_moving;
    let ghost mut m1 = *state;
    let ghost mut m2 = *state;
    if !state.drag.is_currently_moving {
        // First qualifying sample of the session: promote the window
        // to floating exactly once, keeping its current geometry.
        let frame = state.tree.frame_of(w);
        state.tree.set_floating_placement(w, frame);
        proof {
            m1 = *state;
        }
        let was_tiling = matches!(state.tree.containers[w].kind, ContainerKind::TilingWindow);
        proof {
            assert(state.tree.node_ok(w as int));
        }
        let promoted = state.set_state(
            w,
            WindowState::Floating(FloatingConfig { centered: false, shown_on_top: true }),
        );
        proof {
            assert(promoted is Ok);
            m2 = *state;
        }
        state.tree.set_active_drag(w, Some(ActiveDrag { is_from_tiling: was_tiling }));
        state.drag.is_currently_moving = true;
    }
    let ghost m3 = *state;
    // Translate the window's current frame by the delta and commit it.
    let frame = state.tree.frame_of(w);
    let new_frame = frame.translate(dx, dy);
    state.tree.set_frame(w, new_frame);
    state.tree.set_floating_placement(w, new_frame);
    state.pending_sync.enqueue(w);
    state.pending_sync.focus_change = true;
    state.drag.old_mouse_position = Some(event.point);
    proof {
        crate::pending::lemma_redraw_dedup(pre.pending_sync.containers_to_redraw@, w);
        let wi = w as int;
        let post = *state;
        if promoting {
            if pre.tree.win(wi).state is Tiling && pre.tree.node(wi).parent is Some {
                assert(pre.tree.parent_link_ok(wi));
                let p = pre.tree.node(wi).parent.unwrap() as int;
                assert(m1.tree.win(wi).state is Tiling && m1.tree.node(wi).parent is Some);
                assert(crate::wm_state::leave_layout_tree(m1.tree, m2.tree, w));
                assert(m1.tree.node(p) == pre.tree.node(p));
                assert forall|j: int|
                    0 <= j < pre.tree.spec_len() && j != wi && j != p implies post.tree.node(
                    j,
                ) == pre.tree.node(j) by {
                    assert(m1.tree.node(j) == pre.tree.node(j));
                    assert(m2.tree.node(j) == m1.tree.node(j));
                    assert(m3.tree.node(j) == m2.tree.node(j));
                    assert(post.tree.node(j) == m3.tree.node(j));
                }
                assert(post.tree.node(p) == m2.tree.node(p));
                assert(crate::wm_state::leave_layout_tree(pre.tree, post.tree, w));
            } else {
                assert(!(m1.tree.win(wi).state is Tiling && m1.tree.node(wi).parent is Some));
                assert forall|j: int|
                    0 <= j < pre.tree.spec_len() && j != wi implies post.tree.node(j)
                    == pre.tree.node(j) by {
                    assert(m1.tree.node(j) == pre.tree.node(j));
                    assert(m2.tree.node(j) == m1.tree.node(j));
                    assert(m3.tree.node(j) == m2.tree.node(j));
                    assert(post.tree.node(j) == m3.tree.node(j));
                }
                assert(crate::wm_state::leave_layout_tree(pre.tree, post.tree, w));
            }
            assert(post.tree.win(wi).state == WindowState::Floating(drag_promotion_config()));
        }
    }
    Ok(())
}

/// Focus-follow handling: see `focus_post` for the full contract.
pub fn handle_focus_on_hover(
    event: &MouseMoveEvent,
    under_cursor: Option<u64>,
    state: &mut WmState,
    config: &UserConfig,
) -> (r: Result<(), WmError>)
    requires
        old(state).wf(),
    ensures
        final(state).wf(),
        focus_post(*old(state), *final(state), *event, under_cursor, *config, r),
{
    // Ignore the event while a button is down: focus would jitter when
    // a window is resized by its drag handles, which also produces
    // held-button move events.
    if event.is_mouse_down || !config.focus_follows_cursor {
        return Ok(());
    }
    let h = match under_cursor {
        Some(h) => h,
        None => {
            return Err(WmError::PlatformCallFailure);
        },
    };
    let w = match state.tree.lookup_by_handle(h) {
        Some(w) => w,
        None => {
            return Ok(());
        },
    };
    let focused = match state.focused_container() {
        Some(f) => f,
        None => {
            return Err(WmError::LookupFailure);
        },
    };
    // Set focus to whichever window is currently under the cursor.
    if focused != w {
        state.set_focused_descendant(w);
        state.pending_sync.focus_change = true;
    }
    Ok(())
}

/// One pointer-move event, fully processed: drag handling first, then
/// focus-follow handling over what it left. See `mouse_move_post`.
pub fn handle_mouse_move(
    event: &MouseMoveEvent,
    under_cursor: Option<u64>,
    state: &mut WmState,
    config: &UserConfig,
) -> (r: Result<(), WmError>)
    requires
        old(state).wf(),
    ensures
        final(state).wf(),
        mouse_move_post(*old(state), *final(state), *event, under_cursor, *config, r),
{
    let drag_result = handle_alt_snap(event, under_cursor, state);
    if drag_result.is_err() {
        return drag_result;
    }
    handle_focus_on_hover(event, under_cursor, state, config)
}

/// Law: promotion-once. Over consecutive qualifying drag events of one
/// continuous session on the same window, the first event makes the
/// window floating and starts the session; the next event leaves its
/// state untouched — the window transitions exactly once, not once per
/// event.
pub proof fn lemma_promotion_once(
    s0: WmState,
    s1: WmState,
    s2: WmState,
    e1: MouseMoveEvent,
    e2: MouseMoveEvent,
    h: u64,
    w: usize,
)
    requires
        e1.is_mouse_down && e1.is_modifier_down,
        e2.is_mouse_down && e2.is_modifier_down,
        s0.tree.handle_index@.contains_key(h),
        w == s0.tree.handle_index@[h],
        !s0.drag.is_currently_moving,
        drag_post(s0, s1, e1, Some(h), Ok(())),
        drag_post(s1, s2, e2, Some(h), Ok(())),
    ensures
        s1.drag.is_currently_moving,
        s1.tree.win(w as int).state == WindowState::Floating(drag_promotion_config()),
        s2.tree.win(w as int).state == s1.tree.win(w as int).state,
{
}

/// Law: focus is suppressed while the primary button is held. Whatever
/// window sits under the cursor, an event with the button down never
/// changes the focused container.
pub proof fn lemma_focus_suppressed_during_button_down(
    pre: WmState,
    post: WmState,
    event: MouseMoveEvent,
    under_cursor: Option<u64>,
    config: UserConfig,
    r: Result<(), WmError>,
)
    requires
        event.is_mouse_down,
        mouse_move_post(pre, post, event, under_cursor, config, r),
    ensures
        post.focused == pre.focused,
{
}

} // verus!
