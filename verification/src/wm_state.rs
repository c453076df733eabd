//! Process-wide window-manager state: the container tree, the focus
//! cursor, the pending-sync accumulator and the drag session — plus the
//! window state machine entry point `set_state`.

use vstd::prelude::*;

use crate::WmError;
use crate::geometry::{Point, Rect, sat64};
use crate::pending::{PendingSync, enqueue_spec};
use crate::tree::{
    ContainerKind, FloatingConfig, Tree, WindowState, accepts_tiling_children, insert_allowed,
    kind_for_state, same_state, states_match,
};

verus! {

/// The configuration this core consumes.
#[derive(Clone, Copy, Debug, PartialEq, Eq, Structural)]
pub struct UserConfig {
    /// Whether the window under the pointer is focused as the pointer
    /// moves.
    pub focus_follows_cursor: bool,
}

/// The interactive drag session: the only state that persists mutably
/// across otherwise-independent pointer events. Reset at session end.
#[derive(Clone, Copy, Debug, PartialEq, Eq, Structural)]
pub struct DragSession {
    /// The previously sampled pointer position, if any sample exists
    /// for this session.
    pub old_mouse_position: Option<Point>,
    /// Whether a reposition is in progress; set by the first
    /// qualifying sample and cleared on release.
    pub is_currently_moving: bool,
}

impl DragSession {
    /// The no-session value.
    pub open spec fn initial() -> DragSession {
        DragSession { old_mouse_position: None, is_currently_moving: false }
    }

    /// Executable form of `initial`.
    pub fn reset() -> (r: DragSession)
        ensures
            r == DragSession::initial(),
    {
        DragSession { old_mouse_position: None, is_currently_moving: false }
    }
}

/// The process-scoped window-manager state.
#[derive(Debug)]
pub struct WmState {
    /// The container tree.
    pub tree: Tree,
    /// The currently focused container, if any.
    pub focused: Option<usize>,
    /// The batched change-set for the external apply loop.
    pub pending_sync: PendingSync,
    /// The interactive drag session.
    pub drag: DragSession,
}

/// The centering placement: `inner`'s extent placed centrally within
/// `outer` when it fits, at `outer`'s origin otherwise.
pub open spec fn centered_in(outer: Rect, inner: Rect) -> Rect {
    Rect {
        x: if outer.width >= inner.width {
            sat64(outer.x + (outer.width - inner.width) / 2) as i64
        } else {
            outer.x
        },
        y: if outer.height >= inner.height {
            sat64(outer.y + (outer.height - inner.height) / 2) as i64
        } else {
            outer.y
        },
        width: inner.width,
        height: inner.height,
    }
}

/// Executable form of `centered_in`.
pub fn center_rect(outer: &Rect, inner: &Rect) -> (r: Rect)
    ensures
        r == centered_in(*outer, *inner),
{
    let x: i64 = if outer.width >= inner.width {
        let dw: i128 = outer.width as i128 - inner.width as i128;
        let half: i128 = ((dw as u128) / 2) as i128;
        let sum: i128 = outer.x as i128 + half;
        if sum > i64::MAX as i128 {
            i64::MAX
        } else {
            sum as i64
        }
    } else {
        outer.x
    };
    let y: i64 = if outer.height >= inner.height {
        let dh: i128 = outer.height as i128 - inner.height as i128;
        let half: i128 = ((dh as u128) / 2) as i128;
        let sum: i128 = outer.y as i128 + half;
        if sum > i64::MAX as i128 {
            i64::MAX
        } else {
            sum as i64
        }
    } else {
        outer.y
    };
    Rect { x, y, width: inner.width, height: inner.height }
}

/// The geometry a window takes when it becomes floating: centered in
/// its parent container's area when the placement asks for centering
/// and the window is attached, its remembered floating placement
/// otherwise.
pub open spec fn frame_after_floating(t: Tree, w: usize, cfg: FloatingConfig) -> Rect {
    let wi = w as int;
    if cfg.centered && t.node(wi).parent is Some {
        centered_in(t.node(t.node(wi).parent.unwrap() as int).frame, t.node(wi).frame)
    } else {
        t.win(wi).floating_placement
    }
}

/// The structural part of a transition that takes window `w` out of
/// the tiling layout: a window attached in state `Tiling` is detached
/// and its position remembered; any other window keeps its links and
/// its memory.
pub open spec fn leave_layout_tree(pre: Tree, post: Tree, w: usize) -> bool {
    let wi = w as int;
    &&& post.spec_len() == pre.spec_len()
    &&& post.handle_index@ == pre.handle_index@
    &&& if pre.win(wi).state is Tiling && pre.node(wi).parent is Some {
        let pu = pre.node(wi).parent.unwrap();
        let p = pu as int;
        &&& post.node(wi).parent is None
        &&& !post.node(p).children@.contains(w)
        &&& forall|x: usize|
            x != w ==> (post.node(p).children@.contains(x) <==> pre.node(p).children@.contains(
                x,
            ))
        &&& post.node(p).children@.len() == pre.node(p).children@.len() - 1
        &&& post.win(wi).prev_tiling_position is Some
        &&& post.win(wi).prev_tiling_position.unwrap().0 == pu
        &&& {
            let k = post.win(wi).prev_tiling_position.unwrap().1 as int;
            &&& 0 <= k < pre.node(p).children@.len()
            &&& pre.node(p).children@[k] == w
        }
        &&& post.node(p).parent == pre.node(p).parent
        &&& post.node(p).depth == pre.node(p).depth
        &&& post.node(p).kind == pre.node(p).kind
        &&& post.node(p).frame == pre.node(p).frame
        &&& post.node(p).window == pre.node(p).window
        &&& forall|j: int|
            0 <= j < pre.spec_len() && j != wi && j != p ==> post.node(j) == pre.node(j)
    } else {
        &&& post.node(wi).parent == pre.node(wi).parent
        &&& post.win(wi).prev_tiling_position == pre.win(wi).prev_tiling_position
        &&& forall|j: int| 0 <= j < pre.spec_len() && j != wi ==> post.node(j) == pre.node(j)
    }
}

/// The window-payload facts every transition of `w` keeps.
pub open spec fn transition_keeps(pre: Tree, post: Tree, w: usize) -> bool {
    let wi = w as int;
    &&& post.node(wi).children@ == pre.node(wi).children@
    &&& post.win(wi).handle == pre.win(wi).handle
    &&& post.win(wi).active_drag == pre.win(wi).active_drag
    &&& post.win(wi).title == pre.win(wi).title
    &&& post.win(wi).process_name == pre.win(wi).process_name
    &&& post.win(wi).class_name == pre.win(wi).class_name
}

/// Whether the remembered tiling position of `w` can take it back.
pub open spec fn prev_pos_usable(t: Tree, w: usize) -> bool {
    &&& t.win(w as int).prev_tiling_position is Some
    &&& {
        let p = t.win(w as int).prev_tiling_position.unwrap().0;
        let idx = t.win(w as int).prev_tiling_position.unwrap().1;
        &&& t.valid(p as int)
        &&& p != w
        &&& accepts_tiling_children(t.node(p as int).kind)
        &&& idx <= t.node(p as int).children@.len()
        &&& t.node(p as int).depth < usize::MAX
    }
}

/// Whether `w` can be placed adjacent to the focused container.
pub open spec fn focus_pos_usable(t: Tree, w: usize, focused: Option<usize>) -> bool {
    &&& focused is Some
    &&& {
        let f = focused.unwrap();
        &&& t.valid(f as int)
        &&& f != w
        &&& t.node(f as int).parent is Some
        &&& {
            let p = t.node(f as int).parent.unwrap();
            &&& p != w
            &&& accepts_tiling_children(t.node(p as int).kind)
            &&& t.node(p as int).depth < usize::MAX
            &&& t.node(p as int).children@.len() < usize::MAX
        }
    }
}

/// The tiling insertion point `set_state` picks for window `w`: the
/// remembered original position when it is usable, else the slot right
/// after the focused container among its parent's children.
pub open spec fn retile_choice(
    t: Tree,
    w: usize,
    focused: Option<usize>,
    p: usize,
    idx: usize,
) -> bool {
    if prev_pos_usable(t, w) {
        &&& p == t.win(w as int).prev_tiling_position.unwrap().0
        &&& idx == t.win(w as int).prev_tiling_position.unwrap().1
    } else {
        &&& focus_pos_usable(t, w, focused)
        &&& p == t.node(focused.unwrap() as int).parent.unwrap()
        &&& idx >= 1
        &&& idx - 1 < t.node(p as int).children@.len()
        &&& t.node(p as int).children@[idx - 1] == focused.unwrap()
    }
}

/// Everything `set_state(w, target)` does, for every input: which
/// inputs are refused with which error, and field by field how the
/// state machine, the tree, the geometry and the pending-sync
/// accumulator move on the ones that are not.
pub open spec fn set_state_post(
    pre: WmState,
    post: WmState,
    w: usize,
    target: WindowState,
    r: Result<(), WmError>,
) -> bool {
    let wi = w as int;
    if !pre.tree.is_window(wi) {
        // Unknown or non-window identifier: refused, state unchanged.
        &&& post == pre
        &&& r == Err::<(), WmError>(WmError::LookupFailure)
    } else if same_state(pre.tree.win(wi).state, target) {
        // Re-entering the current state is a no-op: no tree mutation,
        // no redraw flag.
        &&& post == pre
        &&& r == Ok::<(), WmError>(())
    } else if target is Tiling && pre.tree.node(wi).parent is Some {
        // A window still attached somewhere cannot re-enter the tiling
        // layout; the caller must detach it first.
        &&& post == pre
        &&& r == Err::<(), WmError>(WmError::InvariantViolation)
    } else if target is Tiling && !(exists|p: usize, idx: usize|
        retile_choice(pre.tree, w, pre.focused, p, idx)) {
        // No usable tiling insertion point: remembered position gone
        // and no focused container to sit next to.
        &&& post == pre
        &&& r == Err::<(), WmError>(WmError::LookupFailure)
    } else {
        &&& r == Ok::<(), WmError>(())
        &&& post.focused == pre.focused
        &&& post.drag == pre.drag
        &&& post.pending_sync.containers_to_redraw@ == enqueue_spec(
            pre.pending_sync.containers_to_redraw@,
            w,
        )
        &&& post.pending_sync.focus_change == (pre.pending_sync.focus_change || pre.focused
            == Some(w))
        &&& post.tree.is_window(wi)
        &&& post.tree.node(wi).kind == kind_for_state(target)
        &&& transition_keeps(pre.tree, post.tree, w)
        &&& match target {
            WindowState::Tiling => {
                exists|p: usize, idx: usize|
                    {
                        &&& #[trigger] retile_choice(pre.tree, w, pre.focused, p, idx)
                        &&& post.tree.win(wi).state is Tiling
                        &&& post.tree.win(wi).prev_tiling_position is None
                        &&& post.tree.win(wi).floating_placement == pre.tree.win(
                            wi,
                        ).floating_placement
                        &&& post.tree.node(wi).frame == pre.tree.node(wi).frame
                        &&& post.tree.node(wi).parent == Some(p)
                        &&& post.tree.node(p as int).children@ == pre.tree.node(
                            p as int,
                        ).children@.insert(idx as int, w)
                        &&& post.tree.spec_len() == pre.tree.spec_len()
                        &&& post.tree.handle_index@ == pre.tree.handle_index@
                        &&& forall|j: int|
                            0 <= j < pre.tree.spec_len() && j != wi && j != p as int
                                ==> post.tree.node(j) == pre.tree.node(j)
                        &&& post.tree.node(p as int).parent == pre.tree.node(p as int).parent
                        &&& post.tree.node(p as int).kind == pre.tree.node(p as int).kind
                        &&& post.tree.node(p as int).frame == pre.tree.node(p as int).frame
                        &&& post.tree.node(p as int).window == pre.tree.node(p as int).window
                    }
            },
            WindowState::Floating(cfg) => {
                &&& post.tree.win(wi).state == WindowState::Floating(cfg)
                &&& leave_layout_tree(pre.tree, post.tree, w)
                &&& post.tree.node(wi).frame == frame_after_floating(pre.tree, w, cfg)
                &&& post.tree.win(wi).floating_placement == frame_after_floating(
                    pre.tree,
                    w,
                    cfg,
                )
            },
            WindowState::Minimized(_) => {
                &&& (match post.tree.win(wi).state {
                    WindowState::Minimized(prior) => *prior == pre.tree.win(wi).state,
                    _ => false,
                })
                &&& leave_layout_tree(pre.tree, post.tree, w)
                &&& post.tree.node(wi).frame == pre.tree.node(wi).frame
                &&& post.tree.win(wi).floating_placement == pre.tree.win(
                    wi,
                ).floating_placement
            },
            WindowState::Fullscreen(_) => {
                &&& (match post.tree.win(wi).state {
                    WindowState::Fullscreen(prior) => *prior == pre.tree.win(wi).state,
                    _ => false,
                })
                &&& leave_layout_tree(pre.tree, post.tree, w)
                &&& post.tree.node(wi).frame == pre.tree.node(wi).frame
                &&& post.tree.win(wi).floating_placement == pre.tree.win(
                    wi,
                ).floating_placement
            },
        }
    }
}

impl WmState {
    /// Well-formedness: the tree is well formed, the accumulator holds
    /// no duplicates, and the focus cursor names a container.
    pub open spec fn wf(self) -> bool {
        &&& self.tree.wf()
        &&& self.pending_sync.inv()
        &&& (self.focused is Some ==> self.tree.valid(self.focused.unwrap() as int))
    }

    /// A fresh state: a tree with only the root, nothing focused,
    /// nothing pending, no drag session.
    pub fn new() -> (r: WmState)
        ensures
            r.wf(),
            r.tree.spec_len() == 1,
            r.focused is None,
            !r.pending_sync.focus_change,
            r.pending_sync.containers_to_redraw@ == Seq::<usize>::empty(),
            r.drag == DragSession::initial(),
    {
        WmState {
            tree: Tree::new(),
            focused: None,
            pending_sync: PendingSync::new(),
            drag: DragSession::reset(),
        }
    }

    /// The currently focused container.
    pub fn focused_container(&self) -> (r: Option<usize>)
        ensures
            r == self.focused,
    {
        self.focused
    }

    /// Makes `c` the focused container.
    pub fn set_focused_descendant(&mut self, c: usize)
        requires
            old(self).wf(),
            old(self).tree.valid(c as int),
        ensures
            final(self).wf(),
            final(self).focused == Some(c),
            final(self).tree == old(self).tree,
            final(self).pending_sync == old(self).pending_sync,
            final(self).drag == old(self).drag,
    {
        self.focused = Some(c);
    }

    /// The tree window managing the native handle, if any.
    pub fn window_from_native(&self, handle: u64) -> (r: Option<usize>)
        requires
            self.wf(),
        ensures
            match r {
                Some(id) => self.tree.is_window(id as int) && self.tree.win(id as int).handle
                    == handle,
                None => !self.tree.handle_index@.contains_key(handle),
            },
    {
        self.tree.lookup_by_handle(handle)
    }

    /// The window state machine's single entry point: moves window `w`
    /// to `target`. Re-entering the current state is a no-op. Entering
    /// `Floating` detaches a tiled window and applies the floating
    /// placement; entering `Tiling` reinserts at the remembered
    /// position or next to the focused container; entering `Minimized`
    /// or `Fullscreen` records the prior state, so that transitioning
    /// back to that state's variant restores it exactly. Every actual
    /// transition enqueues `w` for redraw, and flags a focus change
    /// when `w` is the focused container.
    pub fn set_state(&mut self, w: usize, target: WindowState) -> (r: Result<(), WmError>)
        requires
            old(self).wf(),
        ensures
            final(self).wf(),
            set_state_post(*old(self), *final(self), w, target, r),
    {
        if w >= self.tree.containers.len() || !crate::tree::kind_is_window(
            self.tree.containers[w].kind,
        ) {
            return Err(WmError::LookupFailure);
        }
        proof {
            assert(self.tree.node_ok(w as int));
        }
        let cur_matches = match &self.tree.containers[w].window {
            Some(data) => states_match(&data.state, &target),
            None => vstd::pervasive::unreached(),
        };
        if cur_matches {
            return Ok(());
        }
        match target {
            WindowState::Tiling => self.enter_tiling(w),
            _ => {
                self.leave_tiling(w, target);
                Ok(())
            },
        }
    }

    /// Enqueues `w` for redraw and flags a focus change when `w` is the
    /// focused container: what every actual transition reports.
    fn note_transition(&mut self, w: usize)
        requires
            old(self).pending_sync.inv(),
        ensures
            final(self).pending_sync.inv(),
            final(self).tree == old(self).tree,
            final(self).focused == old(self).focused,
            final(self).drag == old(self).drag,
            final(self).pending_sync.containers_to_redraw@ == enqueue_spec(
                old(self).pending_sync.containers_to_redraw@,
                w,
            ),
            final(self).pending_sync.focus_change == (old(self).pending_sync.focus_change || old(
                self,
            ).focused == Some(w)),
    {
        self.pending_sync.enqueue(w);
        match self.focused {
            Some(f) => {
                if f == w {
                    self.pending_sync.focus_change = true;
                }
            },
            None => {},
        }
    }

    /// The transitions that take a window out of the tiling layout:
    /// into `Floating`, `Minimized` or `Fullscreen`.
    fn leave_tiling(&mut self, w: usize, target: WindowState)
        requires
            old(self).wf(),
            old(self).tree.is_window(w as int),
            !same_state(old(self).tree.win(w as int).state, target),
            !(target is Tiling),
        ensures
            final(self).wf(),
            set_state_post(*old(self), *final(self), w, target, Ok(())),
    {
        let ghost pre = *self;
        proof {
            assert(self.tree.node_ok(w as int));
        }
        // Read what the transition needs from the pre state: the
        // current state (it becomes the recorded prior), and the
        // geometry the floating placement asks for.
        let cur = match &self.tree.containers[w].window {
            Some(data) => data.state.duplicate(),
            None => vstd::pervasive::unreached(),
        };
        let was_attached_tiling = matches!(
            self.tree.containers[w].kind,
            ContainerKind::TilingWindow,
        ) && self.tree.containers[w].parent.is_some();
        let new_frame: Rect = match &target {
            WindowState::Floating(cfg) => {
                if cfg.centered {
                    match self.tree.containers[w].parent {
                        Some(p) => {
                            proof {
                                assert(self.tree.parent_link_ok(w as int));
                            }
                            center_rect(
                                &self.tree.containers[p].frame,
                                &self.tree.containers[w].frame,
                            )
                        },
                        None => match &self.tree.containers[w].window {
                            Some(data) => data.floating_placement,
                            None => vstd::pervasive::unreached(),
                        },
                    }
                } else {
                    match &self.tree.containers[w].window {
                        Some(data) => data.floating_placement,
                        None => vstd::pervasive::unreached(),
                    }
                }
            },
            _ => self.tree.containers[w].frame,
        };
        let new_state = match &target {
            WindowState::Floating(cfg) => WindowState::Floating(*cfg),
            WindowState::Minimized(_) => WindowState::Minimized(Box::new(cur)),
            WindowState::Fullscreen(_) => WindowState::Fullscreen(Box::new(cur)),
            WindowState::Tiling => vstd::pervasive::unreached(),
        };
        proof {
            assert(kind_for_state(pre.tree.win(w as int).state) == pre.tree.node(w as int).kind);
        }
        // Detach an attached tiled window, remembering where it sat.
        if was_attached_tiling {
            let p = match self.tree.containers[w].parent {
                Some(p) => p,
                None => vstd::pervasive::unreached(),
            };
            let k = self.tree.child_position(p, w);
            self.tree.set_prev_tiling_position(w, Some((p, k)));
            let detached = self.tree.detach(w);
            proof {
                assert(detached is Ok);
            }
        }
        // Commit the new state, kind and geometry.
        self.tree.set_window_layout(w, new_state, ContainerKind::NonTilingWindow);
        match &target {
            WindowState::Floating(_) => {
                self.tree.set_frame(w, new_frame);
                self.tree.set_floating_placement(w, new_frame);
            },
            _ => {},
        }
        self.note_transition(w);
    }

    /// The transition back into the tiling layout: reinsert at the
    /// remembered position, or next to the focused container.
    fn enter_tiling(&mut self, w: usize) -> (r: Result<(), WmError>)
        requires
            old(self).wf(),
            old(self).tree.is_window(w as int),
            !same_state(old(self).tree.win(w as int).state, WindowState::Tiling),
        ensures
            final(self).wf(),
            set_state_post(*old(self), *final(self), w, WindowState::Tiling, r),
    {
        let ghost pre = *self;
        proof {
            assert(self.tree.node_ok(w as int));
        }
        if self.tree.containers[w].parent.is_some() {
            return Err(WmError::InvariantViolation);
        }
        // Pick the insertion point: the remembered original position
        // when it is still usable, else right after the focused
        // container among its parent's children.
        let prev = match &self.tree.containers[w].window {
            Some(data) => data.prev_tiling_position,
            None => vstd::pervasive::unreached(),
        };
        let n = self.tree.containers.len();
        let prev_usable: bool = match prev {
            Some((p, idx)) => p < n && p != w && crate::tree::kind_accepts_tiling_children(
                self.tree.containers[p].kind,
            ) && idx <= self.tree.containers[p].children.len()
                && self.tree.containers[p].depth < usize::MAX,
            None => false,
        };
        let (p, idx): (usize, usize) = if prev_usable {
            match prev {
                Some(pair) => pair,
                None => vstd::pervasive::unreached(),
            }
        } else {
            let f = match self.focused {
                Some(f) => f,
                None => {
                    proof {
                        assert(!prev_pos_usable(pre.tree, w));
                        assert(!focus_pos_usable(pre.tree, w, pre.focused));
                        assert forall|p2: usize, idx2: usize|
                            !retile_choice(pre.tree, w, pre.focused, p2, idx2) by {}
                    }
                    return Err(WmError::LookupFailure);
                },
            };
            proof {
                assert(self.tree.parent_link_ok(f as int));
            }
            let focus_usable: bool = f != w && match self.tree.containers[f].parent {
                Some(fp) => fp != w && crate::tree::kind_accepts_tiling_children(
                    self.tree.containers[fp].kind,
                ) && self.tree.containers[fp].depth < usize::MAX
                    && self.tree.containers[fp].children.len() < usize::MAX,
                None => false,
            };
            if !focus_usable {
                proof {
                    assert(!prev_pos_usable(pre.tree, w));
                    assert(!focus_pos_usable(pre.tree, w, pre.focused));
                    assert forall|p2: usize, idx2: usize|
                        !retile_choice(pre.tree, w, pre.focused, p2, idx2) by {}
                }
                return Err(WmError::LookupFailure);
            }
            let fp = match self.tree.containers[f].parent {
                Some(fp) => fp,
                None => vstd::pervasive::unreached(),
            };
            let k = self.tree.child_position(fp, f);
            (fp, k + 1)
        };
        proof {
            assert(retile_choice(pre.tree, w, pre.focused, p, idx));
        }
        self.tree.set_window_layout(w, WindowState::Tiling, ContainerKind::TilingWindow);
        self.tree.set_prev_tiling_position(w, None);
        proof {
            assert(self.tree.node_ok(w as int));
            assert(insert_allowed(self.tree, p, idx, w));
        }
        let inserted = self.tree.insert_child(p, idx, w);
        proof {
            assert(inserted is Ok);
        }
        self.note_transition(w);
        proof {
            let post = *self;
            assert(retile_choice(pre.tree, w, pre.focused, p, idx)
                && post.tree.win(w as int).state is Tiling);
        }
        Ok(())
    }
}

/// Law: transition idempotence. After a successful `set_state(w, target)`,
/// applying `set_state(w, target)` again succeeds and changes nothing:
/// geometry, parent and state observe identical values, and no
/// invariant error is raised on the second call.
pub proof fn lemma_set_state_idempotent(
    s0: WmState,
    s1: WmState,
    s2: WmState,
    w: usize,
    target: WindowState,
    r2: Result<(), WmError>,
)
    requires
        s0.wf(),
        set_state_post(s0, s1, w, target, Ok(())),
        set_state_post(s1, s2, w, target, r2),
    ensures
        s2 == s1,
        r2 == Ok::<(), WmError>(()),
{
    let wi = w as int;
    if !s0.tree.is_window(wi) {
        assert(false);
    } else if same_state(s0.tree.win(wi).state, target) {
        assert(s1 == s0);
    } else {
        assert(same_state(s1.tree.win(wi).state, target)) by {
            match target {
                WindowState::Tiling => {
                    let (p, idx) = choose|p: usize, idx: usize|
                        {
                            &&& #[trigger] retile_choice(s0.tree, w, s0.focused, p, idx)
                            &&& s1.tree.win(wi).state is Tiling
                        };
                },
                WindowState::Floating(_) => {},
                WindowState::Minimized(_) => {},
                WindowState::Fullscreen(_) => {},
            }
        }
        assert(s1.tree.is_window(wi));
    }
}

} // verus!
