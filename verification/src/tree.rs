//! The container tree: an arena of window-management nodes keyed by
//! opaque identifiers (arena indices). Parent/child relations are
//! identifier references resolved through the arena; every mutation
//! goes through arena operations that keep the one-parent invariant,
//! and acyclicity follows from the depth bookkeeping (see
//! `lemma_acyclic`).

use vstd::prelude::*;
use std::collections::HashMap;

use crate::WmError;
use crate::geometry::Rect;

verus! {

broadcast use vstd::std_specs::hash::group_hash_axioms;

/// The kind of a node in the window-management tree.
#[derive(Clone, Copy, Debug, PartialEq, Eq, Structural)]
pub enum ContainerKind {
    /// The single top of the tree.
    Root,
    /// A physical display.
    Monitor,
    /// A virtual desktop shown on a monitor.
    Workspace,
    /// A layout node whose children share its area.
    Split,
    /// A window whose bounds are derived from the tree structure.
    TilingWindow,
    /// A window with explicit bounds: floating, minimized or fullscreen.
    NonTilingWindow,
}

/// Placement options for a floating window.
#[derive(Clone, Copy, Debug, PartialEq, Eq, Structural)]
pub struct FloatingConfig {
    /// Center the window on its monitor when it becomes floating.
    pub centered: bool,
    /// Keep the window above tiled windows.
    pub shown_on_top: bool,
}

/// Per-window layout state. `Minimized` and `Fullscreen` record the
/// state that held before the transition, so leaving them restores
/// exactly that state.
#[derive(Debug)]
pub enum WindowState {
    Tiling,
    Floating(FloatingConfig),
    Minimized(Box<WindowState>),
    Fullscreen(Box<WindowState>),
}

impl WindowState {
    /// A structurally equal copy of this state.
    pub fn duplicate(&self) -> (r: WindowState)
        ensures
            r == *self,
        decreases *self,
    {
        match self {
            WindowState::Tiling => WindowState::Tiling,
            WindowState::Floating(c) => WindowState::Floating(*c),
            WindowState::Minimized(prior) => WindowState::Minimized(
                Box::new(prior.duplicate()),
            ),
            WindowState::Fullscreen(prior) => WindowState::Fullscreen(
                Box::new(prior.duplicate()),
            ),
        }
    }
}

/// Whether `target` re-enters the state `current`: same variant, and for
/// `Floating` the same placement options. The recorded prior states of
/// `Minimized` and `Fullscreen` are not compared, since the machine
/// records the prior state itself.
pub open spec fn same_state(current: WindowState, target: WindowState) -> bool {
    match (current, target) {
        (WindowState::Tiling, WindowState::Tiling) => true,
        (WindowState::Floating(ca), WindowState::Floating(cb)) => ca == cb,
        (WindowState::Minimized(_), WindowState::Minimized(_)) => true,
        (WindowState::Fullscreen(_), WindowState::Fullscreen(_)) => true,
        _ => false,
    }
}

/// Executable form of `same_state`.
pub fn states_match(current: &WindowState, target: &WindowState) -> (r: bool)
    ensures
        r == same_state(*current, *target),
{
    match (current, target) {
        (WindowState::Tiling, WindowState::Tiling) => true,
        (WindowState::Floating(ca), WindowState::Floating(cb)) => {
            ca.centered == cb.centered && ca.shown_on_top == cb.shown_on_top
        },
        (WindowState::Minimized(_), WindowState::Minimized(_)) => true,
        (WindowState::Fullscreen(_), WindowState::Fullscreen(_)) => true,
        _ => false,
    }
}

/// An in-progress pointer-driven reposition of one window.
#[derive(Clone, Copy, Debug, PartialEq, Eq, Structural)]
pub struct ActiveDrag {
    /// Whether the window was tiling when the drag began.
    pub is_from_tiling: bool,
}

/// The window-specific payload of a window container.
#[derive(Debug)]
pub struct WindowData {
    /// The platform handle of the native window.
    pub handle: u64,
    /// The window's layout state.
    pub state: WindowState,
    /// The explicit bounds the window uses while floating.
    pub floating_placement: Rect,
    /// Where the window sat in the tiling layout before it left it:
    /// parent identifier and position among that parent's children.
    pub prev_tiling_position: Option<(usize, usize)>,
    /// The drag in progress on this window, if any.
    pub active_drag: Option<ActiveDrag>,
    /// Cached native title; populated at most once.
    pub title: Option<String>,
    /// Cached process name; populated at most once.
    pub process_name: Option<String>,
    /// Cached window class name; populated at most once.
    pub class_name: Option<String>,
}

/// One node of the container tree.
#[derive(Debug)]
pub struct Container {
    pub kind: ContainerKind,
    /// The identifier of the owning parent, if attached.
    pub parent: Option<usize>,
    /// The owned, order-significant child identifiers.
    pub children: Vec<usize>,
    /// Distance from the tree top; kept one greater than the parent's
    /// depth, which rules out cycles.
    pub depth: usize,
    /// Current geometry.
    pub frame: Rect,
    /// Window payload; present exactly for window kinds.
    pub window: Option<WindowData>,
}

/// Window kinds are the leaves that pair a container with a native window.
pub open spec fn is_window_kind(k: ContainerKind) -> bool {
    k == ContainerKind::TilingWindow || k == ContainerKind::NonTilingWindow
}

/// Kinds that participate in automatic layout as children.
pub open spec fn is_tiling_kind(k: ContainerKind) -> bool {
    k == ContainerKind::Split || k == ContainerKind::TilingWindow
}

/// Kinds that own a children sequence.
pub open spec fn accepts_children(k: ContainerKind) -> bool {
    !is_window_kind(k)
}

/// Kinds whose children sequence is a tiling layout.
pub open spec fn accepts_tiling_children(k: ContainerKind) -> bool {
    k == ContainerKind::Workspace || k == ContainerKind::Split
}

/// The container kind a window of state `s` belongs in: tiled windows
/// are `TilingWindow`, all other states are `NonTilingWindow`.
pub open spec fn kind_for_state(s: WindowState) -> ContainerKind {
    if s is Tiling {
        ContainerKind::TilingWindow
    } else {
        ContainerKind::NonTilingWindow
    }
}

/// Executable form of `is_window_kind`.
pub fn kind_is_window(k: ContainerKind) -> (r: bool)
    ensures
        r == is_window_kind(k),
{
    match k {
        ContainerKind::TilingWindow | ContainerKind::NonTilingWindow => true,
        _ => false,
    }
}

/// Executable form of `is_tiling_kind`.
pub fn kind_is_tiling(k: ContainerKind) -> (r: bool)
    ensures
        r == is_tiling_kind(k),
{
    match k {
        ContainerKind::Split | ContainerKind::TilingWindow => true,
        _ => false,
    }
}

/// Executable form of `accepts_tiling_children`.
pub fn kind_accepts_tiling_children(k: ContainerKind) -> (r: bool)
    ensures
        r == accepts_tiling_children(k),
{
    match k {
        ContainerKind::Workspace | ContainerKind::Split => true,
        _ => false,
    }
}

/// Pointwise consequences of inserting into a sequence: how indices
/// shift, what the sequence contains, and that distinctness survives.
proof fn lemma_insert_facts(s: Seq<usize>, i: int, v: usize)
    requires
        0 <= i <= s.len(),
    ensures
        s.insert(i, v).len() == s.len() + 1,
        s.insert(i, v)[i] == v,
        forall|k: int| 0 <= k < i ==> #[trigger] s.insert(i, v)[k] == s[k],
        forall|k: int| i < k < s.len() + 1 ==> #[trigger] s.insert(i, v)[k] == s[k - 1],
        forall|x: usize| #[trigger] s.insert(i, v).contains(x) <==> (x == v || s.contains(x)),
        (s.no_duplicates() && !s.contains(v)) ==> s.insert(i, v).no_duplicates(),
    {
        s.insert_ensures(i, v);
        let t = s.insert(i, v);
        assert forall|x: usize| #[trigger] t.contains(x) implies (x == v || s.contains(x)) by {
            let k = choose|k: int| 0 <= k < t.len() && t[k] == x;
            if k < i {
                assert(s[k] == x);
            } else if k > i {
                assert(s[k - 1] == x);
            }
        }
        assert forall|x: usize| (x == v || s.contains(x)) implies #[trigger] t.contains(x) by {
            if x == v {
                assert(t[i] == x);
            } else {
                let k = choose|k: int| 0 <= k < s.len() && s[k] == x;
                if k < i {
                    assert(t[k] == x);
                } else {
                    assert(t[k + 1] == x);
                }
            }
        }
        if s.no_duplicates() && !s.contains(v) {
            assert forall|k1: int, k2: int|
                0 <= k1 < t.len() && 0 <= k2 < t.len() && k1 != k2 implies t[k1] != t[k2] by {
                if k1 != i && k2 != i {
                    let a1: int = if k1 < i { k1 } else { k1 - 1 };
                    let a2: int = if k2 < i { k2 } else { k2 - 1 };
                    assert(t[k1] == s[a1]);
                    assert(t[k2] == s[a2]);
                } else {
                    let kv: int = if k1 == i { k2 } else { k1 };
                    let a: int = if kv < i { kv } else { kv - 1 };
                    assert(t[kv] == s[a]);
                    if t[kv] == v {
                        assert(s.contains(v));
                    }
                }
            }
        }
    }

/// Pointwise consequences of removing one index from a sequence
/// without duplicates: the removed value is gone, everything else
/// stays, and distinctness survives.
proof fn lemma_remove_facts(s: Seq<usize>, i: int)
    requires
        0 <= i < s.len(),
        s.no_duplicates(),
    ensures
        s.remove(i).len() == s.len() - 1,
        forall|k: int| 0 <= k < i ==> #[trigger] s.remove(i)[k] == s[k],
        forall|k: int| i <= k < s.len() - 1 ==> #[trigger] s.remove(i)[k] == s[k + 1],
        !s.remove(i).contains(s[i]),
        forall|x: usize| x != s[i] ==> (#[trigger] s.remove(i).contains(x) <==> s.contains(x)),
        s.remove(i).no_duplicates(),
    {
        s.remove_ensures(i);
        let t = s.remove(i);
        assert forall|k1: int, k2: int|
            0 <= k1 < t.len() && 0 <= k2 < t.len() && k1 != k2 implies t[k1] != t[k2] by {
            let a1: int = if k1 < i { k1 } else { k1 + 1 };
            let a2: int = if k2 < i { k2 } else { k2 + 1 };
            assert(t[k1] == s[a1]);
            assert(t[k2] == s[a2]);
        }
        assert(!t.contains(s[i])) by {
            if t.contains(s[i]) {
                let k = choose|k: int| 0 <= k < t.len() && t[k] == s[i];
                let a: int = if k < i { k } else { k + 1 };
                assert(s[a] == s[i]);
            }
        }
        assert forall|x: usize| x != s[i] implies (#[trigger] t.contains(x) <==> s.contains(
            x,
        )) by {
            if t.contains(x) {
                let k = choose|k: int| 0 <= k < t.len() && t[k] == x;
                let a: int = if k < i { k } else { k + 1 };
                assert(s[a] == x);
            }
            if s.contains(x) {
                let a = choose|a: int| 0 <= a < s.len() && s[a] == x;
                if a < i {
                    assert(t[a] == x);
                } else {
                    assert(t[a - 1] == x);
                }
            }
        }
    }

/// First position of `x` in `v`.
fn index_of(v: &Vec<usize>, x: usize) -> (r: usize)
    requires
        v@.contains(x),
    ensures
        r < v@.len(),
        v@[r as int] == x,
{
    let n = v.len();
    let mut i: usize = 0;
    while i < n
        invariant
            i <= n,
            n == v@.len(),
            v@.contains(x),
            forall|j: int| 0 <= j < i ==> v@[j] != x,
        decreases n - i,
    {
        if v[i] == x {
            return i;
        }
        i += 1;
    }
    proof {
        let k = choose|k: int| 0 <= k < v@.len() && v@[k] == x;
        assert(false);
    }
    vstd::pervasive::unreached()
}

/// When `insert_child(parent, index, child)` succeeds.
pub open spec fn insert_allowed(t: Tree, parent: usize, index: usize, child: usize) -> bool {
    &&& t.valid(parent as int)
    &&& t.valid(child as int)
    &&& accepts_children(t.node(parent as int).kind)
    &&& child != parent
    &&& t.node(child as int).kind != ContainerKind::Root
    &&& t.node(child as int).parent is None
    &&& t.node(child as int).children@.len() == 0
    &&& index <= t.node(parent as int).children@.len()
    &&& t.node(parent as int).depth < usize::MAX
}

/// Which error `insert_child` reports when it is refused.
pub open spec fn insert_error(t: Tree, parent: usize, child: usize) -> WmError {
    if !t.valid(parent as int) || !t.valid(child as int) {
        WmError::LookupFailure
    } else {
        WmError::InvariantViolation
    }
}

/// What a successful `insert_child(parent, index, child)` does: the
/// child joins the parent's children at `index` and points back at it
/// one level down; nothing else moves.
pub open spec fn insert_ok(pre: Tree, post: Tree, parent: usize, index: usize, child: usize) -> bool {
    let pi = parent as int;
    let ci = child as int;
    &&& post.spec_len() == pre.spec_len()
    &&& post.node(ci).parent == Some(parent)
    &&& post.node(ci).depth == pre.node(pi).depth + 1
    &&& post.node(ci).kind == pre.node(ci).kind
    &&& post.node(ci).frame == pre.node(ci).frame
    &&& post.node(ci).window == pre.node(ci).window
    &&& post.node(ci).children@ == pre.node(ci).children@
    &&& post.node(pi).children@ == pre.node(pi).children@.insert(index as int, child)
    &&& post.node(pi).parent == pre.node(pi).parent
    &&& post.node(pi).depth == pre.node(pi).depth
    &&& post.node(pi).kind == pre.node(pi).kind
    &&& post.node(pi).frame == pre.node(pi).frame
    &&& post.node(pi).window == pre.node(pi).window
    &&& forall|j: int|
        0 <= j < pre.spec_len() && j != pi && j != ci ==> post.node(j) == pre.node(j)
    &&& post.handle_index@ == pre.handle_index@
}

/// What a successful `detach(child)` of an attached child does: the
/// child leaves its parent's children and its parent reference is
/// cleared; nothing else moves.
pub open spec fn detach_ok(pre: Tree, post: Tree, child: usize) -> bool {
    let ci = child as int;
    let pi = pre.node(ci).parent.unwrap() as int;
    &&& post.spec_len() == pre.spec_len()
    &&& post.node(ci).parent is None
    &&& post.node(ci).kind == pre.node(ci).kind
    &&& post.node(ci).children@ == pre.node(ci).children@
    &&& post.node(ci).depth == pre.node(ci).depth
    &&& post.node(ci).frame == pre.node(ci).frame
    &&& post.node(ci).window == pre.node(ci).window
    &&& post.node(pi).children@.len() == pre.node(pi).children@.len() - 1
    &&& !post.node(pi).children@.contains(child)
    &&& forall|x: usize|
        x != child ==> (post.node(pi).children@.contains(x) <==> pre.node(
            pi,
        ).children@.contains(x))
    &&& (exists|k: int|
        0 <= k < pre.node(pi).children@.len() && pre.node(pi).children@[k] == child
            && post.node(pi).children@ == pre.node(pi).children@.remove(k))
    &&& post.node(pi).parent == pre.node(pi).parent
    &&& post.node(pi).depth == pre.node(pi).depth
    &&& post.node(pi).kind == pre.node(pi).kind
    &&& post.node(pi).frame == pre.node(pi).frame
    &&& post.node(pi).window == pre.node(pi).window
    &&& forall|j: int|
        0 <= j < pre.spec_len() && j != pi && j != ci ==> post.node(j) == pre.node(j)
    &&& post.handle_index@ == pre.handle_index@
}

/// The container reached from `c` after `n` steps along parent
/// references, if the chain is that long.
pub open spec fn ancestor_at(t: Tree, c: int, n: nat) -> Option<int>
    decreases n,
{
    if !t.valid(c) {
        None
    } else if n == 0 {
        Some(c)
    } else {
        match ancestor_at(t, c, (n - 1) as nat) {
            None => None,
            Some(a) => match t.node(a).parent {
                None => None,
                Some(p) => if t.valid(p as int) {
                    Some(p as int)
                } else {
                    None
                },
            },
        }
    }
}

/// Each step along a parent reference moves exactly one level up, so
/// an ancestor `n` steps away sits `n` levels above.
pub proof fn lemma_ancestor_depth(t: Tree, c: int, n: nat)
    requires
        t.wf(),
        t.valid(c),
    ensures
        ancestor_at(t, c, n) is Some ==> {
            let a = ancestor_at(t, c, n).unwrap();
            &&& t.valid(a)
            &&& t.node(a).depth + n == t.node(c).depth
        },
    decreases n,
{
    if n > 0 {
        lemma_ancestor_depth(t, c, (n - 1) as nat);
        if ancestor_at(t, c, n) is Some {
            let b = ancestor_at(t, c, (n - 1) as nat).unwrap();
            assert(t.parent_link_ok(b));
        }
    }
}

/// Law: the tree is acyclic. However many insert and detach operations
/// built the tree, as long as it is well formed no container is its
/// own proper ancestor.
pub proof fn lemma_acyclic(t: Tree, c: int, n: nat)
    requires
        t.wf(),
        t.valid(c),
        n >= 1,
    ensures
        ancestor_at(t, c, n) != Some(c),
{
    lemma_ancestor_depth(t, c, n);
}

/// Law: parent/child consistency. A container's parent reference names
/// `p` exactly when `p`'s children sequence holds the container.
pub proof fn lemma_parent_child_consistency(t: Tree, c: usize, p: usize)
    requires
        t.wf(),
        t.valid(c as int),
        t.valid(p as int),
    ensures
        t.node(c as int).parent == Some(p) <==> t.node(p as int).children@.contains(c),
{
    assert(t.parent_link_ok(c as int));
    assert(t.child_links_ok(p as int));
    if t.node(p as int).children@.contains(c) {
        let k = choose|k: int|
            0 <= k < t.node(p as int).children@.len() && t.node(p as int).children@[k] == c;
        assert(t.node(p as int).children@[k] == c);
    }
}

/// The identifiers among `s` that name tiling containers of `t`, in
/// their order in `s`.
pub open spec fn tiling_only(t: Tree, s: Seq<usize>) -> Seq<usize>
    decreases s.len(),
{
    if s.len() == 0 {
        Seq::empty()
    } else {
        let rest = tiling_only(t, s.drop_last());
        if t.valid(s.last() as int) && is_tiling_kind(t.node(s.last() as int).kind) {
            rest.push(s.last())
        } else {
            rest
        }
    }
}

/// `post` differs from `pre` at most in the frame and the window
/// payload of node `w`: the arena shape, every link, every kind class
/// and the handle index are the same.
pub open spec fn same_but_window_fields(pre: Tree, post: Tree, w: usize) -> bool {
    let wi = w as int;
    &&& post.spec_len() == pre.spec_len()
    &&& forall|j: int| 0 <= j < pre.spec_len() && j != wi ==> post.node(j) == pre.node(j)
    &&& post.node(wi).parent == pre.node(wi).parent
    &&& post.node(wi).children@ == pre.node(wi).children@
    &&& post.node(wi).depth == pre.node(wi).depth
    &&& (post.node(wi).window is Some <==> pre.node(wi).window is Some)
    &&& (post.node(wi).window is Some ==> post.win(wi).handle == pre.win(wi).handle)
    &&& is_window_kind(post.node(wi).kind) == is_window_kind(pre.node(wi).kind)
    &&& (post.node(wi).kind == ContainerKind::Root <==> pre.node(wi).kind == ContainerKind::Root)
    &&& post.handle_index@ == pre.handle_index@
}

/// Changes confined as `same_but_window_fields` says keep the tree
/// well formed.
proof fn lemma_wf_same_structure(pre: Tree, post: Tree, w: usize)
    requires
        pre.wf(),
        same_but_window_fields(pre, post, w),
        post.node(w as int).window is Some ==> post.node(w as int).kind == kind_for_state(
            post.win(w as int).state,
        ),
    ensures
        post.wf(),
{
    let wi = w as int;
    assert forall|i: int|
        1 <= i < post.spec_len() implies (#[trigger] post.node(i)).kind
        != ContainerKind::Root by {
        assert(pre.node(i).kind != ContainerKind::Root);
    }
    assert(post.node(0).kind == ContainerKind::Root) by {
        assert(pre.node(0).kind == ContainerKind::Root);
    }
    assert forall|i: int| 0 <= i < post.spec_len() implies #[trigger] post.parent_link_ok(i) by {
        assert(pre.parent_link_ok(i));
        if post.node(i).parent is Some {
            let p = post.node(i).parent.unwrap() as int;
            assert(pre.node(i).parent == post.node(i).parent);
            assert(pre.node(p).children@ == post.node(p).children@);
            assert(is_window_kind(post.node(p).kind) == is_window_kind(pre.node(p).kind));
        }
    }
    assert forall|p: int| 0 <= p < post.spec_len() implies #[trigger] post.child_links_ok(p) by {
        assert(pre.child_links_ok(p));
        assert(pre.node(p).children@ == post.node(p).children@);
        assert forall|k: int|
            0 <= k < post.node(p).children@.len() implies {
            let c = (#[trigger] post.node(p).children@[k]) as int;
            &&& 0 <= c < post.spec_len()
            &&& c != p
            &&& post.node(c).parent == Some(p as usize)
        } by {
            let c = post.node(p).children@[k];
            assert(pre.node(p).children@[k] == c);
            assert(pre.node(c as int).parent == Some(p as usize));
            assert(post.node(c as int).parent == pre.node(c as int).parent);
        }
    }
    assert forall|i: int| 0 <= i < post.spec_len() implies #[trigger] post.node_ok(i) by {
        assert(pre.node_ok(i));
    }
    assert forall|i: int|
        0 <= i < post.spec_len() && is_window_kind((#[trigger] post.node(i)).kind) implies {
        &&& post.handle_index@.contains_key(post.win(i).handle)
        &&& post.handle_index@[post.win(i).handle] == i as usize
    } by {
        assert(is_window_kind(pre.node(i).kind));
        assert(pre.handle_index@.contains_key(pre.win(i).handle));
        assert(pre.handle_index@[pre.win(i).handle] == i as usize);
        assert(post.win(i).handle == pre.win(i).handle);
    }
    assert forall|h: u64| #[trigger] post.handle_index@.contains_key(h) implies {
        let i = post.handle_index@[h] as int;
        &&& 0 <= i < post.spec_len()
        &&& is_window_kind(post.node(i).kind)
        &&& post.win(i).handle == h
    } by {
        assert(pre.handle_index@.contains_key(h));
        let i = pre.handle_index@[h] as int;
        assert(is_window_kind(pre.node(i).kind));
        assert(pre.win(i).handle == h);
    }
}

/// The container tree: the arena, and an index from native window
/// handle to arena identifier for constant-time lookup.
#[derive(Debug)]
pub struct Tree {
    pub containers: Vec<Container>,
    pub handle_index: HashMap<u64, usize>,
}

impl Tree {
    /// Number of containers in the arena.
    pub open spec fn spec_len(self) -> int {
        self.containers@.len() as int
    }

    /// Whether `i` names a container.
    pub open spec fn valid(self, i: int) -> bool {
        0 <= i < self.spec_len()
    }

    /// The container named `i`.
    pub open spec fn node(self, i: int) -> Container {
        self.containers@[i]
    }

    /// Whether `i` names a window container.
    pub open spec fn is_window(self, i: int) -> bool {
        self.valid(i) && is_window_kind(self.node(i).kind)
    }

    /// The window payload of `i`.
    pub open spec fn win(self, i: int) -> WindowData {
        self.node(i).window.unwrap()
    }

    /// A parent link is well formed: the parent exists, owns the child,
    /// accepts children, and sits exactly one level above it.
    pub open spec fn parent_link_ok(self, i: int) -> bool {
        self.node(i).parent is Some ==> {
            let p = self.node(i).parent.unwrap() as int;
            &&& 0 <= p < self.spec_len()
            &&& p != i
            &&& accepts_children(self.node(p).kind)
            &&& self.node(p).children@.contains(i as usize)
            &&& self.node(i).depth == self.node(p).depth + 1
        }
    }

    /// A children sequence is well formed: no duplicates, and every
    /// child exists and points back to this parent.
    pub open spec fn child_links_ok(self, p: int) -> bool {
        &&& self.node(p).children@.no_duplicates()
        &&& forall|k: int|
            0 <= k < self.node(p).children@.len() ==> {
                let c = (#[trigger] self.node(p).children@[k]) as int;
                &&& 0 <= c < self.spec_len()
                &&& c != p
                &&& self.node(c).parent == Some(p as usize)
            }
    }

    /// A node carries a window payload exactly when it is a window
    /// kind, and window nodes are leaves.
    pub open spec fn node_ok(self, i: int) -> bool {
        &&& (self.node(i).window is Some <==> is_window_kind(self.node(i).kind))
        &&& (is_window_kind(self.node(i).kind) ==> self.node(i).children@.len() == 0)
        &&& (self.node(i).window is Some ==> self.node(i).kind == kind_for_state(
            self.win(i).state,
        ))
    }

    /// The handle index lists exactly the window containers, each under
    /// its own handle.
    pub open spec fn handle_index_ok(self) -> bool {
        &&& forall|i: int|
            0 <= i < self.spec_len() && is_window_kind((#[trigger] self.node(i)).kind) ==> {
                &&& self.handle_index@.contains_key(self.win(i).handle)
                &&& self.handle_index@[self.win(i).handle] == i as usize
            }
        &&& forall|h: u64|
            #[trigger] self.handle_index@.contains_key(h) ==> {
                let i = self.handle_index@[h] as int;
                &&& 0 <= i < self.spec_len()
                &&& is_window_kind(self.node(i).kind)
                &&& self.win(i).handle == h
            }
    }

    /// Well-formedness of the whole tree: one root at identifier 0, and
    /// every link, node and index entry consistent.
    pub open spec fn wf(self) -> bool {
        &&& self.spec_len() >= 1
        &&& self.node(0).kind == ContainerKind::Root
        &&& self.node(0).parent is None
        &&& self.node(0).depth == 0
        &&& forall|i: int|
            1 <= i < self.spec_len() ==> (#[trigger] self.node(i)).kind != ContainerKind::Root
        &&& forall|i: int| 0 <= i < self.spec_len() ==> #[trigger] self.parent_link_ok(i)
        &&& forall|p: int| 0 <= p < self.spec_len() ==> #[trigger] self.child_links_ok(p)
        &&& forall|i: int| 0 <= i < self.spec_len() ==> #[trigger] self.node_ok(i)
        &&& self.handle_index_ok()
    }

    /// A fresh tree holding only the root container.
    pub fn new() -> (t: Tree)
        ensures
            t.wf(),
            t.spec_len() == 1,
            t.node(0).kind == ContainerKind::Root,
    {
        let root = Container {
            kind: ContainerKind::Root,
            parent: None,
            children: Vec::new(),
            depth: 0,
            frame: Rect { x: 0, y: 0, width: 0, height: 0 },
            window: None,
        };
        let mut containers: Vec<Container> = Vec::new();
        containers.push(root);
        let t = Tree { containers, handle_index: HashMap::new() };
        assert forall|i: int| 0 <= i < t.spec_len() implies #[trigger] t.parent_link_ok(i) by {}
        assert forall|p: int| 0 <= p < t.spec_len() implies #[trigger] t.child_links_ok(p) by {}
        t
    }

    /// Creates a detached layout container (monitor, workspace or
    /// split) and returns its identifier. Window kinds and further
    /// roots are refused: windows carry a payload and are created with
    /// `create_window`, and the tree has exactly one root.
    pub fn create_container(&mut self, kind: ContainerKind, frame: Rect) -> (r: Result<
        usize,
        WmError,
    >)
        requires
            old(self).wf(),
        ensures
            final(self).wf(),
            match r {
                Ok(id) => {
                    &&& kind != ContainerKind::Root
                    &&& !is_window_kind(kind)
                    &&& id as int == old(self).spec_len()
                    &&& final(self).spec_len() == old(self).spec_len() + 1
                    &&& final(self).node(id as int).kind == kind
                    &&& final(self).node(id as int).parent is None
                    &&& final(self).node(id as int).children@ == Seq::<usize>::empty()
                    &&& final(self).node(id as int).frame == frame
                    &&& final(self).node(id as int).window is None
                    &&& forall|j: int|
                        0 <= j < old(self).spec_len() ==> final(self).node(j) == old(self).node(j)
                    &&& final(self).handle_index@ == old(self).handle_index@
                },
                Err(e) => {
                    &&& *final(self) == *old(self)
                    &&& e == WmError::InvariantViolation
                    &&& (kind == ContainerKind::Root || is_window_kind(kind))
                },
            },
    {
        match kind {
            ContainerKind::Root
            | ContainerKind::TilingWindow
            | ContainerKind::NonTilingWindow => {
                return Err(WmError::InvariantViolation);
            },
            _ => {},
        }
        let id = self.containers.len();
        let node = Container {
            kind,
            parent: None,
            children: Vec::new(),
            depth: 0,
            frame,
            window: None,
        };
        self.containers.push(node);
        assert forall|i: int|
            1 <= i < self.spec_len() implies (#[trigger] self.node(i)).kind
            != ContainerKind::Root by {
            if i < old(self).spec_len() {
                assert(old(self).node(i).kind != ContainerKind::Root);
            }
        }
        assert forall|i: int| 0 <= i < self.spec_len() implies #[trigger] self.parent_link_ok(
            i,
        ) by {
            assert(old(self).parent_link_ok(i) || i == id);
        }
        assert forall|p: int| 0 <= p < self.spec_len() implies #[trigger] self.child_links_ok(
            p,
        ) by {
            assert(old(self).child_links_ok(p) || p == id);
        }
        assert forall|i: int| 0 <= i < self.spec_len() implies #[trigger] self.node_ok(i) by {
            assert(old(self).node_ok(i) || i == id);
        }
        assert forall|i: int|
            0 <= i < self.spec_len() && is_window_kind(
                (#[trigger] self.node(i)).kind,
            ) implies {
            &&& self.handle_index@.contains_key(self.win(i).handle)
            &&& self.handle_index@[self.win(i).handle] == i as usize
        } by {
            assert(i < old(self).spec_len());
            assert(old(self).handle_index@.contains_key(old(self).win(i).handle));
            assert(old(self).handle_index@[old(self).win(i).handle] == i as usize);
        }
        assert forall|h: u64| #[trigger] self.handle_index@.contains_key(h) implies {
            let i = self.handle_index@[h] as int;
            &&& 0 <= i < self.spec_len()
            &&& is_window_kind(self.node(i).kind)
            &&& self.win(i).handle == h
        } by {
            assert(old(self).handle_index@.contains_key(h));
        }
        Ok(id)
    }

    /// Creates a detached window container for a native handle and
    /// returns its identifier. A handle already present in the index is
    /// refused: the index maps each handle to one container.
    pub fn create_window(
        &mut self,
        handle: u64,
        frame: Rect,
        state: WindowState,
    ) -> (r: Result<usize, WmError>)
        requires
            old(self).wf(),
        ensures
            final(self).wf(),
            match r {
                Ok(id) => {
                    &&& !old(self).handle_index@.contains_key(handle)
                    &&& id as int == old(self).spec_len()
                    &&& final(self).spec_len() == old(self).spec_len() + 1
                    &&& final(self).node(id as int).kind == (if state is Tiling {
                        ContainerKind::TilingWindow
                    } else {
                        ContainerKind::NonTilingWindow
                    })
                    &&& final(self).node(id as int).parent is None
                    &&& final(self).node(id as int).children@ == Seq::<usize>::empty()
                    &&& final(self).node(id as int).frame == frame
                    &&& final(self).win(id as int).handle == handle
                    &&& final(self).win(id as int).state == state
                    &&& final(self).win(id as int).floating_placement == frame
                    &&& final(self).win(id as int).prev_tiling_position is None
                    &&& final(self).win(id as int).active_drag is None
                    &&& final(self).win(id as int).title is None
                    &&& final(self).win(id as int).process_name is None
                    &&& final(self).win(id as int).class_name is None
                    &&& forall|j: int|
                        0 <= j < old(self).spec_len() ==> final(self).node(j) == old(self).node(j)
                    &&& final(self).handle_index@ == old(self).handle_index@.insert(
                        handle,
                        id,
                    )
                },
                Err(e) => {
                    &&& *final(self) == *old(self)
                    &&& e == WmError::InvariantViolation
                    &&& old(self).handle_index@.contains_key(handle)
                },
            },
    {
        if self.handle_index.contains_key(&handle) {
            return Err(WmError::InvariantViolation);
        }
        let id = self.containers.len();
        let kind = match state {
            WindowState::Tiling => ContainerKind::TilingWindow,
            _ => ContainerKind::NonTilingWindow,
        };
        let data = WindowData {
            handle,
            state,
            floating_placement: frame,
            prev_tiling_position: None,
            active_drag: None,
            title: None,
            process_name: None,
            class_name: None,
        };
        let node = Container {
            kind,
            parent: None,
            children: Vec::new(),
            depth: 0,
            frame,
            window: Some(data),
        };
        self.containers.push(node);
        self.handle_index.insert(handle, id);
        assert forall|i: int|
            1 <= i < self.spec_len() implies (#[trigger] self.node(i)).kind
            != ContainerKind::Root by {
            if i < old(self).spec_len() {
                assert(old(self).node(i).kind != ContainerKind::Root);
            }
        }
        assert forall|i: int| 0 <= i < self.spec_len() implies #[trigger] self.parent_link_ok(
            i,
        ) by {
            assert(old(self).parent_link_ok(i) || i == id);
        }
        assert forall|p: int| 0 <= p < self.spec_len() implies #[trigger] self.child_links_ok(
            p,
        ) by {
            assert(old(self).child_links_ok(p) || p == id);
        }
        assert forall|i: int| 0 <= i < self.spec_len() implies #[trigger] self.node_ok(i) by {
            assert(old(self).node_ok(i) || i == id);
        }
        assert forall|i: int|
            0 <= i < self.spec_len() && is_window_kind(
                (#[trigger] self.node(i)).kind,
            ) implies {
            &&& self.handle_index@.contains_key(self.win(i).handle)
            &&& self.handle_index@[self.win(i).handle] == i as usize
        } by {
            if i < old(self).spec_len() {
                assert(old(self).handle_index@.contains_key(old(self).win(i).handle));
                assert(old(self).handle_index@[old(self).win(i).handle] == i as usize);
                assert(old(self).win(i).handle != handle);
            }
        }
        assert forall|h: u64| #[trigger] self.handle_index@.contains_key(h) implies {
            let i = self.handle_index@[h] as int;
            &&& 0 <= i < self.spec_len()
            &&& is_window_kind(self.node(i).kind)
            &&& self.win(i).handle == h
        } by {
            if h != handle {
                assert(old(self).handle_index@.contains_key(h));
            }
        }
        Ok(id)
    }

    /// Inserts the detached container `child` into `parent`'s children
    /// at `index` and sets `child`'s parent reference, in one step.
    ///
    /// Refused, leaving the tree untouched: an unknown identifier; a
    /// parent that owns no children sequence; a child that is the
    /// root, still has a parent or still owns children (the tree is
    /// built top-down, so an attached node is a leaf at the moment it
    /// is attached); an index past the end. A violated one-parent rule
    /// is reported as `InvariantViolation`, never silently corrected.
    pub fn insert_child(&mut self, parent: usize, index: usize, child: usize) -> (r: Result<
        (),
        WmError,
    >)
        requires
            old(self).wf(),
        ensures
            final(self).wf(),
            match r {
                Ok(_) => insert_allowed(*old(self), parent, index, child) && insert_ok(
                    *old(self),
                    *final(self),
                    parent,
                    index,
                    child,
                ),
                Err(e) => {
                    &&& *final(self) == *old(self)
                    &&& !insert_allowed(*old(self), parent, index, child)
                    &&& e == insert_error(*old(self), parent, child)
                },
            },
    {
        let n = self.containers.len();
        if parent >= n || child >= n {
            return Err(WmError::LookupFailure);
        }
        if kind_is_window(self.containers[parent].kind) {
            return Err(WmError::InvariantViolation);
        }
        if child == parent {
            return Err(WmError::InvariantViolation);
        }
        if matches!(self.containers[child].kind, ContainerKind::Root) {
            return Err(WmError::InvariantViolation);
        }
        if self.containers[child].parent.is_some() {
            return Err(WmError::InvariantViolation);
        }
        if self.containers[child].children.len() > 0 {
            return Err(WmError::InvariantViolation);
        }
        if index > self.containers[parent].children.len() {
            return Err(WmError::InvariantViolation);
        }
        let pdepth = self.containers[parent].depth;
        if pdepth == usize::MAX {
            return Err(WmError::InvariantViolation);
        }
        let ghost pre = *self;
        let ghost pi = parent as int;
        let ghost ci = child as int;
        let ghost s = self.node(pi).children@;
        proof {
            lemma_insert_facts(s, index as int, child);
            assert(pre.child_links_ok(pi));
            if s.contains(child) {
                let k = choose|k: int| 0 <= k < s.len() && s[k] == child;
                assert(pre.node(ci).parent == Some(parent));
            }
            assert(!s.contains(child));
        }
        self.containers[parent].children.insert(index, child);
        self.containers[child].parent = Some(parent);
        self.containers[child].depth = pdepth + 1;
        proof {
            let t = *self;
            assert(t.node(pi).children@ == s.insert(index as int, child));
            assert forall|j: int|
                0 <= j < pre.spec_len() && j != pi && j != ci implies t.node(j) == pre.node(
                j,
            ) by {}
            assert(t.node(ci).parent == Some(parent));
            assert(ci != 0) by {
                assert(pre.node(ci).kind != ContainerKind::Root);
            }
            assert forall|i: int|
                1 <= i < t.spec_len() implies (#[trigger] t.node(i)).kind
                != ContainerKind::Root by {
                assert(pre.node(i).kind != ContainerKind::Root);
            }
            assert forall|i: int| 0 <= i < t.spec_len() implies #[trigger] t.parent_link_ok(
                i,
            ) by {
                assert(pre.parent_link_ok(i));
                if i == ci {
                    assert(t.node(pi).children@.contains(child));
                } else if t.node(i).parent is Some {
                    let q = t.node(i).parent.unwrap() as int;
                    assert(pre.node(i).parent == t.node(i).parent);
                    if q == ci {
                        assert(pre.node(ci).children@.contains(i as usize));
                        assert(false);
                    } else if q == pi {
                        assert(s.contains(i as usize));
                        assert(t.node(pi).children@.contains(i as usize));
                    }
                }
            }
            assert forall|p: int| 0 <= p < t.spec_len() implies #[trigger] t.child_links_ok(
                p,
            ) by {
                assert(pre.child_links_ok(p));
                if p == pi {
                    assert(t.node(pi).children@.no_duplicates());
                    assert forall|k: int|
                        0 <= k < t.node(pi).children@.len() implies {
                        let c = (#[trigger] t.node(pi).children@[k]) as int;
                        &&& 0 <= c < t.spec_len()
                        &&& c != pi
                        &&& t.node(c).parent == Some(parent)
                    } by {
                        let c = t.node(pi).children@[k];
                        if k == index as int {
                            assert(c == child);
                        } else {
                            let a: int = if k < index as int {
                                k
                            } else {
                                k - 1
                            };
                            assert(c == s[a]);
                            assert(c != child);
                        }
                    }
                } else {
                    assert forall|k: int|
                        0 <= k < t.node(p).children@.len() implies {
                        let c = (#[trigger] t.node(p).children@[k]) as int;
                        &&& 0 <= c < t.spec_len()
                        &&& c != p
                        &&& t.node(c).parent == Some(p as usize)
                    } by {
                        let c = t.node(p).children@[k];
                        assert(pre.node(p).children@[k] == c);
                        assert(pre.node(c as int).parent == Some(p as usize));
                        assert(c != child);
                    }
                }
            }
            assert forall|i: int| 0 <= i < t.spec_len() implies #[trigger] t.node_ok(i) by {
                assert(pre.node_ok(i));
            }
            assert forall|i: int|
                0 <= i < t.spec_len() && is_window_kind(
                    (#[trigger] t.node(i)).kind,
                ) implies {
                &&& t.handle_index@.contains_key(t.win(i).handle)
                &&& t.handle_index@[t.win(i).handle] == i as usize
            } by {
                assert(pre.node(i).window == t.node(i).window);
                assert(pre.handle_index@.contains_key(pre.win(i).handle));
                assert(pre.handle_index@[pre.win(i).handle] == i as usize);
            }
            assert forall|h: u64| #[trigger] t.handle_index@.contains_key(h) implies {
                let i = t.handle_index@[h] as int;
                &&& 0 <= i < t.spec_len()
                &&& is_window_kind(t.node(i).kind)
                &&& t.win(i).handle == h
            } by {
                assert(pre.handle_index@.contains_key(h));
                let i = pre.handle_index@[h] as int;
                assert(pre.node(i).window == t.node(i).window);
                assert(pre.node(i).kind == t.node(i).kind);
            }
            assert(t.wf());
        }
        Ok(())
    }

    /// Removes `child` from its parent's children sequence and clears
    /// its parent reference, in one step. Detaching a container that
    /// has no parent changes nothing. An unknown identifier is a
    /// lookup failure.
    pub fn detach(&mut self, child: usize) -> (r: Result<(), WmError>)
        requires
            old(self).wf(),
        ensures
            final(self).wf(),
            match r {
                Ok(_) => {
                    &&& old(self).valid(child as int)
                    &&& if old(self).node(child as int).parent is Some {
                        detach_ok(*old(self), *final(self), child)
                    } else {
                        *final(self) == *old(self)
                    }
                },
                Err(e) => {
                    &&& *final(self) == *old(self)
                    &&& e == WmError::LookupFailure
                    &&& !old(self).valid(child as int)
                },
            },
    {
        if child >= self.containers.len() {
            return Err(WmError::LookupFailure);
        }
        let parent_ref = self.containers[child].parent;
        let p = match parent_ref {
            Some(p) => p,
            None => {
                return Ok(());
            },
        };
        let ghost pre = *self;
        let ghost ci = child as int;
        let ghost pi = p as int;
        proof {
            assert(pre.parent_link_ok(ci));
            assert(pre.child_links_ok(pi));
        }
        let k = index_of(&self.containers[p].children, child);
        let ghost s = self.node(pi).children@;
        proof {
            lemma_remove_facts(s, k as int);
        }
        self.containers[p].children.remove(k);
        self.containers[child].parent = None;
        proof {
            let t = *self;
            assert(t.node(pi).children@ == s.remove(k as int));
            assert forall|j: int|
                0 <= j < pre.spec_len() && j != pi && j != ci implies t.node(j) == pre.node(
                j,
            ) by {}
            assert forall|i: int|
                1 <= i < t.spec_len() implies (#[trigger] t.node(i)).kind
                != ContainerKind::Root by {
                assert(pre.node(i).kind != ContainerKind::Root);
            }
            assert forall|i: int| 0 <= i < t.spec_len() implies #[trigger] t.parent_link_ok(
                i,
            ) by {
                assert(pre.parent_link_ok(i));
                if i != ci && t.node(i).parent is Some {
                    let q = t.node(i).parent.unwrap() as int;
                    assert(pre.node(i).parent == t.node(i).parent);
                    if q == pi {
                        assert(s.contains(i as usize));
                        assert(t.node(pi).children@.contains(i as usize));
                    }
                }
            }
            assert forall|p2: int| 0 <= p2 < t.spec_len() implies #[trigger] t.child_links_ok(
                p2,
            ) by {
                assert(pre.child_links_ok(p2));
                if p2 == pi {
                    assert(t.node(pi).children@.no_duplicates());
                    assert forall|k2: int|
                        0 <= k2 < t.node(pi).children@.len() implies {
                        let c = (#[trigger] t.node(pi).children@[k2]) as int;
                        &&& 0 <= c < t.spec_len()
                        &&& c != pi
                        &&& t.node(c).parent == Some(p)
                    } by {
                        let c = t.node(pi).children@[k2];
                        let a: int = if k2 < k as int {
                            k2
                        } else {
                            k2 + 1
                        };
                        assert(c == s[a]);
                        assert(c != child);
                    }
                } else {
                    assert forall|k2: int|
                        0 <= k2 < t.node(p2).children@.len() implies {
                        let c = (#[trigger] t.node(p2).children@[k2]) as int;
                        &&& 0 <= c < t.spec_len()
                        &&& c != p2
                        &&& t.node(c).parent == Some(p2 as usize)
                    } by {
                        let c = t.node(p2).children@[k2];
                        assert(pre.node(p2).children@[k2] == c);
                        assert(pre.node(c as int).parent == Some(p2 as usize));
                        assert(c as int != ci);
                    }
                }
            }
            assert forall|i: int| 0 <= i < t.spec_len() implies #[trigger] t.node_ok(i) by {
                assert(pre.node_ok(i));
            }
            assert forall|i: int|
                0 <= i < t.spec_len() && is_window_kind(
                    (#[trigger] t.node(i)).kind,
                ) implies {
                &&& t.handle_index@.contains_key(t.win(i).handle)
                &&& t.handle_index@[t.win(i).handle] == i as usize
            } by {
                assert(pre.node(i).window == t.node(i).window);
                assert(pre.handle_index@.contains_key(pre.win(i).handle));
                assert(pre.handle_index@[pre.win(i).handle] == i as usize);
            }
            assert forall|h: u64| #[trigger] t.handle_index@.contains_key(h) implies {
                let i = t.handle_index@[h] as int;
                &&& 0 <= i < t.spec_len()
                &&& is_window_kind(t.node(i).kind)
                &&& t.win(i).handle == h
            } by {
                assert(pre.handle_index@.contains_key(h));
                let i = pre.handle_index@[h] as int;
                assert(pre.node(i).window == t.node(i).window);
                assert(pre.node(i).kind == t.node(i).kind);
            }
            assert(t.wf());
            assert(detach_ok(pre, t, child)) by {
                assert(t.node(pi).children@ == s.remove(k as int));
            }
        }
        Ok(())
    }

    /// The position of `c` among the children of its parent `p`.
    pub fn child_position(&self, p: usize, c: usize) -> (r: usize)
        requires
            self.wf(),
            self.valid(c as int),
            self.node(c as int).parent == Some(p),
        ensures
            self.valid(p as int),
            r < self.node(p as int).children@.len(),
            self.node(p as int).children@[r as int] == c,
    {
        proof {
            assert(self.parent_link_ok(c as int));
        }
        index_of(&self.containers[p].children, c)
    }

    /// Constant-time lookup from a native window handle to the window
    /// container it is managed by, through the handle index.
    pub fn lookup_by_handle(&self, handle: u64) -> (r: Option<usize>)
        requires
            self.wf(),
        ensures
            match r {
                Some(id) => {
                    &&& self.handle_index@.contains_key(handle)
                    &&& self.handle_index@[handle] == id
                    &&& self.is_window(id as int)
                    &&& self.win(id as int).handle == handle
                },
                None => !self.handle_index@.contains_key(handle),
            },
    {
        match self.handle_index.get(&handle) {
            Some(id) => Some(*id),
            None => None,
        }
    }

    /// Walks parent references from `c` to the topmost container above
    /// it: the container on `c`'s ancestor chain that has no parent.
    pub fn root_ancestor(&self, c: usize) -> (r: Result<usize, WmError>)
        requires
            self.wf(),
        ensures
            match r {
                Ok(a) => {
                    &&& self.valid(a as int)
                    &&& self.node(a as int).parent is None
                    &&& exists|n: nat| ancestor_at(*self, c as int, n) == Some(a as int)
                },
                Err(e) => {
                    &&& e == WmError::LookupFailure
                    &&& !self.valid(c as int)
                },
            },
    {
        if c >= self.containers.len() {
            return Err(WmError::LookupFailure);
        }
        let mut cur = c;
        let ghost mut n: nat = 0nat;
        loop
            invariant
                self.wf(),
                cur < self.containers.len(),
                ancestor_at(*self, c as int, n) == Some(cur as int),
            decreases self.node(cur as int).depth,
        {
            match self.containers[cur].parent {
                None => {
                    return Ok(cur);
                },
                Some(p) => {
                    proof {
                        assert(self.parent_link_ok(cur as int));
                        n = n + 1;
                    }
                    cur = p;
                },
            }
        }
    }

    /// The ordered children of `c`, as a fresh vector of identifiers.
    pub fn children(&self, c: usize) -> (r: Vec<usize>)
        requires
            self.wf(),
            self.valid(c as int),
        ensures
            r@ == self.node(c as int).children@,
    {
        let src = &self.containers[c].children;
        let n = src.len();
        let mut out: Vec<usize> = Vec::new();
        let mut i: usize = 0;
        while i < n
            invariant
                i <= n,
                n == src@.len(),
                out@ == src@.take(i as int),
            decreases n - i,
        {
            proof {
                assert(src@.take(i + 1) =~= src@.take(i as int).push(src@[i as int]));
            }
            out.push(src[i]);
            i += 1;
        }
        proof {
            assert(src@.take(n as int) =~= src@);
        }
        out
    }

    /// The ordered tiling children of `c`: the children that take part
    /// in automatic layout (splits and tiling windows).
    pub fn tiling_children(&self, c: usize) -> (r: Vec<usize>)
        requires
            self.wf(),
            self.valid(c as int),
        ensures
            r@ == tiling_only(*self, self.node(c as int).children@),
    {
        let src = &self.containers[c].children;
        let n = src.len();
        let mut out: Vec<usize> = Vec::new();
        let mut i: usize = 0;
        while i < n
            invariant
                i <= n,
                n == src@.len(),
                self.wf(),
                self.valid(c as int),
                src@ == self.node(c as int).children@,
                out@ == tiling_only(*self, src@.take(i as int)),
            decreases n - i,
        {
            proof {
                assert(src@.take(i + 1).drop_last() =~= src@.take(i as int));
                assert(src@.take(i + 1).last() == src@[i as int]);
            }
            let child = src[i];
            if child < self.containers.len() && kind_is_tiling(self.containers[child].kind) {
                out.push(child);
            }
            i += 1;
        }
        proof {
            assert(src@.take(n as int) =~= src@);
        }
        out
    }

    /// Inserts the tiling container `child` at `target_index` of the
    /// tiling children owned by `parent`. The parent must lay out
    /// tiling children (a workspace or a split) and the child must be
    /// a tiling container (a split or a tiling window); otherwise the
    /// rules of `insert_child` decide.
    pub fn insert_tiling_child(
        &mut self,
        parent: usize,
        target_index: usize,
        child: usize,
    ) -> (r: Result<(), WmError>)
        requires
            old(self).wf(),
        ensures
            final(self).wf(),
            match r {
                Ok(_) => {
                    &&& accepts_tiling_children(old(self).node(parent as int).kind)
                    &&& is_tiling_kind(old(self).node(child as int).kind)
                    &&& insert_allowed(*old(self), parent, target_index, child)
                    &&& insert_ok(*old(self), *final(self), parent, target_index, child)
                },
                Err(e) => {
                    &&& *final(self) == *old(self)
                    &&& e == insert_error(*old(self), parent, child)
                    &&& !(insert_allowed(*old(self), parent, target_index, child)
                        && accepts_tiling_children(old(self).node(parent as int).kind)
                        && is_tiling_kind(old(self).node(child as int).kind))
                },
            },
    {
        let n = self.containers.len();
        if parent >= n || child >= n {
            return Err(WmError::LookupFailure);
        }
        if !kind_accepts_tiling_children(self.containers[parent].kind) {
            return Err(WmError::InvariantViolation);
        }
        if !kind_is_tiling(self.containers[child].kind) {
            return Err(WmError::InvariantViolation);
        }
        self.insert_child(parent, target_index, child)
    }

    /// Replaces the layout state and kind of window `w`; `kind` names
    /// which window kind the state puts the container in.
    pub(crate) fn set_window_layout(&mut self, w: usize, state: WindowState, kind: ContainerKind)
        requires
            old(self).wf(),
            old(self).is_window(w as int),
            kind == kind_for_state(state),
        ensures
            final(self).wf(),
            same_but_window_fields(*old(self), *final(self), w),
            final(self).node(w as int).kind == kind,
            final(self).node(w as int).frame == old(self).node(w as int).frame,
            final(self).win(w as int).state == state,
            final(self).win(w as int).floating_placement == old(self).win(
                w as int,
            ).floating_placement,
            final(self).win(w as int).prev_tiling_position == old(self).win(
                w as int,
            ).prev_tiling_position,
            final(self).win(w as int).active_drag == old(self).win(w as int).active_drag,
            final(self).win(w as int).title == old(self).win(w as int).title,
            final(self).win(w as int).process_name == old(self).win(w as int).process_name,
            final(self).win(w as int).class_name == old(self).win(w as int).class_name,
    {
        self.containers[w].kind = kind;
        proof {
            assert(old(self).node_ok(w as int));
        }
        if let Some(data) = &mut self.containers[w].window {
            data.state = state;
        }
        proof {
            lemma_wf_same_structure(*old(self), *self, w);
        }
    }

    /// Replaces the remembered tiling position of window `w`.
    pub(crate) fn set_prev_tiling_position(&mut self, w: usize, pos: Option<(usize, usize)>)
        requires
            old(self).wf(),
            old(self).is_window(w as int),
        ensures
            final(self).wf(),
            same_but_window_fields(*old(self), *final(self), w),
            final(self).node(w as int).kind == old(self).node(w as int).kind,
            final(self).node(w as int).frame == old(self).node(w as int).frame,
            final(self).win(w as int).state == old(self).win(w as int).state,
            final(self).win(w as int).floating_placement == old(self).win(
                w as int,
            ).floating_placement,
            final(self).win(w as int).prev_tiling_position == pos,
            final(self).win(w as int).active_drag == old(self).win(w as int).active_drag,
            final(self).win(w as int).title == old(self).win(w as int).title,
            final(self).win(w as int).process_name == old(self).win(w as int).process_name,
            final(self).win(w as int).class_name == old(self).win(w as int).class_name,
    {
        proof {
            assert(old(self).node_ok(w as int));
        }
        if let Some(data) = &mut self.containers[w].window {
            data.prev_tiling_position = pos;
        }
        proof {
            lemma_wf_same_structure(*old(self), *self, w);
        }
    }

    /// Replaces the floating placement of window `w`: the explicit
    /// bounds it uses while floating.
    pub fn set_floating_placement(&mut self, w: usize, rect: Rect)
        requires
            old(self).wf(),
            old(self).is_window(w as int),
        ensures
            final(self).wf(),
            same_but_window_fields(*old(self), *final(self), w),
            final(self).node(w as int).kind == old(self).node(w as int).kind,
            final(self).node(w as int).frame == old(self).node(w as int).frame,
            final(self).win(w as int).state == old(self).win(w as int).state,
            final(self).win(w as int).floating_placement == rect,
            final(self).win(w as int).prev_tiling_position == old(self).win(
                w as int,
            ).prev_tiling_position,
            final(self).win(w as int).active_drag == old(self).win(w as int).active_drag,
            final(self).win(w as int).title == old(self).win(w as int).title,
            final(self).win(w as int).process_name == old(self).win(w as int).process_name,
            final(self).win(w as int).class_name == old(self).win(w as int).class_name,
    {
        proof {
            assert(old(self).node_ok(w as int));
        }
        if let Some(data) = &mut self.containers[w].window {
            data.floating_placement = rect;
        }
        proof {
            lemma_wf_same_structure(*old(self), *self, w);
        }
    }

    /// Replaces the active-drag record of window `w`.
    pub(crate) fn set_active_drag(&mut self, w: usize, drag: Option<ActiveDrag>)
        requires
            old(self).wf(),
            old(self).is_window(w as int),
        ensures
            final(self).wf(),
            same_but_window_fields(*old(self), *final(self), w),
            final(self).node(w as int).kind == old(self).node(w as int).kind,
            final(self).node(w as int).frame == old(self).node(w as int).frame,
            final(self).win(w as int).state == old(self).win(w as int).state,
            final(self).win(w as int).floating_placement == old(self).win(
                w as int,
            ).floating_placement,
            final(self).win(w as int).prev_tiling_position == old(self).win(
                w as int,
            ).prev_tiling_position,
            final(self).win(w as int).active_drag == drag,
            final(self).win(w as int).title == old(self).win(w as int).title,
            final(self).win(w as int).process_name == old(self).win(w as int).process_name,
            final(self).win(w as int).class_name == old(self).win(w as int).class_name,
    {
        proof {
            assert(old(self).node_ok(w as int));
        }
        if let Some(data) = &mut self.containers[w].window {
            data.active_drag = drag;
        }
        proof {
            lemma_wf_same_structure(*old(self), *self, w);
        }
    }

    /// Replaces the geometry of container `c`.
    pub fn set_frame(&mut self, c: usize, frame: Rect)
        requires
            old(self).wf(),
            old(self).valid(c as int),
        ensures
            final(self).wf(),
            final(self).spec_len() == old(self).spec_len(),
            final(self).node(c as int).frame == frame,
            final(self).node(c as int).kind == old(self).node(c as int).kind,
            final(self).node(c as int).parent == old(self).node(c as int).parent,
            final(self).node(c as int).children@ == old(self).node(c as int).children@,
            final(self).node(c as int).depth == old(self).node(c as int).depth,
            final(self).node(c as int).window == old(self).node(c as int).window,
            forall|j: int|
                0 <= j < old(self).spec_len() && j != c as int ==> final(self).node(j) == old(
                    self,
                ).node(j),
            final(self).handle_index@ == old(self).handle_index@,
    {
        self.containers[c].frame = frame;
        proof {
            assert(old(self).node_ok(c as int));
            lemma_wf_same_structure(*old(self), *self, c);
        }
    }

    /// Stores the cached native title of window `w`; a title already
    /// cached is kept, the cache is populated at most once.
    pub fn cache_title(&mut self, w: usize, value: String)
        requires
            old(self).wf(),
            old(self).is_window(w as int),
        ensures
            final(self).wf(),
            same_but_window_fields(*old(self), *final(self), w),
            final(self).node(w as int).kind == old(self).node(w as int).kind,
            final(self).node(w as int).frame == old(self).node(w as int).frame,
            final(self).win(w as int).state == old(self).win(w as int).state,
            final(self).win(w as int).title == (if old(self).win(w as int).title is None {
                Some(value)
            } else {
                old(self).win(w as int).title
            }),
            final(self).win(w as int).process_name == old(self).win(w as int).process_name,
            final(self).win(w as int).class_name == old(self).win(w as int).class_name,
            final(self).win(w as int).floating_placement == old(self).win(
                w as int,
            ).floating_placement,
            final(self).win(w as int).prev_tiling_position == old(self).win(
                w as int,
            ).prev_tiling_position,
            final(self).win(w as int).active_drag == old(self).win(w as int).active_drag,
    {
        proof {
            assert(old(self).node_ok(w as int));
        }
        if let Some(data) = &mut self.containers[w].window {
            if data.title.is_none() {
                data.title = Some(value);
            }
        }
        proof {
            lemma_wf_same_structure(*old(self), *self, w);
        }
    }

    /// Stores the cached process name of window `w`; populated at most
    /// once, as `cache_title` is.
    pub fn cache_process_name(&mut self, w: usize, value: String)
        requires
            old(self).wf(),
            old(self).is_window(w as int),
        ensures
            final(self).wf(),
            same_but_window_fields(*old(self), *final(self), w),
            final(self).node(w as int).kind == old(self).node(w as int).kind,
            final(self).node(w as int).frame == old(self).node(w as int).frame,
            final(self).win(w as int).state == old(self).win(w as int).state,
            final(self).win(w as int).title == old(self).win(w as int).title,
            final(self).win(w as int).process_name == (if old(self).win(
                w as int,
            ).process_name is None {
                Some(value)
            } else {
                old(self).win(w as int).process_name
            }),
            final(self).win(w as int).class_name == old(self).win(w as int).class_name,
            final(self).win(w as int).floating_placement == old(self).win(
                w as int,
            ).floating_placement,
            final(self).win(w as int).prev_tiling_position == old(self).win(
                w as int,
            ).prev_tiling_position,
            final(self).win(w as int).active_drag == old(self).win(w as int).active_drag,
    {
        proof {
            assert(old(self).node_ok(w as int));
        }
        if let Some(data) = &mut self.containers[w].window {
            if data.process_name.is_none() {
                data.process_name = Some(value);
            }
        }
        proof {
            lemma_wf_same_structure(*old(self), *self, w);
        }
    }

    /// Stores the cached window class name of window `w`; populated at
    /// most once, as `cache_title` is.
    pub fn cache_class_name(&mut self, w: usize, value: String)
        requires
            old(self).wf(),
            old(self).is_window(w as int),
        ensures
            final(self).wf(),
            same_but_window_fields(*old(self), *final(self), w),
            final(self).node(w as int).kind == old(self).node(w as int).kind,
            final(self).node(w as int).frame == old(self).node(w as int).frame,
            final(self).win(w as int).state == old(self).win(w as int).state,
            final(self).win(w as int).title == old(self).win(w as int).title,
            final(self).win(w as int).process_name == old(self).win(w as int).process_name,
            final(self).win(w as int).class_name == (if old(self).win(
                w as int,
            ).class_name is None {
                Some(value)
            } else {
                old(self).win(w as int).class_name
            }),
            final(self).win(w as int).floating_placement == old(self).win(
                w as int,
            ).floating_placement,
            final(self).win(w as int).prev_tiling_position == old(self).win(
                w as int,
            ).prev_tiling_position,
            final(self).win(w as int).active_drag == old(self).win(w as int).active_drag,
    {
        proof {
            assert(old(self).node_ok(w as int));
        }
        if let Some(data) = &mut self.containers[w].window {
            if data.class_name.is_none() {
                data.class_name = Some(value);
            }
        }
        proof {
            lemma_wf_same_structure(*old(self), *self, w);
        }
    }

    /// The geometry of container `c`.
    pub fn frame_of(&self, c: usize) -> (r: Rect)
        requires
            self.valid(c as int),
        ensures
            r == self.node(c as int).frame,
    {
        self.containers[c].frame
    }

    /// The layout state of window `w`.
    pub fn window_state(&self, w: usize) -> (r: &WindowState)
        requires
            self.wf(),
            self.is_window(w as int),
        ensures
            *r == self.win(w as int).state,
    {
        proof {
            assert(self.node_ok(w as int));
        }
        match &self.containers[w].window {
            Some(data) => &data.state,
            None => vstd::pervasive::unreached(),
        }
    }

    /// The parent reference of container `c`.
    pub fn parent_of(&self, c: usize) -> (r: Option<usize>)
        requires
            self.valid(c as int),
        ensures
            r == self.node(c as int).parent,
    {
        self.containers[c].parent
    }

    /// The horizontal origin of container `c`'s geometry.
    pub fn x(&self, c: usize) -> (r: i64)
        requires
            self.valid(c as int),
        ensures
            r == self.node(c as int).frame.x,
    {
        self.containers[c].frame.x
    }

    /// The vertical origin of container `c`'s geometry.
    pub fn y(&self, c: usize) -> (r: i64)
        requires
            self.valid(c as int),
        ensures
            r == self.node(c as int).frame.y,
    {
        self.containers[c].frame.y
    }

    /// The width of container `c`'s geometry.
    pub fn width(&self, c: usize) -> (r: i64)
        requires
            self.valid(c as int),
        ensures
            r == self.node(c as int).frame.width,
    {
        self.containers[c].frame.width
    }

    /// The height of container `c`'s geometry.
    pub fn height(&self, c: usize) -> (r: i64)
        requires
            self.valid(c as int),
        ensures
            r == self.node(c as int).frame.height,
    {
        self.containers[c].frame.height
    }
}

} // verus!
