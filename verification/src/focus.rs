//! Keyboard focus over the pane tree: the pane that takes focus after the
//! focused pane closes, moving focus to the next or previous pane, and
//! selecting tab N of the focused tab group.
//!
//! The tree is seen through its leaves in depth-first order: each leaf is
//! a tab group with its id, its tabs' pane ids, and the index of the tab
//! on screen. Focus is always on the on-screen tab of some group.
use vstd::prelude::*;

verus! {

/// One leaf of the pane tree: a tab group.
#[derive(Debug, Clone, PartialEq, Eq)]
pub struct TabGroup {
    /// The leaf's node id.
    pub id: u64,
    /// The pane ids of its tabs, in tab order.
    pub panes: Vec<u64>,
    /// The index of the tab on screen.
    pub selected_index: usize,
}

/// The tab on screen of a group, if its index is in range.
pub open spec fn selected_of(g: TabGroup) -> Option<u64> {
    if g.selected_index < g.panes@.len() {
        Some(g.panes@[g.selected_index as int])
    } else {
        None
    }
}

/// The first leaf, at or after `i`, holding the pane `anchor`.
pub open spec fn leaf_from(leaves: Seq<TabGroup>, anchor: u64, i: int) -> Option<int>
    decreases leaves.len() - i,
{
    if i < 0 || i >= leaves.len() {
        None
    } else if leaves[i].panes@.contains(anchor) {
        Some(i)
    } else {
        leaf_from(leaves, anchor, i + 1)
    }
}

/// The first leaf, at or after `i`, whose node id is `id`.
pub open spec fn id_from(leaves: Seq<TabGroup>, id: u64, i: int) -> Option<int>
    decreases leaves.len() - i,
{
    if i < 0 || i >= leaves.len() {
        None
    } else if leaves[i].id == id {
        Some(i)
    } else {
        id_from(leaves, id, i + 1)
    }
}

/// The pane focused after the focused pane closed: the pane the close
/// revealed, else the on-screen tab of the first leaf.
pub open spec fn close_focus(leaves: Seq<TabGroup>, revealed: Option<u64>) -> Option<u64> {
    match revealed {
        Some(p) => Some(p),
        None => if leaves.len() > 0 {
            selected_of(leaves[0])
        } else {
            None
        },
    }
}

/// The leaf after (`forward`) or before the leaf at `idx`, wrapping around.
pub open spec fn neighbour(idx: int, len: int, forward: bool) -> int {
    if forward {
        (idx + 1) % len
    } else {
        (idx + len - 1) % len
    }
}

/// The pane focused by moving from `anchor` to the next or previous leaf
/// (depth-first order, wrapping around): that leaf's on-screen tab.
pub open spec fn adjacent_of(leaves: Seq<TabGroup>, anchor: u64, forward: bool) -> Option<u64> {
    match leaf_from(leaves, anchor, 0) {
        None => None,
        Some(c) => match id_from(leaves, leaves[c].id, 0) {
            None => None,
            Some(idx) => selected_of(leaves[neighbour(idx, leaves.len() as int, forward)]),
        },
    }
}

/// The `index`-th tab of the group holding `anchor`.
pub open spec fn nth_tab_of(leaves: Seq<TabGroup>, anchor: u64, index: int) -> Option<u64> {
    match leaf_from(leaves, anchor, 0) {
        None => None,
        Some(c) => if 0 <= index < leaves[c].panes@.len() {
            Some(leaves[c].panes@[index])
        } else {
            None
        },
    }
}

fn selected_pane(g: &TabGroup) -> (r: Option<u64>)
    ensures
        r == selected_of(*g),
{
    if g.selected_index < g.panes.len() {
        Some(g.panes[g.selected_index])
    } else {
        None
    }
}

fn holds(panes: &Vec<u64>, anchor: u64) -> (r: bool)
    ensures
        r == panes@.contains(anchor),
{
    let n = panes.len();
    let mut i: usize = 0;
    while i < n
        invariant
            n == panes@.len(),
            i <= n,
            forall|j: int| 0 <= j < i ==> panes@[j] != anchor,
        decreases n - i,
    {
        if panes[i] == anchor {
            assert(panes@[i as int] == anchor);
            return true;
        }
        i += 1;
    }
    false
}

fn find_leaf(leaves: &[TabGroup], anchor: u64) -> (r: Option<usize>)
    ensures
        match r {
            Some(k) => leaf_from(leaves@, anchor, 0) == Some(k as int),
            None => leaf_from(leaves@, anchor, 0) is None,
        },
{
    let n = leaves.len();
    let mut i: usize = 0;
    while i < n
        invariant
            n == leaves@.len(),
            i <= n,
            leaf_from(leaves@, anchor, 0) == leaf_from(leaves@, anchor, i as int),
        decreases n - i,
    {
        if holds(&leaves[i].panes, anchor) {
            return Some(i);
        }
        i += 1;
    }
    None
}

fn position_by_id(leaves: &[TabGroup], id: u64) -> (r: Option<usize>)
    ensures
        match r {
            Some(k) => id_from(leaves@, id, 0) == Some(k as int),
            None => id_from(leaves@, id, 0) is None,
        },
{
    let n = leaves.len();
    let mut i: usize = 0;
    while i < n
        invariant
            n == leaves@.len(),
            i <= n,
            id_from(leaves@, id, 0) == id_from(leaves@, id, i as int),
        decreases n - i,
    {
        if leaves[i].id == id {
            return Some(i);
        }
        i += 1;
    }
    None
}

proof fn lemma_from_in_range(leaves: Seq<TabGroup>, anchor: u64, id: u64, i: int)
    requires
        0 <= i,
    ensures
        leaf_from(leaves, anchor, i) matches Some(k) ==> i <= k < leaves.len() && leaves[k].panes@.contains(anchor)
            && forall|j: int| i <= j < k ==> !(#[trigger] leaves[j].panes@).contains(anchor),
        id_from(leaves, id, i) matches Some(k) ==> i <= k < leaves.len() && leaves[k].id == id && forall|j: int|
            i <= j < k ==> (#[trigger] leaves[j]).id != id,
    decreases leaves.len() - i,
{
    if i < leaves.len() {
        lemma_from_in_range(leaves, anchor, id, i + 1);
    }
}

/// The pane to focus after the focused pane closed: `revealed` (what the
/// close brought to the front), else the on-screen tab of the first leaf.
pub fn resolve_close_focus(leaves: &[TabGroup], revealed: Option<u64>) -> (r: Option<u64>)
    ensures
        r == close_focus(leaves@, revealed),
{
    match revealed {
        Some(p) => Some(p),
        None => {
            if leaves.len() > 0 {
                selected_pane(&leaves[0])
            } else {
                None
            }
        },
    }
}

/// The pane to focus when moving from `anchor` to the next (`forward`) or
/// previous leaf, wrapping around: that leaf's on-screen tab; `None` when
/// no leaf holds `anchor`.
pub fn adjacent_pane(leaves: &[TabGroup], anchor: u64, forward: bool) -> (r: Option<u64>)
    ensures
        r == adjacent_of(leaves@, anchor, forward),
{
    let c = match find_leaf(leaves, anchor) {
        Some(c) => c,
        None => {
            return None;
        },
    };
    proof {
        lemma_from_in_range(leaves@, anchor, leaves@[c as int].id, 0);
    }
    let idx = match position_by_id(leaves, leaves[c].id) {
        Some(i) => i,
        None => {
            return None;
        },
    };
    let len = leaves.len();
    let next_idx = if forward {
        if idx + 1 == len {
            0
        } else {
            idx + 1
        }
    } else {
        if idx == 0 {
            len - 1
        } else {
            idx - 1
        }
    };
    proof {
        let n = len as int;
        let i = idx as int;
        if i + 1 == n {
            vstd::arithmetic::div_mod::lemma_mod_self_0(n);
        } else {
            vstd::arithmetic::div_mod::lemma_small_mod((i + 1) as nat, n as nat);
        }
        if i == 0 {
            vstd::arithmetic::div_mod::lemma_small_mod((n - 1) as nat, n as nat);
        } else {
            vstd::arithmetic::div_mod::lemma_mod_add_multiples_vanish(i - 1, n);
            vstd::arithmetic::div_mod::lemma_small_mod((i - 1) as nat, n as nat);
        }
    }
    selected_pane(&leaves[next_idx])
}

/// The pane id of the `index`-th tab (0-based) of the group holding
/// `anchor`; `None` when no group holds it or the group has no such tab.
pub fn nth_tab(leaves: &[TabGroup], anchor: u64, index: usize) -> (r: Option<u64>)
    ensures
        r == nth_tab_of(leaves@, anchor, index as int),
{
    let c = match find_leaf(leaves, anchor) {
        Some(c) => c,
        None => {
            return None;
        },
    };
    proof {
        lemma_from_in_range(leaves@, anchor, 0, 0);
    }
    if index < leaves[c].panes.len() {
        Some(leaves[c].panes[index])
    } else {
        None
    }
}

/// A well-formed tree: distinct leaf ids, each pane in one leaf only, and
/// every on-screen index in range.
pub open spec fn well_formed(leaves: Seq<TabGroup>) -> bool {
    &&& forall|i: int, j: int| 0 <= i < j < leaves.len() ==> #[trigger] leaves[i].id != #[trigger] leaves[j].id
    &&& forall|i: int, j: int, p: u64|
        0 <= i < leaves.len() && 0 <= j < leaves.len() && #[trigger] leaves[i].panes@.contains(p) && #[trigger] leaves[j].panes@.contains(p)
            ==> i == j
    &&& forall|i: int| 0 <= i < leaves.len() ==> (#[trigger] leaves[i]).selected_index < leaves[i].panes@.len()
}

proof fn lemma_leaf_of_selected(leaves: Seq<TabGroup>, i: int)
    requires
        well_formed(leaves),
        0 <= i < leaves.len(),
    ensures
        leaf_from(leaves, selected_of(leaves[i]).unwrap(), 0) == Some(i),
        id_from(leaves, leaves[i].id, 0) == Some(i),
{
    let p = selected_of(leaves[i]).unwrap();
    assert(leaves[i].panes@[leaves[i].selected_index as int] == p);
    assert(leaves[i].panes@.contains(p));
    lemma_from_in_range(leaves, p, leaves[i].id, 0);
    lemma_leaf_from_reaches(leaves, p, i, 0);
    lemma_id_from_reaches(leaves, leaves[i].id, i, 0);
}

proof fn lemma_leaf_from_reaches(leaves: Seq<TabGroup>, p: u64, target: int, i: int)
    requires
        well_formed(leaves),
        0 <= i <= target < leaves.len(),
        leaves[target].panes@.contains(p),
    ensures
        leaf_from(leaves, p, i) == Some(target),
    decreases target - i,
{
    if i < target {
        if leaves[i].panes@.contains(p) {
            assert(false);
        }
        lemma_leaf_from_reaches(leaves, p, target, i + 1);
    }
}

proof fn lemma_id_from_reaches(leaves: Seq<TabGroup>, id: u64, target: int, i: int)
    requires
        well_formed(leaves),
        0 <= i <= target < leaves.len(),
        leaves[target].id == id,
    ensures
        id_from(leaves, id, i) == Some(target),
    decreases target - i,
{
    if i < target {
        assert(leaves[i].id != leaves[target].id);
        lemma_id_from_reaches(leaves, id, target, i + 1);
    }
}

/// In a well-formed tree, moving focus forward and then back returns to
/// the on-screen tab it started from, and so does moving back then forward.
pub proof fn law_adjacent_round_trip(leaves: Seq<TabGroup>, i: int)
    requires
        well_formed(leaves),
        0 <= i < leaves.len(),
    ensures
        ({
            let p = selected_of(leaves[i]).unwrap();
            &&& adjacent_of(leaves, p, true) matches Some(q) && adjacent_of(leaves, q, false) == Some(p)
            &&& adjacent_of(leaves, p, false) matches Some(q) && adjacent_of(leaves, q, true) == Some(p)
        }),
{
    let n = leaves.len() as int;
    lemma_leaf_of_selected(leaves, i);
    let f = neighbour(i, n, true);
    let b = neighbour(i, n, false);
    if i + 1 == n {
        vstd::arithmetic::div_mod::lemma_mod_self_0(n);
        assert(f == 0);
        vstd::arithmetic::div_mod::lemma_small_mod((n - 1) as nat, n as nat);
        assert(neighbour(f, n, false) == i);
    } else {
        vstd::arithmetic::div_mod::lemma_small_mod((i + 1) as nat, n as nat);
        assert(f == i + 1);
        vstd::arithmetic::div_mod::lemma_mod_add_multiples_vanish(i, n);
        vstd::arithmetic::div_mod::lemma_small_mod(i as nat, n as nat);
        assert(neighbour(f, n, false) == i);
    }
    if i == 0 {
        vstd::arithmetic::div_mod::lemma_small_mod((n - 1) as nat, n as nat);
        assert(b == n - 1);
        vstd::arithmetic::div_mod::lemma_mod_self_0(n);
        assert(neighbour(b, n, true) == i);
    } else {
        vstd::arithmetic::div_mod::lemma_mod_add_multiples_vanish(i - 1, n);
        vstd::arithmetic::div_mod::lemma_small_mod((i - 1) as nat, n as nat);
        assert(b == i - 1);
        vstd::arithmetic::div_mod::lemma_small_mod(i as nat, n as nat);
        assert(neighbour(b, n, true) == i);
    }
    lemma_leaf_of_selected(leaves, f);
    lemma_leaf_of_selected(leaves, b);
}

} // verus!
