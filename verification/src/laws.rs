use vstd::prelude::*;
use crate::error::{NoFocusReason, ResolveError};
use crate::resolve::{resolve, verdict, window_id};
use crate::model::{lemma_focus_child_index, NodeView};

verus! {

/// Following the focus does not change the answer: a snapshot resolves to
/// what the node at the end of any route of the focus resolves to.
pub proof fn law_resolve_along_focus(tree: NodeView, route: Seq<int>)
    requires
        tree.focus_leads_along(route),
    ensures
        resolve(tree) == resolve(tree.descend(route)),
    decreases route.len(),
{
    if route.len() > 0 {
        lemma_focus_child_index(tree);
        law_resolve_along_focus(tree.children[route[0]], route.drop_first());
    }
}

/// Where the descent stops, the answer is read off that node alone.
pub proof fn law_resolve_at_end(tree: NodeView, route: Seq<int>)
    requires
        tree.focus_leads_along(route),
        tree.descend(route).ends_descent(),
    ensures
        resolve(tree) == verdict(tree.descend(route)),
{
    law_resolve_along_focus(tree, route);
}

/// Every snapshot has a route of the focus that ends the descent, so every
/// snapshot has an answer.
pub proof fn law_descent_ends(tree: NodeView)
    ensures
        tree.focus_leads_along(tree.focus_route()),
        tree.focus_end().ends_descent(),
        resolve(tree) == verdict(tree.focus_end()),
    decreases tree,
{
    lemma_focus_child_index(tree);
    if !tree.focused {
        if let Some(i) = tree.focus_child_index() {
            let child = tree.children[i];
            let route = tree.focus_route();
            law_descent_ends(child);
            assert(route.drop_first() =~= child.focus_route());
        }
    }
    law_resolve_at_end(tree, tree.focus_route());
}

/// The focus takes one route only: two routes of the focus that both end the
/// descent are the same route.
pub proof fn law_focus_route_unique(tree: NodeView, a: Seq<int>, b: Seq<int>)
    requires
        tree.focus_leads_along(a),
        tree.descend(a).ends_descent(),
        tree.focus_leads_along(b),
        tree.descend(b).ends_descent(),
    ensures
        a == b,
    decreases a.len(),
{
    if a.len() > 0 && b.len() > 0 {
        law_focus_route_unique(tree.children[a[0]], a.drop_first(), b.drop_first());
        assert(a =~= seq![a[0]] + a.drop_first());
        assert(b =~= seq![b[0]] + b.drop_first());
    }
}

/// A route of the focus stays inside the tree.
pub proof fn law_focus_route_in_tree(tree: NodeView, route: Seq<int>)
    requires
        tree.focus_leads_along(route),
    ensures
        tree.has_route(route),
    decreases route.len(),
{
    if route.len() > 0 {
        lemma_focus_child_index(tree);
        law_focus_route_in_tree(tree.children[route[0]], route.drop_first());
    }
}

/// In a well-formed snapshot the focused node is found wherever it stands:
/// resolution never fails with `TreeInconsistency`; if some node of the tree
/// is focused, the answer is read off that node; and if none is, the answer
/// is that no node is focused.
pub proof fn law_well_formed_snapshot(tree: NodeView)
    requires
        tree.well_formed(),
    ensures
        resolve(tree) != Err::<u32, ResolveError>(ResolveError::TreeInconsistency),
        forall|route: Seq<int>|
            tree.has_route(route) && (#[trigger] tree.descend(route)).focused ==> resolve(tree)
                == verdict(tree.descend(route)),
        (forall|route: Seq<int>|
            tree.has_route(route) ==> !(#[trigger] tree.descend(route)).focused) ==> resolve(tree)
            == Err::<u32, ResolveError>(
            ResolveError::NoFocusedWindow(NoFocusReason::NoFocusedNode),
        ),
{
    law_descent_ends(tree);
    law_focus_route_in_tree(tree, tree.focus_route());
}

/// Where no two children of a node carry the same id, the child that
/// carries the id at the head of the focus path is the one through which the
/// focus runs.
pub proof fn law_named_child(node: NodeView, i: int)
    requires
        node.focus_path.len() > 0,
        0 <= i < node.children.len(),
        node.children[i].id == node.focus_path[0],
        forall|j: int, k: int|
            0 <= j < k < node.children.len() ==> (#[trigger] node.children[j]).id
                != (#[trigger] node.children[k]).id,
    ensures
        node.focus_child_index() == Some(i),
{
    lemma_focus_child_index(node);
}

/// A handle that is not negative is the window identifier itself.
pub proof fn law_window_id_of_nonnegative(handle: i32)
    requires
        handle >= 0,
    ensures
        window_id(handle) == handle,
{
}

/// Distinct handles stand for distinct windows.
pub proof fn law_window_id_injective(a: i32, b: i32)
    requires
        window_id(a) == window_id(b),
    ensures
        a == b,
{
}

/// A root that is focused and carries a window handle resolves to that
/// window, whatever else the snapshot holds.
pub proof fn law_focused_root(tree: NodeView, handle: i32)
    requires
        tree.focused,
        tree.window_handle == Some(handle),
    ensures
        resolve(tree) == Ok::<u32, ResolveError>(window_id(handle)),
{
}

/// Where at each level the head of the focus path names the next child on
/// the way, and the node at the end of the way is the one focused node on it
/// and carries a window handle, the snapshot resolves to that window.
pub proof fn law_focused_leaf(tree: NodeView, route: Seq<int>, handle: i32)
    requires
        tree.focus_leads_along(route),
        tree.descend(route).focused,
        tree.descend(route).window_handle == Some(handle),
    ensures
        resolve(tree) == Ok::<u32, ResolveError>(window_id(handle)),
{
    law_resolve_at_end(tree, route);
}

/// Where at each level the head of the focus path names the next child on
/// the way to a leaf, and that leaf is the only node of the snapshot that is
/// focused, the snapshot resolves to the window of that leaf.
pub proof fn law_unique_focused_leaf(tree: NodeView, route: Seq<int>, handle: i32)
    requires
        tree.focus_paths_name(route),
        tree.only_focus_at(route),
        tree.descend(route).focused,
        tree.descend(route).window_handle == Some(handle),
    ensures
        resolve(tree) == Ok::<u32, ResolveError>(window_id(handle)),
{
    lemma_only_focus_leads(tree, route);
    law_focused_leaf(tree, route, handle);
}

proof fn lemma_only_focus_leads(tree: NodeView, route: Seq<int>)
    requires
        tree.focus_paths_name(route),
        tree.only_focus_at(route),
    ensures
        tree.focus_leads_along(route),
    decreases route.len(),
{
    if route.len() > 0 {
        lemma_focus_child_index(tree);
        let i = route[0];
        let child = tree.children[i];
        let rest = route.drop_first();
        assert(tree.descend(Seq::<int>::empty()) == tree);
        assert forall|other: Seq<int>|
            child.has_route(other) && (#[trigger] child.descend(other)).focused implies other
            == rest by {
            let longer = seq![i] + other;
            assert(longer.drop_first() =~= other);
            assert(tree.descend(longer) == child.descend(other));
        }
        lemma_only_focus_leads(child, rest);
    }
}

/// Where the focus leads to a node that is not focused and whose focus path
/// names an id that none of its children carries, at whatever level,
/// resolution fails with `TreeInconsistency`.
pub proof fn law_missing_child(tree: NodeView, route: Seq<int>)
    requires
        tree.focus_leads_along(route),
        !tree.descend(route).focused,
        tree.descend(route).focus_path.len() > 0,
        !tree.descend(route).has_child_with_id(tree.descend(route).focus_path[0]),
    ensures
        resolve(tree) == Err::<u32, ResolveError>(ResolveError::TreeInconsistency),
{
    law_resolve_at_end(tree, route);
}

/// Where the focus leads to a focused node without a window handle,
/// resolution fails with `NoFocusedWindow`.
pub proof fn law_focused_without_window(tree: NodeView, route: Seq<int>)
    requires
        tree.focus_leads_along(route),
        tree.descend(route).focused,
        tree.descend(route).window_handle.is_none(),
    ensures
        resolve(tree) == Err::<u32, ResolveError>(
            ResolveError::NoFocusedWindow(NoFocusReason::NoWindow),
        ),
{
    law_resolve_at_end(tree, route);
}

/// Where the focus leads to a node that is not focused and whose focus path
/// is empty, resolution fails with `NoFocusedWindow`.
pub proof fn law_focus_runs_out(tree: NodeView, route: Seq<int>)
    requires
        tree.focus_leads_along(route),
        !tree.descend(route).focused,
        tree.descend(route).focus_path.len() == 0,
    ensures
        resolve(tree) == Err::<u32, ResolveError>(
            ResolveError::NoFocusedWindow(NoFocusReason::NoFocusedNode),
        ),
{
    law_resolve_at_end(tree, route);
}

/// A snapshot that is nothing but a root without focus, with no children
/// and so with nothing in its focus path, fails with `NoFocusedWindow`.
pub proof fn law_bare_unfocused_root(tree: NodeView)
    requires
        !tree.focused,
        tree.children.len() == 0,
        tree.focus_path.len() == 0,
    ensures
        resolve(tree) == Err::<u32, ResolveError>(
            ResolveError::NoFocusedWindow(NoFocusReason::NoFocusedNode),
        ),
{
}

/// The answer follows the snapshot. Take two snapshots of a container
/// that is not focused itself: in `before` its focus path names the child at
/// index `b`, in `after` the child at index `a`, and each named child is
/// focused and carries a window handle. Then `before` resolves to the window
/// of its child at `b` and `after` to the window of its child at `a`,
/// whatever was resolved earlier.
pub proof fn law_focus_shift(
    before: NodeView,
    after: NodeView,
    a: int,
    b: int,
    handle_a: i32,
    handle_b: i32,
)
    requires
        !before.focused,
        before.focus_child_index() == Some(b),
        before.children[b].focused,
        before.children[b].window_handle == Some(handle_b),
        !after.focused,
        after.focus_child_index() == Some(a),
        after.children[a].focused,
        after.children[a].window_handle == Some(handle_a),
    ensures
        resolve(before) == Ok::<u32, ResolveError>(window_id(handle_b)),
        resolve(after) == Ok::<u32, ResolveError>(window_id(handle_a)),
{
    assert(before.children[b].focus_leads_along(seq![b].drop_first()));
    assert(before.children[b].descend(seq![b].drop_first()) == before.children[b]);
    law_focused_leaf(before, seq![b], handle_b);
    assert(after.children[a].focus_leads_along(seq![a].drop_first()));
    assert(after.children[a].descend(seq![a].drop_first()) == after.children[a]);
    law_focused_leaf(after, seq![a], handle_a);
}

} // verus!
