use vstd::prelude::*;

verus! {

/// The mathematical value of a [`crate::tree::TreeNode`]: the same data with
/// sequences in place of vectors, all the way down.
pub ghost struct NodeView {
    /// The window manager's identifier of the node.
    pub id: i64,
    /// The values of the nodes directly below, in order.
    pub children: Seq<NodeView>,
    /// Identifiers of children in focus order.
    pub focus_path: Seq<i64>,
    /// Whether the node itself holds the input focus.
    pub focused: bool,
    /// The handle of the window on screen, where the node is one.
    pub window_handle: Option<i32>,
}

impl NodeView {
    /// Whether the child at index `i` is the first child that carries `id`.
    pub open spec fn is_first_child_with_id(self, id: i64, i: int) -> bool {
        &&& 0 <= i < self.children.len()
        &&& self.children[i].id == id
        &&& forall|j: int| 0 <= j < i ==> (#[trigger] self.children[j]).id != id
    }

    /// Whether some child carries `id`.
    pub open spec fn has_child_with_id(self, id: i64) -> bool {
        exists|i: int| 0 <= i < self.children.len() && (#[trigger] self.children[i]).id == id
    }

    /// The index of the child through which the focus runs: the first child
    /// whose id is the first entry of the focus path. There is none where the
    /// focus path is empty or names an id that no child carries.
    pub open spec fn focus_child_index(self) -> Option<int> {
        if self.focus_path.len() > 0 && self.has_child_with_id(self.focus_path[0]) {
            Some(choose|i: int| self.is_first_child_with_id(self.focus_path[0], i))
        } else {
            None
        }
    }

    /// The child through which the focus runs, if there is one.
    pub open spec fn focus_child(self) -> Option<NodeView> {
        match self.focus_child_index() {
            Some(i) => Some(self.children[i]),
            None => None,
        }
    }

    /// The node reached from this one by stepping, level by level, into the
    /// child at the index that `route` gives for that level.
    pub open spec fn descend(self, route: Seq<int>) -> NodeView
        decreases route.len(),
    {
        if route.len() == 0 {
            self
        } else {
            self.children[route[0]].descend(route.drop_first())
        }
    }

    /// Whether `route` stays inside the tree below this node.
    pub open spec fn has_route(self, route: Seq<int>) -> bool
        decreases route.len(),
    {
        route.len() == 0 || {
            &&& 0 <= route[0] < self.children.len()
            &&& self.children[route[0]].has_route(route.drop_first())
        }
    }

    /// Whether the focus paths name the way along `route`: at each level the
    /// head of the focus path names the child that the route steps into.
    pub open spec fn focus_paths_name(self, route: Seq<int>) -> bool
        decreases route.len(),
    {
        route.len() == 0 || {
            &&& self.focus_child_index() == Some(route[0])
            &&& self.children[route[0]].focus_paths_name(route.drop_first())
        }
    }

    /// Whether no node of the tree is focused but, at most, the one at the
    /// end of `route`.
    pub open spec fn only_focus_at(self, route: Seq<int>) -> bool {
        forall|other: Seq<int>|
            self.has_route(other) && (#[trigger] self.descend(other)).focused ==> other == route
    }

    /// Whether the focus leads from this node along `route`: every node that
    /// the route leaves is not focused itself, and its focus path names the
    /// child that the route steps into.
    pub open spec fn focus_leads_along(self, route: Seq<int>) -> bool
        decreases route.len(),
    {
        route.len() == 0 || {
            &&& !self.focused
            &&& self.focus_child_index() == Some(route[0])
            &&& self.children[route[0]].focus_leads_along(route.drop_first())
        }
    }

    /// Whether the descent stops at this node: it is focused, or its focus
    /// path names no child of it.
    pub open spec fn ends_descent(self) -> bool {
        self.focused || self.focus_child_index().is_none()
    }

    /// The route that the focus takes from this node to the node where the
    /// descent stops.
    pub open spec fn focus_route(self) -> Seq<int>
        decreases self,
    {
        if self.focused {
            Seq::empty()
        } else {
            match self.focus_child_index() {
                Some(i) => {
                    proof {
                        lemma_focus_child_index(self);
                    }
                    seq![i] + self.children[i].focus_route()
                },
                None => Seq::empty(),
            }
        }
    }

    /// The node at which the descent from this node stops.
    pub open spec fn focus_end(self) -> NodeView {
        self.descend(self.focus_route())
    }

    /// Whether this is a snapshot as a window manager in good order sends
    /// it: following the heads of the focus paths from the root always finds
    /// the named child, and if any node is focused, it is the one node to
    /// which the focus paths lead.
    pub open spec fn well_formed(self) -> bool {
        &&& self.focus_end().focused || self.focus_end().focus_path.len() == 0
        &&& self.only_focus_at(self.focus_route())
    }
}

/// Among the children that carry `id` there is a first one.
proof fn lemma_first_child_exists(node: NodeView, id: i64)
    requires
        node.has_child_with_id(id),
    ensures
        exists|i: int| node.is_first_child_with_id(id, i),
{
    let k = choose|i: int| 0 <= i < node.children.len() && (#[trigger] node.children[i]).id == id;
    lemma_first_child_before(node, id, k);
}

proof fn lemma_first_child_before(node: NodeView, id: i64, k: int)
    requires
        0 <= k < node.children.len(),
        node.children[k].id == id,
    ensures
        exists|i: int| 0 <= i <= k && node.is_first_child_with_id(id, i),
    decreases k,
{
    if exists|j: int| 0 <= j < k && (#[trigger] node.children[j]).id == id {
        let j = choose|j: int| 0 <= j < k && (#[trigger] node.children[j]).id == id;
        lemma_first_child_before(node, id, j);
    } else {
        assert(node.is_first_child_with_id(id, k));
    }
}

/// The focus child index, where there is one, is the index of the first
/// child that carries the id at the head of the focus path; and it is the
/// only such index.
pub proof fn lemma_focus_child_index(node: NodeView)
    ensures
        match node.focus_child_index() {
            Some(i) => node.focus_path.len() > 0 && node.is_first_child_with_id(
                node.focus_path[0],
                i,
            ),
            None => node.focus_path.len() == 0 || !node.has_child_with_id(node.focus_path[0]),
        },
        forall|i: int|
            node.focus_path.len() > 0 && #[trigger] node.is_first_child_with_id(
                node.focus_path[0],
                i,
            ) ==> node.focus_child_index() == Some(i),
{
    if node.focus_path.len() > 0 {
        let id = node.focus_path[0];
        if node.has_child_with_id(id) {
            lemma_first_child_exists(node, id);
        }
    }
}

} // verus!
