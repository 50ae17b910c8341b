use vstd::prelude::*;
use crate::model::NodeView;

verus! {

/// One element of the layout hierarchy, as the window manager reported it.
///
/// A snapshot is a value like any other: it is built once from what the
/// window manager sent and only read afterwards.
#[derive(Debug, PartialEq, Eq)]
pub struct TreeNode {
    /// The window manager's identifier of this node.
    pub id: i64,
    /// The nodes directly below this one, in the order they were reported.
    pub children: Vec<TreeNode>,
    /// Identifiers of children in focus order; the first entry names the
    /// child through which the focus runs.
    pub focus_path: Vec<i64>,
    /// Whether this very node holds the input focus.
    pub focused: bool,
    /// The handle of the window on screen, where this node is one.
    pub window_handle: Option<i32>,
}

impl View for TreeNode {
    type V = NodeView;

    open spec fn view(&self) -> NodeView {
        node_view(*self)
    }
}

/// The value of one node: its own fields, and the values of its children.
pub open spec fn node_view(node: TreeNode) -> NodeView
    decreases node,
{
    NodeView {
        id: node.id,
        children: node_views(node.children@),
        focus_path: node.focus_path@,
        focused: node.focused,
        window_handle: node.window_handle,
    }
}

/// The values of a run of nodes, in the same order.
pub open spec fn node_views(nodes: Seq<TreeNode>) -> Seq<NodeView>
    decreases nodes,
{
    if nodes.len() == 0 {
        Seq::empty()
    } else {
        node_views(nodes.drop_last()).push(node_view(nodes.last()))
    }
}

/// `node_views` keeps the length and takes each node to its value.
pub proof fn lemma_node_views(nodes: Seq<TreeNode>)
    ensures
        node_views(nodes).len() == nodes.len(),
        forall|i: int| 0 <= i < nodes.len() ==> #[trigger] node_views(nodes)[i] == nodes[i]@,
    decreases nodes.len(),
{
    if nodes.len() > 0 {
        lemma_node_views(nodes.drop_last());
    }
}

impl TreeNode {
    /// The view of a node holds the node's own fields and, in the same
    /// order, the views of its children.
    pub proof fn lemma_view(&self)
        ensures
            self@.id == self.id,
            self@.focus_path == self.focus_path@,
            self@.focused == self.focused,
            self@.window_handle == self.window_handle,
            self@.children.len() == self.children@.len(),
            forall|i: int|
                0 <= i < self.children@.len() ==> #[trigger] self@.children[i]
                    == self.children@[i]@,
    {
        lemma_node_views(self.children@);
    }
}

} // verus!
