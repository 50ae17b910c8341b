use vstd::prelude::*;
use crate::error::{NoFocusReason, ResolveError};
use crate::laws::law_descent_ends;
use crate::model::{lemma_focus_child_index, NodeView};
use crate::tree::TreeNode;

verus! {

/// The display server's identifier of the window that a handle stands for.
///
/// The window manager reports the identifier as a signed number of 32 bits;
/// the display server reads the same bits as unsigned.
pub open spec fn window_id(handle: i32) -> u32 {
    if handle >= 0 {
        handle as u32
    } else {
        (handle + 0x1_0000_0000) as u32
    }
}

/// What is found at a node where the descent stops: the window of a focused
/// node, or the reason why there is none.
pub open spec fn verdict(node: NodeView) -> Result<u32, ResolveError> {
    if node.focused {
        match node.window_handle {
            Some(handle) => Ok(window_id(handle)),
            None => Err(ResolveError::NoFocusedWindow(NoFocusReason::NoWindow)),
        }
    } else if node.focus_path.len() == 0 {
        Err(ResolveError::NoFocusedWindow(NoFocusReason::NoFocusedNode))
    } else {
        Err(ResolveError::TreeInconsistency)
    }
}

/// The focused window of the snapshot rooted at `node`.
///
/// A focused node ends the descent. From a node that is not focused the
/// descent goes on into the child that the focus path names, and ends where
/// there is no such child.
pub open spec fn resolve(node: NodeView) -> Result<u32, ResolveError>
    decreases node,
{
    if node.focused {
        verdict(node)
    } else {
        match node.focus_child_index() {
            Some(i) => {
                proof {
                    lemma_focus_child_index(node);
                }
                resolve(node.children[i])
            },
            None => verdict(node),
        }
    }
}

/// Reads a handle's bits as the display server does.
fn window_id_of(handle: i32) -> (id: u32)
    ensures
        id == window_id(handle),
{
    let id = #[verifier::truncate] (handle as u32);
    assert(handle >= 0 ==> handle as u32 == handle) by (bit_vector);
    assert(handle < 0 ==> (handle as u32) as int == handle as int + 0x1_0000_0000) by (bit_vector);
    id
}

/// Finds the child of `node` through which the focus runs: the first child
/// whose id is the first entry of the node's focus path. There is none where
/// the focus path is empty or no child carries that id.
#[verifier::loop_isolation(false)]
pub fn get_focus_child(node: &TreeNode) -> (child: Option<&TreeNode>)
    ensures
        match node@.focus_child_index() {
            Some(i) => 0 <= i < node.children.len() && child == Some(&node.children[i]),
            None => child.is_none(),
        },
        child matches Some(c) ==> node@.focus_child() == Some(c@),
{
    proof {
        node.lemma_view();
        lemma_focus_child_index(node@);
    }
    if node.focus_path.len() == 0 {
        return None;
    }
    let target: i64 = node.focus_path[0];
    let mut i: usize = 0;
    while i < node.children.len()
        invariant
            i <= node.children.len(),
            forall|j: int| 0 <= j < i ==> (#[trigger] node@.children[j]).id != target,
        decreases node.children.len() - i,
    {
        proof {
            node.children[i as int].lemma_view();
        }
        if node.children[i].id == target {
            assert(node@.is_first_child_with_id(target, i as int));
            return Some(&node.children[i]);
        }
        i += 1;
    }
    None
}

/// Resolves the window that holds the input focus in the snapshot rooted at
/// `root`.
///
/// The descent starts at the root and follows the head of each focus path
/// until it stands on a focused node. The answer is that node's window. It
/// is `NoFocusedWindow` where that node carries no window handle, or where
/// the descent reaches a node that is not focused and has an empty focus
/// path; it is `TreeInconsistency` where a focus path names an id that no
/// child of its node carries.
pub fn get_focused_window_id(root: &TreeNode) -> (result: Result<u32, ResolveError>)
    ensures
        result == resolve(root@),
        result == verdict(root@.focus_end()),
{
    proof {
        law_descent_ends(root@);
    }
    let mut node: &TreeNode = root;
    loop
        invariant
            resolve(node@) == resolve(root@),
            resolve(root@) == verdict(root@.focus_end()),
        decreases node,
    {
        proof {
            lemma_focus_child_index(node@);
        }
        if node.focused {
            return match node.window_handle {
                Some(handle) => Ok(window_id_of(handle)),
                None => Err(ResolveError::NoFocusedWindow(NoFocusReason::NoWindow)),
            };
        }
        if node.focus_path.len() == 0 {
            return Err(ResolveError::NoFocusedWindow(NoFocusReason::NoFocusedNode));
        }
        match get_focus_child(node) {
            Some(child) => {
                node = child;
            },
            None => {
                return Err(ResolveError::TreeInconsistency);
            },
        }
    }
}

} // verus!
