use i3flash::error::{NoFocusReason, ResolveError};
use i3flash::resolve::{get_focus_child, get_focused_window_id};
use i3flash::tree::TreeNode;

fn window(id: i64, handle: i32, focused: bool) -> TreeNode {
    TreeNode {
        id,
        children: Vec::new(),
        focus_path: Vec::new(),
        focused,
        window_handle: Some(handle),
    }
}

fn container(id: i64, children: Vec<TreeNode>, focus_path: Vec<i64>) -> TreeNode {
    TreeNode {
        id,
        children,
        focus_path,
        focused: false,
        window_handle: None,
    }
}

fn no_focused_node() -> Result<u32, ResolveError> {
    Err(ResolveError::NoFocusedWindow(NoFocusReason::NoFocusedNode))
}

fn no_window() -> Result<u32, ResolveError> {
    Err(ResolveError::NoFocusedWindow(NoFocusReason::NoWindow))
}

fn inconsistent() -> Result<u32, ResolveError> {
    Err(ResolveError::TreeInconsistency)
}

#[test]
fn focused_root_window_gives_its_handle() {
    let root = window(1, 0x0040_0007, true);
    assert_eq!(get_focused_window_id(&root), Ok(0x0040_0007));
}

#[test]
fn focused_root_is_not_descended_from() {
    let mut root = container(1, vec![window(2, 20, true)], vec![2]);
    root.focused = true;
    root.window_handle = Some(10);
    assert_eq!(get_focused_window_id(&root), Ok(10));
}

#[test]
fn nested_containers_lead_to_the_focused_leaf() {
    let workspace_one = container(
        30,
        vec![window(40, 4000, false), window(41, 4100, false)],
        vec![41, 40],
    );
    let split = container(
        32,
        vec![window(42, 4200, false), window(43, 4300, true)],
        vec![43, 42],
    );
    let workspace_two = container(31, vec![window(44, 4400, false), split], vec![32, 44]);
    let output = container(20, vec![workspace_one, workspace_two], vec![31, 30]);
    let root = container(10, vec![container(21, Vec::new(), Vec::new()), output], vec![20, 21]);
    assert_eq!(get_focused_window_id(&root), Ok(4300));
}

#[test]
fn only_the_head_of_the_focus_path_counts() {
    let root = container(
        1,
        vec![window(2, 200, true), window(3, 300, true)],
        vec![3, 2, 99],
    );
    assert_eq!(get_focused_window_id(&root), Ok(300));
}

#[test]
fn focused_flag_off_the_focus_path_is_not_seen() {
    let root = container(
        1,
        vec![window(2, 200, true), container(3, Vec::new(), Vec::new())],
        vec![3],
    );
    assert_eq!(get_focused_window_id(&root), no_focused_node());
}

#[test]
fn absent_child_at_the_root_is_an_inconsistency() {
    let root = container(1, vec![window(2, 200, true)], vec![5]);
    assert_eq!(get_focused_window_id(&root), inconsistent());
}

#[test]
fn absent_child_below_the_root_is_an_inconsistency() {
    let inner = container(3, vec![window(4, 400, true)], vec![9]);
    let middle = container(2, vec![inner], vec![3]);
    let root = container(1, vec![middle], vec![2]);
    assert_eq!(get_focused_window_id(&root), inconsistent());
}

#[test]
fn focus_path_without_any_child_is_an_inconsistency() {
    let root = container(1, Vec::new(), vec![7]);
    assert_eq!(get_focused_window_id(&root), inconsistent());
}

#[test]
fn focused_container_without_window_is_no_focused_window() {
    let mut workspace = container(3, Vec::new(), Vec::new());
    workspace.focused = true;
    let output = container(2, vec![workspace], vec![3]);
    let root = container(1, vec![output], vec![2]);
    assert_eq!(get_focused_window_id(&root), no_window());
}

#[test]
fn focused_root_without_window_is_no_focused_window() {
    let mut root = container(1, vec![window(2, 200, false)], vec![2]);
    root.focused = true;
    assert_eq!(get_focused_window_id(&root), no_window());
}

#[test]
fn bare_unfocused_root_is_no_focused_window() {
    let root = container(1, Vec::new(), Vec::new());
    assert_eq!(get_focused_window_id(&root), no_focused_node());
}

#[test]
fn unfocused_root_window_is_no_focused_window() {
    let root = window(1, 100, false);
    assert_eq!(get_focused_window_id(&root), no_focused_node());
}

#[test]
fn empty_focus_path_above_children_is_no_focused_window() {
    let root = container(1, vec![window(2, 200, true)], Vec::new());
    assert_eq!(get_focused_window_id(&root), no_focused_node());
}

#[test]
fn descent_that_runs_out_below_the_root_is_no_focused_window() {
    let root = container(1, vec![window(2, 200, false)], vec![2]);
    assert_eq!(get_focused_window_id(&root), no_focused_node());
}

#[test]
fn focus_shift_between_siblings_follows_the_snapshot() {
    let a_focused = container(
        1,
        vec![window(2, 0x0060_000a, true), window(3, 0x0060_000b, false)],
        vec![2, 3],
    );
    let b_focused = container(
        1,
        vec![window(2, 0x0060_000a, false), window(3, 0x0060_000b, true)],
        vec![3, 2],
    );
    let a_again = container(
        1,
        vec![window(2, 0x0060_000a, true), window(3, 0x0060_000b, false)],
        vec![2, 3],
    );
    assert_eq!(get_focused_window_id(&a_focused), Ok(0x0060_000a));
    assert_eq!(get_focused_window_id(&b_focused), Ok(0x0060_000b));
    assert_eq!(get_focused_window_id(&a_again), Ok(0x0060_000a));
}

#[test]
fn same_snapshot_resolves_the_same_way_twice() {
    let root = container(1, vec![window(2, 200, false), window(3, 300, true)], vec![3, 2]);
    let first = get_focused_window_id(&root);
    let second = get_focused_window_id(&root);
    assert_eq!(first, Ok(300));
    assert_eq!(second, first);
}

#[test]
fn handle_bits_are_read_as_unsigned() {
    assert_eq!(get_focused_window_id(&window(1, 0, true)), Ok(0));
    assert_eq!(get_focused_window_id(&window(1, 1, true)), Ok(1));
    assert_eq!(get_focused_window_id(&window(1, i32::MAX, true)), Ok(2_147_483_647));
    assert_eq!(get_focused_window_id(&window(1, i32::MIN, true)), Ok(2_147_483_648));
    assert_eq!(get_focused_window_id(&window(1, -1, true)), Ok(4_294_967_295));
    assert_eq!(get_focused_window_id(&window(1, -2, true)), Ok(4_294_967_294));
}

#[test]
fn first_of_two_children_with_one_id_is_taken() {
    let root = container(
        1,
        vec![window(5, 100, false), window(7, 200, true), window(7, 300, true)],
        vec![7],
    );
    assert_eq!(get_focused_window_id(&root), Ok(200));
    let child = get_focus_child(&root).unwrap();
    assert!(std::ptr::eq(child, &root.children[1]));
}

#[test]
fn focus_child_is_the_named_child() {
    let root = container(
        1,
        vec![window(2, 200, false), window(3, 300, false), window(4, 400, false)],
        vec![4, 2, 3],
    );
    let child = get_focus_child(&root).unwrap();
    assert!(std::ptr::eq(child, &root.children[2]));
    assert_eq!(child.id, 4);
    assert_eq!(child.window_handle, Some(400));
}

#[test]
fn focus_child_of_empty_focus_path_is_none() {
    let root = container(1, vec![window(2, 200, true)], Vec::new());
    assert!(get_focus_child(&root).is_none());
}

#[test]
fn focus_child_of_absent_id_is_none() {
    let root = container(1, vec![window(2, 200, true)], vec![3, 2]);
    assert!(get_focus_child(&root).is_none());
}

#[test]
fn focus_child_ignores_ids_further_down() {
    let inner = container(2, vec![window(9, 900, true)], vec![9]);
    let root = container(1, vec![inner], vec![9]);
    assert!(get_focus_child(&root).is_none());
    assert_eq!(get_focused_window_id(&root), inconsistent());
}

#[test]
fn extreme_ids_are_matched_exactly() {
    let root = container(
        i64::MIN,
        vec![window(i64::MAX, 1, false), window(i64::MIN, 2, true)],
        vec![i64::MIN],
    );
    assert_eq!(get_focused_window_id(&root), Ok(2));
}

#[test]
fn long_descent_reaches_the_leaf() {
    let depth: i64 = 200;
    let mut node = window(depth, 777, true);
    let mut level = depth;
    while level > 0 {
        level -= 1;
        let below = node.id;
        node = container(level, vec![window(-1 - level, 1, false), node], vec![below]);
    }
    assert_eq!(node.id, 0);
    assert_eq!(get_focused_window_id(&node), Ok(777));
}

#[test]
fn each_failure_has_its_own_message() {
    assert_eq!(ResolveError::TreeInconsistency.message(), "inconsistent window tree");
    assert_eq!(
        ResolveError::NoFocusedWindow(NoFocusReason::NoFocusedNode).message(),
        "no focused node found"
    );
    assert_eq!(
        ResolveError::NoFocusedWindow(NoFocusReason::NoWindow).message(),
        "focused element has no associated window"
    );
}

#[test]
fn failures_compare_by_kind_and_reason() {
    assert_ne!(inconsistent(), no_focused_node());
    assert_ne!(no_focused_node(), no_window());
    assert!(matches!(no_window(), Err(ResolveError::NoFocusedWindow(_))));
    assert!(matches!(no_focused_node(), Err(ResolveError::NoFocusedWindow(_))));
}
