use ui_layout::geometry::{halve, viewport, Offset, RectTransform, Size, UIContraints};
use ui_layout::layout::{layout_node, update_layout};
use ui_layout::style::{Expanded, Padding, Row, UIStyle};
use ui_layout::tree::UITree;

fn row(width: i32) -> UIStyle {
    UIStyle::Row(Row { width })
}

fn expanded(flex: u32) -> UIStyle {
    UIStyle::Expanded(Expanded { flex })
}

fn padding(top: i32, bottom: i32, left: i32, right: i32) -> UIStyle {
    UIStyle::Padding(Padding { top, bottom, left, right })
}

fn rect(t: &UITree, h: usize) -> RectTransform {
    t.rect(h).unwrap()
}

#[test]
fn row_of_three_weighted_children() {
    let mut t = UITree::new();
    let root = t.add_root(row(900), 0);
    let a = t.add_child(root, expanded(1), 1).unwrap();
    let b = t.add_child(root, expanded(2), 1).unwrap();
    let c = t.add_child(root, expanded(3), 1).unwrap();
    update_layout(&mut t, 900, 600);
    assert_eq!(rect(&t, root).size, Size { width: 900, height: 600 });
    assert_eq!(rect(&t, root).position, Offset { x: 0, y: 0 });
    assert_eq!(rect(&t, a).size, Size { width: 150, height: 600 });
    assert_eq!(rect(&t, b).size, Size { width: 300, height: 600 });
    assert_eq!(rect(&t, c).size, Size { width: 450, height: 600 });
    assert_eq!(rect(&t, a).position, Offset { x: -375, y: 0 });
    assert_eq!(rect(&t, b).position, Offset { x: -150, y: 0 });
    assert_eq!(rect(&t, c).position, Offset { x: 225, y: 0 });
}

#[test]
fn padding_around_expanded() {
    let mut t = UITree::new();
    let root = t.add_root(padding(10, 10, 10, 10), 0);
    let child = t.add_child(root, expanded(1), 1).unwrap();
    update_layout(&mut t, 200, 100);
    assert_eq!(rect(&t, root).size, Size { width: 200, height: 100 });
    assert_eq!(rect(&t, child).size, Size { width: 180, height: 80 });
    assert_eq!(rect(&t, child).position, Offset { x: 0, y: 0 });
    let p = Padding { top: 10, bottom: 10, left: 10, right: 10 };
    let cc = p.child_constraints(UIContraints { min_width: 0, max_width: 200, min_height: 0, max_height: 100 });
    assert_eq!(cc, UIContraints { min_width: -20, max_width: 180, min_height: -20, max_height: 80 });
}

#[test]
fn padding_offset_with_unequal_insets() {
    let p = Padding { top: 4, bottom: 10, left: 30, right: 10 };
    // -(30+10)/2 + 30 = 10; -(4+10)/2 + 10 = 3
    assert_eq!(p.child_offset(), Offset { x: 10, y: 3 });
}

#[test]
fn row_width_clamped_to_limits() {
    let c = UIContraints { min_width: 50, max_width: 900, min_height: 0, max_height: 600 };
    assert_eq!(Row { width: 1000 }.resolve_size(c), Size { width: 900, height: 600 });
    assert_eq!(Row { width: 10 }.resolve_size(c), Size { width: 50, height: 600 });
    assert_eq!(Row { width: 300 }.resolve_size(c), Size { width: 300, height: 600 });
    let inverted = UIContraints { min_width: 100, max_width: 40, min_height: 700, max_height: 600 };
    assert_eq!(Row { width: 70 }.resolve_size(inverted), Size { width: 100, height: 600 });
}

#[test]
fn expanded_passes_limits_unchanged() {
    let mut t = UITree::new();
    let root = t.add_root(expanded(5), 0);
    let inner = t.add_child(root, expanded(2), 1).unwrap();
    let leaf = t.add_child(inner, row(30), 2).unwrap();
    update_layout(&mut t, 640, 480);
    assert_eq!(rect(&t, root).size, Size { width: 640, height: 480 });
    assert_eq!(rect(&t, inner).size, Size { width: 640, height: 480 });
    assert_eq!(rect(&t, inner).position, Offset { x: 0, y: 0 });
    // a row under the viewport limits keeps its own width
    assert_eq!(rect(&t, leaf).size, Size { width: 30, height: 480 });
}

#[test]
fn second_pass_changes_nothing() {
    let mut t = UITree::new();
    let root = t.add_root(row(900), 0);
    t.add_child(root, expanded(1), 1).unwrap();
    let e = t.add_child(root, expanded(2), 1).unwrap();
    let p = t.add_child(e, padding(3, 5, 7, 11), 2).unwrap();
    let r = t.add_child(p, row(1000), 3).unwrap();
    t.add_child(r, expanded(1), 4).unwrap();
    t.add_child(r, padding(0, 0, 0, 0), 4).unwrap();
    update_layout(&mut t, 901, 599);
    let first: Vec<RectTransform> = (0..t.len()).map(|h| rect(&t, h)).collect();
    update_layout(&mut t, 901, 599);
    let second: Vec<RectTransform> = (0..t.len()).map(|h| rect(&t, h)).collect();
    assert_eq!(first, second);
}

#[test]
fn dangling_child_is_skipped() {
    let mut t = UITree::new();
    let root = t.add_root(row(900), 0);
    let a = t.add_child(root, expanded(1), 1).unwrap();
    let b = t.add_child(root, expanded(1), 1).unwrap();
    let c = t.add_child(root, expanded(1), 1).unwrap();
    t.remove(b);
    update_layout(&mut t, 900, 600);
    assert_eq!(rect(&t, a).size, Size { width: 450, height: 600 });
    assert_eq!(rect(&t, c).size, Size { width: 450, height: 600 });
    assert_eq!(rect(&t, a).position, Offset { x: -225, y: 0 });
    assert_eq!(rect(&t, c).position, Offset { x: 225, y: 0 });
    assert_eq!(rect(&t, b), RectTransform::with_depth(1));

    let mut u = UITree::new();
    let root2 = u.add_root(row(900), 0);
    let a2 = u.add_child(root2, expanded(1), 1).unwrap();
    let c2 = u.add_child(root2, expanded(1), 1).unwrap();
    update_layout(&mut u, 900, 600);
    assert_eq!(rect(&t, a), rect(&u, a2));
    assert_eq!(rect(&t, c), rect(&u, c2));
}

#[test]
fn orphaned_subtree_is_untouched() {
    let mut t = UITree::new();
    let root = t.add_root(expanded(1), 0);
    let mid = t.add_child(root, expanded(1), 1).unwrap();
    let leaf = t.add_child(mid, expanded(1), 2).unwrap();
    t.remove(mid);
    update_layout(&mut t, 100, 100);
    assert_eq!(rect(&t, leaf), RectTransform::with_depth(2));
    assert_eq!(rect(&t, root).size, Size { width: 100, height: 100 });
}

#[test]
fn zero_total_flex_gives_zero_widths() {
    let mut t = UITree::new();
    let root = t.add_root(row(500), 0);
    let a = t.add_child(root, expanded(0), 1).unwrap();
    let b = t.add_child(root, expanded(0), 1).unwrap();
    update_layout(&mut t, 800, 300);
    assert_eq!(rect(&t, a).size, Size { width: 0, height: 300 });
    assert_eq!(rect(&t, b).size, Size { width: 0, height: 300 });
    assert_eq!(rect(&t, a).position, Offset { x: -250, y: 0 });
}

#[test]
fn row_without_children_takes_its_width() {
    let mut t = UITree::new();
    let root = t.add_root(row(120), 0);
    update_layout(&mut t, 800, 300);
    assert_eq!(rect(&t, root).size, Size { width: 120, height: 300 });
}

#[test]
fn non_expanded_child_weighs_one() {
    let mut t = UITree::new();
    let root = t.add_root(row(900), 0);
    let p = t.add_child(root, padding(0, 0, 0, 0), 1).unwrap();
    let e = t.add_child(root, expanded(2), 1).unwrap();
    update_layout(&mut t, 900, 600);
    assert_eq!(rect(&t, p).size, Size { width: 300, height: 600 });
    assert_eq!(rect(&t, e).size, Size { width: 600, height: 600 });
    assert_eq!(rect(&t, p).position, Offset { x: -300, y: 0 });
    assert_eq!(rect(&t, e).position, Offset { x: 150, y: 0 });
}

#[test]
fn uneven_division_adds_up() {
    let mut t = UITree::new();
    let root = t.add_root(row(100), 0);
    let kids: Vec<usize> = (0..3).map(|_| t.add_child(root, expanded(1), 1).unwrap()).collect();
    update_layout(&mut t, 100, 10);
    let widths: Vec<i32> = kids.iter().map(|&k| rect(&t, k).size.width).collect();
    assert_eq!(widths, vec![33, 33, 34]);
    assert_eq!(widths.iter().sum::<i32>(), 100);
}

#[test]
fn oversized_padding_passes_negative_range() {
    let mut t = UITree::new();
    let root = t.add_root(padding(100, 100, 100, 100), 0);
    let child = t.add_child(root, expanded(1), 1).unwrap();
    update_layout(&mut t, 150, 150);
    assert_eq!(rect(&t, root).size, Size { width: 150, height: 150 });
    assert_eq!(rect(&t, child).size, Size { width: -50, height: -50 });
}

#[test]
fn padding_saturates_at_i32_bounds() {
    let p = Padding { top: i32::MAX, bottom: i32::MAX, left: i32::MIN, right: i32::MIN };
    let cc = p.child_constraints(UIContraints { min_width: 0, max_width: 10, min_height: 0, max_height: 10 });
    assert_eq!(cc, UIContraints { min_width: i32::MAX, max_width: i32::MAX, min_height: i32::MIN, max_height: i32::MIN });
}

#[test]
fn negative_row_width_divides_toward_zero() {
    let mut t = UITree::new();
    let root = t.add_root(padding(0, 0, 60, 60), 0);
    let r = t.add_child(root, row(500), 1).unwrap();
    let a = t.add_child(r, expanded(1), 2).unwrap();
    let b = t.add_child(r, expanded(1), 2).unwrap();
    update_layout(&mut t, 100, 40);
    // the row gets the range [-120, -20] and clamps 500 down to -20
    assert_eq!(rect(&t, r).size, Size { width: -20, height: 40 });
    assert_eq!(rect(&t, a).size, Size { width: -10, height: 40 });
    assert_eq!(rect(&t, b).size, Size { width: -10, height: 40 });
    assert_eq!(rect(&t, a).position, Offset { x: 5, y: 0 });
    assert_eq!(rect(&t, b).position, Offset { x: -5, y: 0 });
}

#[test]
fn depth_is_kept() {
    let mut t = UITree::new();
    let root = t.add_root(row(10), 7);
    let a = t.add_child(root, expanded(1), 9).unwrap();
    update_layout(&mut t, 10, 10);
    assert_eq!(rect(&t, root).depth, 7);
    assert_eq!(rect(&t, a).depth, 9);
    assert_eq!(rect(&t, a).translation(), (0, 0, 9));
}

#[test]
fn several_roots_each_get_the_viewport() {
    let mut t = UITree::new();
    let r1 = t.add_root(expanded(1), 0);
    let r2 = t.add_root(row(50), 0);
    update_layout(&mut t, 300, 200);
    assert_eq!(rect(&t, r1).size, Size { width: 300, height: 200 });
    assert_eq!(rect(&t, r2).size, Size { width: 50, height: 200 });
}

#[test]
fn layout_node_under_given_limits() {
    let mut t = UITree::new();
    let root = t.add_root(padding(10, 10, 10, 10), 0);
    let child = t.add_child(root, expanded(1), 1).unwrap();
    let c = UIContraints { min_width: 0, max_width: 200, min_height: 0, max_height: 100 };
    let size = layout_node(&t.nodes, root, c, &mut t.rects);
    assert_eq!(size, Size { width: 200, height: 100 });
    assert_eq!(rect(&t, child).size, Size { width: 180, height: 80 });
}

#[test]
fn add_child_to_missing_parent() {
    let mut t = UITree::new();
    let root = t.add_root(row(1), 0);
    assert_eq!(t.add_child(root + 5, expanded(1), 0), None);
    t.remove(root);
    assert_eq!(t.add_child(root, expanded(1), 0), None);
    assert_eq!(t.len(), 1);
}

#[test]
fn helpers() {
    assert_eq!(halve(5), 2);
    assert_eq!(halve(-5), -2);
    assert_eq!(halve(i64::MIN), i64::MIN / 2);
    assert_eq!(viewport(900, 600), UIContraints { min_width: 0, max_width: 900, min_height: 0, max_height: 600 });
    assert_eq!(RectTransform::default(), RectTransform::with_depth(0));
    assert_eq!(UIStyle::Expanded(Expanded { flex: 4 }).flex_weight(), 4);
    assert_eq!(row(3).flex_weight(), 1);
}
