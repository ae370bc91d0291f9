use deptty::geometry::{
    dir_target, dividers_of, find_divider, layout_fits, layout_tree, point_in, rect_of, HIT_SLACK,
};
use deptty::ratio::Ratio;
use deptty::tree::{
    axis_units, equalize_axis, first_leaf, focus_fallback, has_divider, has_leaf, leaf_ids,
    parent_axis, remove_leaf, replace_leaf, set_share,
};
use deptty::Node;

fn split(vertical: bool, a: Node, b: Node) -> Node {
    named_split(0, vertical, a, b)
}

fn named_split(id: u64, vertical: bool, a: Node, b: Node) -> Node {
    Node::Split {
        id,
        vertical,
        ratio: Ratio::half(),
        a: Box::new(a),
        b: Box::new(b),
    }
}

#[test]
fn equalize_shares() {
    let mut t = Node::Leaf(1);
    assert!(replace_leaf(
        &mut t,
        1,
        split(true, Node::Leaf(1), Node::Leaf(2))
    ));
    equalize_axis(&mut t, true);
    assert!(replace_leaf(
        &mut t,
        2,
        split(true, Node::Leaf(2), Node::Leaf(3))
    ));
    equalize_axis(&mut t, true);
    // 99px wide, a divider of 2 per split: about 33px each
    let w = |id| rect_of(&t, id, 0, 0, 99, 40).unwrap().2;
    let (w1, w2, w3) = (w(1), w(2), w(3));
    assert!(
        (w1 - w2).abs() <= 1 && (w2 - w3).abs() <= 1,
        "{w1} {w2} {w3} not thirds"
    );
    // closing the middle pane rebalances the rest to halves
    let axis = parent_axis(&t, 2);
    assert_eq!(axis, Some(true));
    assert!(remove_leaf(&mut t, 2));
    equalize_axis(&mut t, axis.unwrap());
    assert_eq!(rect_of(&t, 1, 0, 0, 99, 40).unwrap().2, 48);
    assert_eq!(rect_of(&t, 3, 0, 0, 99, 40).unwrap().2, 49);
    // a mixed-axis subtree counts as one unit of the other axis
    assert!(replace_leaf(
        &mut t,
        3,
        split(false, Node::Leaf(3), Node::Leaf(4))
    ));
    equalize_axis(&mut t, false);
    let h = |id| rect_of(&t, id, 0, 0, 99, 40).unwrap().3;
    assert!((h(3) - h(4)).abs() <= 1, "{} {} not halves", h(3), h(4));
}

#[test]
fn close_focus_fallback() {
    // A | (B over C): closing C falls back to B beside it, not to top-left A
    let t = split(
        true,
        Node::Leaf(1),
        split(false, Node::Leaf(2), Node::Leaf(3)),
    );
    assert_eq!(focus_fallback(&t, 3), Some(2));
    assert_eq!(focus_fallback(&t, 2), Some(3));
    assert_eq!(focus_fallback(&t, 1), Some(2));
    assert_eq!(focus_fallback(&t, 99), None);
}

#[test]
fn directional_focus() {
    // A | B over C
    let rects = vec![
        (1u64, (0, 0, 50, 40)),
        (2u64, (50, 0, 50, 20)),
        (3u64, (50, 20, 50, 20)),
    ];
    assert_eq!(dir_target(&rects, 1, 1, 0), Some(2)); // right: B and C tie, the first wins
    assert_eq!(dir_target(&rects, 1, -1, 0), None); // nothing left of A
    assert_eq!(dir_target(&rects, 2, 0, 1), Some(3));
    assert_eq!(dir_target(&rects, 3, 0, -1), Some(2));
    assert_eq!(dir_target(&rects, 3, -1, 0), Some(1));
    assert_eq!(dir_target(&rects, 2, 1, 0), None);
}

#[test]
fn only_panes_past_the_edge_count() {
    // 1 and 2 side by side above the full-width 3
    let rects = vec![
        (1u64, (0, 0, 50, 10)),
        (2u64, (52, 0, 30, 10)),
        (3u64, (0, 12, 82, 10)),
    ];
    assert_eq!(dir_target(&rects, 1, 1, 0), Some(2));
    assert_eq!(dir_target(&rects, 2, -1, 0), Some(1));
    assert_eq!(dir_target(&rects, 3, -1, 0), None);
    assert_eq!(dir_target(&rects, 3, 1, 0), None);
    // the same turned by a quarter
    let rects: Vec<_> = rects
        .iter()
        .map(|(id, r)| (*id, (r.1, r.0, r.3, r.2)))
        .collect();
    assert_eq!(dir_target(&rects, 1, 0, 1), Some(2));
    assert_eq!(dir_target(&rects, 2, 0, -1), Some(1));
    assert_eq!(dir_target(&rects, 3, 0, -1), None);
}

#[test]
fn mixed_axis_equalize_keeps_strip_shares() {
    let mut t = Node::Leaf(1);
    assert!(replace_leaf(&mut t, 1, split(false, Node::Leaf(1), Node::Leaf(2))));
    equalize_axis(&mut t, false);
    assert!(replace_leaf(&mut t, 2, split(true, Node::Leaf(2), Node::Leaf(3))));
    equalize_axis(&mut t, true);
    assert!(replace_leaf(&mut t, 3, split(false, Node::Leaf(3), Node::Leaf(4))));
    equalize_axis(&mut t, false);
    let r = |t: &Node, id: u64| rect_of(t, id, 0, 0, 99, 80).unwrap();
    assert_eq!(r(&t, 1).3, 39, "top pane must keep half the window");
    assert_eq!(r(&t, 2).3, 39, "bottom-left column keeps the other half");
    assert!((r(&t, 3).3 - r(&t, 4).3).abs() <= 1, "bottom-right splits horizontally");
    // splitting the top pane again makes three slots of the strip
    assert!(replace_leaf(&mut t, 1, split(false, Node::Leaf(1), Node::Leaf(5))));
    equalize_axis(&mut t, false);
    for id in [1, 5, 2] {
        let h = r(&t, id).3;
        assert!((h - 26).abs() <= 1, "pane {id} height {h} not a third");
    }
}

#[test]
fn split_tree_surgery() {
    let mut t = Node::Leaf(1);
    assert!(replace_leaf(
        &mut t,
        1,
        split(true, Node::Leaf(1), Node::Leaf(2))
    ));
    assert!(replace_leaf(
        &mut t,
        2,
        split(false, Node::Leaf(2), Node::Leaf(3))
    ));
    assert!(!replace_leaf(&mut t, 99, Node::Empty));
    assert_eq!(rect_of(&t, 1, 0, 0, 100, 40), Some((0, 0, 49, 40)));
    assert_eq!(rect_of(&t, 2, 0, 0, 100, 40), Some((51, 0, 49, 19)));
    assert_eq!(rect_of(&t, 3, 0, 0, 100, 40), Some((51, 21, 49, 19)));
    assert_eq!(first_leaf(&t), Some(1));
    let mut divs = Vec::new();
    dividers_of(&t, 0, 0, 100, 40, &mut divs);
    assert_eq!(divs.len(), 2);
    assert_eq!(divs[0].3, (49, 0, 2, 40));
    assert!(point_in(divs[0].3, 50, 20, HIT_SLACK));
    assert!(!point_in(divs[0].3, 10, 20, HIT_SLACK));
    // removing a leaf collapses its split into the other side
    assert!(remove_leaf(&mut t, 3));
    assert!(matches!(t, Node::Split { vertical: true, .. }));
    assert!(remove_leaf(&mut t, 1));
    assert!(matches!(t, Node::Leaf(2)));
    assert!(!remove_leaf(&mut t, 2));
}

fn strip(n: u64) -> Node {
    let mut t = Node::Leaf(1);
    for id in 2..=n {
        assert!(replace_leaf(
            &mut t,
            id - 1,
            named_split(100 + id, true, Node::Leaf(id - 1), Node::Leaf(id))
        ));
        equalize_axis(&mut t, true);
    }
    t
}

#[test]
fn shares_are_those_of_double_precision() {
    for n in 2..=40u64 {
        let t = strip(n);
        for w in [1, 2, 3, 50, 99, 640, 1919, 1920, 2559, 3841, 100_000, 2_000_000_000] {
            let mut rects = Vec::new();
            assert!(layout_fits(&t, 0, 0, w, 30));
            layout_tree(&t, 0, 0, w, 30, &mut rects);
            assert_eq!(rects.len(), n as usize);
            // the same layout in floating point
            let (mut x, mut rest) = (0i32, w);
            for (k, (id, r)) in rects.iter().enumerate() {
                assert_eq!(*id, k as u64 + 1);
                if *id == n {
                    assert_eq!(*r, (x, 0, rest, 30));
                } else {
                    let share = 1.0f64 / (n - k as u64) as f64;
                    let aw = ((rest - 2).max(0) as f64 * share) as i32;
                    assert_eq!(*r, (x, 0, aw, 30), "{n} panes in {w}");
                    x += aw + 2;
                    rest = (rest - 2 - aw).max(0);
                }
            }
        }
    }
}

#[test]
fn dragged_shares_are_those_of_double_precision() {
    for d in [1i64, 7, 97, 638, 1917, 2_147_483_645] {
        for k in 0..200i64 {
            let n = d * k / 150 - d / 10;
            let share = (n as f64 / d as f64).clamp(0.05, 0.95);
            for px in [0, 1, 99, 638, 1917, 2_147_483_645] {
                assert_eq!(
                    Ratio::of_drag(n, d).pixels(px),
                    (px as f64 * share) as i32,
                    "{n}/{d} of {px}"
                );
            }
        }
    }
}

#[test]
fn slots_of_a_balanced_strip_are_equal() {
    for n in 2..=12u64 {
        let t = strip(n);
        let mut rects = Vec::new();
        layout_tree(&t, 0, 0, 1000, 30, &mut rects);
        let fair = 1000 / n as i32;
        for (_, r) in rects {
            assert!((r.2 - fair).abs() <= 3 * n as i32, "{} of {n}", r.2);
        }
    }
}

#[test]
fn rebalancing_twice_changes_nothing_more() {
    let mut t = strip(5);
    let mut once = Vec::new();
    layout_tree(&t, 0, 0, 777, 10, &mut once);
    equalize_axis(&mut t, true);
    let mut twice = Vec::new();
    layout_tree(&t, 0, 0, 777, 10, &mut twice);
    assert_eq!(once, twice);
}

#[test]
fn closing_undoes_splitting() {
    let mut t = split(false, Node::Leaf(1), Node::Leaf(2));
    let before = format!("{t:?}");
    assert!(replace_leaf(&mut t, 2, split(true, Node::Leaf(2), Node::Leaf(3))));
    assert!(remove_leaf(&mut t, 3));
    assert_eq!(format!("{t:?}"), before);
}

#[test]
fn removing_keeps_the_others_in_order() {
    let mut t = strip(4);
    assert!(remove_leaf(&mut t, 2));
    let mut ids = Vec::new();
    leaf_ids(&t, &mut ids);
    assert_eq!(ids, [1, 3, 4]);
    assert!(has_leaf(&t, 3) && !has_leaf(&t, 2));
    assert!(!remove_leaf(&mut t, 2));
}

#[test]
fn units_count_slots_of_one_axis() {
    let t = split(true, strip(3), split(false, Node::Leaf(8), Node::Leaf(9)));
    assert_eq!(axis_units(&t, true), 4);
    assert_eq!(axis_units(&t, false), 1);
    assert_eq!(axis_units(&Node::Empty, true), 0);
}

#[test]
fn panes_and_dividers_tile_the_box() {
    let t = named_split(
        1,
        true,
        Node::Leaf(1),
        named_split(2, false, Node::Leaf(2), named_split(3, true, Node::Leaf(3), Node::Leaf(4))),
    );
    let (w, h) = (41, 23);
    let mut rects = Vec::new();
    layout_tree(&t, 0, 0, w, h, &mut rects);
    let mut divs = Vec::new();
    dividers_of(&t, 0, 0, w, h, &mut divs);
    assert_eq!(divs.iter().map(|d| d.0).collect::<Vec<_>>(), [1, 2, 3]);
    for y in 0..h {
        for x in 0..w {
            let inside = |r: &(i32, i32, i32, i32)| point_in(*r, x, y, 0);
            let n = rects.iter().filter(|(_, r)| inside(r)).count()
                + divs.iter().filter(|d| inside(&d.3)).count();
            assert_eq!(n, 1, "({x}, {y})");
        }
    }
}

#[test]
fn finding_and_setting_dividers() {
    let mut t = strip(3);
    assert!(has_divider(&t, 103) && !has_divider(&t, 7));
    let (vertical, r) = find_divider(&t, 102, 0, 0, 99, 40).unwrap();
    assert!(vertical);
    assert_eq!(r, (0, 0, 99, 40));
    assert_eq!(find_divider(&t, 7, 0, 0, 99, 40), None);
    assert!(set_share(&mut t, 102, Ratio::of(1, 4)));
    assert_eq!(rect_of(&t, 1, 0, 0, 102, 40), Some((0, 0, 25, 40)));
    assert!(!set_share(&mut t, 7, Ratio::half()));
}

#[test]
fn empty_and_tiny_boxes() {
    let t = strip(3);
    assert_eq!(rect_of(&t, 1, 0, 0, 0, 0), Some((0, 0, 0, 0)));
    assert_eq!(rect_of(&t, 3, 0, 0, 1, 1), Some((4, 0, 0, 1)));
    assert_eq!(rect_of(&Node::Empty, 1, 0, 0, 9, 9), None);
    assert!(!layout_fits(&t, 0, 0, i32::MAX, 10));
    assert!(!layout_fits(&t, 0, 0, i32::MIN, 10));
}
