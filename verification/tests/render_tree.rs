use scrollcal::render::{
    fill_rect, pad, pad_sides, pad_vertical, separator, surface, text_box, FontKind, NodeKind,
    Rect, RenderColumn, RenderGroup, SwapXY, TextMetrics,
};
use scrollcal::pipeline::next_power_of_two;

#[test]
fn pad_bounds() {
    let p = pad(10, 20).unwrap();
    assert_eq!(p.bounds(), (10, 20));
    // Bounds are pure: a second query with no intervening call agrees.
    assert_eq!(p.bounds(), p.bounds());
}

#[test]
fn pad_rejects_oversize() {
    assert!(pad(0x40000, 1).is_err());
    assert!(pad(1, 0x40000).is_err());
}

#[test]
fn column_stacks_and_group_overlays() {
    // A column of (w1,h1),(w2,h2) reports (max(w1,w2), h1+h2).
    let mut col = RenderColumn::new();
    let off0 = col.push(pad(30, 40).unwrap().into_rc()).unwrap();
    let off1 = col.push(pad(50, 7).unwrap().into_rc()).unwrap();
    assert_eq!(off0, 0);
    assert_eq!(off1, 40);
    let node = col.into_node();
    assert_eq!(node.bounds(), (50, 47));

    // A group of the same children reports (max(w1,w2), max(h1,h2)).
    let mut grp = RenderGroup::new();
    grp.push(pad(30, 40).unwrap().into_rc());
    grp.push(pad(50, 7).unwrap().into_rc());
    let node = grp.into_node();
    assert_eq!(node.bounds(), (50, 40));
}

#[test]
fn offset_grows_bounds() {
    let n = pad(10, 20).unwrap().into_rc();
    let t = n.offset(5, 6).unwrap();
    assert_eq!(t.bounds(), (15, 26));
}

#[test]
fn clip_resizes_for_layout() {
    let n = pad(100, 100).unwrap().into_rc();
    let c = n.clip_to(Rect { x: 5, y: 5, width: 8, height: 9 }).unwrap();
    assert_eq!(c.bounds(), (8, 9));
}

#[test]
fn scale_floors_rational_factors() {
    let n = pad(10, 21).unwrap().into_rc();
    // 10 * 3/2 = 15, 21 * 1/2 floors to 10.
    let s = n.scale_by(3, 2, 1, 2).unwrap();
    assert_eq!(s.bounds(), (15, 10));
    assert!(n.scale_by(1, 0, 1, 1).is_err());
}

#[test]
fn swap_transposes() {
    let n = pad(10, 20).unwrap().into_rc();
    let s = SwapXY::new(n).into_node();
    assert_eq!(s.bounds(), (20, 10));
}

#[test]
fn margin_surrounds() {
    let n = pad(10, 20).unwrap().into_rc();
    let m = n.margin(3, 4).unwrap();
    assert_eq!(m.bounds(), (16, 28));
}

#[test]
fn center_in_front_of_takes_backdrop_bounds() {
    let small = pad(10, 10).unwrap().into_rc();
    let big = pad(30, 20).unwrap().into_rc();
    let c = small.center_in_front_of(&big);
    assert_eq!(c.bounds(), (30, 20));
}

#[test]
fn separator_bounds() {
    let s = separator((1, 2, 3), 111, 2, 4, 4).unwrap();
    assert_eq!(s.bounds(), (111, 6));
}

#[test]
fn surface_and_text_leaves() {
    let s = surface(7, 640, 480).unwrap();
    assert_eq!(s.bounds(), (640, 480));
    let t = text_box(
        "hello".to_owned(),
        (0, 0, 0),
        FontKind::Time,
        100,
        1,
        TextMetrics { width: 42, height: 17, baseline: 13 },
    )
    .unwrap();
    assert_eq!(t.bounds(), (42, 17));
}

#[test]
fn pad_vertical_bounds_and_structure() {
    // Padding a W x H source by (a, b) vertically yields W x (H + a + b).
    let src = fill_rect((9, 9, 9), 10, 20).unwrap().into_rc();
    let padded = pad_vertical(&src, 3, 4).unwrap();
    assert_eq!(padded.bounds(), (10, 27));
    // Three regions: a stretched top row, the source, a stretched bottom row.
    match &padded.0.kind {
        NodeKind::Group { children } => {
            assert_eq!(children.len(), 3);
            // The top slice clips the first pixel row of the source.
            match &children[0].0.kind {
                NodeKind::Translate { child, dx, dy } => {
                    assert_eq!((*dx, *dy), (0, 0));
                    match &child.0.kind {
                        NodeKind::Scale { child, sy_num, .. } => {
                            assert_eq!(*sy_num, 3);
                            match &child.0.kind {
                                NodeKind::Clip { rect, .. } => {
                                    assert_eq!(*rect, Rect { x: 0, y: 0, width: 10, height: 1 });
                                },
                                _ => panic!("expected a clip of the top row"),
                            }
                        },
                        _ => panic!("expected a vertical stretch"),
                    }
                },
                _ => panic!("expected a placed slice"),
            }
            // The bottom slice clips the last pixel row of the source.
            match &children[2].0.kind {
                NodeKind::Translate { child, dy, .. } => {
                    assert_eq!(*dy, 23);
                    match &child.0.kind {
                        NodeKind::Scale { child, sy_num, .. } => {
                            assert_eq!(*sy_num, 4);
                            match &child.0.kind {
                                NodeKind::Clip { rect, .. } => {
                                    assert_eq!(*rect, Rect { x: 0, y: 19, width: 10, height: 1 });
                                },
                                _ => panic!("expected a clip of the bottom row"),
                            }
                        },
                        _ => panic!("expected a vertical stretch"),
                    }
                },
                _ => panic!("expected a placed slice"),
            }
        },
        _ => panic!("expected a group of slices"),
    }
}

#[test]
fn pad_vertical_zero_pads_skip_slices() {
    let src = pad(10, 20).unwrap().into_rc();
    let padded = pad_vertical(&src, 0, 0).unwrap();
    assert_eq!(padded.bounds(), (10, 20));
    match &padded.0.kind {
        NodeKind::Group { children } => assert_eq!(children.len(), 1),
        _ => panic!("expected a group"),
    }
}

#[test]
fn pad_sides_bounds() {
    let src = pad(10, 20).unwrap().into_rc();
    let padded = pad_sides(&src, 5, 6).unwrap();
    assert_eq!(padded.bounds(), (21, 20));
}

#[test]
fn next_power_of_two_rounds_up() {
    assert_eq!(next_power_of_two(0), 1);
    assert_eq!(next_power_of_two(1), 1);
    assert_eq!(next_power_of_two(2), 2);
    assert_eq!(next_power_of_two(3), 4);
    assert_eq!(next_power_of_two(1000), 1024);
    assert_eq!(next_power_of_two(1024), 1024);
    assert_eq!(next_power_of_two(1025), 2048);
    assert_eq!(next_power_of_two(1447), 2048);
}
