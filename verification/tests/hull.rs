use qone::hull::{hull_node, HullError, SweepState};
use qone::types::{ClipNode, CONTENTS_EMPTY, CONTENTS_SOLID, CONTENTS_WATER};

fn nodes() -> Vec<ClipNode> {
    vec![
        ClipNode { plane_num: 0, front: 1, back: CONTENTS_SOLID as i16 },
        ClipNode { plane_num: 3, front: CONTENTS_EMPTY as i16, back: 2 },
        ClipNode { plane_num: 5, front: CONTENTS_WATER as i16, back: CONTENTS_SOLID as i16 },
    ]
}

#[test]
fn hull_node_inside_the_model() {
    let n = nodes();
    assert_eq!(hull_node(&n, 0, 2, 1), Ok(n[1]));
    assert_eq!(hull_node(&n, 1, 2, 2), Ok(n[2]));
}

#[test]
fn hull_node_outside_the_model() {
    let n = nodes();
    assert_eq!(hull_node(&n, 1, 2, 0), Err(HullError::BadNodeNumber));
    assert_eq!(hull_node(&n, 0, 1, 2), Err(HullError::BadNodeNumber));
}

#[test]
fn hull_node_past_the_lump() {
    let n = nodes();
    assert_eq!(hull_node(&n, 0, 10, 3), Err(HullError::MissingNode));
    assert_eq!(hull_node(&Vec::new(), 0, 0, 0), Err(HullError::MissingNode));
}

#[test]
fn sweep_through_open_then_solid() {
    let mut s = SweepState::new();
    assert_eq!(s, SweepState { all_solid: true, starts_solid: false, in_open: false, in_water: false });
    s.reach_leaf(CONTENTS_EMPTY);
    assert_eq!(s, SweepState { all_solid: false, starts_solid: false, in_open: true, in_water: false });
    s.reach_leaf(CONTENTS_SOLID);
    assert_eq!(s, SweepState { all_solid: false, starts_solid: true, in_open: true, in_water: false });
    assert!(s.finish());
}

#[test]
fn sweep_into_water() {
    let mut s = SweepState::new();
    s.reach_leaf(CONTENTS_WATER);
    assert_eq!(s, SweepState { all_solid: false, starts_solid: false, in_open: false, in_water: true });
    assert!(!s.finish());
    assert!(!s.starts_solid);
}

#[test]
fn sweep_only_solid_starts_solid() {
    let mut s = SweepState::new();
    s.reach_leaf(CONTENTS_SOLID);
    s.reach_leaf(CONTENTS_SOLID);
    assert!(s.all_solid);
    assert!(s.finish());
    assert_eq!(s, SweepState { all_solid: true, starts_solid: true, in_open: false, in_water: false });
}

#[test]
fn sweep_meeting_nothing_starts_solid() {
    let mut s = SweepState::new();
    assert!(s.finish());
}

#[test]
fn sweep_marks_are_kept() {
    let mut s = SweepState::new();
    s.reach_leaf(CONTENTS_WATER);
    s.reach_leaf(CONTENTS_EMPTY);
    s.reach_leaf(CONTENTS_SOLID);
    assert_eq!(s, SweepState { all_solid: false, starts_solid: true, in_open: true, in_water: true });
}
