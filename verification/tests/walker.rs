use skelvox::error::ConvertError;
use skelvox::skeleton::{find_joint, Joint, JointId};
use skelvox::walker::{walk, BoneBox, DEFAULT_MIN_HALF_THICKNESS, THICK_MIN_HALF_THICKNESS};
use skelvox::vector::{Position, Vec3};

fn joint(name: &str, index: usize, at: (i32, i32, i32), children: Vec<Joint>) -> Joint {
    Joint {
        name: Some(name.to_string()),
        index,
        position: Some(Position::new(at.0, at.1, at.2)),
        children,
    }
}

fn names(boxes: &[BoneBox]) -> Vec<String> {
    boxes.iter().map(|b| b.name.clone()).collect()
}

fn tree(origin: (i32, i32, i32)) -> Joint {
    let (x, y, z) = origin;
    let b = joint("B", 2, (x, y + 20, z), vec![]);
    let a = joint("A", 1, (x, y + 10, z), vec![b]);
    let c = joint("C", 3, (x + 7, y, z), vec![]);
    joint("root", 0, origin, vec![a, c])
}

#[test]
fn two_joint_chain_yields_one_box() {
    let root = joint("root", 0, (0, 0, 0), vec![joint("tip", 1, (0, 10, 0), vec![])]);
    let boxes = walk(&root, DEFAULT_MIN_HALF_THICKNESS).unwrap();
    assert_eq!(
        boxes,
        vec![BoneBox {
            name: "tip".to_string(),
            center: Vec3::new(0, 10, 0),
            half_extents: Vec3::new(1, 10, 1),
        }]
    );
    // in voxels: centred at (0, 5, 0), half-extents (0.5, 5, 0.5)
    let voxels = |half: i64| half as f64 / 2.0;
    let b = &boxes[0];
    assert_eq!((voxels(b.center.x), voxels(b.center.y), voxels(b.center.z)), (0.0, 5.0, 0.0));
    assert_eq!(
        (voxels(b.half_extents.x), voxels(b.half_extents.y), voxels(b.half_extents.z)),
        (voxels(DEFAULT_MIN_HALF_THICKNESS), 5.0, voxels(DEFAULT_MIN_HALF_THICKNESS))
    );
    assert_eq!(voxels(DEFAULT_MIN_HALF_THICKNESS), 0.5);
    assert_eq!(voxels(THICK_MIN_HALF_THICKNESS), 5.0);
}

#[test]
fn center_is_the_midpoint_in_half_voxels() {
    let root = joint("root", 0, (3, -4, 9), vec![joint("tip", 1, (-8, 5, 9), vec![])]);
    let boxes = walk(&root, 0).unwrap();
    assert_eq!(boxes.len(), 1);
    assert_eq!(boxes[0].center, Vec3::new(3 + -8, -4 + 5, 9 + 9));
    assert_eq!(boxes[0].half_extents, Vec3::new(11, 9, 0));
}

#[test]
fn half_extents_are_floored_at_the_minimum() {
    let root = joint("root", 0, (0, 0, 0), vec![joint("tip", 1, (3, 30, -12), vec![])]);
    let boxes = walk(&root, THICK_MIN_HALF_THICKNESS).unwrap();
    assert_eq!(boxes[0].half_extents, Vec3::new(10, 30, 12));
}

#[test]
fn coincident_joints_give_the_minimum_on_every_axis() {
    let root = joint("root", 0, (4, 4, 4), vec![joint("same", 1, (4, 4, 4), vec![])]);
    let boxes = walk(&root, DEFAULT_MIN_HALF_THICKNESS).unwrap();
    assert_eq!(boxes[0].center, Vec3::new(8, 8, 8));
    assert_eq!(boxes[0].half_extents, Vec3::new(1, 1, 1));
}

#[test]
fn extreme_positions_do_not_overflow() {
    let root = joint(
        "root",
        0,
        (i32::MIN, i32::MAX, i32::MIN),
        vec![joint("far", 1, (i32::MAX, i32::MAX, i32::MIN), vec![])],
    );
    let boxes = walk(&root, 1).unwrap();
    assert_eq!(boxes[0].center, Vec3::new(-1, 4294967294, -4294967296));
    assert_eq!(boxes[0].half_extents, Vec3::new(4294967295, 1, 1));
}

#[test]
fn boxes_come_depth_first_in_child_order() {
    let boxes = walk(&tree((0, 0, 0)), 1).unwrap();
    assert_eq!(names(&boxes), vec!["A", "B", "C"]);
}

#[test]
fn order_does_not_depend_on_where_the_root_stands() {
    let boxes = walk(&tree((-500, 1234, 77)), 1).unwrap();
    assert_eq!(names(&boxes), vec!["A", "B", "C"]);
    let here = walk(&tree((0, 0, 0)), 1).unwrap();
    let there = walk(&tree((10, 20, 30)), 1).unwrap();
    for (a, b) in here.iter().zip(there.iter()) {
        assert_eq!(a.half_extents, b.half_extents);
        assert_eq!(b.center.x - a.center.x, 20);
        assert_eq!(b.center.y - a.center.y, 40);
        assert_eq!(b.center.z - a.center.z, 60);
    }
}

#[test]
fn each_box_spans_its_own_bone() {
    let boxes = walk(&tree((0, 0, 0)), 1).unwrap();
    assert_eq!(boxes[0].center, Vec3::new(0, 10, 0));
    assert_eq!(boxes[0].half_extents, Vec3::new(1, 10, 1));
    assert_eq!(boxes[1].center, Vec3::new(0, 30, 0));
    assert_eq!(boxes[1].half_extents, Vec3::new(1, 10, 1));
    assert_eq!(boxes[2].center, Vec3::new(7, 0, 0));
    assert_eq!(boxes[2].half_extents, Vec3::new(7, 1, 1));
}

#[test]
fn a_lone_root_yields_no_box() {
    let root = joint("root", 0, (1, 2, 3), vec![]);
    assert!(walk(&root, 1).unwrap().is_empty());
}

#[test]
fn an_unnamed_joint_is_a_defect() {
    let mut root = tree((0, 0, 0));
    root.children[0].children[0].name = None;
    assert!(matches!(walk(&root, 1), Err(ConvertError::MalformedHierarchy { joint: 2 })));
}

#[test]
fn a_joint_without_position_is_a_defect() {
    let mut root = tree((0, 0, 0));
    root.children[1].position = None;
    assert!(matches!(walk(&root, 1), Err(ConvertError::MalformedHierarchy { joint: 3 })));
}

#[test]
fn the_first_defect_met_is_reported() {
    let mut root = tree((0, 0, 0));
    root.children[1].name = None;
    root.children[0].children[0].position = None;
    assert!(matches!(walk(&root, 1), Err(ConvertError::MalformedHierarchy { joint: 2 })));
    root.children[0].name = None;
    assert!(matches!(walk(&root, 1), Err(ConvertError::MalformedHierarchy { joint: 1 })));
}

#[test]
fn a_defective_root_is_reported() {
    let mut root = tree((0, 0, 0));
    root.position = None;
    assert!(matches!(walk(&root, 1), Err(ConvertError::MalformedHierarchy { joint: 0 })));
    let mut root = tree((0, 0, 0));
    root.name = None;
    assert!(matches!(walk(&root, 1), Err(ConvertError::MalformedHierarchy { joint: 0 })));
}

#[test]
fn a_joint_is_found_by_index() {
    let roots = vec![joint("other", 9, (0, 0, 0), vec![]), tree((0, 0, 0))];
    let found = find_joint(&roots, &JointId::Index(2)).unwrap();
    assert_eq!(found.name, Some("B".to_string()));
    let found = find_joint(&roots, &JointId::Index(0)).unwrap();
    assert_eq!(found.children.len(), 2);
}

#[test]
fn a_joint_is_found_by_name() {
    let roots = vec![joint("other", 9, (0, 0, 0), vec![]), tree((0, 0, 0))];
    let found = find_joint(&roots, &JointId::Name("C".to_string())).unwrap();
    assert_eq!(found.index, 3);
}

#[test]
fn the_first_joint_met_with_a_name_is_found() {
    let twin = joint("A", 40, (0, 0, 0), vec![]);
    let roots = vec![tree((0, 0, 0)), twin];
    let found = find_joint(&roots, &JointId::Name("A".to_string())).unwrap();
    assert_eq!(found.index, 1);
}

#[test]
fn a_missing_joint_is_not_found() {
    let roots = vec![tree((0, 0, 0))];
    assert!(matches!(find_joint(&roots, &JointId::Index(17)), Err(ConvertError::JointNotFound)));
    assert!(matches!(find_joint(&roots, &JointId::Name("nobody".to_string())), Err(ConvertError::JointNotFound)));
    let none: Vec<Joint> = vec![];
    assert!(matches!(find_joint(&none, &JointId::Index(0)), Err(ConvertError::JointNotFound)));
}

#[test]
fn an_unnamed_joint_answers_to_no_name() {
    let mut root = tree((0, 0, 0));
    root.children[0].name = None;
    let roots = vec![root];
    assert!(matches!(find_joint(&roots, &JointId::Name("A".to_string())), Err(ConvertError::JointNotFound)));
    assert_eq!(find_joint(&roots, &JointId::Index(1)).unwrap().name, None);
}

#[test]
fn a_joint_answers_to_its_index_and_its_name() {
    let j = joint("hip", 12, (0, 0, 0), vec![]);
    assert!(j.answers(&JointId::Index(12)));
    assert!(!j.answers(&JointId::Index(13)));
    assert!(j.answers(&JointId::Name("hip".to_string())));
    assert!(!j.answers(&JointId::Name("hi".to_string())));
}
