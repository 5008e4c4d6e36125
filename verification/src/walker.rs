//! Walking a joint hierarchy and boxing its bones.
//!
//! A bone runs from a joint to one of its children. Its box reaches from one
//! end to the other and is at least the least half thickness thick on every
//! axis. Joint positions are whole voxels; the centre and the half-extents of
//! a box are counted in half voxels, so that the centre of a bone is a whole
//! number whatever its two ends are.

use vstd::prelude::*;
use crate::error::ConvertError;
use crate::skeleton::{first_defect_among, lemma_first_defect_stays, preorder_among, Joint};
use crate::vector::{abs, Position, Vec3};

verus! {

/// The least half thickness of a box unless another is asked for: half a
/// voxel, so that the thinnest box is one voxel thick.
pub const DEFAULT_MIN_HALF_THICKNESS: i64 = 1;

/// The least half thickness for thick bones: five voxels.
pub const THICK_MIN_HALF_THICKNESS: i64 = 10;

/// The box of one bone.
#[derive(Clone, Debug, PartialEq, Eq)]
pub struct BoneBox {
    pub name: String,
    pub center: Vec3,
    pub half_extents: Vec3,
}

/// A bone box with its name as a sequence of characters.
pub struct BoneBoxView {
    pub name: Seq<char>,
    pub center: Vec3,
    pub half_extents: Vec3,
}

impl View for BoneBox {
    type V = BoneBoxView;

    open spec fn view(&self) -> BoneBoxView {
        BoneBoxView { name: self.name@, center: self.center, half_extents: self.half_extents }
    }
}

impl DeepView for BoneBox {
    type V = BoneBoxView;

    open spec fn deep_view(&self) -> BoneBoxView {
        self@
    }
}

/// A bone: the positions of its two ends and the name of the joint at its
/// far end.
pub struct Bone {
    pub parent: Position,
    pub child: Position,
    pub name: Seq<char>,
}

/// The half-extent of a bone along one axis, in half voxels: half the
/// distance between its ends, which in half voxels is the number of whole
/// voxels between them, but no less than `min`.
pub open spec fn half_extent(a: int, b: int, min: int) -> int {
    if abs(a - b) < min {
        min
    } else {
        abs(a - b)
    }
}

/// The box of a bone. Its centre is the midpoint of the two ends, which in
/// half voxels is their sum; its half-extents are those of `half_extent`.
pub open spec fn bone_box(bone: Bone, min: i64) -> BoneBoxView {
    BoneBoxView {
        name: bone.name,
        center: Vec3 {
            x: (bone.parent.x + bone.child.x) as i64,
            y: (bone.parent.y + bone.child.y) as i64,
            z: (bone.parent.z + bone.child.z) as i64,
        },
        half_extents: Vec3 {
            x: half_extent(bone.parent.x as int, bone.child.x as int, min as int) as i64,
            y: half_extent(bone.parent.y as int, bone.child.y as int, min as int) as i64,
            z: half_extent(bone.parent.z as int, bone.child.z as int, min as int) as i64,
        },
    }
}

/// The boxes of a sequence of bones, in the same order.
pub open spec fn boxes_of(bones: Seq<Bone>, min: i64) -> Seq<BoneBoxView> {
    bones.map_values(|b: Bone| bone_box(b, min))
}

impl Joint {
    /// The bones below a joint whose parent stands at `parent`: the one that
    /// ends in the joint, then those below each child in turn.
    pub open spec fn bones_below(self, parent: Position) -> Seq<Bone>
        decreases self,
    {
        seq![
            Bone { parent, child: self.position->Some_0, name: self.name->Some_0@ },
        ] + bones_among(self.children@, self.position->Some_0)
    }

    /// The bones of the hierarchy under this joint, depth first, children in
    /// their order. The joint itself ends no bone.
    pub open spec fn bones(self) -> Seq<Bone> {
        bones_among(self.children@, self.position->Some_0)
    }
}

/// The bones below sibling joints whose parent stands at `parent`.
pub open spec fn bones_among(joints: Seq<Joint>, parent: Position) -> Seq<Bone>
    decreases joints,
{
    if joints.len() == 0 {
        Seq::empty()
    } else {
        bones_among(joints.drop_last(), parent) + joints.last().bones_below(parent)
    }
}

/// Every box of `boxes_of` has the midpoint of its bone as its centre and, on
/// each axis, the greater of the least half thickness and half the distance
/// between the two ends as its half-extent, all in half voxels.
pub proof fn lemma_box_spans_bone(bones: Seq<Bone>, min: i64, i: int)
    requires
        0 <= i < bones.len(),
    ensures
        boxes_of(bones, min).len() == bones.len(),
        boxes_of(bones, min)[i].name == bones[i].name,
        boxes_of(bones, min)[i].center.x == bones[i].parent.x + bones[i].child.x,
        boxes_of(bones, min)[i].center.y == bones[i].parent.y + bones[i].child.y,
        boxes_of(bones, min)[i].center.z == bones[i].parent.z + bones[i].child.z,
        boxes_of(bones, min)[i].half_extents.x == half_extent(
            bones[i].parent.x as int,
            bones[i].child.x as int,
            min as int,
        ),
        boxes_of(bones, min)[i].half_extents.y == half_extent(
            bones[i].parent.y as int,
            bones[i].child.y as int,
            min as int,
        ),
        boxes_of(bones, min)[i].half_extents.z == half_extent(
            bones[i].parent.z as int,
            bones[i].child.z as int,
            min as int,
        ),
{
}

proof fn lemma_bones_follow_joints_below(joint: Joint, parent: Position)
    ensures
        joint.bones_below(parent).len() == joint.preorder().len(),
        forall|i: int|
            0 <= i < joint.preorder().len() ==> (#[trigger] joint.bones_below(parent)[i]).child
                == joint.preorder()[i].position->Some_0 && joint.bones_below(parent)[i].name
                == joint.preorder()[i].name->Some_0@,
    decreases joint, 0nat,
{
    lemma_bones_follow_joints_among(joint.children@, joint.position->Some_0);
}

proof fn lemma_bones_follow_joints_among(joints: Seq<Joint>, parent: Position)
    ensures
        bones_among(joints, parent).len() == preorder_among(joints).len(),
        forall|i: int|
            0 <= i < preorder_among(joints).len() ==> (#[trigger] bones_among(
                joints,
                parent,
            )[i]).child == preorder_among(joints)[i].position->Some_0 && bones_among(
                joints,
                parent,
            )[i].name == preorder_among(joints)[i].name->Some_0@,
    decreases joints, 1nat,
{
    if joints.len() > 0 {
        lemma_bones_follow_joints_among(joints.drop_last(), parent);
        lemma_bones_follow_joints_below(joints.last(), parent);
    }
}

/// There is one bone for each joint but the root, and the bones come in the
/// order of the joints, depth first: bone `i` ends in the joint that is met
/// right after `i` others and the root, and has its name.
pub proof fn lemma_bones_follow_joints(root: Joint, i: int)
    requires
        0 <= i < root.bones().len(),
    ensures
        root.bones().len() + 1 == root.preorder().len(),
        root.bones()[i].child == root.preorder()[i + 1].position->Some_0,
        root.bones()[i].name == root.preorder()[i + 1].name->Some_0@,
{
    lemma_bones_follow_joints_among(root.children@, root.position->Some_0);
}

/// Whether `bone` starts at a joint of `joints` that has `child` among its
/// children.
pub open spec fn joins(bone: Bone, joints: Seq<Joint>, child: Joint) -> bool {
    exists|p: Joint|
        #![trigger joints.contains(p)]
        joints.contains(p) && p.children@.contains(child) && bone.parent == p.position->Some_0
}

proof fn lemma_contains_concat(a: Seq<Joint>, b: Seq<Joint>, x: Joint)
    ensures
        (a + b).contains(x) <==> a.contains(x) || b.contains(x),
{
    if a.contains(x) {
        let i = choose|i: int| 0 <= i < a.len() && a[i] == x;
        assert((a + b)[i] == x);
    }
    if b.contains(x) {
        let i = choose|i: int| 0 <= i < b.len() && b[i] == x;
        assert((a + b)[a.len() + i] == x);
    }
}

proof fn lemma_joins_within(bone: Bone, inner: Seq<Joint>, outer: Seq<Joint>, child: Joint)
    requires
        joins(bone, inner, child),
        forall|p: Joint| inner.contains(p) ==> outer.contains(p),
    ensures
        joins(bone, outer, child),
{
    let p = choose|p: Joint|
        #![trigger inner.contains(p)]
        inner.contains(p) && p.children@.contains(child) && bone.parent == p.position->Some_0;
    assert(outer.contains(p));
}

proof fn lemma_bones_join_below(joint: Joint, parent: Joint)
    requires
        parent.children@.contains(joint),
    ensures
        forall|i: int|
            0 <= i < joint.preorder().len() ==> joins(
                #[trigger] joint.bones_below(parent.position->Some_0)[i],
                seq![parent] + joint.preorder(),
                joint.preorder()[i],
            ),
    decreases joint, 0nat,
{
    let at = parent.position->Some_0;
    let all = seq![parent] + joint.preorder();
    let below = preorder_among(joint.children@);
    lemma_bones_follow_joints_among(joint.children@, joint.position->Some_0);
    assert forall|k: int| 0 <= k < joint.children@.len() implies joint.children@.contains(
        #[trigger] joint.children@[k],
    ) by {}
    lemma_bones_join_among(joint.children@, joint);
    assert forall|i: int| 0 <= i < joint.preorder().len() implies joins(
        #[trigger] joint.bones_below(at)[i],
        all,
        joint.preorder()[i],
    ) by {
        if i == 0 {
            assert(all[0] == parent);
            assert(all.contains(parent));
        } else {
            let inner = seq![joint] + below;
            assert(joint.bones_below(at)[i] == bones_among(
                joint.children@,
                joint.position->Some_0,
            )[i - 1]);
            assert forall|p: Joint| inner.contains(p) implies all.contains(p) by {
                lemma_contains_concat(seq![parent], joint.preorder(), p);
            }
            lemma_joins_within(joint.bones_below(at)[i], inner, all, joint.preorder()[i]);
        }
    }
}

proof fn lemma_bones_join_among(joints: Seq<Joint>, parent: Joint)
    requires
        forall|k: int| 0 <= k < joints.len() ==> parent.children@.contains(#[trigger] joints[k]),
    ensures
        forall|i: int|
            0 <= i < preorder_among(joints).len() ==> joins(
                #[trigger] bones_among(joints, parent.position->Some_0)[i],
                seq![parent] + preorder_among(joints),
                preorder_among(joints)[i],
            ),
    decreases joints, 1nat,
{
    if joints.len() > 0 {
        let at = parent.position->Some_0;
        let front = joints.drop_last();
        let last = joints.last();
        let before = preorder_among(front);
        let all = seq![parent] + preorder_among(joints);
        lemma_bones_join_among(front, parent);
        lemma_bones_join_below(last, parent);
        lemma_bones_follow_joints_among(front, at);
        lemma_bones_follow_joints_below(last, at);
        assert forall|i: int| 0 <= i < preorder_among(joints).len() implies joins(
            #[trigger] bones_among(joints, at)[i],
            all,
            preorder_among(joints)[i],
        ) by {
            if i < before.len() {
                let inner = seq![parent] + before;
                assert forall|p: Joint| inner.contains(p) implies all.contains(p) by {
                    lemma_contains_concat(seq![parent], before, p);
                    lemma_contains_concat(before, last.preorder(), p);
                    lemma_contains_concat(seq![parent], preorder_among(joints), p);
                }
                lemma_joins_within(bones_among(joints, at)[i], inner, all, before[i]);
            } else {
                let j = i - before.len();
                let inner = seq![parent] + last.preorder();
                assert forall|p: Joint| inner.contains(p) implies all.contains(p) by {
                    lemma_contains_concat(seq![parent], last.preorder(), p);
                    lemma_contains_concat(before, last.preorder(), p);
                    lemma_contains_concat(seq![parent], preorder_among(joints), p);
                }
                lemma_joins_within(bones_among(joints, at)[i], inner, all, last.preorder()[j]);
            }
        }
    }
}

/// Every bone runs between a joint and one of its children: bone `i`
/// starts at a joint of the hierarchy that has, among its children, the
/// joint in which the bone ends.
pub proof fn lemma_bones_join_parent_and_child(root: Joint, i: int)
    requires
        0 <= i < root.bones().len(),
    ensures
        joins(root.bones()[i], root.preorder(), root.preorder()[i + 1]),
{
    lemma_bones_follow_joints_among(root.children@, root.position->Some_0);
    assert forall|k: int| 0 <= k < root.children@.len() implies root.children@.contains(
        #[trigger] root.children@[k],
    ) by {}
    lemma_bones_join_among(root.children@, root);
}

proof fn lemma_boxes_of_concat(a: Seq<Bone>, b: Seq<Bone>, min: i64)
    ensures
        boxes_of(a + b, min) == boxes_of(a, min) + boxes_of(b, min),
{
}

fn span(a: i32, b: i32, min: i64) -> (h: i64)
    ensures
        h == half_extent(a as int, b as int, min as int),
{
    let d: i64 = a as i64 - b as i64;
    let m: i64 = if d < 0 { -d } else { d };
    if m < min {
        min
    } else {
        m
    }
}

fn box_between(parent: Position, child: Position, name: &String, min: i64) -> (b: BoneBox)
    ensures
        b@ == bone_box(Bone { parent, child, name: name@ }, min),
{
    BoneBox {
        name: name.clone(),
        center: Vec3 {
            x: parent.x as i64 + child.x as i64,
            y: parent.y as i64 + child.y as i64,
            z: parent.z as i64 + child.z as i64,
        },
        half_extents: Vec3 {
            x: span(parent.x, child.x, min),
            y: span(parent.y, child.y, min),
            z: span(parent.z, child.z, min),
        },
    }
}

fn walk_among(
    joints: &Vec<Joint>,
    parent: Position,
    min_half_thickness: i64,
    out: &mut Vec<BoneBox>,
) -> (r: Result<(), ConvertError>)
    ensures
        match r {
            Ok(()) => first_defect_among(joints@) is None && final(out).deep_view() == old(
                out,
            ).deep_view() + boxes_of(bones_among(joints@, parent), min_half_thickness),
            Err(e) => first_defect_among(joints@) matches Some(i) && e
                == (ConvertError::MalformedHierarchy { joint: i }),
        },
    decreases joints@, 1nat,
{
    let mut i: usize = 0;
    assert(out.deep_view() =~= old(out).deep_view() + boxes_of(
        bones_among(joints@.take(0), parent),
        min_half_thickness,
    ));
    while i < joints.len()
        invariant
            0 <= i <= joints.len(),
            first_defect_among(joints@.take(i as int)) is None,
            out.deep_view() == old(out).deep_view() + boxes_of(
                bones_among(joints@.take(i as int), parent),
                min_half_thickness,
            ),
        decreases joints.len() - i,
    {
        proof {
            assert(joints@.take(i as int + 1).drop_last() =~= joints@.take(i as int));
        }
        match walk_below(&joints[i], parent, min_half_thickness, out) {
            Ok(()) => {
                proof {
                    lemma_boxes_of_concat(
                        bones_among(joints@.take(i as int), parent),
                        joints@[i as int].bones_below(parent),
                        min_half_thickness,
                    );
                    assert(out.deep_view() =~= old(out).deep_view() + boxes_of(
                        bones_among(joints@.take(i as int + 1), parent),
                        min_half_thickness,
                    ));
                }
            },
            Err(e) => {
                proof {
                    lemma_first_defect_stays(joints@, i as int + 1);
                }
                return Err(e);
            },
        }
        i = i + 1;
    }
    assert(joints@.take(i as int) =~= joints@);
    Ok(())
}

fn walk_below(
    joint: &Joint,
    parent: Position,
    min_half_thickness: i64,
    out: &mut Vec<BoneBox>,
) -> (r: Result<(), ConvertError>)
    ensures
        match r {
            Ok(()) => joint.first_defect() is None && final(out).deep_view() == old(
                out,
            ).deep_view() + boxes_of(joint.bones_below(parent), min_half_thickness),
            Err(e) => joint.first_defect() matches Some(i) && e
                == (ConvertError::MalformedHierarchy { joint: i }),
        },
    decreases joint, 0nat,
{
    let name = match &joint.name {
        Some(name) => name,
        None => {
            return Err(ConvertError::MalformedHierarchy { joint: joint.index });
        },
    };
    let position = match joint.position {
        Some(position) => position,
        None => {
            return Err(ConvertError::MalformedHierarchy { joint: joint.index });
        },
    };
    let b = box_between(parent, position, name, min_half_thickness);
    let ghost first = seq![Bone { parent, child: position, name: name@ }];
    out.push(b);
    let r = walk_among(&joint.children, position, min_half_thickness, out);
    proof {
        if r is Ok {
            lemma_boxes_of_concat(
                first,
                bones_among(joint.children@, position),
                min_half_thickness,
            );
            assert(final(out).deep_view() =~= old(out).deep_view() + boxes_of(
                joint.bones_below(parent),
                min_half_thickness,
            ));
        }
    }
    r
}

/// Walks the hierarchy under `root` depth first and boxes every bone: one box
/// for each joint but the root, in the order in which the joints are met,
/// children in their given order. Fails on the first joint met, the root
/// included, that lacks its name or its position.
pub fn walk(root: &Joint, min_half_thickness: i64) -> (r: Result<Vec<BoneBox>, ConvertError>)
    ensures
        match r {
            Ok(boxes) => root.first_defect() is None && boxes.deep_view() == boxes_of(
                root.bones(),
                min_half_thickness,
            ),
            Err(e) => root.first_defect() matches Some(i) && e
                == (ConvertError::MalformedHierarchy { joint: i }),
        },
{
    if root.name.is_none() {
        return Err(ConvertError::MalformedHierarchy { joint: root.index });
    }
    let position = match root.position {
        Some(position) => position,
        None => {
            return Err(ConvertError::MalformedHierarchy { joint: root.index });
        },
    };
    let mut out: Vec<BoneBox> = Vec::new();
    match walk_among(&root.children, position, min_half_thickness, &mut out) {
        Ok(()) => Ok(out),
        Err(e) => Err(e),
    }
}

} // verus!
