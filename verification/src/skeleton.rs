//! The joint hierarchy of a skinned model, and finding a joint in it.
//!
//! A joint has a name, an index, a position on the voxel grid and the joints
//! that hang on it, in their order. Whoever reads the model resolves the
//! positions; a name or a position that could not be made out is left
//! empty, and the joint then counts as a defect of the hierarchy.

use vstd::prelude::*;
use crate::error::ConvertError;
use crate::vector::Position;

verus! {

/// A joint of the hierarchy, with the joints that hang on it in their order.
/// A joint whose name or position could not be made out holds `None` there.
#[derive(Debug, PartialEq, Eq)]
pub struct Joint {
    pub name: Option<String>,
    pub index: usize,
    pub position: Option<Position>,
    pub children: Vec<Joint>,
}

/// What a caller asks for a joint by: its index or its name.
#[derive(Clone, Debug, PartialEq, Eq)]
pub enum JointId {
    Index(usize),
    Name(String),
}

impl Joint {
    /// Whether the joint has both its name and its position.
    pub open spec fn resolved(self) -> bool {
        self.name is Some && self.position is Some
    }

    /// The index of the first joint, going depth first from this one, that
    /// lacks its name or its position.
    pub open spec fn first_defect(self) -> Option<usize>
        decreases self,
    {
        if self.resolved() {
            first_defect_among(self.children@)
        } else {
            Some(self.index)
        }
    }

    /// Whether the joint is the one that `id` asks for.
    pub open spec fn answers_to(self, id: JointId) -> bool {
        match id {
            JointId::Index(i) => self.index == i,
            JointId::Name(n) => self.name matches Some(m) && m@ == n@,
        }
    }

    /// The joint and all joints under it, depth first, children in their
    /// order.
    pub open spec fn preorder(self) -> Seq<Joint>
        decreases self,
    {
        seq![self] + preorder_among(self.children@)
    }

    /// Says whether the joint is the one that `id` asks for.
    pub fn answers(&self, id: &JointId) -> (b: bool)
        ensures
            b == self.answers_to(*id),
    {
        match id {
            JointId::Index(i) => self.index == *i,
            JointId::Name(n) => match &self.name {
                Some(m) => *m == *n,
                None => false,
            },
        }
    }
}

/// The first defect among sibling joints, taken in their order.
pub open spec fn first_defect_among(joints: Seq<Joint>) -> Option<usize>
    decreases joints,
{
    if joints.len() == 0 {
        None
    } else {
        match first_defect_among(joints.drop_last()) {
            Some(i) => Some(i),
            None => joints.last().first_defect(),
        }
    }
}

/// Whether `defect` names the first joint of `joints` that lacks its name or
/// its position, or is `None` where no joint of `joints` lacks either.
pub open spec fn is_first_defect(joints: Seq<Joint>, defect: Option<usize>) -> bool {
    match defect {
        Some(i) => exists|k: int|
            0 <= k < joints.len() && !(#[trigger] joints[k]).resolved() && joints[k].index == i
                && all_resolved(joints.take(k)),
        None => all_resolved(joints),
    }
}

/// Whether every joint of `joints` has both its name and its position.
pub open spec fn all_resolved(joints: Seq<Joint>) -> bool {
    forall|j: int| 0 <= j < joints.len() ==> (#[trigger] joints[j]).resolved()
}

proof fn lemma_first_defect_concat(
    a: Seq<Joint>,
    b: Seq<Joint>,
    in_a: Option<usize>,
    in_b: Option<usize>,
)
    requires
        is_first_defect(a, in_a),
        is_first_defect(b, in_b),
    ensures
        is_first_defect(
            a + b,
            match in_a {
                Some(i) => Some(i),
                None => in_b,
            },
        ),
{
    let all = a + b;
    match in_a {
        Some(i) => {
            let k = choose|k: int|
                0 <= k < a.len() && !(#[trigger] a[k]).resolved() && a[k].index == i
                    && all_resolved(a.take(k));
            assert(all[k] == a[k]);
            assert(all.take(k) =~= a.take(k));
        },
        None => {
            match in_b {
                Some(i) => {
                    let k = choose|k: int|
                        0 <= k < b.len() && !(#[trigger] b[k]).resolved() && b[k].index == i
                            && all_resolved(b.take(k));
                    assert(all[a.len() + k] == b[k]);
                    assert forall|j: int| 0 <= j < a.len() + k implies (#[trigger] all.take(
                        a.len() + k,
                    )[j]).resolved() by {
                        if j >= a.len() {
                            assert(b.take(k)[j - a.len()].resolved());
                        }
                    }
                },
                None => {},
            }
        },
    }
}

proof fn lemma_first_defect_below(joint: Joint)
    ensures
        is_first_defect(joint.preorder(), joint.first_defect()),
    decreases joint, 0nat,
{
    let first = seq![joint];
    let below = preorder_among(joint.children@);
    if joint.resolved() {
        lemma_first_defect_among(joint.children@);
        lemma_first_defect_concat(first, below, None, first_defect_among(joint.children@));
    } else {
        assert((first + below)[0] == joint);
    }
}

proof fn lemma_first_defect_among(joints: Seq<Joint>)
    ensures
        is_first_defect(preorder_among(joints), first_defect_among(joints)),
    decreases joints, 1nat,
{
    if joints.len() > 0 {
        lemma_first_defect_among(joints.drop_last());
        lemma_first_defect_below(joints.last());
        lemma_first_defect_concat(
            preorder_among(joints.drop_last()),
            joints.last().preorder(),
            first_defect_among(joints.drop_last()),
            joints.last().first_defect(),
        );
    }
}

/// The first defect of a hierarchy is the first joint, depth first, that
/// lacks its name or its position; there is none only where every joint has
/// both.
pub proof fn lemma_first_defect(root: Joint)
    ensures
        is_first_defect(root.preorder(), root.first_defect()),
{
    lemma_first_defect_below(root);
}

/// A defect among the first `n` siblings is the first defect among all of them.
pub proof fn lemma_first_defect_stays(joints: Seq<Joint>, n: int)
    requires
        0 <= n <= joints.len(),
        first_defect_among(joints.take(n)) is Some,
    ensures
        first_defect_among(joints) == first_defect_among(joints.take(n)),
    decreases joints.len() - n,
{
    if n < joints.len() {
        assert(joints.take(n + 1).drop_last() =~= joints.take(n));
        lemma_first_defect_stays(joints, n + 1);
    } else {
        assert(joints.take(n) =~= joints);
    }
}

/// Sibling joints and all joints under them, depth first.
pub open spec fn preorder_among(joints: Seq<Joint>) -> Seq<Joint>
    decreases joints,
{
    if joints.len() == 0 {
        Seq::empty()
    } else {
        preorder_among(joints.drop_last()) + joints.last().preorder()
    }
}

/// The place of the first joint of a sequence that `id` asks for.
pub open spec fn first_answering(joints: Seq<Joint>, id: JointId) -> Option<int>
    decreases joints.len(),
{
    if joints.len() == 0 {
        None
    } else {
        match first_answering(joints.drop_last(), id) {
            Some(k) => Some(k),
            None => if joints.last().answers_to(id) {
                Some(joints.len() - 1)
            } else {
                None
            },
        }
    }
}

/// `first_answering` finds a joint that `id` asks for, with none before it
/// that `id` asks for as well, and finds none only where there is none.
pub proof fn lemma_first_answering(joints: Seq<Joint>, id: JointId)
    ensures
        match first_answering(joints, id) {
            Some(k) => 0 <= k < joints.len() && joints[k].answers_to(id) && forall|j: int|
                0 <= j < k ==> !(#[trigger] joints[j]).answers_to(id),
            None => forall|j: int| 0 <= j < joints.len() ==> !(#[trigger] joints[j]).answers_to(id),
        },
    decreases joints.len(),
{
    if joints.len() > 0 {
        let front = joints.drop_last();
        lemma_first_answering(front, id);
        match first_answering(front, id) {
            Some(k) => {
                assert forall|j: int| 0 <= j < k implies !(#[trigger] joints[j]).answers_to(
                    id,
                ) by {
                    assert(front[j] == joints[j]);
                }
            },
            None => {
                assert forall|j: int| 0 <= j < front.len() implies !(
                #[trigger] joints[j]).answers_to(id) by {
                    assert(front[j] == joints[j]);
                }
            },
        }
    }
}

proof fn lemma_first_answering_concat(a: Seq<Joint>, b: Seq<Joint>, id: JointId)
    ensures
        first_answering(a + b, id) == match first_answering(a, id) {
            Some(k) => Some(k),
            None => match first_answering(b, id) {
                Some(k) => Some(a.len() + k),
                None => None,
            },
        },
    decreases b.len(),
{
    if b.len() > 0 {
        assert((a + b).drop_last() =~= a + b.drop_last());
        lemma_first_answering_concat(a, b.drop_last(), id);
    }
}

fn find_among<'a>(joints: &'a Vec<Joint>, id: &JointId) -> (r: Option<&'a Joint>)
    ensures
        match r {
            Some(j) => first_answering(preorder_among(joints@), *id) matches Some(k)
                && preorder_among(joints@)[k] == *j,
            None => first_answering(preorder_among(joints@), *id) is None,
        },
    decreases joints@, 1nat,
{
    let mut i: usize = 0;
    while i < joints.len()
        invariant
            0 <= i <= joints.len(),
            first_answering(preorder_among(joints@.take(i as int)), *id) is None,
        decreases joints.len() - i,
    {
        proof {
            assert(joints@.take(i as int + 1).drop_last() =~= joints@.take(i as int));
            lemma_first_answering_concat(
                preorder_among(joints@.take(i as int)),
                joints@[i as int].preorder(),
                *id,
            );
        }
        match find_below(&joints[i], id) {
            Some(j) => {
                proof {
                    lemma_first_answering(joints@[i as int].preorder(), *id);
                    lemma_found_stays(joints@, i as int + 1, *id);
                }
                return Some(j);
            },
            None => {},
        }
        i = i + 1;
    }
    assert(joints@.take(i as int) =~= joints@);
    None
}

fn find_below<'a>(joint: &'a Joint, id: &JointId) -> (r: Option<&'a Joint>)
    ensures
        match r {
            Some(j) => first_answering(joint.preorder(), *id) matches Some(k)
                && joint.preorder()[k] == *j,
            None => first_answering(joint.preorder(), *id) is None,
        },
    decreases joint, 0nat,
{
    let ghost first = seq![*joint];
    let ghost below = preorder_among(joint.children@);
    proof {
        assert(first_answering(first.drop_last(), *id) is None);
        lemma_first_answering_concat(first, below, *id);
        lemma_first_answering(below, *id);
    }
    if joint.answers(id) {
        Some(joint)
    } else {
        find_among(&joint.children, id)
    }
}

/// What was found among the first `n` siblings and under them is what is
/// found among all of them.
proof fn lemma_found_stays(joints: Seq<Joint>, n: int, id: JointId)
    requires
        0 <= n <= joints.len(),
        first_answering(preorder_among(joints.take(n)), id) is Some,
    ensures
        first_answering(preorder_among(joints), id) == first_answering(
            preorder_among(joints.take(n)),
            id,
        ),
        preorder_among(joints)[first_answering(preorder_among(joints), id)->Some_0]
            == preorder_among(joints.take(n))[first_answering(
            preorder_among(joints.take(n)),
            id,
        )->Some_0],
    decreases joints.len() - n,
{
    if n < joints.len() {
        assert(joints.take(n + 1).drop_last() =~= joints.take(n));
        lemma_first_answering_concat(
            preorder_among(joints.take(n)),
            joints.take(n + 1).last().preorder(),
            id,
        );
        lemma_first_answering(preorder_among(joints.take(n)), id);
        lemma_found_stays(joints, n + 1, id);
    } else {
        assert(joints.take(n) =~= joints);
    }
}

/// Looks for the joint that `id` asks for among `roots` and the joints under
/// them, depth first, and gives the first one met. Where there is none, the
/// answer is `JointNotFound`.
pub fn find_joint<'a>(roots: &'a Vec<Joint>, id: &JointId) -> (r: Result<&'a Joint, ConvertError>)
    ensures
        match r {
            Ok(j) => first_answering(preorder_among(roots@), *id) matches Some(k)
                && preorder_among(roots@)[k] == *j,
            Err(e) => first_answering(preorder_among(roots@), *id) is None && e
                == ConvertError::JointNotFound,
        },
{
    match find_among(roots, id) {
        Some(j) => Ok(j),
        None => Err(ConvertError::JointNotFound),
    }
}

} // verus!
