//! From a joint hierarchy to a scene in one step.

use vstd::prelude::*;
use crate::error::ConvertError;
use crate::scene::{build, SceneView, VoxScene, MAX_BOXES};
use crate::skeleton::Joint;
use crate::walker::{boxes_of, walk};

verus! {

/// Walks the hierarchy under `root`, boxes its bones and builds the scene of
/// the boxes. Fails with `MalformedHierarchy` on the first joint that lacks
/// its name or its position, and with `EmptyInput` where the root has no
/// joint under it.
pub fn convert(root: &Joint, min_half_thickness: i64, grouped: bool) -> (r: Result<
    VoxScene,
    ConvertError,
>)
    requires
        root.bones().len() <= MAX_BOXES,
    ensures
        match r {
            Ok(scene) => root.first_defect() is None && root.bones().len() > 0 && scene.wf()
                && scene@ == SceneView::built(
                boxes_of(root.bones(), min_half_thickness),
                grouped,
            ),
            Err(e) => match root.first_defect() {
                Some(i) => e == (ConvertError::MalformedHierarchy { joint: i }),
                None => root.bones().len() == 0 && e == ConvertError::EmptyInput,
            },
        },
{
    match walk(root, min_half_thickness) {
        Ok(boxes) => {
            assert(boxes.deep_view().len() == root.bones().len());
            build(&boxes, grouped)
        },
        Err(e) => Err(e),
    }
}

/// Does what `convert` does for any hierarchy, and answers `None` where the
/// hierarchy is sound but has more bones than a scene can hold.
pub fn try_convert(root: &Joint, min_half_thickness: i64, grouped: bool) -> (r: Option<
    Result<VoxScene, ConvertError>,
>)
    ensures
        match r {
            Some(Ok(scene)) => root.first_defect() is None && 0 < root.bones().len() <= MAX_BOXES
                && scene.wf() && scene@ == SceneView::built(
                boxes_of(root.bones(), min_half_thickness),
                grouped,
            ),
            Some(Err(e)) => match root.first_defect() {
                Some(i) => e == (ConvertError::MalformedHierarchy { joint: i }),
                None => root.bones().len() == 0 && e == ConvertError::EmptyInput,
            },
            None => root.first_defect() is None && root.bones().len() > MAX_BOXES,
        },
{
    match walk(root, min_half_thickness) {
        Ok(boxes) => {
            assert(boxes.deep_view().len() == root.bones().len());
            if boxes.len() <= MAX_BOXES {
                Some(build(&boxes, grouped))
            } else {
                None
            }
        },
        Err(e) => Some(Err(e)),
    }
}

} // verus!
