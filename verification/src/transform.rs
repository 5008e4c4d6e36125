//! Placements, and how one is written into the frame of a transform record.

use vstd::prelude::*;
use crate::decimal::{decimal, push_decimal};
use crate::rotation::{axis, packed, rotation_to_u8, snap_rotation, snapped, Mat3};
use crate::vector::Vec3;

verus! {

/// A translation in half voxels and an orientation.
#[derive(Clone, Copy, Debug, PartialEq, Eq, Structural)]
pub struct Transform {
    pub translation: Vec3,
    pub rotation: Mat3,
}

impl Mat3 {
    /// The matrix of the orientation that turns nothing.
    pub open spec fn spec_identity() -> Mat3 {
        Mat3 { x_axis: axis(0), y_axis: axis(2), z_axis: axis(4) }
    }

    #[verifier::when_used_as_spec(spec_identity)]
    pub fn identity() -> (m: Mat3)
        ensures
            m == Mat3::spec_identity(),
    {
        Mat3 {
            x_axis: Vec3 { x: 1, y: 0, z: 0 },
            y_axis: Vec3 { x: 0, y: 1, z: 0 },
            z_axis: Vec3 { x: 0, y: 0, z: 1 },
        }
    }
}

impl Transform {
    /// The placement at the origin that turns nothing.
    pub open spec fn spec_identity() -> Transform {
        Transform { translation: Vec3 { x: 0, y: 0, z: 0 }, rotation: Mat3::spec_identity() }
    }

    #[verifier::when_used_as_spec(spec_identity)]
    pub fn identity() -> (t: Transform)
        ensures
            t == Transform::spec_identity(),
    {
        Transform { translation: Vec3 { x: 0, y: 0, z: 0 }, rotation: Mat3::identity() }
    }

    /// The placement that moves by `translation` and turns nothing.
    pub open spec fn spec_from_translation(translation: Vec3) -> Transform {
        Transform { translation, rotation: Mat3::spec_identity() }
    }

    #[verifier::when_used_as_spec(spec_from_translation)]
    pub fn from_translation(translation: Vec3) -> (t: Transform)
        ensures
            t == Transform::spec_from_translation(translation),
    {
        Transform { translation, rotation: Mat3::identity() }
    }
}

/// A number of half voxels in whole voxels, cut toward zero.
pub open spec fn whole_voxels(a: int) -> int {
    if a < 0 {
        -((-a) / 2)
    } else {
        a / 2
    }
}

/// A translation as the scene file writes it: the x, z and y components, in
/// that order, in whole voxels cut toward zero, in decimal with one space
/// between them.
pub open spec fn translation_text(t: Vec3) -> Seq<char> {
    decimal(whole_voxels(t.x as int)) + seq![' '] + decimal(whole_voxels(t.z as int)) + seq![' ']
        + decimal(whole_voxels(t.y as int))
}

/// The packed byte that a placement's orientation is written as: its matrix
/// snapped to the axes, then packed.
pub open spec fn rotation_byte(m: Mat3) -> int {
    packed(snapped(m))
}

/// Writes a placement as the scene file holds it: the translation string and
/// the packed byte of the snapped orientation.
pub fn transform_to_magica(transform: Transform) -> (r: (String, u8))
    ensures
        r.0@ == translation_text(transform.translation),
        r.1 == rotation_byte(transform.rotation),
{
    proof {
        reveal_strlit(" ");
    }
    let t = transform.translation;
    let mut text = String::new();
    push_decimal(&mut text, t.x / 2);
    text.append(" ");
    push_decimal(&mut text, t.z / 2);
    text.append(" ");
    push_decimal(&mut text, t.y / 2);
    let rotation: u8 = rotation_to_u8(snap_rotation(transform.rotation));
    (text, rotation)
}

} // verus!
