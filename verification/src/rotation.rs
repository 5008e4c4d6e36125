//! Snapping an orientation to the coordinate axes and packing it into a byte.
//!
//! An orientation is given by the three rows of its matrix. Snapping only
//! compares entries with each other and with their negations, so the entries
//! may be in any unit that keeps their order and their sign.

use vstd::prelude::*;
use crate::vector::{abs, Vec3};

verus! {

/// The three rows of an orientation matrix.
#[derive(Clone, Copy, Debug, PartialEq, Eq, Structural)]
pub struct Mat3 {
    pub x_axis: Vec3,
    pub y_axis: Vec3,
    pub z_axis: Vec3,
}

/// The index of the first greatest element of a sequence, 0 for an empty one.
pub open spec fn first_max(s: Seq<int>) -> int
    decreases s.len(),
{
    if s.len() <= 1 {
        0
    } else {
        let k = first_max(s.drop_last());
        if s.last() > s[k] {
            s.len() - 1
        } else {
            k
        }
    }
}

/// `first_max` names an element that none exceeds and that none before it equals.
pub proof fn lemma_first_max(s: Seq<int>)
    requires
        s.len() > 0,
    ensures
        0 <= first_max(s) < s.len(),
        forall|j: int| 0 <= j < s.len() ==> #[trigger] s[j] <= s[first_max(s)],
        forall|j: int| 0 <= j < first_max(s) ==> #[trigger] s[j] < s[first_max(s)],
    decreases s.len(),
{
    if s.len() > 1 {
        let t = s.drop_last();
        lemma_first_max(t);
        assert forall|j: int| 0 <= j < s.len() implies #[trigger] s[j] <= s[first_max(s)] by {
            if j < t.len() {
                assert(t[j] == s[j]);
            }
        }
        assert forall|j: int| 0 <= j < first_max(s) implies #[trigger] s[j] < s[first_max(s)] by {
            assert(t[j] == s[j]);
        }
    }
}

/// The six signed unit vectors in the order +X, -X, +Y, -Y, +Z, -Z.
pub open spec fn axis(k: int) -> Vec3 {
    if k == 0 {
        Vec3 { x: 1, y: 0, z: 0 }
    } else if k == 1 {
        Vec3 { x: -1i64, y: 0, z: 0 }
    } else if k == 2 {
        Vec3 { x: 0, y: 1, z: 0 }
    } else if k == 3 {
        Vec3 { x: 0, y: -1i64, z: 0 }
    } else if k == 4 {
        Vec3 { x: 0, y: 0, z: 1 }
    } else {
        Vec3 { x: 0, y: 0, z: -1i64 }
    }
}

/// The scalar products of `v` with the six signed unit vectors, in their order.
pub open spec fn axis_dots(v: Vec3) -> Seq<int> {
    Seq::new(6, |k: int| v.dot(axis(k)))
}

/// The signed unit vector nearest to `v`: the first one, in their order, whose
/// scalar product with `v` is greatest.
pub open spec fn closest_axis(v: Vec3) -> Vec3 {
    axis(first_max(axis_dots(v)))
}

fn unit_axis(k: usize) -> (a: Vec3)
    requires
        k < 6,
    ensures
        a == axis(k as int),
{
    let axes: [Vec3; 6] = [
        Vec3 { x: 1, y: 0, z: 0 },
        Vec3 { x: -1, y: 0, z: 0 },
        Vec3 { x: 0, y: 1, z: 0 },
        Vec3 { x: 0, y: -1, z: 0 },
        Vec3 { x: 0, y: 0, z: 1 },
        Vec3 { x: 0, y: 0, z: -1 },
    ];
    axes[k]
}

fn dot_with_axis(v: Vec3, a: Vec3) -> (d: i128)
    requires
        exists|k: int| 0 <= k < 6 && a == axis(k),
    ensures
        d == v.dot(a),
{
    let px: i128 = if a.x == 0 { 0 } else if a.x == 1 { v.x as i128 } else { -(v.x as i128) };
    let py: i128 = if a.y == 0 { 0 } else if a.y == 1 { v.y as i128 } else { -(v.y as i128) };
    let pz: i128 = if a.z == 0 { 0 } else if a.z == 1 { v.z as i128 } else { -(v.z as i128) };
    px + py + pz
}

/// Replaces a vector by the nearest of the six signed unit vectors.
pub fn snap_vector_to_closest_axis(v: Vec3) -> (a: Vec3)
    ensures
        a == closest_axis(v),
{
    let mut max_axis: Vec3 = unit_axis(0);
    let mut max_value: i128 = dot_with_axis(v, max_axis);
    let ghost dots = axis_dots(v);
    let ghost mut best: int = 0;
    let mut k: usize = 1;
    while k < 6
        invariant
            1 <= k <= 6,
            dots == axis_dots(v),
            0 <= best < k,
            best == first_max(dots.subrange(0, k as int)),
            max_axis == axis(best),
            max_value == dots[best],
        decreases 6 - k,
    {
        let candidate: Vec3 = unit_axis(k);
        let d: i128 = dot_with_axis(v, candidate);
        proof {
            let s = dots.subrange(0, k as int + 1);
            assert(s.drop_last() == dots.subrange(0, k as int));
        }
        if d > max_value {
            max_value = d;
            max_axis = candidate;
            proof {
                best = k as int;
            }
        }
        k = k + 1;
    }
    assert(dots.subrange(0, 6) == dots);
    max_axis
}

/// The nearest signed unit vector has the greatest scalar product with `v`
/// among the six, and is the first of them that reaches it.
pub proof fn lemma_closest_axis_is_nearest(v: Vec3)
    ensures
        0 <= first_max(axis_dots(v)) < 6,
        forall|j: int| 0 <= j < 6 ==> v.dot(#[trigger] axis(j)) <= v.dot(closest_axis(v)),
        forall|j: int|
            0 <= j < first_max(axis_dots(v)) ==> v.dot(#[trigger] axis(j)) < v.dot(
                closest_axis(v),
            ),
{
    let dots = axis_dots(v);
    lemma_first_max(dots);
    let k = first_max(dots);
    assert forall|j: int| 0 <= j < 6 implies v.dot(#[trigger] axis(j)) <= v.dot(
        closest_axis(v),
    ) by {
        assert(dots[j] == v.dot(axis(j)));
    }
    assert forall|j: int| 0 <= j < k implies v.dot(#[trigger] axis(j)) < v.dot(
        closest_axis(v),
    ) by {
        assert(dots[j] == v.dot(axis(j)));
    }
}

/// The matrix whose rows are the signed unit vectors nearest to the rows of `m`.
pub open spec fn snapped(m: Mat3) -> Mat3 {
    Mat3 {
        x_axis: closest_axis(m.x_axis),
        y_axis: closest_axis(m.y_axis),
        z_axis: closest_axis(m.z_axis),
    }
}

/// Snaps each row of an orientation matrix, on its own, to the nearest signed
/// unit vector.
pub fn snap_rotation(m: Mat3) -> (r: Mat3)
    ensures
        r == snapped(m),
{
    Mat3 {
        x_axis: snap_vector_to_closest_axis(m.x_axis),
        y_axis: snap_vector_to_closest_axis(m.y_axis),
        z_axis: snap_vector_to_closest_axis(m.z_axis),
    }
}

/// The absolute values of the three components of a row.
pub open spec fn magnitudes(row: Vec3) -> Seq<int> {
    Seq::new(3, |i: int| abs(row.component(i)))
}

/// The index of the first component of `row` that is greatest in absolute
/// value: for a signed unit vector, the index of its one non-zero component.
pub open spec fn dominant_index(row: Vec3) -> int {
    first_max(magnitudes(row))
}

/// 1 where the dominant component of `row` is negative, 0 where it is not.
pub open spec fn sign_bit(row: Vec3) -> int {
    if row.component(dominant_index(row)) < 0 {
        1
    } else {
        0
    }
}

fn component_of(row: Vec3, i: usize) -> (c: i64)
    requires
        i < 3,
    ensures
        c == row.component(i as int),
{
    if i == 0 {
        row.x
    } else if i == 1 {
        row.y
    } else {
        row.z
    }
}

fn magnitude(c: i64) -> (m: i128)
    ensures
        m == abs(c as int),
{
    if c < 0 {
        -(c as i128)
    } else {
        c as i128
    }
}

/// Finds the index and the sign of the non-zero entry of a row: the index of
/// the first component that is greatest in absolute value, and 1 for a
/// negative component, 0 otherwise.
pub fn find_non_zero_index_and_sign(row: Vec3) -> (r: (u8, u8))
    ensures
        r.0 == dominant_index(row),
        r.1 == sign_bit(row),
        r.0 < 3,
        r.1 < 2,
{
    let ghost mags = magnitudes(row);
    let mut index: u8 = 0;
    let mut max_value: i128 = magnitude(row.x);
    let mut sign: u8 = if row.x >= 0 { 0 } else { 1 };
    let mut i: usize = 1;
    while i < 3
        invariant
            1 <= i <= 3,
            mags == magnitudes(row),
            index < i,
            index == first_max(mags.subrange(0, i as int)),
            max_value == mags[index as int],
            sign == (if row.component(index as int) < 0 { 1int } else { 0int }),
        decreases 3 - i,
    {
        let c: i64 = component_of(row, i);
        let m: i128 = magnitude(c);
        proof {
            let s = mags.subrange(0, i as int + 1);
            assert(s.drop_last() == mags.subrange(0, i as int));
        }
        if m > max_value {
            index = i as u8;
            max_value = m;
            sign = if c >= 0 { 0 } else { 1 };
        }
        i = i + 1;
    }
    assert(mags.subrange(0, 3) == mags);
    (index, sign)
}

/// The byte that holds two axis indices in its bits 0-1 and 2-3 and three
/// sign flags in its bits 4, 5 and 6.
pub open spec fn pack_fields(
    first_index: int,
    second_index: int,
    first_sign: int,
    second_sign: int,
    third_sign: int,
) -> int {
    first_index + 4 * second_index + 16 * first_sign + 32 * second_sign + 64 * third_sign
}

/// The packed byte of an orientation matrix. The rows are read in the order
/// first, third, second: the indices of the first two of them and the signs
/// of all three go into the byte.
pub open spec fn packed(m: Mat3) -> int {
    pack_fields(
        dominant_index(m.x_axis),
        dominant_index(m.z_axis),
        sign_bit(m.x_axis),
        sign_bit(m.z_axis),
        sign_bit(m.y_axis),
    )
}

/// Packs an orientation matrix into one byte.
pub fn rotation_to_u8(m: Mat3) -> (b: u8)
    ensures
        b == packed(m),
        b < 128,
{
    let (i0, s0) = find_non_zero_index_and_sign(m.x_axis);
    let (i1, s1) = find_non_zero_index_and_sign(m.z_axis);
    let (_, s2) = find_non_zero_index_and_sign(m.y_axis);
    assert((i0 << 0) | (i1 << 2) | (s0 << 4) | (s1 << 5) | (s2 << 6) == i0 + 4 * i1 + 16 * s0 + 32
        * s1 + 64 * s2) by (bit_vector)
        requires
            i0 < 3,
            i1 < 3,
            s0 < 2,
            s1 < 2,
            s2 < 2,
    ;
    (i0 << 0) | (i1 << 2) | (s0 << 4) | (s1 << 5) | (s2 << 6)
}

/// What a packed byte says: the axis indices of the first two rows that were
/// read and the signs of all three.
#[derive(Clone, Copy, Debug, PartialEq, Eq, Structural)]
pub struct PackedRotation {
    pub first_index: u8,
    pub second_index: u8,
    pub first_negative: bool,
    pub second_negative: bool,
    pub third_negative: bool,
}

/// The fields of a packed byte, by arithmetic on its value.
pub open spec fn unpacked(b: int) -> PackedRotation {
    PackedRotation {
        first_index: (b % 4) as u8,
        second_index: ((b / 4) % 4) as u8,
        first_negative: (b / 16) % 2 == 1,
        second_negative: (b / 32) % 2 == 1,
        third_negative: (b / 64) % 2 == 1,
    }
}

/// Reads the fields of a packed byte: bits 0-1, bits 2-3, and bits 4, 5 and 6.
pub fn unpack_rotation(b: u8) -> (r: PackedRotation)
    ensures
        r == unpacked(b as int),
{
    assert(b & 3 == b % 4) by (bit_vector);
    assert((b >> 2) & 3 == (b / 4) % 4) by (bit_vector);
    assert((b >> 4) & 1 == (b / 16) % 2) by (bit_vector);
    assert((b >> 5) & 1 == (b / 32) % 2) by (bit_vector);
    assert((b >> 6) & 1 == (b / 64) % 2) by (bit_vector);
    PackedRotation {
        first_index: b & 3,
        second_index: (b >> 2) & 3,
        first_negative: (b >> 4) & 1 == 1,
        second_negative: (b >> 5) & 1 == 1,
        third_negative: (b >> 6) & 1 == 1,
    }
}

/// Unpacking the packed byte of a matrix gives back what was packed: the
/// dominant indices of its first and third rows and the signs of its first,
/// third and second rows.
pub proof fn lemma_pack_round_trip(m: Mat3)
    ensures
        0 <= packed(m) < 128,
        unpacked(packed(m)).first_index == dominant_index(m.x_axis),
        unpacked(packed(m)).second_index == dominant_index(m.z_axis),
        unpacked(packed(m)).first_negative == (sign_bit(m.x_axis) == 1),
        unpacked(packed(m)).second_negative == (sign_bit(m.z_axis) == 1),
        unpacked(packed(m)).third_negative == (sign_bit(m.y_axis) == 1),
{
    lemma_first_max(magnitudes(m.x_axis));
    lemma_first_max(magnitudes(m.y_axis));
    lemma_first_max(magnitudes(m.z_axis));
}

/// The scalar product with a signed unit vector is one component, or its
/// negation.
pub proof fn lemma_dot_with_axis(v: Vec3, k: int)
    requires
        0 <= k < 6,
    ensures
        v.dot(axis(k)) == (if k % 2 == 0 {
            v.component(k / 2)
        } else {
            -v.component(k / 2)
        }),
{
    let a = axis(k);
    lemma_mul_by_unit(v.x as int, a.x as int);
    lemma_mul_by_unit(v.y as int, a.y as int);
    lemma_mul_by_unit(v.z as int, a.z as int);
}

proof fn lemma_mul_by_unit(a: int, u: int)
    requires
        -1 <= u <= 1,
    ensures
        u == 1 ==> a * u == a,
        u == 0 ==> a * u == 0,
        u == -1 ==> a * u == -a,
{
}

/// A signed unit vector is its own nearest signed unit vector, its non-zero
/// component is the dominant one, and its sign bit is that of its place in
/// the order of the six.
pub proof fn lemma_axis_fixed(k: int)
    requires
        0 <= k < 6,
    ensures
        closest_axis(axis(k)) == axis(k),
        dominant_index(axis(k)) == k / 2,
        sign_bit(axis(k)) == k % 2,
{
    let d = axis_dots(axis(k));
    lemma_first_max(d);
    assert forall|j: int| 0 <= j < 6 implies #[trigger] d[j] == (if j == k {
        1int
    } else if j / 2 == k / 2 {
        -1int
    } else {
        0int
    }) by {
        lemma_dot_with_axis(axis(k), j);
    }
    assert(d[k] <= d[first_max(d)]);
    let g = magnitudes(axis(k));
    lemma_first_max(g);
    assert forall|i: int| 0 <= i < 3 && i != k / 2 implies #[trigger] g[i] == 0 by {}
    assert(g[k / 2] <= g[first_max(g)]);
}

/// The nearest signed unit vector to `v` is the one at the place that
/// `first_max` names; snapping leaves it as it is, and its dominant index
/// and its sign bit are those of that place.
proof fn lemma_closest_axis(v: Vec3)
    ensures
        0 <= first_max(axis_dots(v)) < 6,
        closest_axis(closest_axis(v)) == closest_axis(v),
        dominant_index(closest_axis(v)) == first_max(axis_dots(v)) / 2,
        sign_bit(closest_axis(v)) == first_max(axis_dots(v)) % 2,
{
    lemma_first_max(axis_dots(v));
    lemma_axis_fixed(first_max(axis_dots(v)));
}

/// What `lemma_closest_axis` says, of each row of a matrix.
proof fn lemma_snapped_rows(m: Mat3)
    ensures
        snapped(snapped(m)) == snapped(m),
        0 <= first_max(axis_dots(m.x_axis)) < 6,
        0 <= first_max(axis_dots(m.y_axis)) < 6,
        0 <= first_max(axis_dots(m.z_axis)) < 6,
        dominant_index(snapped(m).x_axis) == first_max(axis_dots(m.x_axis)) / 2,
        dominant_index(snapped(m).y_axis) == first_max(axis_dots(m.y_axis)) / 2,
        dominant_index(snapped(m).z_axis) == first_max(axis_dots(m.z_axis)) / 2,
        sign_bit(snapped(m).x_axis) == first_max(axis_dots(m.x_axis)) % 2,
        sign_bit(snapped(m).y_axis) == first_max(axis_dots(m.y_axis)) % 2,
        sign_bit(snapped(m).z_axis) == first_max(axis_dots(m.z_axis)) % 2,
{
    lemma_closest_axis(m.x_axis);
    lemma_closest_axis(m.y_axis);
    lemma_closest_axis(m.z_axis);
}

/// Snapping is idempotent: a snapped matrix snaps to itself, so snapping
/// twice packs to the same byte as snapping once.
pub proof fn lemma_snap_idempotent(m: Mat3)
    ensures
        snapped(snapped(m)) == snapped(m),
        packed(snapped(snapped(m))) == packed(snapped(m)),
{
    lemma_snapped_rows(m);
}

/// The rows of a snapped matrix can be read back from its packed byte: the
/// first and the third row in full, and the sign of the second.
pub proof fn lemma_unpack_snapped(m: Mat3)
    ensures
        ({
            let s = snapped(m);
            let u = unpacked(packed(s));
            &&& s.x_axis == axis(2 * u.first_index + (if u.first_negative { 1int } else { 0int }))
            &&& s.z_axis == axis(
                2 * u.second_index + (if u.second_negative { 1int } else { 0int }),
            )
            &&& u.third_negative == (s.y_axis.component(dominant_index(s.y_axis)) < 0)
        }),
{
    lemma_snapped_rows(m);
    lemma_pack_round_trip(snapped(m));
}

} // verus!
