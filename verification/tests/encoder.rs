use bevy::math::{EulerRot, Mat3 as FloatMat3, Quat, Vec3 as FloatVec3};
use skelvox::decimal::decimal_string;
use skelvox::rotation::{
    find_non_zero_index_and_sign, rotation_to_u8, snap_rotation, snap_vector_to_closest_axis,
    unpack_rotation, Mat3, PackedRotation,
};
use skelvox::transform::{transform_to_magica, Transform};
use skelvox::vector::Vec3;

/// A whole number that orders finite floats as they are ordered and has
/// their sign: the bits of the magnitude, with the sign in front.
fn key(x: f32) -> i64 {
    let bits: u32 = x.to_bits();
    let magnitude: i64 = (bits & 0x7fff_ffff) as i64;
    if bits >> 31 == 1 {
        -magnitude
    } else {
        magnitude
    }
}

fn keys(v: FloatVec3) -> Vec3 {
    Vec3::new(key(v.x), key(v.y), key(v.z))
}

fn matrix_of(q: Quat) -> Mat3 {
    let m = FloatMat3::from_quat(q);
    Mat3 { x_axis: keys(m.x_axis), y_axis: keys(m.y_axis), z_axis: keys(m.z_axis) }
}

fn axes() -> [Vec3; 6] {
    [
        Vec3::new(1, 0, 0),
        Vec3::new(-1, 0, 0),
        Vec3::new(0, 1, 0),
        Vec3::new(0, -1, 0),
        Vec3::new(0, 0, 1),
        Vec3::new(0, 0, -1),
    ]
}

fn encode(m: Mat3) -> u8 {
    transform_to_magica(Transform { translation: Vec3::new(0, 0, 0), rotation: m }).1
}

#[test]
fn identity_packs_to_eight() {
    assert_eq!(rotation_to_u8(Mat3::identity()), 8);
    assert_eq!(encode(Mat3::identity()), 8);
    assert_eq!(encode(matrix_of(Quat::IDENTITY)), 8);
}

#[test]
fn quarter_turn_about_the_vertical_axis_changes_the_indices() {
    let turned: u8 = encode(matrix_of(Quat::from_rotation_y(90.0_f32.to_radians())));
    let still: u8 = encode(Mat3::identity());
    assert_eq!(turned, 18);
    let a = unpack_rotation(turned);
    let b = unpack_rotation(still);
    assert_ne!((a.first_index, a.second_index), (b.first_index, b.second_index));
    assert_eq!((a.first_index, a.second_index), (2, 0));
    assert_eq!((b.first_index, b.second_index), (0, 2));
}

#[test]
fn a_tiny_rotation_snaps_to_the_identity() {
    let e: f32 = 1.0e-3;
    let q = Quat::from_euler(EulerRot::XYZ, e, e, e);
    assert_eq!(encode(matrix_of(q)), encode(Mat3::identity()));
}

#[test]
fn a_slightly_off_quarter_turn_snaps_like_the_exact_one() {
    let exact: u8 = encode(matrix_of(Quat::from_rotation_x(90.0_f32.to_radians())));
    let off: u8 = encode(matrix_of(Quat::from_rotation_x(97.0_f32.to_radians())));
    assert_eq!(exact, off);
}

#[test]
fn snapping_picks_the_greatest_scalar_product() {
    assert_eq!(snap_vector_to_closest_axis(Vec3::new(5, 5, -7)), Vec3::new(0, 0, -1));
    assert_eq!(snap_vector_to_closest_axis(Vec3::new(-2, 9, 3)), Vec3::new(0, 1, 0));
    assert_eq!(snap_vector_to_closest_axis(Vec3::new(-20, 9, 3)), Vec3::new(-1, 0, 0));
    assert_eq!(snap_vector_to_closest_axis(Vec3::new(1, -1, 6)), Vec3::new(0, 0, 1));
}

#[test]
fn snapping_breaks_ties_in_the_order_of_the_axes() {
    assert_eq!(snap_vector_to_closest_axis(Vec3::new(5, 5, 5)), Vec3::new(1, 0, 0));
    assert_eq!(snap_vector_to_closest_axis(Vec3::new(0, 0, 0)), Vec3::new(1, 0, 0));
    assert_eq!(snap_vector_to_closest_axis(Vec3::new(-5, -5, -5)), Vec3::new(-1, 0, 0));
    assert_eq!(snap_vector_to_closest_axis(Vec3::new(0, -4, 4)), Vec3::new(0, -1, 0));
    assert_eq!(snap_vector_to_closest_axis(Vec3::new(1, 4, 4)), Vec3::new(0, 1, 0));
}

#[test]
fn snapping_stands_the_widest_components() {
    let v = Vec3::new(i64::MIN, i64::MAX, i64::MIN);
    assert_eq!(snap_vector_to_closest_axis(v), Vec3::new(-1, 0, 0));
    let v = Vec3::new(i64::MAX, i64::MAX, i64::MIN);
    assert_eq!(snap_vector_to_closest_axis(v), Vec3::new(0, 0, -1));
}

#[test]
fn snapping_twice_is_snapping_once() {
    let samples = [
        Mat3 {
            x_axis: Vec3::new(3, -9, 2),
            y_axis: Vec3::new(0, 0, 0),
            z_axis: Vec3::new(-7, 7, 7),
        },
        matrix_of(Quat::from_euler(EulerRot::XYZ, 0.3, 1.1, -2.0)),
        matrix_of(Quat::from_euler(EulerRot::ZYX, 2.9, -0.7, 0.4)),
        Mat3::identity(),
    ];
    for m in samples {
        let once = snap_rotation(m);
        let twice = snap_rotation(once);
        assert_eq!(once, twice);
        assert_eq!(rotation_to_u8(once), rotation_to_u8(twice));
    }
}

#[test]
fn every_axis_snaps_to_itself() {
    for a in axes() {
        assert_eq!(snap_vector_to_closest_axis(a), a);
    }
}

#[test]
fn index_and_sign_of_unit_rows() {
    let expected: [(u8, u8); 6] = [(0, 0), (0, 1), (1, 0), (1, 1), (2, 0), (2, 1)];
    for (a, e) in axes().iter().zip(expected.iter()) {
        assert_eq!(find_non_zero_index_and_sign(*a), *e);
    }
}

#[test]
fn index_and_sign_of_other_rows() {
    assert_eq!(find_non_zero_index_and_sign(Vec3::new(0, 0, 0)), (0, 0));
    assert_eq!(find_non_zero_index_and_sign(Vec3::new(-3, 3, 3)), (0, 1));
    assert_eq!(find_non_zero_index_and_sign(Vec3::new(2, -3, 3)), (1, 1));
    assert_eq!(find_non_zero_index_and_sign(Vec3::new(2, -3, 4)), (2, 0));
    assert_eq!(find_non_zero_index_and_sign(Vec3::new(1, i64::MIN, i64::MAX)), (1, 1));
}

#[test]
fn packing_follows_the_bit_layout() {
    let m = Mat3 {
        x_axis: Vec3::new(0, -1, 0),
        y_axis: Vec3::new(0, 0, -1),
        z_axis: Vec3::new(1, 0, 0),
    };
    // first row read: index 1, negative; second row read (the third row):
    // index 0, positive; third row read (the second row): negative
    assert_eq!(rotation_to_u8(m), 1 | (0 << 2) | (1 << 4) | (0 << 5) | (1 << 6));
    let m = Mat3 {
        x_axis: Vec3::new(0, 0, 1),
        y_axis: Vec3::new(1, 0, 0),
        z_axis: Vec3::new(0, -1, 0),
    };
    assert_eq!(rotation_to_u8(m), 2 | (1 << 2) | (0 << 4) | (1 << 5) | (0 << 6));
}

#[test]
fn unpacking_reads_the_bit_fields() {
    assert_eq!(
        unpack_rotation(0b0101_0110),
        PackedRotation {
            first_index: 2,
            second_index: 1,
            first_negative: true,
            second_negative: false,
            third_negative: true,
        }
    );
    assert_eq!(
        unpack_rotation(0b1010_1001),
        PackedRotation {
            first_index: 1,
            second_index: 2,
            first_negative: false,
            second_negative: true,
            third_negative: false,
        }
    );
}

#[test]
fn the_packed_byte_round_trips_for_every_snapped_matrix() {
    for (i, x) in axes().iter().enumerate() {
        for (j, y) in axes().iter().enumerate() {
            for (k, z) in axes().iter().enumerate() {
                let m = Mat3 { x_axis: *x, y_axis: *y, z_axis: *z };
                let byte: u8 = rotation_to_u8(m);
                assert!(byte < 128);
                let u = unpack_rotation(byte);
                assert_eq!(u.first_index as usize, i / 2);
                assert_eq!(u.second_index as usize, k / 2);
                assert_eq!(u.first_negative, i % 2 == 1);
                assert_eq!(u.second_negative, k % 2 == 1);
                assert_eq!(u.third_negative, j % 2 == 1);
            }
        }
    }
}

#[test]
fn translation_is_written_x_z_y_in_whole_voxels() {
    let t = Transform::from_translation(Vec3::new(0, 10, 0));
    assert_eq!(transform_to_magica(t), ("0 0 5".to_string(), 8));
    let t = Transform::from_translation(Vec3::new(2, 40, 600));
    assert_eq!(transform_to_magica(t).0, "1 300 20");
}

#[test]
fn translation_is_cut_toward_zero() {
    let t = Transform::from_translation(Vec3::new(-3, 7, -1));
    assert_eq!(transform_to_magica(t).0, "-1 0 3");
    let t = Transform::from_translation(Vec3::new(3, -7, 1));
    assert_eq!(transform_to_magica(t).0, "1 0 -3");
    let t = Transform::from_translation(Vec3::new(i64::MIN, i64::MAX, -2));
    assert_eq!(transform_to_magica(t).0, "-4611686018427387904 -1 4611686018427387903");
}

#[test]
fn identity_transform_is_at_the_origin() {
    assert_eq!(Transform::identity(), Transform::from_translation(Vec3::new(0, 0, 0)));
    assert_eq!(transform_to_magica(Transform::identity()), ("0 0 0".to_string(), 8));
}

#[test]
fn numbers_are_written_in_decimal() {
    assert_eq!(decimal_string(0), "0");
    assert_eq!(decimal_string(7), "7");
    assert_eq!(decimal_string(10), "10");
    assert_eq!(decimal_string(-10), "-10");
    assert_eq!(decimal_string(1234567890), "1234567890");
    assert_eq!(decimal_string(i64::MAX), "9223372036854775807");
    assert_eq!(decimal_string(i64::MIN), "-9223372036854775808");
    for n in -1500i64..1500 {
        assert_eq!(decimal_string(n), n.to_string());
    }
}

#[test]
fn unpacking_agrees_with_the_scene_file_crate() {
    for byte in 0u8..128 {
        let u = unpack_rotation(byte);
        let valid: bool =
            u.first_index != u.second_index && u.first_index != 3 && u.second_index != 3;
        if !valid {
            continue;
        }
        let cols = dot_vox::Rotation::from_byte(byte).to_cols_array_2d();
        let sign = |negative: bool| if negative { -1.0f32 } else { 1.0f32 };
        let third_index: u8 = 3 - u.first_index - u.second_index;
        assert_eq!(cols[u.first_index as usize][0], sign(u.first_negative));
        assert_eq!(cols[u.second_index as usize][1], sign(u.second_negative));
        assert_eq!(cols[third_index as usize][2], sign(u.third_negative));
    }
}
