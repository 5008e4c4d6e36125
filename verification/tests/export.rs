use dot_vox::{Dict, DotVoxData, SceneNode, ShapeModel, Size};
use skelvox::error::ConvertError;
use skelvox::error::serialized;
use skelvox::scene::{build, Attribute, Color, Material, VoxScene};
use skelvox::walker::BoneBox;
use skelvox::transform::Transform;
use skelvox::vector::Vec3;

fn dict(pairs: &[(&str, &str)]) -> Dict {
    let mut d = Dict::new();
    for (k, v) in pairs {
        d.insert(k.to_string(), v.to_string());
    }
    d
}

fn scene_of_two() -> VoxScene {
    let boxes = vec![
        BoneBox {
            name: "upper".to_string(),
            center: Vec3::new(0, 10, 0),
            half_extents: Vec3::new(1, 10, 1),
        },
        BoneBox {
            name: "lower".to_string(),
            center: Vec3::new(-7, 30, 5),
            half_extents: Vec3::new(4, 10, 2),
        },
    ];
    build(&boxes, true).unwrap()
}

fn expected_nodes() -> Vec<SceneNode> {
    vec![
        SceneNode::Transform {
            attributes: dict(&[]),
            frames: vec![dot_vox::Frame { attributes: dict(&[]) }],
            child: 1,
            layer_id: 4294967295,
        },
        SceneNode::Group { attributes: dict(&[]), children: vec![7] },
        SceneNode::Shape {
            attributes: dict(&[]),
            models: vec![ShapeModel { model_id: 0, attributes: dict(&[]) }],
        },
        SceneNode::Transform {
            attributes: dict(&[("_name", "upper")]),
            frames: vec![dot_vox::Frame { attributes: dict(&[("_t", "0 0 5"), ("_r", "8")]) }],
            child: 2,
            layer_id: 0,
        },
        SceneNode::Shape {
            attributes: dict(&[]),
            models: vec![ShapeModel { model_id: 1, attributes: dict(&[]) }],
        },
        SceneNode::Transform {
            attributes: dict(&[("_name", "lower")]),
            frames: vec![dot_vox::Frame { attributes: dict(&[("_t", "-3 2 15"), ("_r", "8")]) }],
            child: 4,
            layer_id: 0,
        },
        SceneNode::Group { attributes: dict(&[]), children: vec![3, 5] },
        SceneNode::Transform {
            attributes: dict(&[]),
            frames: vec![dot_vox::Frame { attributes: dict(&[("_t", "0 0 0"), ("_r", "8")]) }],
            child: 6,
            layer_id: 0,
        },
    ]
}

#[test]
fn records_are_handed_over_in_order() {
    let data: DotVoxData = scene_of_two().to_dot_vox();
    assert_eq!(data.scenes, expected_nodes());
}

#[test]
fn models_are_handed_over_without_voxels() {
    let data: DotVoxData = scene_of_two().to_dot_vox();
    assert_eq!(data.models.len(), 2);
    assert_eq!(data.models[0].size, Size { x: 1, y: 1, z: 10 });
    assert_eq!(data.models[1].size, Size { x: 4, y: 2, z: 10 });
    assert!(data.models.iter().all(|m| m.voxels.is_empty()));
}

#[test]
fn tables_are_handed_over_whole() {
    let mut scene = scene_of_two();
    let palette: Vec<Color> =
        (0..256).map(|i: u32| Color { r: i as u8, g: 3, b: 200, a: 255 }).collect();
    assert!(scene.set_palette(palette));
    let glass = Material {
        id: 2,
        properties: vec![
            Attribute { key: "_type".to_string(), value: "_glass".to_string() },
            Attribute { key: "_type".to_string(), value: "_metal".to_string() },
        ],
    };
    assert!(scene.set_material(2, glass));
    let data: DotVoxData = scene.to_dot_vox();
    assert_eq!(data.version, 150);
    assert_eq!(data.layers.len(), 1);
    assert!(data.layers[0].attributes.is_empty());
    assert_eq!(data.palette.len(), 256);
    for (i, c) in data.palette.iter().enumerate() {
        assert_eq!(*c, dot_vox::Color { r: i as u8, g: 3, b: 200, a: 255 });
    }
    assert_eq!(data.materials.len(), 256);
    let defaults = dict(&[
        ("_rough", "0.1"),
        ("_ior", "0.3"),
        ("_spec", "0.5"),
        ("_weight", "1"),
        ("_type", "_diffuse"),
    ]);
    for (i, m) in data.materials.iter().enumerate() {
        assert_eq!(m.id as usize, i);
        if i == 2 {
            assert_eq!(m.properties, dict(&[("_type", "_metal")]));
        } else {
            assert_eq!(m.properties, defaults);
        }
    }
}

#[test]
fn a_new_scene_is_handed_over_with_its_defaults() {
    let data: DotVoxData = VoxScene::new().to_dot_vox();
    assert_eq!(data.scenes.len(), 2);
    assert!(data.models.is_empty());
    assert!(data.palette.iter().all(|c| *c == dot_vox::Color { r: 0, g: 0, b: 0, a: 255 }));
}

#[test]
fn bytes_are_as_many_as_the_tables_take() {
    let scene = scene_of_two();
    let bytes: Vec<u8> = scene.to_bytes().unwrap();
    let least: usize = 20
        + 40 * scene.models().len()
        + 24 * scene.records().len()
        + 12
        + 4 * scene.palette().len()
        + 20 * scene.materials().len()
        + 24;
    assert!(bytes.len() >= least);
    let bare: Vec<u8> = VoxScene::new().to_bytes().unwrap();
    assert!(bare.len() >= 20 + 24 * 2 + 12 + 4 * 256 + 20 * 256 + 24);
    assert!(bytes.len() > bare.len());
}

#[test]
fn bytes_begin_with_the_magic_and_the_version() {
    let bytes: Vec<u8> = scene_of_two().to_bytes().unwrap();
    assert_eq!(&bytes[0..4], "VOX ".as_bytes());
    assert_eq!(&bytes[4..8], &150u32.to_le_bytes());
    assert_eq!(&bytes[8..12], "MAIN".as_bytes());
}

#[test]
fn bytes_read_back_as_the_scene() {
    let scene = scene_of_two();
    let bytes: Vec<u8> = scene.to_bytes().unwrap();
    let read: DotVoxData = dot_vox::load_bytes(&bytes).unwrap();
    assert_eq!(read, scene.to_dot_vox());
    assert_eq!(read.scenes, expected_nodes());
}

#[test]
fn a_turned_group_is_written_with_its_packed_byte() {
    let mut scene = VoxScene::new();
    let a: u32 = scene.add_from_aabb("a".to_string(), Transform::identity(), Vec3::new(2, 2, 2));
    let turned = Transform {
        translation: Vec3::new(0, 0, 0),
        rotation: skelvox::rotation::Mat3 {
            x_axis: Vec3::new(10, 0, 0),
            y_axis: Vec3::new(0, 1, 9),
            z_axis: Vec3::new(0, -9, 1),
        },
    };
    let g: u32 = scene.add_group(turned, vec![a]);
    scene.add_to_root(g);
    let data: DotVoxData = scene.to_dot_vox();
    match &data.scenes[g as usize] {
        SceneNode::Transform { frames, child, .. } => {
            assert_eq!(*child, g - 1);
            assert_eq!(frames.len(), 1);
            // rows read: x (index 0, +), z (index 1, -), y (sign +)
            assert_eq!(frames[0].attributes, dict(&[("_t", "0 0 0"), ("_r", "36")]));
        }
        other => panic!("expected a transform, found {:?}", other),
    }
}

#[test]
fn a_writer_that_gives_up_is_a_serialization_failure() {
    let gave_up = std::io::Error::new(std::io::ErrorKind::StorageFull, "disk full");
    match serialized::<Vec<u8>>(Err(gave_up)) {
        Err(ConvertError::SerializationFailure(e)) => {
            assert_eq!(e.kind(), std::io::ErrorKind::StorageFull);
            assert_eq!(e.to_string(), "disk full");
        }
        other => panic!("expected a serialization failure, found {:?}", other),
    }
    assert_eq!(serialized(Ok(vec![1u8, 2, 3])).unwrap(), vec![1u8, 2, 3]);
    assert!(serialized(Ok(())).is_ok());
}
