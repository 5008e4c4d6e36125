//! Handing a scene over to the `dot_vox` crate, which writes the scene file.
//!
//! The scene is copied, table by table and record by record, into a
//! `dot_vox::DotVoxData`. What that value holds is known here only through
//! the functions `vox_version`, `vox_layers`, `vox_palette`, `vox_materials`,
//! `vox_models`, `vox_nodes` and `vox_voxels`, and through what the few
//! functions that touch it are taken to do.

use vstd::prelude::*;
use dot_vox::DotVoxData;
use crate::decimal::{decimal, decimal_string};
use crate::error::{serialized, ConvertError};
use crate::scene::{
    Attribute,
    Color,
    Frame,
    FrameView,
    Material,
    MaterialView,
    RecordView,
    SceneRecord,
    VoxScene,
    VoxelModel,
};

verus! {

/// The version that the scene file is written as.
pub const FILE_VERSION: u32 = 150;

/// `dot_vox::DotVoxData`, of which nothing is seen but what the functions
/// below say.
#[verifier::external_type_specification]
#[verifier::external_body]
pub struct ExDotVoxData(dot_vox::DotVoxData);

/// A dictionary of attributes.
pub type Attributes = Map<Seq<char>, Seq<char>>;

/// A material as `dot_vox` holds it.
pub struct MaterialEntry {
    pub id: u32,
    pub properties: Attributes,
}

/// A scene node as `dot_vox` holds it. A transform has its own attributes
/// and those of each of its frames; a shape has its own attributes and, for
/// each model that it shows, the model's position and attributes.
pub enum NodeView {
    Transform { attributes: Attributes, frames: Seq<Attributes>, child: u32, layer_id: u32 },
    Group { attributes: Attributes, children: Seq<u32> },
    Shape { attributes: Attributes, models: Seq<(u32, Attributes)> },
}

/// The version of `data`.
pub uninterp spec fn vox_version(data: DotVoxData) -> u32;

/// The attributes of the layers of `data`, in their order.
pub uninterp spec fn vox_layers(data: DotVoxData) -> Seq<Attributes>;

/// The colours of the palette of `data`, in their order.
pub uninterp spec fn vox_palette(data: DotVoxData) -> Seq<Color>;

/// The materials of `data`, in their order.
pub uninterp spec fn vox_materials(data: DotVoxData) -> Seq<MaterialEntry>;

/// The sizes of the models of `data`, in their order.
pub uninterp spec fn vox_models(data: DotVoxData) -> Seq<VoxelModel>;

/// The scene nodes of `data`, in their order.
pub uninterp spec fn vox_nodes(data: DotVoxData) -> Seq<NodeView>;

/// The number of voxels that the models of `data` hold between them.
pub uninterp spec fn vox_voxels(data: DotVoxData) -> nat;

/// The dictionary that holds the pairs of a list; of two pairs with one key
/// the later one stays.
pub open spec fn attribute_map(pairs: Seq<(Seq<char>, Seq<char>)>) -> Attributes
    decreases pairs.len(),
{
    if pairs.len() == 0 {
        Map::empty()
    } else {
        attribute_map(pairs.drop_last()).insert(pairs.last().0, pairs.last().1)
    }
}

/// The attributes of a transform with the given name: the name under
/// `_name`, or nothing.
pub open spec fn name_attributes(name: Option<Seq<char>>) -> Seq<(Seq<char>, Seq<char>)> {
    match name {
        Some(n) => seq![("_name"@, n)],
        None => Seq::empty(),
    }
}

/// The attributes of the frame of a transform: the translation under `_t`
/// and the packed rotation, in decimal, under `_r`, or nothing.
pub open spec fn frame_attributes(frame: Option<FrameView>) -> Seq<(Seq<char>, Seq<char>)> {
    match frame {
        Some(f) => seq![("_t"@, f.translation), ("_r"@, decimal(f.rotation as int))],
        None => Seq::empty(),
    }
}

/// A transform node with the given attributes and one frame.
pub open spec fn transform_node(
    attributes: Seq<(Seq<char>, Seq<char>)>,
    frame: Seq<(Seq<char>, Seq<char>)>,
    child: u32,
    layer_id: u32,
) -> NodeView {
    NodeView::Transform {
        attributes: attribute_map(attributes),
        frames: seq![attribute_map(frame)],
        child,
        layer_id,
    }
}

/// A group node without attributes.
pub open spec fn group_node(children: Seq<u32>) -> NodeView {
    NodeView::Group { attributes: Map::empty(), children }
}

/// A shape node without attributes that shows one model, which has no
/// attributes either.
pub open spec fn shape_node(model: u32) -> NodeView {
    NodeView::Shape {
        attributes: Map::empty(),
        models: seq![(model, Map::<Seq<char>, Seq<char>>::empty())],
    }
}

/// The scene node that a record is handed over as: a transform with its
/// name and its frame as attributes, a group or a shape without any.
pub open spec fn node_of(record: RecordView) -> NodeView {
    match record {
        RecordView::Transform { name, frame, child, layer_id } => transform_node(
            name_attributes(name),
            frame_attributes(frame),
            child,
            layer_id,
        ),
        RecordView::Group { children } => group_node(children),
        RecordView::Shape { model } => shape_node(model),
    }
}

/// The material that an entry of the material table is handed over as.
pub open spec fn entry_of(material: MaterialView) -> MaterialEntry {
    MaterialEntry { id: material.id, properties: attribute_map(material.properties) }
}

/// The one layer of a scene: a layer without attributes.
pub open spec fn one_plain_layer() -> Seq<Attributes> {
    seq![Map::<Seq<char>, Seq<char>>::empty()]
}

/// Makes a `dot_vox::DotVoxData` by its fields. It is taken to have the
/// given version and to hold no layer, colour, material, model, voxel or
/// scene node. Its index map is the crate's default one, of which the
/// contract says nothing.
#[verifier::external_body]
fn empty_data(version: u32) -> (data: DotVoxData)
    ensures
        vox_version(data) == version,
        vox_layers(data) == Seq::<Attributes>::empty(),
        vox_palette(data) == Seq::<Color>::empty(),
        vox_materials(data) == Seq::<MaterialEntry>::empty(),
        vox_models(data) == Seq::<VoxelModel>::empty(),
        vox_nodes(data) == Seq::<NodeView>::empty(),
        vox_voxels(data) == 0,
{
    DotVoxData {
        version,
        index_map: dot_vox::DEFAULT_INDEX_MAP.to_vec(),
        models: Vec::new(),
        palette: Vec::new(),
        materials: Vec::new(),
        scenes: Vec::new(),
        layers: Vec::new(),
    }
}

/// Pushes a `dot_vox::Layer` onto the layers of `data`, with a dictionary
/// collected from `attributes`. It is taken to add that layer at the end
/// and to leave the rest as it was.
#[verifier::external_body]
fn push_layer(data: &mut DotVoxData, attributes: &Vec<Attribute>)
    ensures
        vox_version(*final(data)) == vox_version(*old(data)),
        vox_layers(*final(data)) == vox_layers(*old(data)).push(
            attribute_map(attributes.deep_view()),
        ),
        vox_palette(*final(data)) == vox_palette(*old(data)),
        vox_materials(*final(data)) == vox_materials(*old(data)),
        vox_models(*final(data)) == vox_models(*old(data)),
        vox_nodes(*final(data)) == vox_nodes(*old(data)),
        vox_voxels(*final(data)) == vox_voxels(*old(data)),
{
    data.layers.push(
        dot_vox::Layer {
            attributes: attributes.iter().map(|a| (a.key.clone(), a.value.clone())).collect(),
        },
    );
}

/// Pushes a `dot_vox::Color` with the four channels of `color` onto the
/// palette of `data`. It is taken to add that colour at the end of the
/// palette and to leave the rest as it was.
#[verifier::external_body]
fn push_color(data: &mut DotVoxData, color: Color)
    ensures
        vox_palette(*final(data)) == vox_palette(*old(data)).push(color),
        vox_materials(*final(data)) == vox_materials(*old(data)),
        vox_models(*final(data)) == vox_models(*old(data)),
        vox_nodes(*final(data)) == vox_nodes(*old(data)),
        vox_voxels(*final(data)) == vox_voxels(*old(data)),
        vox_version(*final(data)) == vox_version(*old(data)),
        vox_layers(*final(data)) == vox_layers(*old(data)),
{
    data.palette.push(dot_vox::Color { r: color.r, g: color.g, b: color.b, a: color.a });
}

/// Pushes a `dot_vox::Material` onto the materials of `data`, with the id
/// of `material` and a dictionary collected from its properties. It is
/// taken to add that material at the end and to leave the rest as it was.
#[verifier::external_body]
fn push_material(data: &mut DotVoxData, material: &Material)
    ensures
        vox_palette(*final(data)) == vox_palette(*old(data)),
        vox_materials(*final(data)) == vox_materials(*old(data)).push(
            entry_of(material.deep_view()),
        ),
        vox_models(*final(data)) == vox_models(*old(data)),
        vox_nodes(*final(data)) == vox_nodes(*old(data)),
        vox_voxels(*final(data)) == vox_voxels(*old(data)),
        vox_version(*final(data)) == vox_version(*old(data)),
        vox_layers(*final(data)) == vox_layers(*old(data)),
{
    data.materials.push(
        dot_vox::Material {
            id: material.id,
            properties: material.properties.iter().map(
                |a| (a.key.clone(), a.value.clone()),
            ).collect(),
        },
    );
}

/// Pushes a `dot_vox::Model` without voxels onto the models of `data`, its
/// size x, y, z being the width, depth and height of `model`. It is taken
/// to add that model at the end and to leave the rest as it was.
#[verifier::external_body]
fn push_model(data: &mut DotVoxData, model: VoxelModel)
    ensures
        vox_palette(*final(data)) == vox_palette(*old(data)),
        vox_materials(*final(data)) == vox_materials(*old(data)),
        vox_models(*final(data)) == vox_models(*old(data)).push(model),
        vox_nodes(*final(data)) == vox_nodes(*old(data)),
        vox_voxels(*final(data)) == vox_voxels(*old(data)),
        vox_version(*final(data)) == vox_version(*old(data)),
        vox_layers(*final(data)) == vox_layers(*old(data)),
{
    data.models.push(
        dot_vox::Model {
            size: dot_vox::Size { x: model.width, y: model.depth, z: model.height },
            voxels: Vec::new(),
        },
    );
}

/// Pushes a `dot_vox::SceneNode::Transform` onto the scene nodes of `data`,
/// with a dictionary collected from `attributes`, one frame whose
/// dictionary is collected from `frame`, and the given child and layer. It
/// is taken to add that node at the end and to leave the rest as it was.
#[verifier::external_body]
fn push_transform(
    data: &mut DotVoxData,
    attributes: &Vec<Attribute>,
    frame: &Vec<Attribute>,
    child: u32,
    layer_id: u32,
)
    ensures
        vox_palette(*final(data)) == vox_palette(*old(data)),
        vox_materials(*final(data)) == vox_materials(*old(data)),
        vox_models(*final(data)) == vox_models(*old(data)),
        vox_nodes(*final(data)) == vox_nodes(*old(data)).push(
            transform_node(attributes.deep_view(), frame.deep_view(), child, layer_id),
        ),
        vox_voxels(*final(data)) == vox_voxels(*old(data)),
        vox_version(*final(data)) == vox_version(*old(data)),
        vox_layers(*final(data)) == vox_layers(*old(data)),
{
    data.scenes.push(
        dot_vox::SceneNode::Transform {
            attributes: attributes.iter().map(|a| (a.key.clone(), a.value.clone())).collect(),
            frames: vec![
                dot_vox::Frame {
                    attributes: frame.iter().map(|a| (a.key.clone(), a.value.clone())).collect(),
                },
            ],
            child,
            layer_id,
        },
    );
}

/// Pushes a `dot_vox::SceneNode::Group` without attributes onto the scene
/// nodes of `data`, its children a copy of `children`. It is taken to add
/// that node at the end and to leave the rest as it was.
#[verifier::external_body]
fn push_group(data: &mut DotVoxData, children: &Vec<u32>)
    ensures
        vox_palette(*final(data)) == vox_palette(*old(data)),
        vox_materials(*final(data)) == vox_materials(*old(data)),
        vox_models(*final(data)) == vox_models(*old(data)),
        vox_nodes(*final(data)) == vox_nodes(*old(data)).push(group_node(children@)),
        vox_voxels(*final(data)) == vox_voxels(*old(data)),
        vox_version(*final(data)) == vox_version(*old(data)),
        vox_layers(*final(data)) == vox_layers(*old(data)),
{
    data.scenes.push(
        dot_vox::SceneNode::Group { attributes: Default::default(), children: children.clone() },
    );
}

/// Pushes a `dot_vox::SceneNode::Shape` without attributes onto the scene
/// nodes of `data`, showing the one model `model`, which has no attributes
/// either. It is taken to add that node at the end and to leave the rest as
/// it was.
#[verifier::external_body]
fn push_shape(data: &mut DotVoxData, model: u32)
    ensures
        vox_palette(*final(data)) == vox_palette(*old(data)),
        vox_materials(*final(data)) == vox_materials(*old(data)),
        vox_models(*final(data)) == vox_models(*old(data)),
        vox_nodes(*final(data)) == vox_nodes(*old(data)).push(shape_node(model)),
        vox_voxels(*final(data)) == vox_voxels(*old(data)),
        vox_version(*final(data)) == vox_version(*old(data)),
        vox_layers(*final(data)) == vox_layers(*old(data)),
{
    data.scenes.push(
        dot_vox::SceneNode::Shape {
            attributes: Default::default(),
            models: vec![dot_vox::ShapeModel { model_id: model, attributes: Default::default() }],
        },
    );
}

/// The least number of bytes that a scene file takes for tables of the
/// given sizes whose models hold no voxels: 8 for the magic and the
/// version, 12 for the head of the main chunk, 40 for each model, at least
/// 24 for each scene node, 12 and 4 for each colour for the palette, at
/// least 20 for each material and at least 24 for each layer.
pub open spec fn least_file_length(
    layers: nat,
    palette: nat,
    materials: nat,
    models: nat,
    nodes: nat,
) -> nat {
    20 + 40 * models + 24 * nodes + 12 + 4 * palette + 20 * materials + 24 * layers
}

/// The least number of bytes that the scene file of `data` takes.
pub open spec fn least_length_of(data: DotVoxData) -> nat {
    least_file_length(
        vox_layers(data).len(),
        vox_palette(data).len(),
        vox_materials(data).len(),
        vox_models(data).len(),
        vox_nodes(data).len(),
    )
}

/// Whether bytes begin as a scene file of the given version does: with
/// `VOX ` and the version, least significant byte first.
pub open spec fn starts_scene_file(bytes: Seq<u8>, version: u32) -> bool {
    &&& bytes.len() >= 8
    &&& bytes[0] == 0x56
    &&& bytes[1] == 0x4f
    &&& bytes[2] == 0x58
    &&& bytes[3] == 0x20
    &&& bytes[4] + 256 * bytes[5] + 65536 * bytes[6] + 16777216 * bytes[7] == version
}

/// Calls `dot_vox::DotVoxData::write_vox` on a fresh vector of bytes. The
/// call hands on only what its writer answers, and a vector of bytes takes
/// whatever is written to it by growing, so the call is taken to succeed.
/// The bytes are taken to begin with the four characters `VOX ` and the
/// four bytes of the version of `data`, and to be at least as many as the
/// chunks of all the tables of `data` take. No more is claimed of them:
/// the order in which a dictionary's entries are written differs from run
/// to run. Data whose models hold a voxel is left out, since the call adds
/// one to the colour index of each.
#[verifier::external_body]
fn write_vox(data: &DotVoxData) -> (r: Result<Vec<u8>, std::io::Error>)
    requires
        vox_voxels(*data) == 0,
    ensures
        r is Ok,
        r matches Ok(bytes) ==> starts_scene_file(bytes@, vox_version(*data)),
        r matches Ok(bytes) ==> bytes@.len() >= least_length_of(*data),
{
    let mut bytes: Vec<u8> = Vec::new();
    data.write_vox(&mut bytes).map(|_| bytes)
}

fn attribute(key: &str, value: String) -> (a: Attribute)
    ensures
        a.deep_view() == (key@, value@),
{
    Attribute { key: String::from_str(key), value }
}

fn name_attributes_of(name: &Option<String>) -> (v: Vec<Attribute>)
    ensures
        v.deep_view() == name_attributes(name.deep_view()),
{
    let mut v: Vec<Attribute> = Vec::new();
    match name {
        Some(n) => {
            v.push(attribute("_name", n.clone()));
        },
        None => {},
    }
    v
}

fn frame_attributes_of(frame: &Option<Frame>) -> (v: Vec<Attribute>)
    ensures
        v.deep_view() == frame_attributes(frame.deep_view()),
{
    let mut v: Vec<Attribute> = Vec::new();
    match frame {
        Some(f) => {
            v.push(attribute("_t", f.translation.clone()));
            v.push(attribute("_r", decimal_string(f.rotation as i64)));
        },
        None => {},
    }
    v
}

fn push_record(data: &mut DotVoxData, record: &SceneRecord)
    ensures
        vox_palette(*final(data)) == vox_palette(*old(data)),
        vox_materials(*final(data)) == vox_materials(*old(data)),
        vox_models(*final(data)) == vox_models(*old(data)),
        vox_nodes(*final(data)) == vox_nodes(*old(data)).push(node_of(record.deep_view())),
        vox_voxels(*final(data)) == vox_voxels(*old(data)),
        vox_version(*final(data)) == vox_version(*old(data)),
        vox_layers(*final(data)) == vox_layers(*old(data)),
{
    match record {
        SceneRecord::Transform { name, frame, child, layer_id } => {
            let attributes = name_attributes_of(name);
            let frame_attributes = frame_attributes_of(frame);
            push_transform(data, &attributes, &frame_attributes, *child, *layer_id);
        },
        SceneRecord::Group { children } => {
            push_group(data, children);
        },
        SceneRecord::Shape { model } => {
            push_shape(data, *model);
        },
    }
}

impl VoxScene {
    /// The scene as a `dot_vox::DotVoxData`: the palette, the materials,
    /// the models and the records, each in its order. A record's name
    /// becomes the attribute `_name` of its node, its frame the attributes
    /// `_t` and `_r` of the node's one frame.
    pub fn to_dot_vox(&self) -> (data: DotVoxData)
        ensures
            vox_version(data) == FILE_VERSION,
            vox_layers(data) == one_plain_layer(),
            vox_palette(data) == self@.palette,
            vox_materials(data) == self@.materials.map_values(|m: MaterialView| entry_of(m)),
            vox_models(data) == self@.models,
            vox_nodes(data) == self@.records.map_values(|r: RecordView| node_of(r)),
            vox_voxels(data) == 0,
    {
        let mut data = empty_data(FILE_VERSION);
        let plain: Vec<Attribute> = Vec::new();
        push_layer(&mut data, &plain);
        assert(vox_layers(data) =~= one_plain_layer());
        let palette = self.palette();
        let mut i: usize = 0;
        while i < palette.len()
            invariant
                0 <= i <= palette.len(),
                vox_palette(data) == palette@.take(i as int),
                vox_materials(data) == Seq::<MaterialEntry>::empty(),
                vox_models(data) == Seq::<VoxelModel>::empty(),
                vox_nodes(data) == Seq::<NodeView>::empty(),
                vox_voxels(data) == 0,
                vox_version(data) == FILE_VERSION,
                vox_layers(data) == one_plain_layer(),
            decreases palette.len() - i,
        {
            push_color(&mut data, palette[i]);
            i = i + 1;
        }
        let materials = self.materials();
        let ghost entries = self@.materials.map_values(|m: MaterialView| entry_of(m));
        let mut i: usize = 0;
        while i < materials.len()
            invariant
                0 <= i <= materials.len(),
                materials.deep_view() == self@.materials,
                entries == self@.materials.map_values(|m: MaterialView| entry_of(m)),
                vox_palette(data) == self@.palette,
                vox_materials(data) == entries.take(i as int),
                vox_models(data) == Seq::<VoxelModel>::empty(),
                vox_nodes(data) == Seq::<NodeView>::empty(),
                vox_voxels(data) == 0,
                vox_version(data) == FILE_VERSION,
                vox_layers(data) == one_plain_layer(),
            decreases materials.len() - i,
        {
            push_material(&mut data, &materials[i]);
            i = i + 1;
        }
        let models = self.models();
        let mut i: usize = 0;
        while i < models.len()
            invariant
                0 <= i <= models.len(),
                vox_palette(data) == self@.palette,
                vox_materials(data) == entries,
                vox_models(data) == models@.take(i as int),
                vox_nodes(data) == Seq::<NodeView>::empty(),
                vox_voxels(data) == 0,
                vox_version(data) == FILE_VERSION,
                vox_layers(data) == one_plain_layer(),
            decreases models.len() - i,
        {
            push_model(&mut data, models[i]);
            i = i + 1;
        }
        let records = self.records();
        let ghost nodes = self@.records.map_values(|r: RecordView| node_of(r));
        let mut i: usize = 0;
        while i < records.len()
            invariant
                0 <= i <= records.len(),
                records.deep_view() == self@.records,
                nodes == self@.records.map_values(|r: RecordView| node_of(r)),
                vox_palette(data) == self@.palette,
                vox_materials(data) == entries,
                vox_models(data) == self@.models,
                vox_nodes(data) == nodes.take(i as int),
                vox_voxels(data) == 0,
                vox_version(data) == FILE_VERSION,
                vox_layers(data) == one_plain_layer(),
            decreases records.len() - i,
        {
            push_record(&mut data, &records[i]);
            i = i + 1;
        }
        data
    }

    /// The scene as the bytes of a scene file. What is handed to the writer
    /// is what `to_dot_vox` makes of the scene. The bytes begin with the
    /// magic and the version and are at least as many as the one layer, the
    /// palette, the materials, the models and the records take.
    pub fn to_bytes(&self) -> (r: Result<Vec<u8>, ConvertError>)
        ensures
            r matches Ok(bytes) && starts_scene_file(bytes@, FILE_VERSION) && bytes@.len()
                >= least_file_length(
                1,
                self@.palette.len(),
                self@.materials.len(),
                self@.models.len(),
                self@.records.len(),
            ),
    {
        let data = self.to_dot_vox();
        serialized(write_vox(&data))
    }
}

} // verus!
