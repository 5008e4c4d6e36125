//! The voxel scene: its tables and its append-ordered graph of records.
//!
//! A record is known by its position in the sequence of records. The
//! sequence only grows, and a record is appended only after the records it
//! refers to, so a reference always points below the record that holds it.
//! The two leading records are the exception: the root transform at position
//! 0 refers to the root group at position 1, and the root group is given its
//! children once they have been appended.

use vstd::prelude::*;
use crate::error::ConvertError;
use crate::walker::{BoneBox, BoneBoxView};
use crate::transform::{rotation_byte, transform_to_magica, translation_text, Transform};
use crate::vector::Vec3;

verus! {

/// The layer of the root transform: no layer at all.
pub const NO_LAYER: u32 = 4294967295;

/// The number of entries in the palette and in the material table.
pub const TABLE_SIZE: usize = 256;

/// The most boxes that a scene can be built from: each takes two records,
/// and with the two leading records and the two of a group every position
/// must still fit in 32 bits.
pub const MAX_BOXES: usize = 2147483645;

/// A colour of the palette.
#[derive(Clone, Copy, Debug, PartialEq, Eq, Structural)]
pub struct Color {
    pub r: u8,
    pub g: u8,
    pub b: u8,
    pub a: u8,
}

/// A key with its value, as the scene file attaches them to materials.
#[derive(Clone, Debug, PartialEq, Eq)]
pub struct Attribute {
    pub key: String,
    pub value: String,
}

impl DeepView for Attribute {
    type V = (Seq<char>, Seq<char>);

    open spec fn deep_view(&self) -> (Seq<char>, Seq<char>) {
        (self.key@, self.value@)
    }
}

/// An entry of the material table.
#[derive(Clone, Debug, PartialEq, Eq)]
pub struct Material {
    pub id: u32,
    pub properties: Vec<Attribute>,
}

/// A material with its properties as pairs of character sequences.
pub struct MaterialView {
    pub id: u32,
    pub properties: Seq<(Seq<char>, Seq<char>)>,
}

impl DeepView for Material {
    type V = MaterialView;

    open spec fn deep_view(&self) -> MaterialView {
        MaterialView { id: self.id, properties: self.properties.deep_view() }
    }
}

/// The size of a voxel model. The model holds no voxels: it stands for the
/// space that a box takes up.
#[derive(Clone, Copy, Debug, PartialEq, Eq, Structural)]
pub struct VoxelModel {
    pub width: u32,
    pub depth: u32,
    pub height: u32,
}

/// What a transform record says of where its child stands.
#[derive(Clone, Debug, PartialEq, Eq)]
pub struct Frame {
    pub translation: String,
    pub rotation: u8,
}

/// A frame with its translation as a sequence of characters.
pub struct FrameView {
    pub translation: Seq<char>,
    pub rotation: u8,
}

impl DeepView for Frame {
    type V = FrameView;

    open spec fn deep_view(&self) -> FrameView {
        FrameView { translation: self.translation@, rotation: self.rotation }
    }
}

/// A record of the scene graph. `child` and `children` hold positions of
/// records, `model` the position of a voxel model.
#[derive(Clone, Debug, PartialEq, Eq)]
pub enum SceneRecord {
    Transform { name: Option<String>, frame: Option<Frame>, child: u32, layer_id: u32 },
    Group { children: Vec<u32> },
    Shape { model: u32 },
}

/// A record with its strings and vectors as sequences.
pub enum RecordView {
    Transform { name: Option<Seq<char>>, frame: Option<FrameView>, child: u32, layer_id: u32 },
    Group { children: Seq<u32> },
    Shape { model: u32 },
}

impl DeepView for SceneRecord {
    type V = RecordView;

    open spec fn deep_view(&self) -> RecordView {
        match *self {
            SceneRecord::Transform { name, frame, child, layer_id } => RecordView::Transform {
                name: name.deep_view(),
                frame: frame.deep_view(),
                child,
                layer_id,
            },
            SceneRecord::Group { children } => RecordView::Group { children: children@ },
            SceneRecord::Shape { model } => RecordView::Shape { model },
        }
    }
}

impl RecordView {
    /// Whether every record that this one refers to stands below position `n`.
    pub open spec fn refers_below(self, n: int) -> bool {
        match self {
            RecordView::Transform { child, .. } => child < n,
            RecordView::Group { children } => forall|k: int|
                0 <= k < children.len() ==> #[trigger] children[k] < n,
            RecordView::Shape { .. } => true,
        }
    }

    /// Whether the model that this record refers to, if any, is one of the
    /// first `n`.
    pub open spec fn model_below(self, n: int) -> bool {
        match self {
            RecordView::Shape { model } => model < n,
            _ => true,
        }
    }
}

/// The root transform: nameless, unplaced, on no layer, with the root group
/// as its child.
pub open spec fn root_transform() -> RecordView {
    RecordView::Transform { name: None, frame: None, child: 1, layer_id: NO_LAYER }
}

/// The properties that a material has unless it is given others.
pub open spec fn default_properties() -> Seq<(Seq<char>, Seq<char>)> {
    seq![
        ("_rough"@, "0.1"@),
        ("_ior"@, "0.3"@),
        ("_spec"@, "0.5"@),
        ("_weight"@, "1"@),
        ("_type"@, "_diffuse"@),
    ]
}

/// The material that the table holds at position `i` from the start.
pub open spec fn default_material(i: int) -> MaterialView {
    MaterialView { id: i as u32, properties: default_properties() }
}

/// Opaque black.
pub open spec fn black() -> Color {
    Color { r: 0, g: 0, b: 0, a: 255 }
}

/// One side of a voxel model, in voxels: twice the half-extent, which is
/// the half-extent's count of half voxels, but no less than 1 and no more
/// than fits.
pub open spec fn model_side(half_extent: int) -> int {
    if half_extent < 1 {
        1
    } else if half_extent > u32::MAX {
        u32::MAX as int
    } else {
        half_extent
    }
}

/// The voxel model of a box: as wide as the box along x, as deep as it is
/// along z, as high as it is along y.
pub open spec fn model_for(half_extents: Vec3) -> VoxelModel {
    VoxelModel {
        width: model_side(half_extents.x as int) as u32,
        depth: model_side(half_extents.z as int) as u32,
        height: model_side(half_extents.y as int) as u32,
    }
}

/// The frame that a placement is written as.
pub open spec fn frame_of(transform: Transform) -> FrameView {
    FrameView {
        translation: translation_text(transform.translation),
        rotation: rotation_byte(transform.rotation) as u8,
    }
}

/// What a scene holds.
pub struct SceneView {
    pub palette: Seq<Color>,
    pub materials: Seq<MaterialView>,
    pub models: Seq<VoxelModel>,
    pub records: Seq<RecordView>,
}

impl SceneView {
    /// The position below which the references of the record at `i` must stay.
    pub open spec fn limit_at(self, i: int) -> int {
        if i == 0 {
            2
        } else if i == 1 {
            self.records.len() as int
        } else {
            i
        }
    }

    /// Whether references are made only to what was appended before. Every
    /// shape refers to a model that is there, and every record refers only
    /// to records at lower positions; the root transform, which refers to
    /// the root group, and the root group, which may refer to any record
    /// that is there, are the two exceptions.
    pub open spec fn references_hold(self) -> bool {
        &&& 2 <= self.records.len()
        &&& forall|i: int|
            0 <= i < self.records.len() ==> (#[trigger] self.records[i]).refers_below(
                self.limit_at(i),
            ) && self.records[i].model_below(self.models.len() as int)
    }

    /// Whether one more model and two more records can be added with every
    /// position still fitting in 32 bits.
    pub open spec fn has_room(self) -> bool {
        self.models.len() < u32::MAX && self.records.len() + 2 <= u32::MAX
    }

    /// The invariant of a scene. The tables are full, every position fits in
    /// 32 bits, the two leading records are the root transform and the root
    /// group, and references are made only to what was appended before.
    pub open spec fn wf(self) -> bool {
        &&& self.palette.len() == TABLE_SIZE
        &&& self.materials.len() == TABLE_SIZE
        &&& self.models.len() <= u32::MAX
        &&& self.records.len() <= u32::MAX
        &&& self.records[0] == root_transform()
        &&& self.records[1] is Group
        &&& self.references_hold()
    }

    /// A scene with nothing in it but the two leading records.
    pub open spec fn initial() -> SceneView {
        SceneView {
            palette: Seq::new(TABLE_SIZE as nat, |i: int| black()),
            materials: Seq::new(TABLE_SIZE as nat, |i: int| default_material(i)),
            models: Seq::empty(),
            records: seq![root_transform(), RecordView::Group { children: Seq::empty() }],
        }
    }

    /// The scene after a box has been added: one more model, then a shape
    /// that refers to it, then a named transform that refers to the shape.
    pub open spec fn add_from_aabb(
        self,
        name: Seq<char>,
        transform: Transform,
        half_extents: Vec3,
    ) -> SceneView {
        SceneView {
            models: self.models.push(model_for(half_extents)),
            records: self.records.push(
                RecordView::Shape { model: self.models.len() as u32 },
            ).push(
                RecordView::Transform {
                    name: Some(name),
                    frame: Some(frame_of(transform)),
                    child: self.records.len() as u32,
                    layer_id: 0,
                },
            ),
            ..self
        }
    }

    /// The scene after a group has been added: the group, then a nameless
    /// transform that refers to it.
    pub open spec fn add_group(self, transform: Transform, children: Seq<u32>) -> SceneView {
        SceneView {
            records: self.records.push(RecordView::Group { children }).push(
                RecordView::Transform {
                    name: None,
                    frame: Some(frame_of(transform)),
                    child: self.records.len() as u32,
                    layer_id: 0,
                },
            ),
            ..self
        }
    }

    /// The scene after the root group has been given `children`.
    pub open spec fn set_root(self, children: Seq<u32>) -> SceneView {
        SceneView { records: self.records.update(1, RecordView::Group { children }), ..self }
    }

    /// The scene after one bone box has been added: the box is placed at its
    /// centre and is not turned.
    pub open spec fn with_box(self, b: BoneBoxView) -> SceneView {
        self.add_from_aabb(b.name, Transform::from_translation(b.center), b.half_extents)
    }

    /// The scene after the bone boxes have been added one after the other.
    pub open spec fn with_boxes(self, boxes: Seq<BoneBoxView>) -> SceneView
        decreases boxes.len(),
    {
        if boxes.len() == 0 {
            self
        } else {
            self.with_boxes(boxes.drop_last()).with_box(boxes.last())
        }
    }

    /// The scene that is built from bone boxes. Each box is added in its
    /// turn. Then, where a group is asked for, a group of all the boxes'
    /// transforms is added and the root group refers to the transform of that
    /// group; where none is asked for, the root group refers to the boxes'
    /// transforms themselves.
    pub open spec fn built(boxes: Seq<BoneBoxView>, grouped: bool) -> SceneView {
        let s = SceneView::initial().with_boxes(boxes);
        if grouped {
            s.add_group(Transform::identity(), box_positions(boxes.len())).set_root(
                seq![(s.records.len() + 1) as u32],
            )
        } else {
            s.set_root(box_positions(boxes.len()))
        }
    }
}

/// Whether every position of `children` is below `n`.
pub open spec fn all_below(children: Seq<u32>, n: int) -> bool {
    forall|k: int| 0 <= k < children.len() ==> #[trigger] children[k] < n
}

/// The positions of the transforms of the first `n` boxes of a built scene:
/// 3, 5, 7 and so on.
pub open spec fn box_positions(n: nat) -> Seq<u32> {
    Seq::new(n, |i: int| (3 + 2 * i) as u32)
}

/// Adding a box keeps references in order, however long the sequences are:
/// the new shape refers to a model that is there, the new transform to the
/// record right below it, and all that was there stays as it was.
pub proof fn lemma_add_from_aabb_keeps_references(
    s: SceneView,
    name: Seq<char>,
    transform: Transform,
    half_extents: Vec3,
)
    requires
        s.references_hold(),
    ensures
        ({
            let t = s.add_from_aabb(name, transform, half_extents);
            let n = s.records.len() as int;
            &&& t.references_hold()
            &&& t.records.len() == n + 2
            &&& t.records[n].model_below(t.models.len() as int)
            &&& t.records[n + 1].refers_below(n + 1)
            &&& n <= u32::MAX ==> (t.records[n + 1] matches RecordView::Transform { child, .. }
                && child == n)
        }),
{
    let t = s.add_from_aabb(name, transform, half_extents);
    assert forall|i: int| 0 <= i < t.records.len() implies (#[trigger] t.records[i]).refers_below(
        t.limit_at(i),
    ) && t.records[i].model_below(t.models.len() as int) by {
        if i < s.records.len() {
            assert(t.records[i] == s.records[i]);
            assert(s.records[i].refers_below(s.limit_at(i)));
            lemma_refers_below_more(s.records[i], s.limit_at(i), t.limit_at(i));
        }
    }
}

/// Adding a group of records that are there keeps references in order,
/// however long the sequence is: the group and its transform refer only
/// below themselves, and all that was there stays as it was.
pub proof fn lemma_add_group_keeps_references(
    s: SceneView,
    transform: Transform,
    children: Seq<u32>,
)
    requires
        s.references_hold(),
        forall|k: int| 0 <= k < children.len() ==> #[trigger] children[k] < s.records.len(),
    ensures
        ({
            let t = s.add_group(transform, children);
            let n = s.records.len() as int;
            &&& t.references_hold()
            &&& t.records.len() == n + 2
            &&& t.records[n].refers_below(n)
            &&& t.records[n + 1].refers_below(n + 1)
        }),
{
    let t = s.add_group(transform, children);
    assert forall|i: int| 0 <= i < t.records.len() implies (#[trigger] t.records[i]).refers_below(
        t.limit_at(i),
    ) && t.records[i].model_below(t.models.len() as int) by {
        if i < s.records.len() {
            assert(t.records[i] == s.records[i]);
            assert(s.records[i].refers_below(s.limit_at(i)));
            lemma_refers_below_more(s.records[i], s.limit_at(i), t.limit_at(i));
        }
    }
}

/// Giving the root group children that are there keeps references in order.
pub proof fn lemma_set_root_keeps_references(s: SceneView, children: Seq<u32>)
    requires
        s.references_hold(),
        forall|k: int| 0 <= k < children.len() ==> #[trigger] children[k] < s.records.len(),
    ensures
        s.set_root(children).references_hold(),
{
    let t = s.set_root(children);
    assert forall|i: int| 0 <= i < t.records.len() implies (#[trigger] t.records[i]).refers_below(
        t.limit_at(i),
    ) && t.records[i].model_below(t.models.len() as int) by {
        if i != 1 {
            assert(t.records[i] == s.records[i]);
            assert(s.records[i].refers_below(s.limit_at(i)));
        }
    }
}

/// What refers below one position refers below every higher one.
pub proof fn lemma_refers_below_more(record: RecordView, n: int, m: int)
    requires
        record.refers_below(n),
        n <= m,
    ensures
        record.refers_below(m),
{
    match record {
        RecordView::Group { children } => {
            assert forall|k: int| 0 <= k < children.len() implies #[trigger] children[k] < m by {
                assert(children[k] < n);
            }
        },
        _ => {},
    }
}

/// In a scene that keeps its invariant no reference dangles: every record
/// refers only to records and models that are there. From position 2 on it
/// refers only to records below itself, those that were there when it was
/// appended.
pub proof fn lemma_references_resolve(s: SceneView, i: int)
    requires
        s.wf(),
        0 <= i < s.records.len(),
    ensures
        s.records[i].refers_below(s.records.len() as int),
        s.records[i].model_below(s.models.len() as int),
        i >= 2 ==> s.records[i].refers_below(i),
{
}

/// Adding boxes keeps what was there and appends, for each box in its turn,
/// a model, a shape that refers to it and a transform that refers to the
/// shape.
pub proof fn lemma_with_boxes(s: SceneView, boxes: Seq<BoneBoxView>)
    ensures
        s.with_boxes(boxes).palette == s.palette,
        s.with_boxes(boxes).materials == s.materials,
        s.with_boxes(boxes).models.len() == s.models.len() + boxes.len(),
        s.with_boxes(boxes).records.len() == s.records.len() + 2 * boxes.len(),
        forall|j: int|
            0 <= j < s.models.len() ==> #[trigger] s.with_boxes(boxes).models[j] == s.models[j],
        forall|j: int|
            0 <= j < s.records.len() ==> #[trigger] s.with_boxes(boxes).records[j] == s.records[j],
        forall|i: int|
            0 <= i < boxes.len() ==> #[trigger] s.with_boxes(boxes).models[s.models.len() + i]
                == model_for(boxes[i].half_extents),
        forall|i: int|
            0 <= i < boxes.len() ==> #[trigger] s.with_boxes(boxes).records[s.records.len() + 2 * i]
                == (RecordView::Shape { model: (s.models.len() + i) as u32 }),
        forall|i: int|
            0 <= i < boxes.len() ==> #[trigger] s.with_boxes(boxes).records[s.records.len() + 2 * i
                + 1] == (RecordView::Transform {
                name: Some(boxes[i].name),
                frame: Some(frame_of(Transform::from_translation(boxes[i].center))),
                child: (s.records.len() + 2 * i) as u32,
                layer_id: 0,
            }),
    decreases boxes.len(),
{
    if boxes.len() > 0 {
        let front = boxes.drop_last();
        lemma_with_boxes(s, front);
        let t = s.with_boxes(front);
        let r = s.with_boxes(boxes);
        assert forall|i: int| 0 <= i < boxes.len() implies #[trigger] r.records[s.records.len() + 2
            * i] == (RecordView::Shape { model: (s.models.len() + i) as u32 }) by {
            if i < front.len() {
                assert(t.records[s.records.len() + 2 * i] == (RecordView::Shape {
                    model: (s.models.len() + i) as u32,
                }));
            }
        }
        assert forall|i: int| 0 <= i < boxes.len() implies #[trigger] r.records[s.records.len() + 2
            * i + 1] == (RecordView::Transform {
            name: Some(boxes[i].name),
            frame: Some(frame_of(Transform::from_translation(boxes[i].center))),
            child: (s.records.len() + 2 * i) as u32,
            layer_id: 0,
        }) by {
            if i < front.len() {
                assert(t.records[s.records.len() + 2 * i + 1] == (RecordView::Transform {
                    name: Some(front[i].name),
                    frame: Some(frame_of(Transform::from_translation(front[i].center))),
                    child: (s.records.len() + 2 * i) as u32,
                    layer_id: 0,
                }));
            }
        }
    }
}

/// How a built scene is laid out. The model of box `i` stands at position
/// `i`, its shape at record `2 + 2 * i`, its transform right after. Without
/// a group the root group refers to the transforms of all boxes and nothing
/// follows the boxes; with one, the group of all those transforms and its
/// own transform follow, and the root group refers to that last transform.
pub proof fn lemma_built_layout(boxes: Seq<BoneBoxView>, grouped: bool, i: int)
    requires
        0 <= i < boxes.len(),
    ensures
        ({
            let s = SceneView::built(boxes, grouped);
            let n = boxes.len() as int;
            &&& s.palette == SceneView::initial().palette
            &&& s.materials == SceneView::initial().materials
            &&& s.models.len() == n
            &&& s.models[i] == model_for(boxes[i].half_extents)
            &&& s.records[0] == root_transform()
            &&& s.records[2 + 2 * i] == (RecordView::Shape { model: i as u32 })
            &&& s.records[3 + 2 * i] == (RecordView::Transform {
                name: Some(boxes[i].name),
                frame: Some(frame_of(Transform::from_translation(boxes[i].center))),
                child: (2 + 2 * i) as u32,
                layer_id: 0,
            })
            &&& !grouped ==> s.records.len() == 2 + 2 * n && s.records[1] == (RecordView::Group {
                children: box_positions(boxes.len()),
            })
            &&& grouped ==> s.records.len() == 4 + 2 * n && s.records[1] == (RecordView::Group {
                children: seq![(3 + 2 * n) as u32],
            }) && s.records[2 + 2 * n] == (RecordView::Group {
                children: box_positions(boxes.len()),
            }) && s.records[3 + 2 * n] == (RecordView::Transform {
                name: None,
                frame: Some(frame_of(Transform::identity())),
                child: (2 + 2 * n) as u32,
                layer_id: 0,
            })
        }),
{
    let base = SceneView::initial();
    lemma_with_boxes(base, boxes);
    let t = base.with_boxes(boxes);
    assert(t.records[base.records.len() + 2 * i] == (RecordView::Shape {
        model: (base.models.len() + i) as u32,
    }));
    assert(t.records[base.records.len() + 2 * i + 1] == (RecordView::Transform {
        name: Some(boxes[i].name),
        frame: Some(frame_of(Transform::from_translation(boxes[i].center))),
        child: (base.records.len() + 2 * i) as u32,
        layer_id: 0,
    }));
}

/// A voxel scene under construction.
#[derive(Debug, PartialEq, Eq)]
pub struct VoxScene {
    palette: Vec<Color>,
    materials: Vec<Material>,
    models: Vec<VoxelModel>,
    records: Vec<SceneRecord>,
}

impl View for VoxScene {
    type V = SceneView;

    closed spec fn view(&self) -> SceneView {
        SceneView {
            palette: self.palette@,
            materials: self.materials.deep_view(),
            models: self.models@,
            records: self.records.deep_view(),
        }
    }
}

fn attribute(key: &str, value: &str) -> (a: Attribute)
    ensures
        a.deep_view() == (key@, value@),
{
    Attribute { key: String::from_str(key), value: String::from_str(value) }
}

fn default_material_at(i: u32) -> (m: Material)
    ensures
        m.deep_view() == default_material(i as int),
{
    let mut properties: Vec<Attribute> = Vec::new();
    properties.push(attribute("_rough", "0.1"));
    properties.push(attribute("_ior", "0.3"));
    properties.push(attribute("_spec", "0.5"));
    properties.push(attribute("_weight", "1"));
    properties.push(attribute("_type", "_diffuse"));
    assert(properties.deep_view() =~= default_properties());
    Material { id: i, properties }
}

fn side(half_extent: i64) -> (s: u32)
    ensures
        s == model_side(half_extent as int),
{
    if half_extent < 1 {
        1
    } else if half_extent > 4294967295 {
        4294967295
    } else {
        half_extent as u32
    }
}

impl VoxScene {
    /// Whether the scene keeps its invariant.
    pub open spec fn wf(&self) -> bool {
        self@.wf()
    }

    /// A scene with a palette of opaque black, the default materials, no
    /// model, and the two leading records: the root transform and the root
    /// group, which has no children yet.
    pub fn new() -> (s: VoxScene)
        ensures
            s.wf(),
            s@ == SceneView::initial(),
    {
        let mut palette: Vec<Color> = Vec::new();
        let mut materials: Vec<Material> = Vec::new();
        let mut i: u32 = 0;
        while i < 256
            invariant
                0 <= i <= 256,
                palette@ == Seq::new(i as nat, |k: int| black()),
                materials.deep_view() == Seq::new(i as nat, |k: int| default_material(k)),
            decreases 256 - i,
        {
            let ghost before = materials.deep_view();
            palette.push(Color { r: 0, g: 0, b: 0, a: 255 });
            materials.push(default_material_at(i));
            assert(materials.deep_view() =~= before.push(default_material(i as int)));
            i = i + 1;
        }
        let mut records: Vec<SceneRecord> = Vec::new();
        records.push(
            SceneRecord::Transform { name: None, frame: None, child: 1, layer_id: NO_LAYER },
        );
        records.push(SceneRecord::Group { children: Vec::new() });
        let s = VoxScene { palette, materials, models: Vec::new(), records };
        assert(s@.records =~= SceneView::initial().records);
        s
    }

    /// The palette.
    pub fn palette(&self) -> (p: &Vec<Color>)
        ensures
            p@ == self@.palette,
    {
        &self.palette
    }

    /// The material table.
    pub fn materials(&self) -> (m: &Vec<Material>)
        ensures
            m.deep_view() == self@.materials,
    {
        &self.materials
    }

    /// The voxel models, in the order in which they were added.
    pub fn models(&self) -> (m: &Vec<VoxelModel>)
        ensures
            m@ == self@.models,
    {
        &self.models
    }

    /// The records, each at its position.
    pub fn records(&self) -> (r: &Vec<SceneRecord>)
        ensures
            r.deep_view() == self@.records,
    {
        &self.records
    }

    /// Adds a box: a voxel model sized from `half_extents`, a shape that
    /// refers to the model, and a transform named `name` that places the
    /// shape as `transform` says. Returns the position of the transform.
    pub fn add_from_aabb(&mut self, name: String, transform: Transform, half_extents: Vec3) -> (idx:
        u32)
        requires
            old(self).wf(),
            old(self)@.models.len() < u32::MAX,
            old(self)@.records.len() + 2 <= u32::MAX,
        ensures
            final(self).wf(),
            final(self)@ == old(self)@.add_from_aabb(name@, transform, half_extents),
            idx == old(self)@.records.len() + 1,
    {
        let model_id: u32 = self.models.len() as u32;
        self.models.push(
            VoxelModel {
                width: side(half_extents.x),
                depth: side(half_extents.z),
                height: side(half_extents.y),
            },
        );
        let shape: u32 = self.records.len() as u32;
        self.records.push(SceneRecord::Shape { model: model_id });
        let (translation, rotation) = transform_to_magica(transform);
        self.records.push(
            SceneRecord::Transform {
                name: Some(name),
                frame: Some(Frame { translation, rotation }),
                child: shape,
                layer_id: 0,
            },
        );
        proof {
            let after = old(self)@.add_from_aabb(name@, transform, half_extents);
            assert(self@.records =~= after.records);
        }
        shape + 1
    }

    /// Adds a group of the records at the positions in `children`, and a
    /// nameless transform that places the group as `transform` says. Returns
    /// the position of the transform.
    pub fn add_group(&mut self, transform: Transform, children: Vec<u32>) -> (idx: u32)
        requires
            old(self).wf(),
            old(self)@.records.len() + 2 <= u32::MAX,
            forall|k: int| 0 <= k < children@.len() ==> #[trigger] children@[k] < old(
                self,
            )@.records.len(),
        ensures
            final(self).wf(),
            final(self)@ == old(self)@.add_group(transform, children@),
            idx == old(self)@.records.len() + 1,
    {
        let group_idx: u32 = self.records.len() as u32;
        let ghost kids = children@;
        self.records.push(SceneRecord::Group { children });
        let (translation, rotation) = transform_to_magica(transform);
        self.records.push(
            SceneRecord::Transform {
                name: None,
                frame: Some(Frame { translation, rotation }),
                child: group_idx,
                layer_id: 0,
            },
        );
        proof {
            let after = old(self)@.add_group(transform, kids);
            assert(self@.records =~= after.records);
            lemma_references_resolve(old(self)@, 1);
        }
        group_idx + 1
    }

    /// Adds a box as `add_from_aabb` does where there is room for it, and
    /// leaves the scene as it is where there is none.
    pub fn try_add_from_aabb(
        &mut self,
        name: String,
        transform: Transform,
        half_extents: Vec3,
    ) -> (idx: Option<u32>)
        requires
            old(self).wf(),
        ensures
            final(self).wf(),
            match idx {
                Some(i) => old(self)@.has_room() && final(self)@ == old(self)@.add_from_aabb(
                    name@,
                    transform,
                    half_extents,
                ) && i == old(self)@.records.len() + 1,
                None => !old(self)@.has_room() && final(self)@ == old(self)@,
            },
    {
        if self.models.len() < 4294967295 && self.records.len() <= 4294967293 {
            Some(self.add_from_aabb(name, transform, half_extents))
        } else {
            None
        }
    }

    /// Adds a group as `add_group` does where there is room for it and every
    /// child is a record that is there, and leaves the scene as it is
    /// otherwise.
    pub fn try_add_group(&mut self, transform: Transform, children: Vec<u32>) -> (idx: Option<u32>)
        requires
            old(self).wf(),
        ensures
            final(self).wf(),
            match idx {
                Some(i) => old(self)@.records.len() + 2 <= u32::MAX && all_below(
                    children@,
                    old(self)@.records.len() as int,
                ) && final(self)@ == old(self)@.add_group(transform, children@) && i == old(
                    self,
                )@.records.len() + 1,
                None => !(old(self)@.records.len() + 2 <= u32::MAX && all_below(
                    children@,
                    old(self)@.records.len() as int,
                )) && final(self)@ == old(self)@,
            },
    {
        if self.records.len() > 4294967293 {
            return None;
        }
        let mut k: usize = 0;
        while k < children.len()
            invariant
                0 <= k <= children.len(),
                *self == *old(self),
                self.wf(),
                forall|j: int| 0 <= j < k ==> #[trigger] children@[j] < self.records.len(),
            decreases children.len() - k,
        {
            if children[k] as usize >= self.records.len() {
                return None;
            }
            k = k + 1;
        }
        Some(self.add_group(transform, children))
    }

    /// Makes the record at position `i` the only child of the root group.
    pub fn add_to_root(&mut self, i: u32)
        requires
            old(self).wf(),
            i < old(self)@.records.len(),
        ensures
            final(self).wf(),
            final(self)@ == old(self)@.set_root(seq![i]),
    {
        let mut children: Vec<u32> = Vec::new();
        children.push(i);
        self.add_all_to_root(children);
    }

    /// Makes the records at the positions in `children` the children of the
    /// root group, in place of those it had.
    pub fn add_all_to_root(&mut self, children: Vec<u32>)
        requires
            old(self).wf(),
            forall|k: int| 0 <= k < children@.len() ==> #[trigger] children@[k] < old(
                self,
            )@.records.len(),
        ensures
            final(self).wf(),
            final(self)@ == old(self)@.set_root(children@),
    {
        let ghost kids = children@;
        self.records.set(1, SceneRecord::Group { children });
        proof {
            let after = old(self)@.set_root(kids);
            assert(self@.records =~= after.records);
        }
    }

    /// Puts `palette` in place of the palette, where it has as many colours
    /// as the table holds, and says whether it did.
    pub fn set_palette(&mut self, palette: Vec<Color>) -> (done: bool)
        requires
            old(self).wf(),
        ensures
            final(self).wf(),
            done == (palette@.len() == TABLE_SIZE),
            done ==> final(self)@ == (SceneView { palette: palette@, ..old(self)@ }),
            !done ==> final(self)@ == old(self)@,
    {
        if palette.len() == TABLE_SIZE {
            self.palette = palette;
            true
        } else {
            false
        }
    }

    /// Puts `material` in place of the entry at `position` of the material
    /// table, where the table has such an entry, and says whether it did.
    pub fn set_material(&mut self, position: usize, material: Material) -> (done: bool)
        requires
            old(self).wf(),
        ensures
            final(self).wf(),
            done == (position < TABLE_SIZE),
            done ==> final(self)@ == (SceneView {
                materials: old(self)@.materials.update(position as int, material.deep_view()),
                ..old(self)@
            }),
            !done ==> final(self)@ == old(self)@,
    {
        if position < TABLE_SIZE {
            let ghost m = material.deep_view();
            self.materials.set(position, material);
            assert(self@.materials =~= old(self)@.materials.update(position as int, m));
            true
        } else {
            false
        }
    }
}

/// Builds the scene of a sequence of bone boxes: for each box, in its turn,
/// a voxel model, a shape and a transform named after the box and placed at
/// its centre; then, where `grouped` is set, a group of all these
/// transforms, to which the root group refers, and otherwise a root group
/// that refers to them directly. No scene is built from no boxes.
pub fn build(boxes: &Vec<BoneBox>, grouped: bool) -> (r: Result<VoxScene, ConvertError>)
    requires
        boxes.len() <= MAX_BOXES,
    ensures
        match r {
            Ok(scene) => boxes.len() > 0 && scene.wf() && scene@ == SceneView::built(
                boxes.deep_view(),
                grouped,
            ),
            Err(e) => boxes.len() == 0 && e == ConvertError::EmptyInput,
        },
{
    if boxes.len() == 0 {
        return Err(ConvertError::EmptyInput);
    }
    let mut scene = VoxScene::new();
    let mut positions: Vec<u32> = Vec::new();
    let ghost all = boxes.deep_view();
    let mut i: usize = 0;
    while i < boxes.len()
        invariant
            0 <= i <= boxes.len() <= MAX_BOXES,
            all == boxes.deep_view(),
            scene.wf(),
            scene@ == SceneView::initial().with_boxes(all.take(i as int)),
            scene@.records.len() == 2 + 2 * i,
            scene@.models.len() == i,
            positions@ == box_positions(i as nat),
        decreases boxes.len() - i,
    {
        let b = &boxes[i];
        proof {
            assert(all.take(i as int + 1).drop_last() =~= all.take(i as int));
        }
        let idx = scene.add_from_aabb(
            b.name.clone(),
            Transform::from_translation(b.center),
            b.half_extents,
        );
        positions.push(idx);
        i = i + 1;
    }
    assert(all.take(i as int) =~= all);
    if grouped {
        let group = scene.add_group(Transform::identity(), positions);
        scene.add_to_root(group);
    } else {
        scene.add_all_to_root(positions);
    }
    Ok(scene)
}

} // verus!
