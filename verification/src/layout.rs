use vstd::prelude::*;

verus! {

/// The vertex formats the viewer's buffers use.
#[derive(Clone, Copy, Debug, PartialEq, Eq)]
pub enum VertexFormat {
    /// One 32-bit float.
    Float32,
    /// Three 32-bit floats.
    Float32x3,
}

/// The size in bytes of one value of a vertex format.
pub open spec fn format_size(f: VertexFormat) -> nat {
    match f {
        VertexFormat::Float32 => 4,
        VertexFormat::Float32x3 => 12,
    }
}

impl VertexFormat {
    /// The size in bytes of one value of this format.
    pub fn size(self) -> (n: u64)
        ensures
            n == format_size(self),
    {
        match self {
            VertexFormat::Float32 => 4,
            VertexFormat::Float32x3 => 12,
        }
    }
}

/// Whether a buffer advances per vertex or per instance.
#[derive(Clone, Copy, Debug, PartialEq, Eq)]
pub enum StepMode {
    Vertex,
    Instance,
}

/// One attribute of a vertex buffer: where it sits in an element, which
/// shader input it feeds, and its format.
#[derive(Clone, Copy, Debug, PartialEq, Eq)]
pub struct VertexAttribute {
    pub offset: u64,
    pub shader_location: u32,
    pub format: VertexFormat,
}

/// How the elements of a vertex buffer are laid out.
#[derive(Debug)]
pub struct BufferLayout {
    pub array_stride: u64,
    pub step_mode: StepMode,
    pub attributes: Vec<VertexAttribute>,
}

/// The size in bytes of one cube vertex: a position and a texture coordinate,
/// three 32-bit floats each.
pub const VERTEX_SIZE: u64 = 24;

/// The size in bytes of one point instance: an offset of three 32-bit floats
/// and a 32-bit float scale.
pub const INSTANCE_SIZE: u64 = 16;

/// The attributes follow one another without gaps from the start of an
/// element, and together fill exactly `stride` bytes.
pub open spec fn packed(attrs: Seq<VertexAttribute>, stride: nat) -> bool {
    &&& attrs.len() > 0
    &&& attrs[0].offset == 0
    &&& forall|i: int| 0 <= i < attrs.len() - 1 ==>
            #[trigger] attrs[i + 1].offset == attrs[i].offset + format_size(attrs[i].format)
    &&& attrs.last().offset + format_size(attrs.last().format) == stride
}

/// The layout of the cube's vertex buffer.
pub open spec fn vertex_attributes() -> Seq<VertexAttribute> {
    seq![
        VertexAttribute { offset: 0, shader_location: 0, format: VertexFormat::Float32x3 },
        VertexAttribute { offset: 12, shader_location: 1, format: VertexFormat::Float32x3 },
    ]
}

/// The layout of the per-point instance buffer.
pub open spec fn instance_attributes() -> Seq<VertexAttribute> {
    seq![
        VertexAttribute { offset: 0, shader_location: 2, format: VertexFormat::Float32x3 },
        VertexAttribute { offset: 12, shader_location: 3, format: VertexFormat::Float32 },
    ]
}

/// The buffer layout of the cube's vertices: a position at location 0 and a
/// texture coordinate at location 1, stepping once per vertex.
pub fn vertex_layout() -> (layout: BufferLayout)
    ensures
        layout.array_stride == VERTEX_SIZE,
        layout.step_mode == StepMode::Vertex,
        layout.attributes@ == vertex_attributes(),
{
    let mut attributes: Vec<VertexAttribute> = Vec::new();
    attributes.push(VertexAttribute { offset: 0, shader_location: 0, format: VertexFormat::Float32x3 });
    attributes.push(VertexAttribute { offset: 12, shader_location: 1, format: VertexFormat::Float32x3 });
    BufferLayout { array_stride: VERTEX_SIZE, step_mode: StepMode::Vertex, attributes }
}

/// The buffer layout of the point instances: an offset at location 2 and a
/// scale at location 3, stepping once per instance.
pub fn instance_layout() -> (layout: BufferLayout)
    ensures
        layout.array_stride == INSTANCE_SIZE,
        layout.step_mode == StepMode::Instance,
        layout.attributes@ == instance_attributes(),
{
    let mut attributes: Vec<VertexAttribute> = Vec::new();
    attributes.push(VertexAttribute { offset: 0, shader_location: 2, format: VertexFormat::Float32x3 });
    attributes.push(VertexAttribute { offset: 12, shader_location: 3, format: VertexFormat::Float32 });
    BufferLayout { array_stride: INSTANCE_SIZE, step_mode: StepMode::Instance, attributes }
}

/// Both layouts fill their elements exactly, and no shader location is fed
/// by two attributes of the pipeline.
pub proof fn lemma_layouts_well_formed()
    ensures
        packed(vertex_attributes(), VERTEX_SIZE as nat),
        packed(instance_attributes(), INSTANCE_SIZE as nat),
        ({
            let all = vertex_attributes() + instance_attributes();
            forall|i: int, j: int| 0 <= i < j < all.len() ==> all[i].shader_location != all[j].shader_location
        }),
{
    let all = vertex_attributes() + instance_attributes();
    assert(all.len() == 4);
    assert(all[0].shader_location == 0);
    assert(all[1].shader_location == 1);
    assert(all[2].shader_location == 2);
    assert(all[3].shader_location == 3);
}

/// The size in bytes of an instance buffer holding `count` points.
pub fn instance_buffer_size(count: usize) -> (bytes: u64)
    requires
        count * INSTANCE_SIZE <= usize::MAX,
    ensures
        bytes == count * INSTANCE_SIZE,
{
    (count * 16) as u64
}

/// The shader reads the cube corner's position at location 0 and its texture
/// coordinate at location 1 (three floats each, one after the other), and the
/// point's offset at location 2 (three floats) followed by its scale at
/// location 3 (one float).
pub proof fn lemma_layouts_feed_the_shader()
    ensures
        vertex_attributes().len() == 2,
        vertex_attributes()[0].shader_location == 0 && vertex_attributes()[0].offset == 0
            && vertex_attributes()[0].format == VertexFormat::Float32x3,
        vertex_attributes()[1].shader_location == 1 && vertex_attributes()[1].offset == 12
            && vertex_attributes()[1].format == VertexFormat::Float32x3,
        instance_attributes().len() == 2,
        instance_attributes()[0].shader_location == 2 && instance_attributes()[0].offset == 0
            && instance_attributes()[0].format == VertexFormat::Float32x3,
        instance_attributes()[1].shader_location == 3 && instance_attributes()[1].offset == 12
            && instance_attributes()[1].format == VertexFormat::Float32,
        format_size(VertexFormat::Float32) == 4,
        format_size(VertexFormat::Float32x3) == 12,
{
}

} // verus!
