use vstd::prelude::*;
use crate::text::{decimal, decimal_string, parse_u32_spec, lemma_parse_decimal_roundtrip};

verus! {

/// The limits of a graphics adapter that the viewer reports, as plain numbers.
#[derive(Clone, Copy, Debug, PartialEq, Eq)]
pub struct AdapterLimits {
    pub max_bind_groups: u32,
    pub max_uniform_buffer_binding_size: u32,
    pub max_push_constant_size: u32,
    pub max_vertex_attributes: u32,
    pub max_vertex_buffers: u32,
    pub max_storage_buffer_binding_size: u32,
    pub max_compute_workgroup_size_x: u32,
    pub max_compute_workgroup_size_y: u32,
    pub max_compute_workgroup_size_z: u32,
    pub max_compute_invocations_per_workgroup: u32,
    pub max_storage_buffers_per_shader_stage: u32,
    pub max_texture_dimension_2d: u32,
    pub max_sampled_textures_per_shader_stage: u32,
    pub max_buffer_size: u64,
}

/// A byte count in whole kibibytes, rounded down.
pub open spec fn kib(bytes: nat) -> nat {
    bytes / 1024
}

/// A byte count in whole mebibytes, rounded down.
pub open spec fn mib(bytes: nat) -> nat {
    bytes / 1024 / 1024
}

/// The lines of the adapter report, in the order they are printed.
pub open spec fn limits_report(l: AdapterLimits) -> Seq<Seq<char>> {
    seq![
        "Graphics Adapter Limits:"@,
        "  max_bind_groups: "@ + decimal(l.max_bind_groups as nat),
        "  max_uniform_buffer_binding_size: "@ + decimal(kib(l.max_uniform_buffer_binding_size as nat)) + " KB"@,
        "  max_push_constant_size: "@ + decimal(l.max_push_constant_size as nat) + " B"@,
        "  max_vertex_attributes: "@ + decimal(l.max_vertex_attributes as nat),
        "  max_vertex_buffers: "@ + decimal(l.max_vertex_buffers as nat),
        "\nCompute Shader"@,
        "  max_storage_buffer_binding_size: "@ + decimal(mib(l.max_storage_buffer_binding_size as nat)) + " MB"@,
        "  max_compute_workgroup_size: x="@ + decimal(l.max_compute_workgroup_size_x as nat)
            + ", y="@ + decimal(l.max_compute_workgroup_size_y as nat)
            + ", z="@ + decimal(l.max_compute_workgroup_size_z as nat),
        "  max_compute_invocations_per_workgroup: "@ + decimal(l.max_compute_invocations_per_workgroup as nat),
        "  max_storage_buffers_per_shader_stage: "@ + decimal(l.max_storage_buffers_per_shader_stage as nat),
        "\nFragment Shader"@,
        "  max_texture_dimension_2d: "@ + decimal(l.max_texture_dimension_2d as nat) + " px"@,
        "  max_sampled_textures_per_shader_stage: "@ + decimal(l.max_sampled_textures_per_shader_stage as nat),
    ]
}

/// The line that reports the largest buffer the adapter accepts.
pub open spec fn buffer_size_report(size: u64) -> Seq<char> {
    "GPU's max buffer size: "@ + decimal(size as nat) + "bytes"@
}

/// `label`, the number in base ten, then `unit`.
fn labelled(label: &str, value: u64, unit: &str) -> (line: String)
    ensures
        line@ == label@ + decimal(value as nat) + unit@,
{
    let mut line = label.to_owned();
    let digits = decimal_string(value);
    line.append(digits.as_str());
    line.append(unit);
    line
}

/// `label` followed by the number in base ten.
fn labelled_plain(label: &str, value: u64) -> (line: String)
    ensures
        line@ == label@ + decimal(value as nat),
{
    let mut line = label.to_owned();
    let digits = decimal_string(value);
    line.append(digits.as_str());
    line
}

impl AdapterLimits {
    /// The report printed about the adapter's limits, one entry per printed line.
    pub fn report_lines(&self) -> (lines: Vec<String>)
        ensures
            lines@.len() == limits_report(*self).len(),
            forall|i: int| 0 <= i < lines@.len() ==> #[trigger] lines@[i]@ == limits_report(*self)[i],
    {
        let mut lines: Vec<String> = Vec::new();
        lines.push("Graphics Adapter Limits:".to_owned());
        lines.push(labelled_plain("  max_bind_groups: ", self.max_bind_groups as u64));
        lines.push(labelled("  max_uniform_buffer_binding_size: ", (self.max_uniform_buffer_binding_size / 1024) as u64, " KB"));
        lines.push(labelled("  max_push_constant_size: ", self.max_push_constant_size as u64, " B"));
        lines.push(labelled_plain("  max_vertex_attributes: ", self.max_vertex_attributes as u64));
        lines.push(labelled_plain("  max_vertex_buffers: ", self.max_vertex_buffers as u64));
        lines.push("\nCompute Shader".to_owned());
        lines.push(labelled("  max_storage_buffer_binding_size: ", (self.max_storage_buffer_binding_size / 1024 / 1024) as u64, " MB"));
        let mut workgroup = labelled("  max_compute_workgroup_size: x=", self.max_compute_workgroup_size_x as u64, ", y=");
        let y = decimal_string(self.max_compute_workgroup_size_y as u64);
        workgroup.append(y.as_str());
        workgroup.append(", z=");
        let z = decimal_string(self.max_compute_workgroup_size_z as u64);
        workgroup.append(z.as_str());
        lines.push(workgroup);
        lines.push(labelled_plain("  max_compute_invocations_per_workgroup: ", self.max_compute_invocations_per_workgroup as u64));
        lines.push(labelled_plain("  max_storage_buffers_per_shader_stage: ", self.max_storage_buffers_per_shader_stage as u64));
        lines.push("\nFragment Shader".to_owned());
        lines.push(labelled("  max_texture_dimension_2d: ", self.max_texture_dimension_2d as u64, " px"));
        lines.push(labelled_plain("  max_sampled_textures_per_shader_stage: ", self.max_sampled_textures_per_shader_stage as u64));
        assert(lines@.len() == limits_report(*self).len());
        lines
    }

    /// The line that reports the largest buffer the adapter accepts.
    pub fn buffer_size_line(&self) -> (line: String)
        ensures
            line@ == buffer_size_report(self.max_buffer_size),
    {
        labelled("GPU's max buffer size: ", self.max_buffer_size, "bytes")
    }
}

/// `line` is `label`, then a number that reads back as `value`, then `unit`.
pub open spec fn shows_number(line: Seq<char>, label: Seq<char>, value: nat, unit: Seq<char>) -> bool {
    exists|t: Seq<char>| line == label + t + unit && #[trigger] parse_u32_spec(t) == Some(value as u32)
}

proof fn lemma_shows(label: Seq<char>, value: u32, unit: Seq<char>)
    ensures
        shows_number(label + decimal(value as nat) + unit, label, value as nat, unit),
{
    lemma_parse_decimal_roundtrip(value);
    assert(parse_u32_spec(decimal(value as nat)) == Some(value));
}

/// Every line of the report shows the limit it is labelled with: the text
/// after each label reads back as that limit (sizes in whole KB or MB,
/// rounded down), and the heading lines are fixed.
pub proof fn lemma_report_shows_each_limit(l: AdapterLimits)
    ensures
        limits_report(l).len() == 14,
        limits_report(l)[0] == "Graphics Adapter Limits:"@,
        shows_number(limits_report(l)[1], "  max_bind_groups: "@, l.max_bind_groups as nat, Seq::empty()),
        shows_number(limits_report(l)[2], "  max_uniform_buffer_binding_size: "@, l.max_uniform_buffer_binding_size as nat / 1024, " KB"@),
        shows_number(limits_report(l)[3], "  max_push_constant_size: "@, l.max_push_constant_size as nat, " B"@),
        shows_number(limits_report(l)[4], "  max_vertex_attributes: "@, l.max_vertex_attributes as nat, Seq::empty()),
        shows_number(limits_report(l)[5], "  max_vertex_buffers: "@, l.max_vertex_buffers as nat, Seq::empty()),
        limits_report(l)[6] == "\nCompute Shader"@,
        shows_number(limits_report(l)[7], "  max_storage_buffer_binding_size: "@, l.max_storage_buffer_binding_size as nat / 1024 / 1024, " MB"@),
        exists|x: Seq<char>, y: Seq<char>, z: Seq<char>|
            limits_report(l)[8] == "  max_compute_workgroup_size: x="@ + x + ", y="@ + y + ", z="@ + z
            && #[trigger] parse_u32_spec(x) == Some(l.max_compute_workgroup_size_x)
            && #[trigger] parse_u32_spec(y) == Some(l.max_compute_workgroup_size_y)
            && #[trigger] parse_u32_spec(z) == Some(l.max_compute_workgroup_size_z),
        shows_number(limits_report(l)[9], "  max_compute_invocations_per_workgroup: "@, l.max_compute_invocations_per_workgroup as nat, Seq::empty()),
        shows_number(limits_report(l)[10], "  max_storage_buffers_per_shader_stage: "@, l.max_storage_buffers_per_shader_stage as nat, Seq::empty()),
        limits_report(l)[11] == "\nFragment Shader"@,
        shows_number(limits_report(l)[12], "  max_texture_dimension_2d: "@, l.max_texture_dimension_2d as nat, " px"@),
        shows_number(limits_report(l)[13], "  max_sampled_textures_per_shader_stage: "@, l.max_sampled_textures_per_shader_stage as nat, Seq::empty()),
{
    let r = limits_report(l);
    let e = Seq::<char>::empty();
    lemma_shows("  max_bind_groups: "@, l.max_bind_groups, e);
    assert(r[1] =~= "  max_bind_groups: "@ + decimal(l.max_bind_groups as nat) + e);
    lemma_shows("  max_uniform_buffer_binding_size: "@, (l.max_uniform_buffer_binding_size / 1024) as u32, " KB"@);
    lemma_shows("  max_push_constant_size: "@, l.max_push_constant_size, " B"@);
    lemma_shows("  max_vertex_attributes: "@, l.max_vertex_attributes, e);
    assert(r[4] =~= "  max_vertex_attributes: "@ + decimal(l.max_vertex_attributes as nat) + e);
    lemma_shows("  max_vertex_buffers: "@, l.max_vertex_buffers, e);
    assert(r[5] =~= "  max_vertex_buffers: "@ + decimal(l.max_vertex_buffers as nat) + e);
    lemma_shows("  max_storage_buffer_binding_size: "@, (l.max_storage_buffer_binding_size / 1024 / 1024) as u32, " MB"@);
    lemma_parse_decimal_roundtrip(l.max_compute_workgroup_size_x);
    lemma_parse_decimal_roundtrip(l.max_compute_workgroup_size_y);
    lemma_parse_decimal_roundtrip(l.max_compute_workgroup_size_z);
    let x = decimal(l.max_compute_workgroup_size_x as nat);
    let y = decimal(l.max_compute_workgroup_size_y as nat);
    let z = decimal(l.max_compute_workgroup_size_z as nat);
    assert(parse_u32_spec(x) == Some(l.max_compute_workgroup_size_x));
    assert(parse_u32_spec(y) == Some(l.max_compute_workgroup_size_y));
    assert(parse_u32_spec(z) == Some(l.max_compute_workgroup_size_z));
    lemma_shows("  max_compute_invocations_per_workgroup: "@, l.max_compute_invocations_per_workgroup, e);
    assert(r[9] =~= "  max_compute_invocations_per_workgroup: "@ + decimal(l.max_compute_invocations_per_workgroup as nat) + e);
    lemma_shows("  max_storage_buffers_per_shader_stage: "@, l.max_storage_buffers_per_shader_stage, e);
    assert(r[10] =~= "  max_storage_buffers_per_shader_stage: "@ + decimal(l.max_storage_buffers_per_shader_stage as nat) + e);
    lemma_shows("  max_texture_dimension_2d: "@, l.max_texture_dimension_2d, " px"@);
    lemma_shows("  max_sampled_textures_per_shader_stage: "@, l.max_sampled_textures_per_shader_stage, e);
    assert(r[13] =~= "  max_sampled_textures_per_shader_stage: "@ + decimal(l.max_sampled_textures_per_shader_stage as nat) + e);
}

/// The buffer-size line shows the largest buffer size in bytes.
pub proof fn lemma_buffer_size_line_shows_size(size: u64)
    ensures
        exists|t: Seq<char>| buffer_size_report(size) == "GPU's max buffer size: "@ + t + "bytes"@
            && #[trigger] crate::text::digits_value(t) == size && crate::text::all_digits(t) && t.len() > 0,
{
    crate::text::lemma_decimal_digits(size as nat);
    let t = decimal(size as nat);
    assert(crate::text::digits_value(t) == size);
}

} // verus!
