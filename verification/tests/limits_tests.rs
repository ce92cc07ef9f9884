use wgpu_pcd::limits::AdapterLimits;

fn sample() -> AdapterLimits {
    AdapterLimits {
        max_bind_groups: 4,
        max_uniform_buffer_binding_size: 65536,
        max_push_constant_size: 0,
        max_vertex_attributes: 16,
        max_vertex_buffers: 8,
        max_storage_buffer_binding_size: 134217728,
        max_compute_workgroup_size_x: 256,
        max_compute_workgroup_size_y: 256,
        max_compute_workgroup_size_z: 64,
        max_compute_invocations_per_workgroup: 256,
        max_storage_buffers_per_shader_stage: 8,
        max_texture_dimension_2d: 8192,
        max_sampled_textures_per_shader_stage: 16,
        max_buffer_size: 268435456,
    }
}

#[test]
fn report_lines_are_the_printed_lines() {
    let lines = sample().report_lines();
    let expected = vec![
        "Graphics Adapter Limits:",
        "  max_bind_groups: 4",
        "  max_uniform_buffer_binding_size: 64 KB",
        "  max_push_constant_size: 0 B",
        "  max_vertex_attributes: 16",
        "  max_vertex_buffers: 8",
        "\nCompute Shader",
        "  max_storage_buffer_binding_size: 128 MB",
        "  max_compute_workgroup_size: x=256, y=256, z=64",
        "  max_compute_invocations_per_workgroup: 256",
        "  max_storage_buffers_per_shader_stage: 8",
        "\nFragment Shader",
        "  max_texture_dimension_2d: 8192 px",
        "  max_sampled_textures_per_shader_stage: 16",
    ];
    assert_eq!(lines, expected);
}

#[test]
fn sizes_round_down() {
    let mut l = sample();
    l.max_uniform_buffer_binding_size = 2047;
    l.max_storage_buffer_binding_size = 1024 * 1024 * 3 - 1;
    let lines = l.report_lines();
    assert_eq!(lines[2], "  max_uniform_buffer_binding_size: 1 KB");
    assert_eq!(lines[7], "  max_storage_buffer_binding_size: 2 MB");
}

#[test]
fn buffer_size_line() {
    assert_eq!(sample().buffer_size_line(), "GPU's max buffer size: 268435456bytes");
}
