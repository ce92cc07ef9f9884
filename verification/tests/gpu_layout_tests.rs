use wgpu_pcd::layout::{instance_buffer_size, instance_layout, vertex_layout, StepMode, VertexAttribute, VertexFormat, INSTANCE_SIZE, VERTEX_SIZE};
use wgpu_pcd::mesh::{cube_index_bytes, cube_index_count, cube_indices};
use wgpu_pcd::surface::{choose_surface_format, depth_texture_desc, plan_surface, DepthFormat, PhysicalSize};

#[test]
fn vertex_layout_matches_the_vertex() {
    let l = vertex_layout();
    assert_eq!(l.array_stride, 24);
    assert_eq!(l.step_mode, StepMode::Vertex);
    assert_eq!(l.attributes, vec![
        VertexAttribute { offset: 0, shader_location: 0, format: VertexFormat::Float32x3 },
        VertexAttribute { offset: 12, shader_location: 1, format: VertexFormat::Float32x3 },
    ]);
    assert_eq!(VERTEX_SIZE, 24);
}

#[test]
fn instance_layout_matches_the_instance() {
    let l = instance_layout();
    assert_eq!(l.array_stride, 16);
    assert_eq!(l.step_mode, StepMode::Instance);
    assert_eq!(l.attributes, vec![
        VertexAttribute { offset: 0, shader_location: 2, format: VertexFormat::Float32x3 },
        VertexAttribute { offset: 12, shader_location: 3, format: VertexFormat::Float32 },
    ]);
    assert_eq!(INSTANCE_SIZE, 16);
    assert_eq!(VertexFormat::Float32.size() + VertexFormat::Float32x3.size(), 16);
}

#[test]
fn instance_buffer_sizes() {
    assert_eq!(instance_buffer_size(0), 0);
    assert_eq!(instance_buffer_size(3), 48);
    assert_eq!(instance_buffer_size(1_000_000), 16_000_000);
}

#[test]
fn cube_has_twelve_triangles_over_eight_corners() {
    let idx = cube_indices();
    assert_eq!(idx.len(), 36);
    assert_eq!(cube_index_count(), 36);
    assert!(idx.iter().all(|&i| i < 8));
    for v in 0..8u16 {
        assert!(idx.contains(&v));
    }
    assert_eq!(&idx[..6], &[0, 1, 2, 2, 3, 0]);
}

#[test]
fn index_bytes_are_native_order() {
    let idx = cube_indices();
    let bytes = cube_index_bytes();
    assert_eq!(bytes.len(), 72);
    for (i, v) in idx.iter().enumerate() {
        assert_eq!(u16::from_ne_bytes([bytes[2 * i], bytes[2 * i + 1]]), *v);
    }
}

#[test]
fn surface_format_prefers_srgb() {
    assert_eq!(choose_surface_format(&vec![false, true, true]), 1);
    assert_eq!(choose_surface_format(&vec![false, false]), 0);
    assert_eq!(choose_surface_format(&vec![true]), 0);
    let plan = plan_surface(PhysicalSize { width: 640, height: 480 }, &vec![false, false, true], 3, 2);
    assert_eq!(plan.format_index, 2);
    assert_eq!(plan.present_mode_index, 0);
    assert_eq!(plan.alpha_mode_index, 0);
    assert_eq!((plan.width, plan.height), (640, 480));
    assert_eq!(plan.desired_maximum_frame_latency, 2);
}

#[test]
fn depth_texture_follows_surface() {
    let d = depth_texture_desc(1920, 1080);
    assert_eq!((d.width, d.height, d.depth_or_array_layers), (1920, 1080, 1));
    assert_eq!((d.mip_level_count, d.sample_count), (1, 1));
    assert_eq!(d.format, DepthFormat::Depth32Float);
    assert!(d.two_dimensional && d.render_attachment && d.texture_binding);
}
