use mira::memory::FrameBufferPool;
use mira::render::engine::{
    check_render_ready, convert_frame_to_rgba, quad_indices, surface_resize_allowed,
    texture_needs_recreate, Frame, PixelFormat,
};
use mira::error::RenderError;

#[test]
fn test_frame_creation() {
    let data = vec![255u8; 100 * 100 * 3];
    let frame = Frame::new(data, 100, 100, PixelFormat::RGB8);
    assert_eq!(frame.width, 100);
    assert_eq!(frame.height, 100);
    assert_eq!(frame.format, PixelFormat::RGB8);
}

#[test]
fn test_frame_test_creation() {
    let frame = Frame::new_test_frame(200, 150);
    assert_eq!(frame.width, 200);
    assert_eq!(frame.height, 150);
    assert_eq!(frame.format, PixelFormat::RGB8);
    assert_eq!(frame.data.len(), 200 * 150 * 3);
}

#[test]
fn engine_test_pixel_format_variants() {
    let formats = [PixelFormat::RGB8, PixelFormat::RGBA8, PixelFormat::YUV420];
    for format in formats {
        let data = vec![0u8; 100];
        let frame = Frame::new(data, 10, 10, format);
        assert_eq!(frame.format, format);
    }
}

struct Vertex {
    position: [f32; 2],
    tex_coords: [f32; 2],
}

const VERTICES: &[Vertex] = &[
    Vertex { position: [-1.0, -1.0], tex_coords: [0.0, 1.0] },
    Vertex { position: [1.0, -1.0], tex_coords: [1.0, 1.0] },
    Vertex { position: [1.0, 1.0], tex_coords: [1.0, 0.0] },
    Vertex { position: [-1.0, 1.0], tex_coords: [0.0, 0.0] },
];

#[test]
fn test_vertices_and_indices() {
    let indices = quad_indices();
    assert_eq!(VERTICES.len(), 4);
    assert_eq!(indices.len(), 6);

    for vertex in VERTICES {
        assert!(vertex.position[0] >= -1.0 && vertex.position[0] <= 1.0);
        assert!(vertex.position[1] >= -1.0 && vertex.position[1] <= 1.0);
        assert!(vertex.tex_coords[0] >= 0.0 && vertex.tex_coords[0] <= 1.0);
        assert!(vertex.tex_coords[1] >= 0.0 && vertex.tex_coords[1] <= 1.0);
    }

    for &index in &indices {
        assert!((index as usize) < VERTICES.len());
    }
}

#[test]
fn test_frame_rgb_to_rgba_conversion() {
    let rgb_data = vec![255, 0, 0, 0, 255, 0, 0, 0, 255];
    let frame = Frame::new(rgb_data, 3, 1, PixelFormat::RGB8);

    let mut pool = FrameBufferPool::new(12, 0, 2);
    let rgba_data = convert_frame_to_rgba(&mut pool, &frame).ok().unwrap();

    let expected = vec![255, 0, 0, 255, 0, 255, 0, 255, 0, 0, 255, 255];
    assert_eq!(rgba_data, expected);
}

#[test]
fn test_frame_rgba_passthrough() {
    let rgba_data = vec![255, 0, 0, 255, 0, 255, 0, 255];
    let frame = Frame::new(rgba_data.clone(), 2, 1, PixelFormat::RGBA8);

    assert_eq!(frame.data, rgba_data);

    let mut pool = FrameBufferPool::new(8, 0, 2);
    assert_eq!(convert_frame_to_rgba(&mut pool, &frame).ok().unwrap(), rgba_data);
}

#[test]
fn conversion_rejects_bad_sizes_and_yuv() {
    let mut pool = FrameBufferPool::new(12, 0, 2);
    let short = Frame::new(vec![1, 2, 3], 2, 1, PixelFormat::RGB8);
    assert_eq!(convert_frame_to_rgba(&mut pool, &short), Err(RenderError::TextureUploadFailed));
    let yuv = Frame::new(vec![0; 6], 2, 2, PixelFormat::YUV420);
    assert!(convert_frame_to_rgba(&mut pool, &yuv).is_err());
}

#[test]
fn texture_and_surface_decisions() {
    assert!(texture_needs_recreate(None, 4, 4));
    assert!(texture_needs_recreate(Some((4, 3)), 4, 4));
    assert!(!texture_needs_recreate(Some((4, 4)), 4, 4));
    assert!(surface_resize_allowed(1, 1));
    assert!(!surface_resize_allowed(0, 5));
    assert_eq!(check_render_ready(true, true), Ok(()));
    assert_eq!(
        check_render_ready(false, true),
        Err(RenderError::RenderFailed("没有视频纹理".to_string()))
    );
    assert_eq!(
        check_render_ready(true, false),
        Err(RenderError::RenderFailed("没有遮罩纹理".to_string()))
    );
}
