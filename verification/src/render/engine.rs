//! Frame data handed to the GPU and the decisions the renderer makes about it.
//!
//! The GPU calls themselves live with the windowing layer; this module converts pixel data,
//! checks sizes and decides when textures must be recreated and whether a frame can be drawn.

use vstd::prelude::*;

use crate::error::RenderError;
use crate::memory::{FrameBufferPool, after_get};

verus! {

/// A video frame.
pub struct Frame {
    /// Pixel bytes, row by row.
    pub data: Vec<u8>,
    /// Width in pixels.
    pub width: u32,
    /// Height in pixels.
    pub height: u32,
    /// Layout of the pixel bytes.
    pub format: PixelFormat,
}

/// Pixel layouts.
#[derive(Debug, Clone, Copy, PartialEq, Eq, Structural)]
pub enum PixelFormat {
    /// Three bytes per pixel: red, green, blue.
    RGB8,
    /// Four bytes per pixel: red, green, blue, alpha.
    RGBA8,
    /// Planar YUV 4:2:0.
    YUV420,
}

impl Frame {
    /// A frame from its parts.
    pub fn new(data: Vec<u8>, width: u32, height: u32, format: PixelFormat) -> (r: Self)
        ensures
            r.data@ == data@,
            r.width == width,
            r.height == height,
            r.format == format,
    {
        Frame { data, width, height, format }
    }

    /// A mid-grey RGB frame of the given size, for tests: every byte is 128.
    pub fn new_test_frame(width: u32, height: u32) -> (r: Self)
        requires
            width * height * 3 <= u32::MAX,
        ensures
            r.width == width,
            r.height == height,
            r.format == PixelFormat::RGB8,
            r.data@ == Seq::new((width * height * 3) as nat, |i: int| 128u8),
    {
        let n = (width * height * 3) as usize;
        let mut data: Vec<u8> = Vec::new();
        let mut i: usize = 0;
        while i < n
            invariant
                i <= n,
                data@ == Seq::new(i as nat, |j: int| 128u8),
            decreases n - i,
        {
            data.push(128u8);
            i = i + 1;
            assert(data@ =~= Seq::new(i as nat, |j: int| 128u8));
        }
        Self::new(data, width, height, PixelFormat::RGB8)
    }
}

/// RGB bytes widened to RGBA: each complete group of three bytes becomes those three bytes
/// followed by an opaque alpha of 255; an incomplete trailing group is dropped.
pub open spec fn rgb_to_rgba(data: Seq<u8>) -> Seq<u8> {
    Seq::new(
        4 * (data.len() / 3),
        |j: int| if j % 4 == 3 { 255u8 } else { data[3 * (j / 4) + j % 4] },
    )
}

/// What converting a frame to RGBA gives: RGB frames whose data holds exactly
/// width × height × 3 bytes are widened, RGBA frames whose data holds exactly
/// width × height × 4 bytes pass through, anything else fails to upload.
pub open spec fn rgba_conversion(format: PixelFormat, width: u32, height: u32, data: Seq<u8>) -> Result<Seq<u8>, RenderError> {
    match format {
        PixelFormat::RGB8 => if data.len() == width * height * 3 {
            Ok(rgb_to_rgba(data))
        } else {
            Err(RenderError::TextureUploadFailed)
        },
        PixelFormat::RGBA8 => if data.len() == width * height * 4 {
            Ok(data)
        } else {
            Err(RenderError::TextureUploadFailed)
        },
        PixelFormat::YUV420 => Err(RenderError::TextureUploadFailed),
    }
}

/// Index arithmetic of the RGB to RGBA widening.
proof fn lemma_pixel_index(i: int, k: int)
    requires
        0 <= i,
        0 <= k < 4,
    ensures
        (4 * i + k) / 4 == i,
        (4 * i + k) % 4 == k,
{
    assert((4 * i + k) / 4 == i && (4 * i + k) % 4 == k) by (nonlinear_arith)
        requires
            0 <= i,
            0 <= k < 4,
    ;
}

/// Converts a frame to RGBA bytes in a buffer taken from `pool` (see `rgba_conversion`).
/// The pool hands out a buffer when the frame's data has the expected size.
pub fn convert_frame_to_rgba(pool: &mut FrameBufferPool, frame: &Frame) -> (r: Result<Vec<u8>, RenderError>)
    requires
        frame.format != PixelFormat::YUV420 ==> frame.width * frame.height * 4 <= u32::MAX,
    ensures
        r matches Ok(v) ==> rgba_conversion(frame.format, frame.width, frame.height, frame.data@) == Ok::<Seq<u8>, RenderError>(v@),
        r matches Err(e) ==> rgba_conversion(frame.format, frame.width, frame.height, frame.data@) == Err::<Seq<u8>, RenderError>(e),
        (r is Ok ==> final(pool)@ == after_get(old(pool)@)),
        (r is Err ==> final(pool)@ == old(pool)@),
{
    match frame.format {
        PixelFormat::RGB8 => {
            let expected_rgb_size = (frame.width * frame.height * 3) as usize;
            if frame.data.len() != expected_rgb_size {
                return Err(RenderError::TextureUploadFailed);
            }
            let mut rgba_data = pool.get_buffer();
            rgba_data.clear();
            let dl = frame.data.len();
            let pixels = dl / 3;
            let ghost data = frame.data@;
            let mut i: usize = 0;
            while i < pixels
                invariant
                    data == frame.data@,
                    dl == data.len(),
                    pixels == data.len() / 3,
                    i <= pixels,
                    rgba_data@ =~= Seq::new(
                        4 * i as nat,
                        |j: int| if j % 4 == 3 { 255u8 } else { data[3 * (j / 4) + j % 4] },
                    ),
                decreases pixels - i,
            {
                proof {
                    let n = data.len() as int;
                    assert(3 * i + 2 < n) by (nonlinear_arith)
                        requires
                            0 <= i < n / 3,
                            n >= 0,
                    ;
                }
                let base = 3 * i;
                rgba_data.push(frame.data[base]);
                rgba_data.push(frame.data[base + 1]);
                rgba_data.push(frame.data[base + 2]);
                rgba_data.push(255u8);
                proof {
                    lemma_pixel_index(i as int, 0);
                    lemma_pixel_index(i as int, 1);
                    lemma_pixel_index(i as int, 2);
                    lemma_pixel_index(i as int, 3);
                }
                i = i + 1;
            }
            Ok(rgba_data)
        },
        PixelFormat::RGBA8 => {
            let expected_rgba_size = (frame.width * frame.height * 4) as usize;
            if frame.data.len() != expected_rgba_size {
                return Err(RenderError::TextureUploadFailed);
            }
            let mut rgba_data = pool.get_buffer();
            rgba_data.clear();
            let mut i: usize = 0;
            while i < frame.data.len()
                invariant
                    i <= frame.data@.len(),
                    rgba_data@ == frame.data@.take(i as int),
                decreases frame.data@.len() - i,
            {
                rgba_data.push(frame.data[i]);
                i = i + 1;
                assert(rgba_data@ =~= frame.data@.take(i as int));
            }
            assert(frame.data@.take(frame.data@.len() as int) =~= frame.data@);
            Ok(rgba_data)
        },
        PixelFormat::YUV420 => Err(RenderError::TextureUploadFailed),
    }
}

/// Whether a texture of size `current` (none yet when `None`) must be recreated to hold an
/// image of `width` × `height`.
pub fn texture_needs_recreate(current: Option<(u32, u32)>, width: u32, height: u32) -> (r: bool)
    ensures
        r == match current {
            Some(size) => size.0 != width || size.1 != height,
            None => true,
        },
{
    match current {
        Some(size) => size.0 != width || size.1 != height,
        None => true,
    }
}

/// Whether the drawing surface may be resized to `width` × `height` (both must be positive).
pub fn surface_resize_allowed(width: u32, height: u32) -> (r: bool)
    ensures
        r == (width > 0 && height > 0),
{
    width > 0 && height > 0
}

/// Whether a frame can be drawn: a video texture and a mask texture are needed, the video
/// texture first.
pub fn check_render_ready(has_video_texture: bool, has_mask_texture: bool) -> (r: Result<(), RenderError>)
    ensures
        !has_video_texture ==> (r matches Err(RenderError::RenderFailed(m)) && m@ == "没有视频纹理"@),
        has_video_texture && !has_mask_texture ==> (r matches Err(RenderError::RenderFailed(m)) && m@ == "没有遮罩纹理"@),
        has_video_texture && has_mask_texture ==> r is Ok,
{
    if !has_video_texture {
        return Err(RenderError::RenderFailed(String::from_str("没有视频纹理")));
    }
    if !has_mask_texture {
        return Err(RenderError::RenderFailed(String::from_str("没有遮罩纹理")));
    }
    Ok(())
}

/// The indices of the two triangles that cover the video quad.
pub fn quad_indices() -> (r: Vec<u16>)
    ensures
        r@ == seq![0u16, 1, 2, 2, 3, 0],
{
    let mut r: Vec<u16> = Vec::new();
    r.push(0);
    r.push(1);
    r.push(2);
    r.push(2);
    r.push(3);
    r.push(0);
    assert(r@ =~= seq![0u16, 1, 2, 2, 3, 0]);
    r
}


/// Converting RGB bytes keeps the colour of every whole pixel and makes it opaque.
pub proof fn lemma_rgb_to_rgba_pixels(data: Seq<u8>, p: int, c: int)
    requires
        0 <= p < data.len() / 3,
        0 <= c < 3,
    ensures
        rgb_to_rgba(data).len() == 4 * (data.len() / 3),
        rgb_to_rgba(data)[4 * p + c] == data[3 * p + c],
        rgb_to_rgba(data)[4 * p + 3] == 255,
{
    vstd::arithmetic::div_mod::lemma_fundamental_div_mod_converse(4 * p + c, 4, p, c);
    vstd::arithmetic::div_mod::lemma_fundamental_div_mod_converse(4 * p + 3, 4, p, 3);
}

} // verus!
