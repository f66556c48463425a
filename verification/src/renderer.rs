use vstd::prelude::*;

verus! {

/// One pixel as the software renderer hands it over: red, green, blue and
/// alpha, eight bits each.
#[derive(Clone, Copy, Debug, PartialEq, Eq, Structural)]
pub struct Rgba8 {
    pub red: u8,
    pub green: u8,
    pub blue: u8,
    pub alpha: u8,
}

/// The shape of the shared-memory buffer for a surface of `width` by
/// `height` pixels.
#[derive(Clone, Copy, Debug, PartialEq, Eq, Structural)]
pub struct FrameLayout {
    pub width: i32,
    pub height: i32,
    /// Bytes per row: four per pixel.
    pub stride: i32,
    /// Pixels the renderer fills.
    pub pixel_count: usize,
}

/// A colour channel scaled by the pixel's alpha: `channel * alpha / 255`.
pub open spec fn scaled(channel: u8, alpha: u8) -> u8 {
    ((channel as nat) * (alpha as nat) / 255) as u8
}

/// The four bytes of a pixel in the buffer's ARGB8888 format, lowest address
/// first: blue, green, red (each scaled by alpha), then alpha.
pub open spec fn encoded(p: Rgba8) -> Seq<u8> {
    seq![scaled(p.blue, p.alpha), scaled(p.green, p.alpha), scaled(p.red, p.alpha), p.alpha]
}

/// The buffer shape for a surface of `width` by `height` pixels.
pub fn frame_layout(width: u32, height: u32) -> (l: FrameLayout)
    requires
        width * 4 <= u32::MAX,
        width * height <= usize::MAX,
    ensures
        l.width == width as i32,
        l.height == height as i32,
        l.stride == (width * 4) as i32,
        l.pixel_count == width * height,
{
    let stride_bytes: u32 = width * 4;
    FrameLayout {
        width: width as i32,
        height: height as i32,
        stride: stride_bytes as i32,
        pixel_count: (width as usize) * (height as usize),
    }
}

/// A colour channel scaled by alpha.
pub fn scale(channel: u8, alpha: u8) -> (r: u8)
    ensures
        r == scaled(channel, alpha),
{
    let c = channel as u32;
    let a = alpha as u32;
    assert(c * a <= 255 * 255) by (nonlinear_arith)
        requires
            c <= 255,
            a <= 255,
    ;
    let q = c * a / 255;
    assert(q <= 255) by (nonlinear_arith)
        requires
            c * a <= 255 * 255,
            q == c * a / 255,
    ;
    q as u8
}

/// Writes `pixels` into the start of `canvas`, four bytes per pixel in the
/// order of `encoded`; the bytes after them are left as they were.
pub fn write_canvas(pixels: &[Rgba8], canvas: &mut [u8])
    requires
        4 * pixels@.len() <= old(canvas)@.len(),
    ensures
        final(canvas)@.len() == old(canvas)@.len(),
        forall|i: int, k: int|
            0 <= i < pixels@.len() && 0 <= k < 4 ==> #[trigger] final(canvas)@[4 * i + k]
                == encoded(#[trigger] pixels@[i])[k],
        forall|j: int|
            4 * pixels@.len() <= j < old(canvas)@.len() ==> #[trigger] final(canvas)@[j] == old(
                canvas,
            )@[j],
{
    let n = pixels.len();
    let len = canvas.len();
    let mut index: usize = 0;
    while index < n
        invariant
            n == pixels@.len(),
            index <= n,
            4 * n <= canvas@.len(),
            len == canvas@.len(),
            canvas@.len() == old(canvas)@.len(),
            forall|i: int, k: int|
                0 <= i < index && 0 <= k < 4 ==> #[trigger] canvas@[4 * i + k] == encoded(
                    #[trigger] pixels@[i],
                )[k],
            forall|j: int| 4 * index <= j < canvas@.len() ==> #[trigger] canvas@[j] == old(canvas)@[j],
        decreases n - index,
    {
        let pixel = pixels[index];
        let offset = index * 4;
        canvas[offset] = scale(pixel.blue, pixel.alpha);
        canvas[offset + 1] = scale(pixel.green, pixel.alpha);
        canvas[offset + 2] = scale(pixel.red, pixel.alpha);
        canvas[offset + 3] = pixel.alpha;
        assert forall|i: int, k: int|
            0 <= i <= index && 0 <= k < 4 implies #[trigger] canvas@[4 * i + k] == encoded(
                #[trigger] pixels@[i],
            )[k] by {
            if i == index {
                assert(4 * i + k == offset + k);
            }
        }
        index = index + 1;
    }
}

/// What the encoding keeps of a pixel: alpha passes through, no colour
/// channel comes out above alpha, an opaque pixel keeps its colours and a
/// fully transparent one becomes all zero; each channel is
/// `channel * alpha / 255` rounded down.
pub proof fn lemma_scaled_bounds(channel: u8, alpha: u8)
    ensures
        scaled(channel, alpha) <= alpha,
        alpha == 255 ==> scaled(channel, alpha) == channel,
        alpha == 0 ==> scaled(channel, alpha) == 0,
        scaled(channel, alpha) * 255 <= channel * alpha < (scaled(channel, alpha) + 1) * 255,
{
    let c = channel as nat;
    let a = alpha as nat;
    assert(c * a / 255 <= a) by (nonlinear_arith)
        requires
            c <= 255,
    ;
    if alpha == 255 {
        assert(c * 255 / 255 == c) by (nonlinear_arith);
    }
    let q = c * a / 255;
    assert(q * 255 <= c * a < (q + 1) * 255) by (nonlinear_arith)
        requires
            q == c * a / 255,
    ;
    assert(c * a <= 255 * 255) by (nonlinear_arith)
        requires
            c <= 255,
            a <= 255,
    ;
}

} // verus!
