use vstd::prelude::*;

verus! {

/// Which buffers of the rasterizer a clear resets.
pub enum Buffer {
    Color,
    Depth,
    Both,
}

impl Buffer {
    /// Whether clearing this selection resets the colour samples.
    pub fn clears_color(&self) -> (r: bool)
        ensures
            r == (self is Color || self is Both),
    {
        match self {
            Buffer::Color => true,
            Buffer::Depth => false,
            Buffer::Both => true,
        }
    }

    /// Whether clearing this selection resets the depth samples.
    pub fn clears_depth(&self) -> (r: bool)
        ensures
            r == (self is Depth || self is Both),
    {
        match self {
            Buffer::Color => false,
            Buffer::Depth => true,
            Buffer::Both => true,
        }
    }
}

/// The kind of primitive a draw call assembles from its index buffer.
pub enum Primitive {
    Line,
    Triangle,
}

/// Handle of a loaded vertex position buffer.
#[derive(Clone, Copy, Debug, PartialEq, Eq)]
pub struct PosBufId(pub usize);

/// Handle of a loaded index buffer.
#[derive(Clone, Copy, Debug, PartialEq, Eq)]
pub struct IndBufId(pub usize);

/// Handle of a loaded vertex colour buffer.
#[derive(Clone, Copy, Debug, PartialEq, Eq)]
pub struct ColBufId(pub usize);

/// Position in the frame buffer of the pixel in column `x` and row `y`,
/// counting rows from the bottom of the screen while the buffer stores
/// the top row first.
pub open spec fn pixel_index_spec(width: int, height: int, x: int, y: int) -> int {
    (height - 1 - y) * width + x
}

/// Position in a `width` by `height` frame buffer of the pixel at `(x, y)`.
pub fn pixel_index(width: u64, height: u64, x: usize, y: usize) -> (r: usize)
    requires
        x < width,
        y < height,
        width * height <= usize::MAX,
    ensures
        r == pixel_index_spec(width as int, height as int, x as int, y as int),
        r < width * height,
{
    let row = height - 1 - y as u64;
    proof {
        assert(row * width + x < width * height) by (nonlinear_arith)
            requires
                row < height,
                x < width,
        ;
    }
    (row * width + x as u64) as usize
}

/// Distinct pixels of a frame never share a slot of the frame buffer.
pub proof fn lemma_pixel_index_injective(width: int, height: int, x1: int, y1: int, x2: int, y2: int)
    requires
        0 <= x1 < width,
        0 <= y1 < height,
        0 <= x2 < width,
        0 <= y2 < height,
        pixel_index_spec(width, height, x1, y1) == pixel_index_spec(width, height, x2, y2),
    ensures
        x1 == x2,
        y1 == y2,
{
    let r1 = height - 1 - y1;
    let r2 = height - 1 - y2;
    vstd::arithmetic::div_mod::lemma_fundamental_div_mod_converse(r1 * width + x1, width, r1, x1);
    vstd::arithmetic::div_mod::lemma_fundamental_div_mod_converse(r2 * width + x2, width, r2, x2);
}

} // verus!
