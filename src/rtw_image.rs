use vstd::prelude::*;

verus! {

/// The colour handed out for every lookup in an image that could not be
/// loaded: magenta, so that the defect is visible in the render.
pub const MAGENTA: [u8; 3] = [255, 0, 255];

/// `x` forced into the half-open range `[low, high)`.
pub open spec fn clamp_spec(x: int, low: int, high: int) -> int {
    if x < low {
        low
    } else if x < high {
        x
    } else {
        high - 1
    }
}

/// Clamps `x` into the half-open range `[low, high)`.
pub fn clamp(x: u32, low: u32, high: u32) -> (r: u32)
    requires
        low < high,
    ensures
        r == clamp_spec(x as int, low as int, high as int),
        low <= r < high,
{
    if x < low {
        low
    } else if x < high {
        x
    } else {
        high - 1
    }
}

/// A bitmap loaded for an image texture: 8-bit RGB, row-major, three bytes
/// per pixel. An image whose file could not be read holds no pixels and
/// reports a size of zero.
pub struct RtwImage {
    pub loaded: bool,
    pub width: u32,
    pub height: u32,
    pub pixels: Vec<u8>,
}

impl RtwImage {
    pub open spec fn is_loaded(&self) -> bool {
        self.loaded
    }

    pub open spec fn width_spec(&self) -> nat {
        if self.loaded { self.width as nat } else { 0 }
    }

    pub open spec fn height_spec(&self) -> nat {
        if self.loaded { self.height as nat } else { 0 }
    }

    /// The bytes of the pixel in column `x` and row `y`.
    pub open spec fn texel(&self, x: int, y: int) -> [u8; 3] {
        let base = 3 * (y * self.width + x);
        [self.pixels@[base], self.pixels@[base + 1], self.pixels@[base + 2]]
    }

    pub open spec fn wf(&self) -> bool {
        self.loaded ==> self.pixels@.len() == 3 * (self.width as nat) * (self.height as nat)
    }

    /// A loaded bitmap of `width` by `height` pixels.
    pub fn from_rgb(width: u32, height: u32, pixels: Vec<u8>) -> (r: RtwImage)
        requires
            pixels@.len() == 3 * (width as nat) * (height as nat),
        ensures
            r.wf(),
            r.is_loaded(),
            r.width_spec() == width,
            r.height_spec() == height,
            r.pixels@ == pixels@,
    {
        RtwImage { loaded: true, width, height, pixels }
    }

    /// The image that stands for a file that could not be loaded.
    pub fn missing() -> (r: RtwImage)
        ensures
            r.wf(),
            !r.is_loaded(),
            r.width_spec() == 0,
            r.height_spec() == 0,
    {
        RtwImage { loaded: false, width: 0, height: 0, pixels: Vec::new() }
    }

    pub fn is_missing(&self) -> (r: bool)
        ensures
            r == !self.is_loaded(),
    {
        !self.loaded
    }

    pub fn width(&self) -> (r: u32)
        ensures
            r == self.width_spec(),
    {
        if self.loaded { self.width } else { 0 }
    }

    pub fn height(&self) -> (r: u32)
        ensures
            r == self.height_spec(),
    {
        if self.loaded { self.height } else { 0 }
    }

    /// The colour at column `x`, row `y`, each coordinate clamped into the
    /// image; magenta when the image could not be loaded.
    pub fn pixel_data(&self, x: u32, y: u32) -> (r: [u8; 3])
        requires
            self.wf(),
            self.is_loaded() ==> self.width_spec() > 0 && self.height_spec() > 0,
        ensures
            !self.is_loaded() ==> r == MAGENTA,
            self.is_loaded() ==> r == self.texel(
                clamp_spec(x as int, 0, self.width as int),
                clamp_spec(y as int, 0, self.height as int),
            ),
    {
        if !self.loaded {
            return MAGENTA;
        }
        let cx = clamp(x, 0, self.width);
        let cy = clamp(y, 0, self.height);
        let w = self.width as usize;
        let h = self.height as usize;
        proof {
            lemma_texel_in_bounds(cx as int, cy as int, w as int, h as int);
            assert(3 * (w as int) * (h as int) == self.pixels@.len());
        }
        let len = self.pixels.len();
        assert(3 * (cy as int * w as int + cx as int) + 2 < len);
        assert(cy as int * w as int + cx as int <= 3 * (cy as int * w as int + cx as int) + 2);
        let row = cy as usize * w;
        let base = 3 * (row + cx as usize);
        [self.pixels[base], self.pixels[base + 1], self.pixels[base + 2]]
    }
}

proof fn lemma_texel_in_bounds(x: int, y: int, w: int, h: int)
    requires
        0 <= x < w,
        0 <= y < h,
    ensures
        0 <= y * w,
        3 * (y * w + x) + 2 < 3 * w * h,
{
    assert(0 <= y * w) by (nonlinear_arith)
        requires
            0 <= y,
            0 <= w,
    ;
    assert(y * w + x < w * h) by (nonlinear_arith)
        requires
            0 <= x < w,
            0 <= y < h,
    ;
    assert(3 * (w * h) == 3 * w * h) by (nonlinear_arith);
}

} // verus!
