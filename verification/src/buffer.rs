//! An owned two-dimensional grid of three-channel byte pixels, addressed by
//! integer (x, y) coordinates and stored row-major.

use vstd::prelude::*;

verus! {

/// One pixel: an 8-bit red, green and blue channel.
#[derive(Clone, Copy, PartialEq, Eq, Structural, Debug)]
pub struct Rgb {
    pub red: u8,
    pub green: u8,
    pub blue: u8,
}

impl Rgb {
    /// The all-zero (black) pixel that freshly allocated buffers hold.
    pub fn black() -> (p: Rgb)
        ensures
            p == (Rgb { red: 0, green: 0, blue: 0 }),
    {
        Rgb { red: 0, green: 0, blue: 0 }
    }
}

/// Why a buffer could not be allocated.
#[derive(Clone, Copy, PartialEq, Eq, Structural, Debug)]
pub enum AllocationError {
    /// The requested width or height is zero.
    ZeroDimension,
    /// The requested pixel count exceeds what a `usize` can address.
    TooLarge,
}

/// A coordinate inside a width × height grid has a row-major index inside
/// the grid's pixel count.
pub proof fn lemma_rowmajor_bounds(w: int, h: int, x: int, y: int)
    requires
        0 <= x < w,
        0 <= y < h,
    ensures
        0 <= y * w + x < w * h,
{
    assert(y * w + x < w * h) by (nonlinear_arith)
        requires
            0 <= x < w,
            0 <= y < h,
    ;
    assert(y * w + x >= 0) by (nonlinear_arith)
        requires
            0 <= x,
            0 <= y,
            0 < w,
    ;
}

/// Distinct in-range coordinates have distinct row-major indices.
proof fn lemma_rowmajor_injective(w: int, x1: int, y1: int, x2: int, y2: int)
    requires
        0 <= x1 < w,
        0 <= x2 < w,
        0 <= y1,
        0 <= y2,
        y1 * w + x1 == y2 * w + x2,
    ensures
        x1 == x2 && y1 == y2,
{
    assert(x1 == x2 && y1 == y2) by (nonlinear_arith)
        requires
            0 <= x1 < w,
            0 <= x2 < w,
            0 <= y1,
            0 <= y2,
            y1 * w + x1 == y2 * w + x2,
    ;
}

/// A dense width × height grid of `Rgb` pixels. Row `y` occupies the view
/// indices `y * width .. (y + 1) * width`, one `Rgb` per coordinate.
#[derive(Debug)]
pub struct PixelBuffer {
    width: u32,
    height: u32,
    data: Vec<Rgb>,
}

impl View for PixelBuffer {
    type V = Seq<Rgb>;

    closed spec fn view(&self) -> Seq<Rgb> {
        self.data@
    }
}

impl PixelBuffer {
    /// Structural invariant: positive dimensions and one stored pixel per
    /// coordinate of the declared grid.
    pub open spec fn wf(self) -> bool {
        &&& self.spec_width() > 0
        &&& self.spec_height() > 0
        &&& self@.len() == self.spec_width() as int * self.spec_height() as int
    }

    pub closed spec fn spec_width(self) -> u32 {
        self.width
    }

    pub closed spec fn spec_height(self) -> u32 {
        self.height
    }

    /// The pixel stored at coordinate (x, y).
    pub open spec fn pixel(self, x: int, y: int) -> Rgb {
        self@[y * self.spec_width() as int + x]
    }

    /// Allocates a buffer of the given dimensions with every pixel zeroed.
    /// Succeeds exactly on positive dimensions whose pixel count is
    /// addressable.
    pub fn create(width: u32, height: u32) -> (r: Result<PixelBuffer, AllocationError>)
        ensures
            match r {
                Ok(b) => {
                    &&& width > 0 && height > 0
                    &&& width * height <= usize::MAX
                    &&& b.wf()
                    &&& b.spec_width() == width
                    &&& b.spec_height() == height
                    &&& forall|i: int|
                        0 <= i < b@.len() ==> b@[i] == (Rgb { red: 0, green: 0, blue: 0 })
                },
                Err(AllocationError::ZeroDimension) => width == 0 || height == 0,
                Err(AllocationError::TooLarge) => {
                    &&& width > 0 && height > 0
                    &&& width * height > usize::MAX
                },
            },
            r is Err <==> (width == 0 || height == 0 || width * height > usize::MAX),
    {
        if width == 0 || height == 0 {
            return Err(AllocationError::ZeroDimension);
        }
        let count = match (width as usize).checked_mul(height as usize) {
            Some(c) => c,
            None => {
                return Err(AllocationError::TooLarge);
            },
        };
        let mut data: Vec<Rgb> = Vec::new();
        let mut i: usize = 0;
        while i < count
            invariant
                i <= count,
                data@.len() == i,
                forall|j: int| 0 <= j < i ==> data@[j] == (Rgb { red: 0, green: 0, blue: 0 }),
            decreases count - i,
        {
            data.push(Rgb::black());
            i = i + 1;
        }
        Ok(PixelBuffer { width, height, data })
    }

    pub fn width(&self) -> (w: u32)
        ensures
            w == self.spec_width(),
    {
        self.width
    }

    pub fn height(&self) -> (h: u32)
        ensures
            h == self.spec_height(),
    {
        self.height
    }

    proof fn lemma_index_in_bounds(self, x: int, y: int)
        requires
            self.wf(),
            0 <= x < self.spec_width(),
            0 <= y < self.spec_height(),
        ensures
            0 <= y * self.spec_width() as int + x < self@.len(),
    {
        lemma_rowmajor_bounds(self.spec_width() as int, self.spec_height() as int, x, y);
    }

    /// Writes one pixel. Out-of-range coordinates are ruled out by the
    /// precondition: the traversals that call this stay inside the grid.
    pub fn set(&mut self, x: u32, y: u32, p: Rgb)
        requires
            old(self).wf(),
            x < old(self).spec_width(),
            y < old(self).spec_height(),
        ensures
            final(self).wf(),
            final(self).spec_width() == old(self).spec_width(),
            final(self).spec_height() == old(self).spec_height(),
            final(self)@ == old(self)@.update(
                y * old(self).spec_width() as int + x,
                p,
            ),
            final(self).pixel(x as int, y as int) == p,
            forall|xx: int, yy: int|
                0 <= xx < old(self).spec_width() && 0 <= yy < old(self).spec_height() && !(xx == x
                    && yy == y) ==> #[trigger] final(self).pixel(xx, yy) == old(self).pixel(xx, yy),
    {
        // the stored length witnesses that the pixel count fits in a usize
        let _len: usize = self.data.len();
        proof {
            self.lemma_index_in_bounds(x as int, y as int);
        }
        let idx: usize = (y as usize) * (self.width as usize) + (x as usize);
        self.data[idx] = p;
        proof {
            let w = self.spec_width() as int;
            let h = self.spec_height() as int;
            assert forall|xx: int, yy: int|
                0 <= xx < w && 0 <= yy < h && !(xx == x && yy == y) implies #[trigger] self.pixel(
                xx,
                yy,
            ) == old(self).pixel(xx, yy) by {
                lemma_rowmajor_bounds(w, h, xx, yy);
                if yy * w + xx == y * w + x {
                    lemma_rowmajor_injective(w, xx, yy, x as int, y as int);
                }
            }
        }
    }

    /// Reads one pixel; in-range coordinates only, as for `set`.
    pub fn get(&self, x: u32, y: u32) -> (p: Rgb)
        requires
            self.wf(),
            x < self.spec_width(),
            y < self.spec_height(),
        ensures
            p == self.pixel(x as int, y as int),
    {
        // the stored length witnesses that the pixel count fits in a usize
        let _len: usize = self.data.len();
        proof {
            self.lemma_index_in_bounds(x as int, y as int);
        }
        let idx: usize = (y as usize) * (self.width as usize) + (x as usize);
        self.data[idx]
    }

    /// Channel-bounds law: every channel of every pixel of a buffer lies in
    /// [0, 255], by construction of the byte channel type.
    pub proof fn lemma_channel_bounds(self, x: int, y: int)
        ensures
            0 <= self.pixel(x, y).red <= 255,
            0 <= self.pixel(x, y).green <= 255,
            0 <= self.pixel(x, y).blue <= 255,
    {
    }

    /// Consumes the buffer and lays its pixels out as bytes, three per pixel
    /// in red, green, blue order: the raw form a codec expects.
    pub fn into_bytes(self) -> (bytes: Vec<u8>)
        requires
            self.wf(),
            3 * self@.len() <= usize::MAX,
        ensures
            bytes@.len() == 3 * self@.len(),
            forall|i: int| 0 <= i < self@.len() ==> {
                &&& bytes@[3 * i] == (#[trigger] self@[i]).red
                &&& bytes@[3 * i + 1] == self@[i].green
                &&& bytes@[3 * i + 2] == self@[i].blue
            },
    {
        let n: usize = self.data.len();
        let mut bytes: Vec<u8> = Vec::new();
        let mut i: usize = 0;
        while i < n
            invariant
                i <= n,
                n == self@.len(),
                3 * n <= usize::MAX,
                bytes@.len() == 3 * i,
                forall|j: int| 0 <= j < i ==> {
                    &&& bytes@[3 * j] == (#[trigger] self@[j]).red
                    &&& bytes@[3 * j + 1] == self@[j].green
                    &&& bytes@[3 * j + 2] == self@[j].blue
                },
            decreases n - i,
        {
            let p = self.data[i];
            bytes.push(p.red);
            bytes.push(p.green);
            bytes.push(p.blue);
            i = i + 1;
        }
        bytes
    }
}

} // verus!
