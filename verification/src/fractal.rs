//! Gradient-plus-fractal synthesis: a deterministic background gradient on
//! the red and blue channels and an escape-time iteration count on the green
//! channel, one pixel per coordinate of the buffer.

use vstd::prelude::*;
use crate::buffer::AllocationError;
use crate::buffer::PixelBuffer;
use crate::buffer::Rgb;
use crate::buffer::lemma_rowmajor_bounds;

verus! {

/// Numerator of the background-gradient coefficient: a channel level is the
/// integer part of (3/10) × coordinate, truncated to a byte.
pub const GRADIENT_NUM: u32 = 3;

/// Denominator of the background-gradient coefficient.
pub const GRADIENT_DEN: u32 = 10;

/// The fixed parameters of one synthesis pass. Fractional constants are kept
/// as integer numerators over a fixed denominator so the configuration stays
/// exact; whoever runs the complex-plane arithmetic divides them out.
pub struct FractalConfig {
    /// Buffer width in pixels.
    pub width: u32,
    /// Buffer height in pixels.
    pub height: u32,
    /// Cap on the escape-time counter; the green channel never exceeds it.
    pub max_iter: u8,
    /// Real part of the additive constant c, in tenths.
    pub c_re_tenths: i32,
    /// Imaginary part of the additive constant c, in tenths.
    pub c_im_tenths: i32,
    /// The orbit has escaped once its magnitude exceeds this radius.
    pub escape_radius: u32,
    /// Per-axis span of the complex window; each axis scale is
    /// span / dimension.
    pub window_span: u32,
    /// Offset added to each mapped coordinate, in tenths.
    pub window_offset_tenths: i32,
}

impl FractalConfig {
    /// The one configuration the synthesizer ships with: a radius-2 escape
    /// disk, c = (-0.4, 0.6), a 3-wide window offset by -1.5 on each axis,
    /// and an iteration cap of 255.
    pub fn standard(width: u32, height: u32) -> (c: FractalConfig)
        ensures
            c == (FractalConfig {
                width,
                height,
                max_iter: 255,
                c_re_tenths: -4i32,
                c_im_tenths: 6,
                escape_radius: 2,
                window_span: 3,
                window_offset_tenths: -15i32,
            }),
    {
        FractalConfig {
            width,
            height,
            max_iter: 255,
            c_re_tenths: -4,
            c_im_tenths: 6,
            escape_radius: 2,
            window_span: 3,
            window_offset_tenths: -15,
        }
    }
}

/// The background-gradient level of a coordinate: the integer part of
/// 0.3 × coord, reduced modulo 256. The reduction is the truncating
/// narrowing to a byte, deliberately not a saturation: levels past 255
/// wrap, and a clamping variant would change the image.
pub open spec fn gradient_level(coord: int) -> int {
    ((GRADIENT_NUM * coord) / (GRADIENT_DEN as int)) % 256
}

/// Computes the background-gradient channel for one coordinate.
pub fn gradient_channel(coord: u32) -> (level: u8)
    ensures
        level as int == gradient_level(coord as int),
{
    let scaled: u64 = (GRADIENT_NUM as u64 * coord as u64) / GRADIENT_DEN as u64;
    (scaled % 256) as u8
}

/// How many steps the escape-time loop takes: one per leading `false` of
/// `esc`, stopping at the first `true` or at `cap`, whichever comes first.
/// `esc[i]` says whether the i-th orbit point already lies outside the
/// escape disk, so the count is the index of the first escaped point,
/// capped.
pub open spec fn escape_count(esc: Seq<bool>, cap: nat) -> nat
    decreases cap,
{
    if cap == 0 || esc.len() == 0 {
        0
    } else if esc[0] {
        0
    } else {
        (1 + escape_count(esc.drop_first(), (cap - 1) as nat)) as nat
    }
}

/// The escape count never exceeds the iteration cap.
pub proof fn lemma_escape_count_le_cap(esc: Seq<bool>, cap: nat)
    ensures
        escape_count(esc, cap) <= cap,
    decreases cap,
{
    if cap == 0 || esc.len() == 0 {
    } else if esc[0] {
    } else {
        lemma_escape_count_le_cap(esc.drop_first(), (cap - 1) as nat);
    }
}

/// The escape count is exactly the position where the loop stops: `k` steps
/// are taken when the first `k` points have not escaped and either the cap,
/// the end of the observations, or an escaped point stands at `k`.
pub proof fn lemma_escape_count_characterized(esc: Seq<bool>, cap: nat, k: nat)
    requires
        k <= cap,
        k <= esc.len(),
        forall|i: int| 0 <= i < k ==> !esc[i],
        k < cap && k < esc.len() ==> esc[k as int],
    ensures
        escape_count(esc, cap) == k,
    decreases k,
{
    if k == 0 {
    } else {
        assert(!esc[0]);
        lemma_escape_count_characterized(esc.drop_first(), (cap - 1) as nat, (k - 1) as nat);
    }
}

/// Cap law: the count reaches the cap exactly when no orbit point among the
/// first `cap` observed ever left the escape disk.
pub proof fn lemma_escape_count_at_cap(esc: Seq<bool>, cap: nat)
    requires
        esc.len() >= cap,
    ensures
        escape_count(esc, cap) == cap <==> (forall|i: int| 0 <= i < cap ==> !esc[i]),
    decreases cap,
{
    if cap == 0 || esc.len() == 0 {
    } else if esc[0] {
    } else {
        lemma_escape_count_at_cap(esc.drop_first(), (cap - 1) as nat);
        if escape_count(esc, cap) == cap {
            assert forall|i: int| 0 <= i < cap implies !esc[i] by {
                if i > 0 {
                    assert(!esc.drop_first()[i - 1]);
                }
            }
        } else {
            if forall|i: int| 0 <= i < cap ==> !esc[i] {
                assert forall|i: int| 0 <= i < cap - 1 implies !esc.drop_first()[i] by {
                    assert(!esc[i + 1]);
                }
            }
        }
    }
}

/// Immediate-escape law: a starting point already outside the escape disk
/// yields a count of zero.
pub proof fn lemma_immediate_escape(esc: Seq<bool>, cap: nat)
    requires
        esc.len() > 0,
        esc[0],
    ensures
        escape_count(esc, cap) == 0,
{
}

/// One decision of the escape-time loop: given the counter so far and
/// whether the current orbit point has left the escape disk, the loop either
/// takes one more step (the incremented counter) or stops (`None`). The
/// caller owns the orbit arithmetic; this function owns the stopping rule.
pub fn escape_advance(green: u8, max_iter: u8, escaped: bool) -> (r: Option<u8>)
    ensures
        r == if green < max_iter && !escaped {
            Some((green + 1) as u8)
        } else {
            None::<u8>
        },
{
    if green < max_iter && !escaped {
        Some(green + 1)
    } else {
        None
    }
}

/// Runs the whole stopping rule over a recorded sequence of escape
/// observations: the result is the escape count of that sequence.
pub fn count_escape_steps(esc: &Vec<bool>, max_iter: u8) -> (green: u8)
    requires
        esc@.len() >= max_iter,
    ensures
        green as nat == escape_count(esc@, max_iter as nat),
{
    let mut green: u8 = 0;
    loop
        invariant
            green <= max_iter,
            esc@.len() >= max_iter,
            forall|i: int| 0 <= i < green ==> !esc@[i],
        ensures
            green <= max_iter,
            forall|i: int| 0 <= i < green ==> !esc@[i],
            green < max_iter ==> esc@[green as int],
        decreases max_iter - green,
    {
        if green >= max_iter {
            break;
        }
        if esc[green as usize] {
            break;
        }
        green = green + 1;
    }
    proof {
        lemma_escape_count_characterized(esc@, max_iter as nat, green as nat);
    }
    green
}

/// The pixel the fractal synthesizer owes coordinate (x, y): gradient of x
/// on red, gradient of y on blue, and the supplied escape count on green,
/// looked up row-major.
pub open spec fn fractal_pixel(width: int, greens: Seq<u8>, x: int, y: int) -> Rgb {
    Rgb {
        red: gradient_level(x) as u8,
        green: greens[y * width + x],
        blue: gradient_level(y) as u8,
    }
}

/// Fills a fresh buffer of the config's dimensions: red and blue carry the
/// background gradient of the x and y coordinate, green carries the
/// per-pixel escape count handed in row-major. Fails exactly when the
/// dimensions cannot be allocated.
pub fn fill_fractal(config: &FractalConfig, greens: &Vec<u8>) -> (r: Result<
    PixelBuffer,
    AllocationError,
>)
    requires
        greens@.len() == config.width as int * config.height as int,
    ensures
        r is Err <==> (config.width == 0 || config.height == 0 || config.width * config.height
            > usize::MAX),
        match r {
            Ok(b) => {
                &&& b.wf()
                &&& b.spec_width() == config.width
                &&& b.spec_height() == config.height
                &&& forall|x: int, y: int|
                    0 <= x < config.width && 0 <= y < config.height ==> b.pixel(x, y)
                        == fractal_pixel(config.width as int, greens@, x, y)
            },
            Err(AllocationError::ZeroDimension) => config.width == 0 || config.height == 0,
            Err(AllocationError::TooLarge) => {
                &&& config.width > 0 && config.height > 0
                &&& config.width * config.height > usize::MAX
            },
        },
{
    let width = config.width;
    let height = config.height;
    let mut buf = match PixelBuffer::create(width, height) {
        Ok(b) => b,
        Err(e) => {
            return Err(e);
        },
    };
    let mut y: u32 = 0;
    while y < height
        invariant
            buf.wf(),
            buf.spec_width() == width,
            buf.spec_height() == height,
            y <= height,
            greens@.len() == width as int * height as int,
            width as int * height as int <= usize::MAX,
            forall|xx: int, yy: int|
                0 <= xx < width && 0 <= yy < y ==> #[trigger] buf.pixel(xx, yy) == fractal_pixel(
                    width as int,
                    greens@,
                    xx,
                    yy,
                ),
        decreases height - y,
    {
        let mut x: u32 = 0;
        while x < width
            invariant
                buf.wf(),
                buf.spec_width() == width,
                buf.spec_height() == height,
                y < height,
                x <= width,
                greens@.len() == width as int * height as int,
                width as int * height as int <= usize::MAX,
                forall|xx: int, yy: int|
                    0 <= xx < width && 0 <= yy < y ==> #[trigger] buf.pixel(xx, yy)
                        == fractal_pixel(width as int, greens@, xx, yy),
                forall|xx: int|
                    0 <= xx < x ==> #[trigger] buf.pixel(xx, y as int) == fractal_pixel(
                        width as int,
                        greens@,
                        xx,
                        y as int,
                    ),
            decreases width - x,
        {
            proof {
                lemma_rowmajor_bounds(width as int, height as int, x as int, y as int);
            }
            let idx: usize = (y as usize) * (width as usize) + (x as usize);
            let red = gradient_channel(x);
            let blue = gradient_channel(y);
            let green = greens[idx];
            buf.set(x, y, Rgb { red, green, blue });
            x = x + 1;
        }
        y = y + 1;
    }
    Ok(buf)
}

/// Determinism law: the fractal fill is a pure function of the dimensions
/// and the supplied escape counts — any two buffers that both satisfy its
/// postcondition hold identical pixels.
pub proof fn lemma_fill_deterministic(
    a: PixelBuffer,
    b: PixelBuffer,
    width: u32,
    height: u32,
    greens: Seq<u8>,
)
    requires
        a.wf(),
        b.wf(),
        a.spec_width() == width,
        b.spec_width() == width,
        a.spec_height() == height,
        b.spec_height() == height,
        forall|x: int, y: int|
            0 <= x < width && 0 <= y < height ==> #[trigger] a.pixel(x, y) == fractal_pixel(
                width as int,
                greens,
                x,
                y,
            ),
        forall|x: int, y: int|
            0 <= x < width && 0 <= y < height ==> #[trigger] b.pixel(x, y) == fractal_pixel(
                width as int,
                greens,
                x,
                y,
            ),
    ensures
        a@ == b@,
{
    let w = width as int;
    let h = height as int;
    assert(a@.len() == b@.len());
    assert forall|i: int| 0 <= i < a@.len() implies a@[i] == b@[i] by {
        let x = i % w;
        let y = i / w;
        vstd::arithmetic::div_mod::lemma_fundamental_div_mod(i, w);
        vstd::arithmetic::div_mod::lemma_mod_bound(i, w);
        assert(0 <= y < h) by (nonlinear_arith)
            requires
                i == w * y + x,
                0 <= x < w,
                0 <= i < w * h,
        ;
        assert(i == y * w + x);
        assert(a.pixel(x, y) == fractal_pixel(w, greens, x, y));
        assert(b.pixel(x, y) == fractal_pixel(w, greens, x, y));
    }
    assert(a@ =~= b@);
}

} // verus!
