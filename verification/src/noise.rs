//! Uniform-noise synthesis: every pixel gets three independent byte draws
//! from the process-global pseudo-random source.

use vstd::prelude::*;
use crate::buffer::AllocationError;
use crate::buffer::PixelBuffer;
use crate::buffer::Rgb;

verus! {

/// Relies on rand::random: one draw from the thread-local generator. The
/// value depends on hidden generator state, so nothing is promised of it;
/// callers treat every byte as possible.
pub assume_specification<T>[ rand::random::<T> ]() -> (r: T)
    where
        rand::distributions::Standard: rand::distributions::Distribution<T>,
;

/// Fills a fresh buffer of the given dimensions with three independent
/// uniform byte draws per pixel. Succeeds exactly when the dimensions can be
/// allocated; the pixel values themselves are random and carry no contract
/// beyond the byte range of their type.
pub fn fill_noise(width: u32, height: u32) -> (r: Result<PixelBuffer, AllocationError>)
    ensures
        r is Err <==> (width == 0 || height == 0 || width * height > usize::MAX),
        match r {
            Ok(b) => {
                &&& b.wf()
                &&& b.spec_width() == width
                &&& b.spec_height() == height
            },
            Err(AllocationError::ZeroDimension) => width == 0 || height == 0,
            Err(AllocationError::TooLarge) => {
                &&& width > 0 && height > 0
                &&& width * height > usize::MAX
            },
        },
{
    let mut buf = match PixelBuffer::create(width, height) {
        Ok(b) => b,
        Err(e) => {
            return Err(e);
        },
    };
    let mut y: u32 = 0;
    while y < height
        invariant
            buf.wf(),
            buf.spec_width() == width,
            buf.spec_height() == height,
            y <= height,
        decreases height - y,
    {
        let mut x: u32 = 0;
        while x < width
            invariant
                buf.wf(),
                buf.spec_width() == width,
                buf.spec_height() == height,
                y < height,
                x <= width,
            decreases width - x,
        {
            let red: u8 = rand::random();
            let green: u8 = rand::random();
            let blue: u8 = rand::random();
            buf.set(x, y, Rgb { red, green, blue });
            x = x + 1;
        }
        y = y + 1;
    }
    Ok(buf)
}

} // verus!
