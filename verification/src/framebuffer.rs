//! The render target's bookkeeping. The drawing itself goes through the
//! graphics library at the program's edge; what is verified here is the
//! coordinate arithmetic the target performs before every copy: the
//! vertical flip into the library's bottom-left origin and the byte bound
//! of a readback.

use vstd::prelude::*;

verus! {

/// One render target with its pixel dimensions.
#[derive(Clone, Copy, PartialEq, Eq, Structural, Debug)]
pub struct Framebuffer {
    pub width: i32,
    pub height: i32,
}

impl Framebuffer {
    pub open spec fn wf(self) -> bool {
        0 <= self.width && 0 <= self.height
    }

    /// Where a readback rectangle starts in the library's bottom-left
    /// coordinate system: the vertical axis flips.
    pub fn flip_y(&self, y: i32, copy_height: i32) -> (r: i32)
        requires
            self.wf(),
            0 <= y,
            0 <= copy_height,
            y + copy_height <= self.height,
        ensures
            r == self.height - y - copy_height,
            0 <= r <= self.height,
    {
        self.height - y - copy_height
    }

    /// A readback of `width x height` pixels at `bytes_per_pixel` fits a
    /// buffer of `available` bytes.
    pub fn readback_fits(
        &self,
        width: i32,
        height: i32,
        bytes_per_pixel: u32,
        available: usize,
    ) -> (r: bool)
        requires
            0 <= width,
            0 <= height,
        ensures
            r == (width * height * bytes_per_pixel <= available),
    {
        proof {
            assert((width as int) * (height as int) <= 0x4000_0000_0000_0000) by (nonlinear_arith)
                requires
                    0 <= width < 0x8000_0000,
                    0 <= height < 0x8000_0000,
            ;
        }
        let pixels = (width as u128) * (height as u128);
        proof {
            assert((pixels as int) * (bytes_per_pixel as int) <= 0x4000_0000_0000_0000 * 0x1_0000_0000)
                by (nonlinear_arith)
                requires
                    0 <= pixels <= 0x4000_0000_0000_0000,
                    0 <= bytes_per_pixel < 0x1_0000_0000,
            ;
        }
        let bytes = pixels * (bytes_per_pixel as u128);
        proof {
            assert(bytes == width * height * bytes_per_pixel) by (nonlinear_arith)
                requires
                    pixels == (width as int) * (height as int),
                    bytes == (pixels as int) * (bytes_per_pixel as int),
            ;
        }
        bytes <= available as u128
    }
}

} // verus!
