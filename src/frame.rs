//! Captured frames: row-major RGBA pixel buffers with their source region.

use vstd::prelude::*;

verus! {

/// Bytes per pixel of an RGBA buffer.
pub const BYTES_PER_PIXEL: usize = 4;

/// Number of bytes in one row of an RGBA buffer `width` pixels wide.
pub open spec fn row_len(width: nat) -> nat {
    width * 4
}

/// Number of bytes of an RGBA buffer of the given size.
pub open spec fn buffer_len(width: nat, height: nat) -> nat {
    row_len(width) * height
}

/// A rectangle of the screen, in physical pixels.
#[derive(Clone, Copy, Debug, PartialEq, Eq, Structural)]
pub struct Region {
    pub x: i32,
    pub y: i32,
    pub width: u32,
    pub height: u32,
}

/// The abstract content of a frame.
pub ghost struct FrameView {
    pub width: nat,
    pub height: nat,
    pub pixels: Seq<u8>,
    pub timestamp: u64,
    pub region: Region,
}

impl FrameView {
    /// Dimensions that fit `u32`, and exactly `width * height` RGBA pixels.
    pub open spec fn valid(&self) -> bool {
        &&& self.width <= u32::MAX
        &&& self.height <= u32::MAX
        &&& self.pixels.len() == buffer_len(self.width, self.height)
    }
}

/// One captured screenshot of the scrolling region. Immutable once built.
#[derive(Clone, Debug)]
pub struct Frame {
    width: u32,
    height: u32,
    pixels: Vec<u8>,
    timestamp: u64,
    region: Region,
}

impl View for Frame {
    type V = FrameView;

    closed spec fn view(&self) -> FrameView {
        FrameView {
            width: self.width as nat,
            height: self.height as nat,
            pixels: self.pixels@,
            timestamp: self.timestamp,
            region: self.region,
        }
    }
}

impl Frame {
    /// The buffer holds exactly `width * height` RGBA pixels.
    pub open spec fn wf(&self) -> bool {
        self@.valid()
    }

    /// Builds a frame; `None` when `pixels` is not `width * height * 4` bytes long.
    pub fn new(width: u32, height: u32, pixels: Vec<u8>, timestamp: u64, region: Region) -> (r:
        Option<Frame>)
        ensures
            r is Some <==> pixels@.len() == buffer_len(width as nat, height as nat),
            r matches Some(f) ==> f.wf() && f@ == (FrameView {
                width: width as nat,
                height: height as nat,
                pixels: pixels@,
                timestamp,
                region,
            }),
    {
        let row: u128 = (width as u128) * 4;
        let h: u128 = height as u128;
        assert(row * h <= 0x4_0000_0000u128 * 0x1_0000_0000u128) by (nonlinear_arith)
            requires
                row <= 0x4_0000_0000u128,
                h <= 0x1_0000_0000u128,
        ;
        let expected: u128 = row * h;
        if (pixels.len() as u128) == expected {
            Some(Frame { width, height, pixels, timestamp, region })
        } else {
            None
        }
    }

    pub fn width(&self) -> (r: u32)
        ensures
            r as nat == self@.width,
    {
        self.width
    }

    pub fn height(&self) -> (r: u32)
        ensures
            r as nat == self@.height,
    {
        self.height
    }

    pub fn pixels(&self) -> (r: &[u8])
        ensures
            r@ == self@.pixels,
    {
        self.pixels.as_slice()
    }

    pub fn timestamp(&self) -> (r: u64)
        ensures
            r == self@.timestamp,
    {
        self.timestamp
    }

    pub fn region(&self) -> (r: Region)
        ensures
            r == self@.region,
    {
        self.region
    }
}

} // verus!
