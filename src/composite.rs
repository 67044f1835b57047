//! The frame store: a composite RGBA image whose width is fixed by its first
//! frame and whose height only grows.

use vstd::prelude::*;
use crate::error::ScrollError;
use crate::frame::{buffer_len, row_len, Frame, FrameView};
use vstd::arithmetic::mul::{
    lemma_mul_inequality, lemma_mul_is_distributive_add, lemma_mul_is_distributive_sub,
};

verus! {

/// The abstract content of a composite image.
pub ghost struct ImageView {
    pub width: nat,
    pub height: nat,
    pub pixels: Seq<u8>,
}

/// The bytes of rows `from..height` of a row-major RGBA buffer (none when
/// `from >= height`).
pub open spec fn rows_from(pixels: Seq<u8>, width: nat, height: nat, from: nat) -> Seq<u8> {
    if from >= height {
        Seq::empty()
    } else {
        pixels.subrange((row_len(width) * from) as int, pixels.len() as int)
    }
}

/// Number of rows of a frame of `height` rows that remain after skipping `skip`.
pub open spec fn rows_after(height: nat, skip: nat) -> nat {
    if skip >= height {
        0
    } else {
        (height - skip) as nat
    }
}

/// Whether `append` refuses a frame: the composite already has rows of another
/// width, or the grown height would not fit in `u32`.
pub open spec fn append_refused(img: ImageView, frame: FrameView, skip: nat) -> bool {
    (img.height > 0 && frame.width != img.width) || img.height + rows_after(frame.height, skip)
        > u32::MAX
}

/// The composite after the rows of `frame` from `skip` on are added at its bottom.
/// An empty composite takes the frame's width.
pub open spec fn appended(img: ImageView, frame: FrameView, skip: nat) -> ImageView {
    ImageView {
        width: if img.height == 0 {
            frame.width
        } else {
            img.width
        },
        height: img.height + rows_after(frame.height, skip),
        pixels: img.pixels + rows_from(frame.pixels, frame.width, frame.height, skip),
    }
}

/// The accumulated, stitched image.
#[derive(Debug)]
pub struct CompositeImage {
    width: u32,
    height: u32,
    pixels: Vec<u8>,
}

impl View for CompositeImage {
    type V = ImageView;

    closed spec fn view(&self) -> ImageView {
        ImageView { width: self.width as nat, height: self.height as nat, pixels: self.pixels@ }
    }
}

impl CompositeImage {
    /// Dimensions that fit `u32`, and exactly `width * height` RGBA pixels.
    pub open spec fn wf(&self) -> bool {
        &&& self@.width <= u32::MAX
        &&& self@.height <= u32::MAX
        &&& self@.pixels.len() == buffer_len(self@.width, self@.height)
    }

    /// An empty composite: no rows and no width yet.
    pub fn new() -> (r: CompositeImage)
        ensures
            r.wf(),
            r@.width == 0,
            r@.height == 0,
            r@.pixels == Seq::<u8>::empty(),
    {
        CompositeImage { width: 0, height: 0, pixels: Vec::new() }
    }

    /// Number of rows merged so far.
    pub fn current_height(&self) -> (r: u32)
        ensures
            r as nat == self@.height,
    {
        self.height
    }

    /// `(width, height)` of the composite.
    pub fn current_size(&self) -> (r: (u32, u32))
        ensures
            r.0 as nat == self@.width,
            r.1 as nat == self@.height,
    {
        (self.width, self.height)
    }

    /// The pixel buffer as it stands; a valid image between any two steps.
    pub fn snapshot(&self) -> (r: &[u8])
        ensures
            r@ == self@.pixels,
    {
        self.pixels.as_slice()
    }

    /// Copies the rows of `frame` from `skip_rows` on onto the bottom of the
    /// composite. Fails with `SizeMismatch`, changing nothing, when the
    /// composite has rows of another width or would grow past `u32::MAX` rows.
    pub fn append(&mut self, frame: &Frame, skip_rows: usize) -> (r: Result<(), ScrollError>)
        requires
            old(self).wf(),
            frame.wf(),
        ensures
            final(self).wf(),
            r is Err <==> append_refused(old(self)@, frame@, skip_rows as nat),
            r is Err ==> r == Err::<(), ScrollError>(ScrollError::SizeMismatch) && final(self)@
                == old(self)@,
            r is Ok ==> final(self)@ == appended(old(self)@, frame@, skip_rows as nat),
    {
        let fw = frame.width();
        let fh = frame.height();
        if self.height > 0 && fw != self.width {
            return Err(ScrollError::SizeMismatch);
        }
        let added: u32 = if skip_rows >= fh as usize {
            0
        } else {
            fh - skip_rows as u32
        };
        if (self.height as u64) + (added as u64) > (u32::MAX as u64) {
            return Err(ScrollError::SizeMismatch);
        }
        let src = frame.pixels();
        let ghost old_px = self.pixels@;
        let ghost old_w = self.width;
        let ghost old_h = self.height;
        let ghost row = row_len(fw as nat);
        if added > 0 {
            proof {
                lemma_mul_inequality(skip_rows as int, fh as int, row as int);
                lemma_mul_is_distributive_sub(row as int, fh as int, skip_rows as int);
            }
            let n: usize = src.len();
            let row_wide: u128 = (fw as u128) * 4;
            assert(row_wide * (skip_rows as u128) <= 0x4_0000_0000u128 * 0x1_0000_0000u128)
                by (nonlinear_arith)
                requires
                    row_wide <= 0x4_0000_0000u128,
                    skip_rows < 0x1_0000_0000u128,
            ;
            let start_wide: u128 = row_wide * (skip_rows as u128);
            assert(start_wide <= n);
            let start: usize = start_wide as usize;
            let mut i: usize = start;
            while i < src.len()
                invariant
                    start <= i <= src@.len(),
                    src@ == frame@.pixels,
                    self.pixels@ == old_px + src@.subrange(start as int, i as int),
                    self.width == old_w,
                    self.height == old_h,
                decreases src@.len() - i,
            {
                self.pixels.push(src[i]);
                i = i + 1;
            }
            assert(src@.subrange(start as int, i as int) == rows_from(
                frame@.pixels,
                frame@.width,
                frame@.height,
                skip_rows as nat,
            ));
        } else {
            assert(rows_from(frame@.pixels, frame@.width, frame@.height, skip_rows as nat)
                =~= Seq::<u8>::empty());
            assert(self.pixels@ =~= old_px + Seq::<u8>::empty());
        }
        if self.height == 0 {
            self.width = fw;
        }
        let ghost h0 = self.height as int;
        self.height = self.height + added;
        proof {
            assert(row_len(self.width as nat) == row);
            if h0 == 0 {
                assert(old_px.len() == row_len(old_w as nat) * old_h);
                assert(row_len(old_w as nat) * old_h == 0) by (nonlinear_arith)
                    requires
                        old_h == 0,
                ;
                assert(row * h0 == 0);
            } else {
                assert(old_w == fw);
            }
            assert(old_px.len() == row * h0);
            if added == 0 {
                assert(row * added == 0);
            }
            assert(self.pixels@.len() == old_px.len() + row * added);
            lemma_mul_is_distributive_add(row as int, h0, added as int);
        }
        Ok(())
    }

    /// Drops the buffer and returns to the empty state.
    pub fn reset(&mut self)
        ensures
            final(self).wf(),
            final(self)@.width == 0,
            final(self)@.height == 0,
            final(self)@.pixels == Seq::<u8>::empty(),
    {
        self.width = 0;
        self.height = 0;
        self.pixels = Vec::new();
    }
}

} // verus!
