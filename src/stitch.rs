//! The stitching engine: finds how many leading rows of a new frame repeat
//! the bottom rows of the composite.

use vstd::prelude::*;
use crate::composite::{CompositeImage, ImageView};
use crate::frame::{row_len, Frame, FrameView};
use vstd::arithmetic::div_mod::lemma_div_is_ordered;
use vstd::arithmetic::mul::lemma_mul_inequality;

verus! {

/// Largest mean absolute difference per byte (on the 0..=255 scale) at which
/// two runs of rows still count as the same content. It absorbs
/// anti-aliasing and compression noise.
pub const MAX_MEAN_DIFF: u64 = 4;

/// Similarity of an exact match, in thousandths.
pub const FULL_SIMILARITY: u32 = 1000;

/// What the stitching engine found for one frame.
#[derive(Clone, Copy, Debug, PartialEq, Eq, Structural)]
pub struct OverlapResult {
    /// Number of leading rows of the frame that repeat the composite's tail.
    pub offset: usize,
    /// Similarity of the chosen overlap (or, without one, the best candidate),
    /// in thousandths: 1000 is an exact match.
    pub confidence: u32,
    /// The frame holds no new rows: scrolling has reached the end.
    pub is_duplicate: bool,
}

pub open spec fn abs_diff(a: u8, b: u8) -> nat {
    if a >= b {
        (a - b) as nat
    } else {
        (b - a) as nat
    }
}

/// Sum of `|a[a0 + i] - b[i]|` over `i < n`.
pub open spec fn diff_sum(a: Seq<u8>, a0: int, b: Seq<u8>, n: nat) -> nat
    decreases n,
{
    if n == 0 {
        0
    } else {
        diff_sum(a, a0, b, (n - 1) as nat) + abs_diff(a[a0 + n - 1], b[n - 1])
    }
}

/// Number of bytes in `o` rows of the frame.
pub open spec fn overlap_len(frame: FrameView, o: nat) -> nat {
    row_len(frame.width) * o
}

/// Total absolute difference between the composite's last `o` rows and the
/// frame's first `o` rows.
pub open spec fn overlap_diff(img: ImageView, frame: FrameView, o: nat) -> nat {
    let n = overlap_len(frame, o);
    diff_sum(img.pixels, img.pixels.len() - n, frame.pixels, n)
}

/// The composite's last `o` rows and the frame's first `o` rows match: their
/// mean absolute difference is at most `MAX_MEAN_DIFF`.
pub open spec fn overlap_matches(img: ImageView, frame: FrameView, o: nat) -> bool {
    overlap_diff(img, frame, o) <= MAX_MEAN_DIFF * overlap_len(frame, o)
}

/// Similarity of an overlap of `o` rows, in thousandths.
pub open spec fn similarity(img: ImageView, frame: FrameView, o: nat) -> nat {
    let n = overlap_len(frame, o);
    if n == 0 {
        1000
    } else {
        (1000 - (overlap_diff(img, frame, o) * 1000) / (255 * n)) as nat
    }
}

/// Largest overlap that may be tried: none across a width change, else
/// bounded by both heights and by `max_rows`.
pub open spec fn search_limit(img: ImageView, frame: FrameView, max_rows: nat) -> nat {
    if img.width != frame.width {
        0
    } else {
        let a = if img.height < frame.height {
            img.height
        } else {
            frame.height
        };
        if a < max_rows {
            a
        } else {
            max_rows
        }
    }
}

/// The largest `o` in `1..=hi` at which the rows match, or 0.
pub open spec fn best_overlap(img: ImageView, frame: FrameView, hi: nat) -> nat
    decreases hi,
{
    if hi == 0 {
        0
    } else if overlap_matches(img, frame, hi) {
        hi
    } else {
        best_overlap(img, frame, (hi - 1) as nat)
    }
}

/// The highest similarity over the overlaps `lo + 1..=hi` (0 when there are none).
pub open spec fn best_similarity(img: ImageView, frame: FrameView, lo: nat, hi: nat) -> nat
    decreases hi - lo,
{
    if lo >= hi {
        0
    } else {
        let s = similarity(img, frame, lo + 1);
        let rest = best_similarity(img, frame, lo + 1, hi);
        if s > rest {
            s
        } else {
            rest
        }
    }
}

/// Every row of the frame repeats the composite's tail (within the
/// tolerance): the frame brings nothing new.
pub open spec fn whole_frame_repeats(img: ImageView, frame: FrameView) -> bool {
    &&& img.width == frame.width
    &&& frame.height <= img.height
    &&& overlap_matches(img, frame, frame.height)
}

/// What `detect_overlap` reports for a composite and a frame: a duplicate
/// when the whole frame repeats the tail, whatever the search limit;
/// otherwise the largest matching overlap within the limit.
pub open spec fn overlap_of(img: ImageView, frame: FrameView, max_rows: nat) -> OverlapResult {
    let limit = search_limit(img, frame, max_rows);
    let o = best_overlap(img, frame, limit);
    if whole_frame_repeats(img, frame) {
        OverlapResult {
            offset: frame.height as usize,
            confidence: similarity(img, frame, frame.height) as u32,
            is_duplicate: true,
        }
    } else {
        OverlapResult {
        offset: o as usize,
        confidence: if o > 0 {
            similarity(img, frame, o) as u32
        } else {
            best_similarity(img, frame, 0, limit) as u32
        },
        is_duplicate: o == frame.height,
    }
    }
}

proof fn lemma_diff_sum_bound(a: Seq<u8>, a0: int, b: Seq<u8>, n: nat)
    ensures
        diff_sum(a, a0, b, n) <= 255 * n,
    decreases n,
{
    if n > 0 {
        lemma_diff_sum_bound(a, a0, b, (n - 1) as nat);
    }
}

/// Sum of absolute byte differences between `a[a0..a0 + n]` and `b[..n]`.
fn diff_total(a: &[u8], a0: usize, b: &[u8], n: usize) -> (r: u128)
    requires
        a0 + n <= a@.len(),
        n <= b@.len(),
    ensures
        r == diff_sum(a@, a0 as int, b@, n as nat),
{
    let alen: usize = a.len();
    let mut sum: u128 = 0;
    let mut i: usize = 0;
    while i < n
        invariant
            i <= n,
            alen == a@.len(),
            a0 + n <= a@.len(),
            n <= b@.len(),
            sum == diff_sum(a@, a0 as int, b@, i as nat),
        decreases n - i,
    {
        proof {
            lemma_diff_sum_bound(a@, a0 as int, b@, i as nat);
        }
        let x = a[a0 + i];
        let y = b[i];
        let d: u8 = if x >= y {
            x - y
        } else {
            y - x
        };
        sum = sum + d as u128;
        i = i + 1;
    }
    sum
}

/// Similarity, in thousandths, of `n` bytes whose absolute differences sum to `d`.
fn similarity_of(d: u128, n: usize) -> (r: u32)
    requires
        d <= 255 * n,
    ensures
        r as nat == (if n == 0 {
            1000
        } else {
            (1000 - (d * 1000) / (255 * n)) as nat
        }),
        r <= FULL_SIMILARITY,
{
    if n == 0 {
        FULL_SIMILARITY
    } else {
        let scale: u128 = 255 * (n as u128);
        assert(d * 1000 <= scale * 1000) by (nonlinear_arith)
            requires
                d <= scale,
        ;
        let q: u128 = (d * 1000) / scale;
        proof {
            lemma_div_is_ordered((d * 1000) as int, (scale * 1000) as int, scale as int);
            assert(((scale as int) * 1000) / (scale as int) == 1000) by (nonlinear_arith)
                requires
                    scale > 0,
            ;
        }
        FULL_SIMILARITY - q as u32
    }
}

/// Total absolute difference and byte count of an overlap of `o` rows.
fn overlap_stats(previous: &CompositeImage, next: &Frame, o: u32) -> (r: (u128, usize))
    requires
        previous.wf(),
        next.wf(),
        previous@.width == next@.width,
        o <= previous@.height,
        o <= next@.height,
    ensures
        r.1 == overlap_len(next@, o as nat),
        r.0 == overlap_diff(previous@, next@, o as nat),
        r.0 <= 255 * r.1,
{
    let ghost img = previous@;
    let ghost f = next@;
    let tail = previous.snapshot();
    let src = next.pixels();
    let tlen: usize = tail.len();
    let row_wide: u128 = (next.width() as u128) * 4;
    let ghost row = row_len(f.width);
    assert(row_wide * (o as u128) <= 0x4_0000_0000u128 * 0x1_0000_0000u128) by (nonlinear_arith)
        requires
            row_wide <= 0x4_0000_0000u128,
            o < 0x1_0000_0000u128,
    ;
    proof {
        lemma_mul_inequality(o as int, f.height as int, row as int);
        lemma_mul_inequality(o as int, img.height as int, row as int);
        assert(row * o == o * row) by (nonlinear_arith);
        assert(row * f.height == f.height * row) by (nonlinear_arith);
        assert(row * img.height == img.height * row) by (nonlinear_arith);
    }
    let n: usize = (row_wide * (o as u128)) as usize;
    let d = diff_total(tail, tlen - n, src, n);
    proof {
        lemma_diff_sum_bound(tail@, (tlen - n) as int, src@, n as nat);
    }
    (d, n)
}

/// Reports a duplicate when every row of `next` repeats the composite's
/// trailing rows. Otherwise compares the trailing rows with `next`'s leading
/// rows for each overlap from the largest allowed one down to one row, and
/// takes the first that matches: the largest, so that no row is duplicated.
/// Without a match the offset is 0 and the confidence is the best similarity
/// seen.
pub fn detect_overlap(previous: &CompositeImage, next: &Frame, max_search_rows: u32) -> (r:
    OverlapResult)
    requires
        previous.wf(),
        next.wf(),
    ensures
        r == overlap_of(previous@, next@, max_search_rows as nat),
{
    let ghost img = previous@;
    let ghost f = next@;
    let (pw, ph) = previous.current_size();
    let fw = next.width();
    let fh = next.height();
    if pw == fw && fh <= ph {
        let (d, n) = overlap_stats(previous, next, fh);
        if d <= (MAX_MEAN_DIFF as u128) * (n as u128) {
            let s = similarity_of(d, n);
            return OverlapResult { offset: fh as usize, confidence: s, is_duplicate: true };
        }
    }
    assert(!whole_frame_repeats(img, f));
    let limit: u32 = if pw != fw {
        0
    } else {
        let a = if ph < fh {
            ph
        } else {
            fh
        };
        if a < max_search_rows {
            a
        } else {
            max_search_rows
        }
    };
    assert(limit == search_limit(img, f, max_search_rows as nat));
    let mut o: u32 = limit;
    let mut best: u32 = 0;
    while o > 0
        invariant
            o <= limit,
            limit == search_limit(img, f, max_search_rows as nat),
            img == previous@,
            f == next@,
            previous.wf(),
            next.wf(),
            fw as nat == f.width,
            fh as nat == f.height,
            !whole_frame_repeats(img, f),
            best == best_similarity(img, f, o as nat, limit as nat),
            best <= FULL_SIMILARITY,
            best_overlap(img, f, limit as nat) == best_overlap(img, f, o as nat),
        decreases o,
    {
        let (d, n) = overlap_stats(previous, next, o);
        let s = similarity_of(d, n);
        assert(s as nat == similarity(img, f, o as nat));
        if d <= (MAX_MEAN_DIFF as u128) * (n as u128) {
            assert(overlap_matches(img, f, o as nat));
            return OverlapResult { offset: o as usize, confidence: s, is_duplicate: o == fh };
        }
        if s > best {
            best = s;
        }
        o = o - 1;
    }
    OverlapResult { offset: 0, confidence: best, is_duplicate: fh == 0 }
}

} // verus!
