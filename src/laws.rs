//! Properties of the stitching engine and of the session, proved over the
//! spec functions that the executable contracts use.

use vstd::prelude::*;
use crate::composite::{appended, ImageView};
use crate::frame::{buffer_len, FrameView, Region};
use crate::session::{
    accepts, after_handle, cleared, frame_misfits, handled, initialized, is_active, merged_image,
    repeats_last, session_ok, SessionState, SessionView,
};
use crate::stitch::{
    best_overlap, diff_sum, overlap_diff, overlap_len, overlap_matches, overlap_of, search_limit,
    whole_frame_repeats,
};

verus! {

/// The first `k` rows of the frame are byte for byte the last `k` rows of
/// the composite.
pub open spec fn rows_repeat(img: ImageView, frame: FrameView, k: nat) -> bool {
    let n = overlap_len(frame, k);
    &&& n <= img.pixels.len()
    &&& n <= frame.pixels.len()
    &&& img.pixels.subrange(img.pixels.len() - n, img.pixels.len() as int)
        == frame.pixels.subrange(0, n as int)
}

proof fn lemma_equal_runs_have_no_diff(a: Seq<u8>, a0: int, b: Seq<u8>, n: nat)
    requires
        0 <= a0,
        a0 + n <= a.len(),
        n <= b.len(),
        a.subrange(a0, a0 + n) == b.subrange(0, n as int),
    ensures
        diff_sum(a, a0, b, n) == 0,
    decreases n,
{
    if n > 0 {
        let m = (n - 1) as nat;
        assert(a.subrange(a0, a0 + m) =~= a.subrange(a0, a0 + n).subrange(0, m as int));
        assert(b.subrange(0, m as int) =~= b.subrange(0, n as int).subrange(0, m as int));
        lemma_equal_runs_have_no_diff(a, a0, b, m);
        assert(a.subrange(a0, a0 + n)[m as int] == b.subrange(0, n as int)[m as int]);
        assert(a.subrange(a0, a0 + n)[m as int] == a[a0 + m]);
        assert(b.subrange(0, n as int)[m as int] == b[m as int]);
        assert(a[a0 + n - 1] == b[n - 1]);
    }
}

proof fn lemma_best_overlap_is(img: ImageView, frame: FrameView, hi: nat, k: nat)
    requires
        k <= hi,
        k == 0 || overlap_matches(img, frame, k),
        forall|o: nat| k < o <= hi ==> !overlap_matches(img, frame, o),
    ensures
        best_overlap(img, frame, hi) == k,
    decreases hi,
{
    if hi > k {
        lemma_best_overlap_is(img, frame, (hi - 1) as nat, k);
    }
}

proof fn lemma_best_overlap_bounds(img: ImageView, frame: FrameView, hi: nat)
    ensures
        best_overlap(img, frame, hi) <= hi,
        best_overlap(img, frame, hi) > 0 ==> overlap_matches(
            img,
            frame,
            best_overlap(img, frame, hi),
        ),
        forall|o: nat|
            best_overlap(img, frame, hi) < o <= hi ==> !overlap_matches(img, frame, o),
    decreases hi,
{
    if hi > 0 {
        lemma_best_overlap_bounds(img, frame, (hi - 1) as nat);
    }
}

proof fn lemma_repeat_has_no_diff(img: ImageView, frame: FrameView, k: nat)
    requires
        rows_repeat(img, frame, k),
    ensures
        overlap_diff(img, frame, k) == 0,
        overlap_matches(img, frame, k),
{
    let n = overlap_len(frame, k);
    lemma_equal_runs_have_no_diff(img.pixels, img.pixels.len() - n, frame.pixels, n);
}

/// The overlap that `detect_overlap` picks: the whole frame, reported as a
/// duplicate, when every row of it repeats the composite's tail; otherwise
/// the largest overlap within the search limit at which the rows match, or 0
/// when none matches.
pub proof fn lemma_offset_is_largest_match(img: ImageView, frame: FrameView, max_rows: nat)
    requires
        frame.valid(),
    ensures
        whole_frame_repeats(img, frame) ==> overlap_of(img, frame, max_rows).offset == frame.height
            && overlap_of(img, frame, max_rows).is_duplicate,
        !whole_frame_repeats(img, frame) ==> ({
            let limit = search_limit(img, frame, max_rows);
            let o = overlap_of(img, frame, max_rows).offset as nat;
            &&& o <= limit
            &&& (o > 0 ==> overlap_matches(img, frame, o))
            &&& forall|p: nat| o < p <= limit ==> !overlap_matches(img, frame, p)
        }),
{
    lemma_best_overlap_bounds(img, frame, search_limit(img, frame, max_rows));
}

/// When the first `k` rows of a frame repeat the composite's last `k` rows
/// exactly, and no larger overlap matches (within the search limit, or the
/// whole frame), the detected overlap is `k`.
pub proof fn lemma_exact_overlap_detected(
    img: ImageView,
    frame: FrameView,
    max_rows: nat,
    k: nat,
)
    requires
        frame.valid(),
        k <= search_limit(img, frame, max_rows),
        rows_repeat(img, frame, k),
        forall|o: nat|
            k < o <= search_limit(img, frame, max_rows) ==> !overlap_matches(img, frame, o),
        k < frame.height ==> !whole_frame_repeats(img, frame),
    ensures
        overlap_of(img, frame, max_rows).offset == k,
{
    lemma_repeat_has_no_diff(img, frame, k);
    lemma_best_overlap_is(img, frame, search_limit(img, frame, max_rows), k);
}

/// A frame none of whose leading runs of rows matches the composite's tail is
/// appended whole: offset 0, every row new.
pub proof fn lemma_no_overlap_appends_whole_frame(
    img: ImageView,
    frame: FrameView,
    max_rows: nat,
)
    requires
        frame.valid(),
        forall|o: nat|
            1 <= o <= frame.height && o <= img.height ==> !overlap_matches(img, frame, o),
    ensures
        overlap_of(img, frame, max_rows).offset == 0,
        frame.height > 0 ==> !overlap_of(img, frame, max_rows).is_duplicate,
        appended(img, frame, 0).height == img.height + frame.height,
        appended(img, frame, 0).pixels == img.pixels + frame.pixels,
{
    lemma_best_overlap_is(img, frame, search_limit(img, frame, max_rows), 0);
    if frame.height > 0 {
        assert(!whole_frame_repeats(img, frame));
        assert(frame.pixels.subrange(0, frame.pixels.len() as int) =~= frame.pixels);
    } else {
        assert(frame.pixels =~= Seq::<u8>::empty());
    }
}

/// Two identical frames: when the composite ends with the frame's rows, the
/// frame is detected as a duplicate, whatever the search limit, and appending
/// it leaves the composite as it was.
pub proof fn lemma_identical_frame_is_duplicate(img: ImageView, frame: FrameView, max_rows: nat)
    requires
        frame.valid(),
        img.pixels.len() == buffer_len(img.width, img.height),
        img.width == frame.width,
        frame.height <= img.height,
        rows_repeat(img, frame, frame.height),
    ensures
        overlap_of(img, frame, max_rows).offset == frame.height,
        overlap_of(img, frame, max_rows).is_duplicate,
        appended(img, frame, overlap_of(img, frame, max_rows).offset as nat) == img,
{
    lemma_repeat_has_no_diff(img, frame, frame.height);
    assert(whole_frame_repeats(img, frame));
    let after = appended(img, frame, frame.height);
    assert(after.pixels =~= img.pixels);
}

/// A frame that repeats the session's last frame pixel for pixel is accepted
/// by an active session, reported as a duplicate, and leaves the composite
/// unchanged.
pub proof fn lemma_repeated_frame_is_noop(s: SessionView, frame: FrameView)
    requires
        session_ok(s),
        s.state != SessionState::Idle,
        repeats_last(s, frame),
    ensures
        accepts(s, frame),
        handled(s, frame).is_duplicate,
        merged_image(s, frame) == s.image,
{
    assert(merged_image(s, frame).pixels =~= s.image.pixels);
}

/// Right after a successful `init` the session is active, so a second `init`
/// without a `clear` in between is refused with `AlreadyActive`.
pub proof fn lemma_second_init_refused(s: SessionView, region: Region)
    ensures
        is_active(initialized(s, region).state),
{
}

/// Once the composite has a width, a frame of another width is refused with
/// `SizeMismatch` (and a refused frame changes nothing).
pub proof fn lemma_other_width_misfits(s: SessionView, frame: FrameView)
    requires
        session_ok(s),
        s.image.width > 0,
        frame.width != s.image.width,
    ensures
        frame_misfits(s, frame),
        !accepts(s, frame),
{
}

/// After `clear` the size is `(0, 0)`; a new `init`, a capture and the first
/// frame then give exactly that frame as the composite, as in a fresh session.
pub proof fn lemma_clear_then_first_frame(s: SessionView, region: Region, frame: FrameView)
    requires
        frame.valid(),
        frame.width == region.width,
    ensures
        cleared(s).image.width == 0,
        cleared(s).image.height == 0,
        ({
            let t = SessionView { state: SessionState::Capturing, ..initialized(cleared(s), region) };
            &&& accepts(t, frame)
            &&& handled(t, frame).offset == 0
            &&& (frame.height > 0 ==> !handled(t, frame).is_duplicate)
            &&& merged_image(t, frame) == (ImageView {
                width: frame.width,
                height: frame.height,
                pixels: frame.pixels,
            })
        }),
{
    let t = SessionView { state: SessionState::Capturing, ..initialized(cleared(s), region) };
    assert(search_limit(t.image, frame, t.max_search_rows) == 0);
    lemma_best_overlap_is(t.image, frame, 0, 0);
    let m = merged_image(t, frame);
    if frame.height > 0 {
        assert(frame.pixels.subrange(0, frame.pixels.len() as int) =~= frame.pixels);
    } else {
        assert(frame.pixels =~= Seq::<u8>::empty());
    }
    assert(m.pixels =~= frame.pixels);
}

/// The session after `handle_image` has accepted `frames` one after another.
pub open spec fn session_after(s: SessionView, frames: Seq<FrameView>) -> SessionView
    decreases frames.len(),
{
    if frames.len() == 0 {
        s
    } else {
        after_handle(session_after(s, frames.drop_last()), frames.last())
    }
}

/// Sum of the overlaps that `handle_image` reported for `frames`.
pub open spec fn total_offsets(s: SessionView, frames: Seq<FrameView>) -> nat
    decreases frames.len(),
{
    if frames.len() == 0 {
        0
    } else {
        total_offsets(s, frames.drop_last()) + handled(
            session_after(s, frames.drop_last()),
            frames.last(),
        ).offset as nat
    }
}

/// Sum of the frames' heights.
pub open spec fn total_height(frames: Seq<FrameView>) -> nat
    decreases frames.len(),
{
    if frames.len() == 0 {
        0
    } else {
        total_height(frames.drop_last()) + frames.last().height
    }
}

/// Sum of a sequence of row counts.
pub open spec fn total_rows(ks: Seq<nat>) -> nat
    decreases ks.len(),
{
    if ks.len() == 0 {
        0
    } else {
        total_rows(ks.drop_last()) + ks.last()
    }
}

proof fn lemma_handled_within_frame(s: SessionView, frame: FrameView)
    requires
        frame.valid(),
    ensures
        handled(s, frame).offset <= frame.height,
        merged_image(s, frame).height + handled(s, frame).offset == s.image.height
            + frame.height,
{
    lemma_best_overlap_bounds(s.image, frame, search_limit(s.image, frame, s.max_search_rows));
}

/// Over frames that `handle_image` accepts one after another, the composite
/// grows by the frames' heights less the reported overlaps: no row is
/// duplicated or dropped.
pub proof fn lemma_session_height(s: SessionView, frames: Seq<FrameView>)
    requires
        forall|i: int| 0 <= i < frames.len() ==> (#[trigger] frames[i]).valid(),
    ensures
        session_after(s, frames).image.height + total_offsets(s, frames) == s.image.height
            + total_height(frames),
    decreases frames.len(),
{
    if frames.len() > 0 {
        let fs = frames.drop_last();
        assert forall|i: int| 0 <= i < fs.len() implies (#[trigger] fs[i]).valid() by {
            assert(fs[i] == frames[i]);
        }
        lemma_session_height(s, fs);
        assert(frames[frames.len() - 1] == frames.last());
        lemma_handled_within_frame(session_after(s, fs), frames.last());
    }
}

/// Frame `i` begins with exactly `k` rows of the session's composite at its
/// turn, no larger overlap matches (within the search limit, or the whole
/// frame), and it is not a byte-for-byte repeat of the last frame.
pub open spec fn overlaps_by(
    s: SessionView,
    frames: Seq<FrameView>,
    i: int,
    k: nat,
) -> bool {
    let p = session_after(s, frames.take(i));
    let limit = search_limit(p.image, frames[i], p.max_search_rows);
    &&& k <= limit
    &&& rows_repeat(p.image, frames[i], k)
    &&& forall|o: nat| k < o <= limit ==> !overlap_matches(p.image, frames[i], o)
    &&& (k < frames[i].height ==> !whole_frame_repeats(p.image, frames[i]))
    &&& !repeats_last(p, frames[i])
}

/// When each frame's first `ks[i]` rows repeat the bottom of the composite
/// exactly, the height after `handle_image` has taken every frame is the
/// sum of the frame heights less the sum of the overlaps.
pub proof fn lemma_exact_overlaps_height(s: SessionView, frames: Seq<FrameView>, ks: Seq<nat>)
    requires
        ks.len() == frames.len(),
        forall|i: int| 0 <= i < frames.len() ==> (#[trigger] frames[i]).valid(),
        forall|i: int| 0 <= i < frames.len() ==> overlaps_by(s, frames, i, #[trigger] ks[i]),
    ensures
        total_offsets(s, frames) == total_rows(ks),
        session_after(s, frames).image.height + total_rows(ks) == s.image.height
            + total_height(frames),
    decreases frames.len(),
{
    lemma_session_height(s, frames);
    if frames.len() > 0 {
        let n = frames.len() - 1;
        let fs = frames.drop_last();
        let ps = ks.drop_last();
        assert forall|i: int| 0 <= i < fs.len() implies overlaps_by(s, fs, i, #[trigger] ps[i]) by {
            assert(fs.take(i) =~= frames.take(i));
            assert(fs[i] == frames[i]);
            assert(ps[i] == ks[i]);
            assert(overlaps_by(s, frames, i, ks[i]));
        }
        assert forall|i: int| 0 <= i < fs.len() implies (#[trigger] fs[i]).valid() by {
            assert(fs[i] == frames[i]);
        }
        lemma_exact_overlaps_height(s, fs, ps);
        assert(frames.take(n) =~= fs);
        assert(overlaps_by(s, frames, n, ks[n]));
        let p = session_after(s, fs);
        let f = frames.last();
        assert(frames[n] == f);
        lemma_exact_overlap_detected(p.image, f, p.max_search_rows, ks[n]);
        assert(ks.last() == ks[n]);
    }
}

} // verus!
