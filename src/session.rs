//! The capture orchestrator: one scroll-screenshot session and its state
//! machine. Screen capture and file or clipboard writing happen outside; the
//! session decides what each step means and keeps the composite consistent.

use vstd::prelude::*;
use crate::composite::{append_refused, appended, CompositeImage, ImageView};
use crate::error::ScrollError;
use crate::frame::{buffer_len, Frame, FrameView, Region};
use crate::stitch::{detect_overlap, overlap_of, OverlapResult, FULL_SIMILARITY};

verus! {

/// Where a session stands. `clear` brings any state back to `Idle`.
#[derive(Clone, Copy, Debug, PartialEq, Eq, Structural)]
pub enum SessionState {
    Idle,
    Initialized,
    Capturing,
    Finalized,
}

/// A session that `init` may not replace.
pub open spec fn is_active(s: SessionState) -> bool {
    s == SessionState::Initialized || s == SessionState::Capturing
}

/// What a capture needs from the session: the region, and the generation
/// that tells whether the session is still the one that asked.
#[derive(Clone, Copy, Debug, PartialEq, Eq, Structural)]
pub struct CaptureRequest {
    pub region: Region,
    pub generation: u64,
}

/// The abstract state of a session.
pub ghost struct SessionView {
    pub state: SessionState,
    pub region: Region,
    pub image: ImageView,
    pub last_frame: Option<FrameView>,
    pub frame_count: u64,
    pub generation: u64,
    pub max_search_rows: nat,
}

/// The next generation number, wrapping at `u64::MAX`.
pub open spec fn next_generation(g: u64) -> u64 {
    if g == u64::MAX {
        0
    } else {
        (g + 1) as u64
    }
}

/// The session after a successful `init` on `region`.
pub open spec fn initialized(s: SessionView, region: Region) -> SessionView {
    SessionView {
        state: SessionState::Initialized,
        region,
        image: ImageView { width: 0, height: 0, pixels: Seq::empty() },
        last_frame: None,
        frame_count: 0,
        generation: next_generation(s.generation),
        max_search_rows: s.max_search_rows,
    }
}

/// The session after `clear`.
pub open spec fn cleared(s: SessionView) -> SessionView {
    SessionView {
        state: SessionState::Idle,
        region: s.region,
        image: ImageView { width: 0, height: 0, pixels: Seq::empty() },
        last_frame: None,
        frame_count: 0,
        generation: next_generation(s.generation),
        max_search_rows: s.max_search_rows,
    }
}

/// The frame repeats, pixel for pixel, the last frame the session merged.
pub open spec fn repeats_last(s: SessionView, f: FrameView) -> bool {
    match s.last_frame {
        Some(l) => l.width == f.width && l.height == f.height && l.pixels == f.pixels,
        None => false,
    }
}

/// What `handle_image` reports for a frame it accepts.
pub open spec fn handled(s: SessionView, f: FrameView) -> OverlapResult {
    if repeats_last(s, f) {
        OverlapResult { offset: f.height as usize, confidence: 1000, is_duplicate: true }
    } else {
        overlap_of(s.image, f, s.max_search_rows)
    }
}

/// The composite after `handle_image` accepts a frame: the rows of the frame
/// past the reported overlap are appended (none for a duplicate).
pub open spec fn merged_image(s: SessionView, f: FrameView) -> ImageView {
    appended(s.image, f, handled(s, f).offset as nat)
}

/// `handle_image` refuses the frame for its geometry: another width than the
/// region, or a composite that would outgrow `u32` rows.
pub open spec fn frame_misfits(s: SessionView, f: FrameView) -> bool {
    f.width != s.region.width || append_refused(s.image, f, handled(s, f).offset as nat)
}

/// `handle_image` accepts the frame.
pub open spec fn accepts(s: SessionView, f: FrameView) -> bool {
    s.state != SessionState::Idle && !frame_misfits(s, f)
}

/// The session after `handle_image` accepts a frame.
pub open spec fn after_handle(s: SessionView, f: FrameView) -> SessionView {
    SessionView {
        state: if handled(s, f).is_duplicate {
            SessionState::Finalized
        } else {
            SessionState::Capturing
        },
        image: merged_image(s, f),
        last_frame: Some(f),
        frame_count: if s.frame_count == u64::MAX {
            u64::MAX
        } else {
            (s.frame_count + 1) as u64
        },
        ..s
    }
}

/// The invariant of a session: a well-formed composite whose width, once
/// set, is the region's; a last frame of the region's width; and nothing
/// held while idle.
pub open spec fn session_ok(v: SessionView) -> bool {
    &&& v.image.width <= u32::MAX
    &&& v.image.height <= u32::MAX
    &&& v.image.pixels.len() == buffer_len(v.image.width, v.image.height)
    &&& (v.image.width == 0 || v.image.width == v.region.width)
    &&& (v.image.height > 0 ==> v.image.width == v.region.width)
    &&& (v.last_frame matches Some(l) ==> l.valid() && l.width == v.region.width
        && v.image.width == v.region.width)
    &&& (v.state == SessionState::Idle ==> v.image.height == 0 && v.image.width == 0
        && v.last_frame is None && v.frame_count == 0)
}

/// The single scroll-screenshot session of a process.
#[derive(Debug)]
pub struct ScrollCapture {
    state: SessionState,
    region: Region,
    image: CompositeImage,
    last_frame: Option<Frame>,
    frame_count: u64,
    generation: u64,
    max_search_rows: u32,
}

impl View for ScrollCapture {
    type V = SessionView;

    closed spec fn view(&self) -> SessionView {
        SessionView {
            state: self.state,
            region: self.region,
            image: self.image@,
            last_frame: match self.last_frame {
                Some(f) => Some(f@),
                None => None,
            },
            frame_count: self.frame_count,
            generation: self.generation,
            max_search_rows: self.max_search_rows as nat,
        }
    }
}

impl ScrollCapture {
    /// The session invariant holds.
    pub open spec fn wf(&self) -> bool {
        session_ok(self@)
    }

    proof fn lemma_parts_wf(&self)
        requires
            self.wf(),
        ensures
            self.image.wf(),
            self.last_frame matches Some(l) ==> l.wf(),
    {
    }

    /// An idle session that will search up to `max_search_rows` rows of overlap.
    pub fn new(max_search_rows: u32) -> (r: ScrollCapture)
        ensures
            r.wf(),
            r@.state == SessionState::Idle,
            r@.image.height == 0,
            r@.generation == 0,
            r@.max_search_rows == max_search_rows as nat,
    {
        ScrollCapture {
            state: SessionState::Idle,
            region: Region { x: 0, y: 0, width: 0, height: 0 },
            image: CompositeImage::new(),
            last_frame: None,
            frame_count: 0,
            generation: 0,
            max_search_rows,
        }
    }

    pub fn state(&self) -> (r: SessionState)
        ensures
            r == self@.state,
    {
        self.state
    }

    pub fn frame_count(&self) -> (r: u64)
        ensures
            r == self@.frame_count,
    {
        self.frame_count
    }

    pub fn generation(&self) -> (r: u64)
        ensures
            r == self@.generation,
    {
        self.generation
    }

    /// Starts a session bound to `region`. Fails with `AlreadyActive`,
    /// changing nothing, while a session is `Initialized` or `Capturing`.
    pub fn init(&mut self, region: Region) -> (r: Result<(), ScrollError>)
        requires
            old(self).wf(),
        ensures
            final(self).wf(),
            r is Err <==> is_active(old(self)@.state),
            r is Err ==> r == Err::<(), ScrollError>(ScrollError::AlreadyActive) && final(self)@
                == old(self)@,
            r is Ok ==> final(self)@ == initialized(old(self)@, region),
    {
        if self.state == SessionState::Initialized || self.state == SessionState::Capturing {
            return Err(ScrollError::AlreadyActive);
        }
        self.image.reset();
        self.last_frame = None;
        self.frame_count = 0;
        self.region = region;
        self.state = SessionState::Initialized;
        self.generation = if self.generation == u64::MAX {
            0
        } else {
            self.generation + 1
        };
        Ok(())
    }

    /// Ends the session and frees the composite; always succeeds. A capture
    /// still in flight is discarded when it completes.
    pub fn clear(&mut self)
        requires
            old(self).wf(),
        ensures
            final(self).wf(),
            final(self)@ == cleared(old(self)@),
    {
        self.image.reset();
        self.last_frame = None;
        self.frame_count = 0;
        self.state = SessionState::Idle;
        self.generation = if self.generation == u64::MAX {
            0
        } else {
            self.generation + 1
        };
    }

    /// `(width, height)` of the composite; `(0, 0)` when idle.
    pub fn get_size(&self) -> (r: (u32, u32))
        requires
            self.wf(),
        ensures
            self@.state == SessionState::Idle ==> r == (0u32, 0u32),
            r.0 as nat == self@.image.width,
            r.1 as nat == self@.image.height,
    {
        self.image.current_size()
    }

    /// What the screen-capture provider is to be asked for. Fails with
    /// `NotInitialized` when idle.
    pub fn capture(&self) -> (r: Result<CaptureRequest, ScrollError>)
        ensures
            r is Err <==> self@.state == SessionState::Idle,
            r is Err ==> r == Err::<CaptureRequest, ScrollError>(ScrollError::NotInitialized),
            r matches Ok(q) ==> q.region == self@.region && q.generation == self@.generation,
    {
        if self.state == SessionState::Idle {
            return Err(ScrollError::NotInitialized);
        }
        Ok(CaptureRequest { region: self.region, generation: self.generation })
    }

    /// Takes what the provider returned for `request` (`None` when it failed).
    /// A result for a session that has since been cleared or replaced is
    /// discarded with `NotInitialized`; a failed capture is `CaptureFailed`.
    /// Both leave the session unchanged, so the caller may retry. A frame
    /// moves the session to `Capturing` and is handed back for `handle_image`.
    pub fn finish_capture(&mut self, request: CaptureRequest, outcome: Option<Frame>) -> (r:
        Result<Frame, ScrollError>)
        requires
            old(self).wf(),
        ensures
            final(self).wf(),
            r == Err::<Frame, ScrollError>(ScrollError::NotInitialized) <==> (old(self)@.state
                == SessionState::Idle || request.generation != old(self)@.generation),
            r == Err::<Frame, ScrollError>(ScrollError::CaptureFailed) <==> (old(self)@.state
                != SessionState::Idle && request.generation == old(self)@.generation
                && outcome is None),
            r is Ok <==> (old(self)@.state != SessionState::Idle && request.generation == old(
                self,
            )@.generation && outcome is Some),
            r is Err ==> final(self)@ == old(self)@,
            r matches Ok(f) ==> outcome matches Some(g) && f@ == g@ && final(self)@ == (
            SessionView { state: SessionState::Capturing, ..old(self)@ }),
    {
        if self.state == SessionState::Idle || request.generation != self.generation {
            return Err(ScrollError::NotInitialized);
        }
        match outcome {
            None => Err(ScrollError::CaptureFailed),
            Some(f) => {
                self.state = SessionState::Capturing;
                Ok(f)
            },
        }
    }

    /// Stitches `frame` onto the composite. A frame that repeats the last one
    /// pixel for pixel reports a duplicate without a search; otherwise the
    /// overlap is detected. The rows past the overlap are appended (none for
    /// a duplicate). A
    /// duplicate marks the end of the scrollable content (`Finalized`).
    /// Failures change nothing: `NotInitialized` when idle, `SizeMismatch`
    /// for a frame of another width than the region, or one that would grow
    /// the composite past `u32::MAX` rows.
    pub fn handle_image(&mut self, frame: Frame) -> (r: Result<OverlapResult, ScrollError>)
        requires
            old(self).wf(),
            frame.wf(),
        ensures
            final(self).wf(),
            r == Err::<OverlapResult, ScrollError>(ScrollError::NotInitialized) <==> old(
                self,
            )@.state == SessionState::Idle,
            r == Err::<OverlapResult, ScrollError>(ScrollError::SizeMismatch) <==> (old(
                self,
            )@.state != SessionState::Idle && frame_misfits(old(self)@, frame@)),
            r is Ok <==> accepts(old(self)@, frame@),
            r is Err ==> final(self)@ == old(self)@,
            r matches Ok(o) ==> o == handled(old(self)@, frame@) && final(self)@ == after_handle(
                old(self)@,
                frame@,
            ),
    {
        proof {
            self.lemma_parts_wf();
        }
        if self.state == SessionState::Idle {
            return Err(ScrollError::NotInitialized);
        }
        if frame.width() != self.region.width {
            return Err(ScrollError::SizeMismatch);
        }
        let repeated = match &self.last_frame {
            Some(l) => l.width() == frame.width() && l.height() == frame.height() && same_bytes(
                l.pixels(),
                frame.pixels(),
            ),
            None => false,
        };
        assert(repeated == repeats_last(self@, frame@));
        let result = if repeated {
            OverlapResult {
                offset: frame.height() as usize,
                confidence: FULL_SIMILARITY,
                is_duplicate: true,
            }
        } else {
            detect_overlap(&self.image, &frame, self.max_search_rows)
        };
        match self.image.append(&frame, result.offset) {
            Ok(()) => {},
            Err(e) => {
                return Err(e);
            },
        }
        self.state = if result.is_duplicate {
            SessionState::Finalized
        } else {
            SessionState::Capturing
        };
        self.frame_count = if self.frame_count == u64::MAX {
            u64::MAX
        } else {
            self.frame_count + 1
        };
        self.last_frame = Some(frame);
        Ok(result)
    }

    /// The composite to hand to the file or clipboard writer. Saving does not
    /// change the session, so later frames may still be appended. Fails with
    /// `NotInitialized` unless the session is `Capturing` or `Finalized`.
    pub fn save_source(&self) -> (r: Result<&CompositeImage, ScrollError>)
        requires
            self.wf(),
        ensures
            r is Ok <==> (self@.state == SessionState::Capturing || self@.state
                == SessionState::Finalized),
            r is Err ==> r == Err::<&CompositeImage, ScrollError>(ScrollError::NotInitialized),
            r matches Ok(img) ==> img@ == self@.image && img.wf(),
    {
        proof {
            self.lemma_parts_wf();
        }
        if self.state == SessionState::Capturing || self.state == SessionState::Finalized {
            Ok(&self.image)
        } else {
            Err(ScrollError::NotInitialized)
        }
    }
}

/// The outcome of a save, from whether the writer succeeded: `EncodeFailed`
/// when it did not.
pub fn save_outcome(written: bool) -> (r: Result<(), ScrollError>)
    ensures
        r is Ok <==> written,
        r is Err ==> r == Err::<(), ScrollError>(ScrollError::EncodeFailed),
{
    if written {
        Ok(())
    } else {
        Err(ScrollError::EncodeFailed)
    }
}

/// Whether two byte buffers are equal.
fn same_bytes(a: &[u8], b: &[u8]) -> (r: bool)
    ensures
        r == (a@ == b@),
{
    if a.len() != b.len() {
        return false;
    }
    let mut i: usize = 0;
    while i < a.len()
        invariant
            i <= a@.len(),
            a@.len() == b@.len(),
            a@.subrange(0, i as int) == b@.subrange(0, i as int),
        decreases a@.len() - i,
    {
        if a[i] != b[i] {
            assert(a@[i as int] != b@[i as int]);
            return false;
        }
        assert(a@.subrange(0, i + 1) =~= a@.subrange(0, i as int).push(a@[i as int]));
        assert(b@.subrange(0, i + 1) =~= b@.subrange(0, i as int).push(b@[i as int]));
        i = i + 1;
    }
    assert(a@ =~= a@.subrange(0, a@.len() as int));
    assert(b@ =~= b@.subrange(0, b@.len() as int));
    true
}

} // verus!
