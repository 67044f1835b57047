//! Scroll-screenshot capture and stitching: a frame store that grows a
//! composite image, an overlap detector that aligns consecutive frames, and a
//! session state machine that drives the two.

use vstd::prelude::*;

pub mod composite;
pub mod error;
pub mod frame;
pub mod laws;
pub mod session;
pub mod stitch;

verus! {

} // verus!
