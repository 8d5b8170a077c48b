//! Format negotiation and per-frame processing for a video stage that
//! highlights a fiducial marker.
//!
//! The stage takes three-channel frames. It hands them on with the marker
//! outlined, or reduced to one brightness sample per pixel.
//!
//! - [`format`]: pixel layouts, and the formats that neighbours offer.
//! - [`negotiate`]: which formats one side can have, given the other side's.
//! - [`descriptor`]: the agreed format of one side, checked.
//! - [`lifecycle`]: the formats of the running stream.
//! - [`frame`]: where the bytes of a frame lie in its buffer.
//! - [`marker`]: what the detector reports, and the outline drawn for it.
//! - [`settings`]: how brightness is changed before it is written.
//! - [`transform`]: processing one frame.
//!
//! The library finds no markers itself. Whoever runs it hands over, with
//! each frame, what a detector has found in it.

pub mod descriptor;
pub mod format;
pub mod frame;
pub mod lifecycle;
pub mod marker;
pub mod negotiate;
pub mod settings;
pub mod transform;
