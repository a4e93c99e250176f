//! Verified core of a batch front end that drives the Lada mosaic-restoration
//! engine through Docker: settings, Docker and ffmpeg command lines, parsing of
//! the tools' output, and the decisions that the job runner takes on it.
use vstd::prelude::*;

pub mod docker;
pub mod files;
pub mod laws;
pub mod patterns;
pub mod progress;
pub mod settings;
pub mod text;
pub mod tool_output;
pub mod vr;

verus! {

} // verus!
