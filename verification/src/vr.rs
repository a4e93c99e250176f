//! The VR (side-by-side) pipeline as a state machine: stage the source onto
//! the work drive, split it into its two eyes, restore each eye with Lada,
//! rejoin them with the source's audio, and stage the result back out. The
//! runner performs each step and reports whether it succeeded; `vr_next`
//! decides what comes next.
use vstd::prelude::*;

use crate::files::VrStage;
use crate::text::{chars_of, lemma_string_views_push, starts_with, strip_prefix_chars, string_views};

verus! {

/// The steps of a VR job, in the order they run.
#[derive(Clone, Copy, Debug, PartialEq, Eq)]
pub enum VrStep {
    /// Copy the source onto the work drive under a plain name.
    CopyIn,
    /// Split the staged source into its left and right halves.
    Split,
    /// Lada on the left half.
    LeftPass,
    /// Lada on the right half.
    RightPass,
    /// Rejoin the restored halves with the source's audio.
    Merge,
    /// Check that the merged file is there and not empty.
    CheckMerged,
    /// Copy the merged file to the output folder.
    CopyOut,
    /// Check that the copied output is there and not empty.
    CheckOutput,
}

/// What the runner does next, as the contracts see it.
pub enum VrMove {
    Run(VrStep),
    Fail(VrStage, Seq<char>),
    OutputInvalid,
    Stop,
    Finish,
}

/// What the runner does next.
#[derive(Debug)]
pub enum VrAction {
    /// Perform this step and report how it went.
    Run(VrStep),
    /// Report that this stage failed with this error, remove the work folder
    /// and end the job.
    Fail(VrStage, String),
    /// Report that the output is missing or invalid and end the job (the work
    /// folder is already gone).
    OutputInvalid,
    /// End the job without a report (it was cancelled, or a Lada pass has
    /// reported its own end), removing the work folder.
    Stop,
    /// The output is in place: settle the original and report success.
    Finish,
}

impl View for VrAction {
    type V = VrMove;

    open spec fn view(&self) -> VrMove {
        match self {
            VrAction::Run(s) => VrMove::Run(*s),
            VrAction::Fail(stage, e) => VrMove::Fail(*stage, e@),
            VrAction::OutputInvalid => VrMove::OutputInvalid,
            VrAction::Stop => VrMove::Stop,
            VrAction::Finish => VrMove::Finish,
        }
    }
}

/// The position of a step in the pipeline, from 0.
pub open spec fn step_index(s: VrStep) -> nat {
    match s {
        VrStep::CopyIn => 0,
        VrStep::Split => 1,
        VrStep::LeftPass => 2,
        VrStep::RightPass => 3,
        VrStep::Merge => 4,
        VrStep::CheckMerged => 5,
        VrStep::CopyOut => 6,
        VrStep::CheckOutput => 7,
    }
}

/// The error reported when the merged file is missing or too small.
pub open spec fn merged_invalid_error() -> Seq<char> {
    "merged output missing/invalid"@
}

/// Ends a failed copy, split or merge: quietly when the job was cancelled,
/// else with the stage's failure.
pub open spec fn fail_unless_cancelled(stage: VrStage, error: Seq<char>, cancelled: bool) -> VrMove {
    if cancelled {
        VrMove::Stop
    } else {
        VrMove::Fail(stage, error)
    }
}

/// What follows `step`, which succeeded (`ok`) or failed with `error`, when
/// the job is (or is not) `cancelled`.
/// - A failed copy, split or merge fails the job with its stage, unless the
///   job was cancelled; a split that succeeded still stops a cancelled job.
/// - A Lada pass that did not succeed ends the job quietly: it was cancelled,
///   or the pass has already reported why it gave up.
/// - A merged file that is missing fails the merge stage; an output that is
///   missing after the copy is reported as such.
/// - Otherwise the next step runs, and after the last one the job finishes.
pub open spec fn vr_next_spec(step: VrStep, ok: bool, error: Seq<char>, cancelled: bool) -> VrMove {
    match step {
        VrStep::CopyIn => if ok {
            VrMove::Run(VrStep::Split)
        } else {
            fail_unless_cancelled(VrStage::CopyIn, error, cancelled)
        },
        VrStep::Split => if !ok {
            fail_unless_cancelled(VrStage::Split, error, cancelled)
        } else if cancelled {
            VrMove::Stop
        } else {
            VrMove::Run(VrStep::LeftPass)
        },
        VrStep::LeftPass => if ok {
            VrMove::Run(VrStep::RightPass)
        } else {
            VrMove::Stop
        },
        VrStep::RightPass => if ok {
            VrMove::Run(VrStep::Merge)
        } else {
            VrMove::Stop
        },
        VrStep::Merge => if ok {
            VrMove::Run(VrStep::CheckMerged)
        } else {
            fail_unless_cancelled(VrStage::Merge, error, cancelled)
        },
        VrStep::CheckMerged => if ok {
            VrMove::Run(VrStep::CopyOut)
        } else {
            VrMove::Fail(VrStage::Merge, merged_invalid_error())
        },
        VrStep::CopyOut => if ok {
            VrMove::Run(VrStep::CheckOutput)
        } else {
            fail_unless_cancelled(VrStage::CopyOut, error, cancelled)
        },
        VrStep::CheckOutput => if ok {
            VrMove::Finish
        } else {
            VrMove::OutputInvalid
        },
    }
}

fn fail_unless_cancelled_exec(stage: VrStage, error: &str, cancelled: bool) -> (r: VrAction)
    ensures
        r@ == fail_unless_cancelled(stage, error@, cancelled),
{
    if cancelled {
        VrAction::Stop
    } else {
        VrAction::Fail(stage, String::from_str(error))
    }
}

/// Decides what a VR job does after `step` ran: `ok` is whether it succeeded,
/// `error` what went wrong when it did not, `cancelled` whether the user has
/// cancelled. A job starts with `VrStep::CopyIn`.
pub fn vr_next(step: VrStep, ok: bool, error: &str, cancelled: bool) -> (r: VrAction)
    ensures
        r@ == vr_next_spec(step, ok, error@, cancelled),
{
    match step {
        VrStep::CopyIn => if ok {
            VrAction::Run(VrStep::Split)
        } else {
            fail_unless_cancelled_exec(VrStage::CopyIn, error, cancelled)
        },
        VrStep::Split => if !ok {
            fail_unless_cancelled_exec(VrStage::Split, error, cancelled)
        } else if cancelled {
            VrAction::Stop
        } else {
            VrAction::Run(VrStep::LeftPass)
        },
        VrStep::LeftPass => if ok {
            VrAction::Run(VrStep::RightPass)
        } else {
            VrAction::Stop
        },
        VrStep::RightPass => if ok {
            VrAction::Run(VrStep::Merge)
        } else {
            VrAction::Stop
        },
        VrStep::Merge => if ok {
            VrAction::Run(VrStep::CheckMerged)
        } else {
            fail_unless_cancelled_exec(VrStage::Merge, error, cancelled)
        },
        VrStep::CheckMerged => if ok {
            VrAction::Run(VrStep::CopyOut)
        } else {
            VrAction::Fail(VrStage::Merge, String::from_str("merged output missing/invalid"))
        },
        VrStep::CopyOut => if ok {
            VrAction::Run(VrStep::CheckOutput)
        } else {
            fail_unless_cancelled_exec(VrStage::CopyOut, error, cancelled)
        },
        VrStep::CheckOutput => if ok {
            VrAction::Finish
        } else {
            VrAction::OutputInvalid
        },
    }
}

/// The message of a VR job whose output is missing or invalid after the copy.
pub fn vr_output_invalid_message() -> (r: String)
    ensures
        r@ == "VR: merged output missing/invalid"@,
{
    String::from_str("VR: merged output missing/invalid")
}

/// The work files that are no longer needed once `step` has succeeded, by
/// name in the work folder: each half once Lada restored it, and the restored
/// halves and the staged source once the merged file is there.
pub open spec fn vr_freed_files(step: VrStep, staged_name: Seq<char>) -> Seq<Seq<char>> {
    match step {
        VrStep::LeftPass => seq!["vr_left.mp4"@],
        VrStep::RightPass => seq!["vr_right.mp4"@],
        VrStep::CheckMerged => seq!["vr_left_out.mp4"@, "vr_right_out.mp4"@, staged_name],
        _ => seq![],
    }
}

/// The work files to delete once `step` has succeeded (`staged_name` is the
/// name of the staged source).
pub fn vr_files_to_free(step: VrStep, staged_name: &str) -> (r: Vec<String>)
    ensures
        string_views(r@) == vr_freed_files(step, staged_name@),
{
    let mut v: Vec<String> = Vec::new();
    let ghost v0 = v@;
    assert(string_views(v0) =~= seq![]);
    match step {
        VrStep::LeftPass => {
            let s = String::from_str("vr_left.mp4");
            proof {
                lemma_string_views_push(v@, s);
            }
            v.push(s);
        },
        VrStep::RightPass => {
            let s = String::from_str("vr_right.mp4");
            proof {
                lemma_string_views_push(v@, s);
            }
            v.push(s);
        },
        VrStep::CheckMerged => {
            let a = String::from_str("vr_left_out.mp4");
            proof {
                lemma_string_views_push(v@, a);
            }
            v.push(a);
            let b = String::from_str("vr_right_out.mp4");
            proof {
                lemma_string_views_push(v@, b);
            }
            v.push(b);
            let c = String::from_str(staged_name);
            proof {
                lemma_string_views_push(v@, c);
            }
            v.push(c);
        },
        _ => {},
    }
    assert(string_views(v@) =~= vr_freed_files(step, staged_name@));
    v
}

/// The prefix of the progress messages of a step.
pub open spec fn vr_step_label_spec(step: VrStep) -> Seq<char> {
    match step {
        VrStep::CopyIn => "VR copying in: "@,
        VrStep::Split => "VR splitting L/R: "@,
        VrStep::LeftPass => "VR L: "@,
        VrStep::RightPass => "VR R: "@,
        VrStep::Merge => "VR merging: "@,
        VrStep::CopyOut => "VR copying out: "@,
        _ => ""@,
    }
}

/// The prefix of the progress messages of a step.
pub fn vr_step_label(step: VrStep) -> (r: String)
    ensures
        r@ == vr_step_label_spec(step),
{
    String::from_str(
        match step {
            VrStep::CopyIn => "VR copying in: ",
            VrStep::Split => "VR splitting L/R: ",
            VrStep::LeftPass => "VR L: ",
            VrStep::RightPass => "VR R: ",
            VrStep::Merge => "VR merging: ",
            VrStep::CopyOut => "VR copying out: ",
            _ => "",
        },
    )
}

/// The part of the job's progress bar that a step fills, as (start, width) in
/// percent: copying in 0–5, splitting 5–12, each eye 40, merging 92–97,
/// copying out 97–100; the checks take no time.
pub open spec fn vr_step_band_spec(step: VrStep) -> (u32, u32) {
    match step {
        VrStep::CopyIn => (0, 5),
        VrStep::Split => (5, 7),
        VrStep::LeftPass => (12, 40),
        VrStep::RightPass => (52, 40),
        VrStep::Merge => (92, 5),
        VrStep::CheckMerged => (97, 0),
        VrStep::CopyOut => (97, 3),
        VrStep::CheckOutput => (100, 0),
    }
}

/// The part of the job's progress bar that a step fills, as (start, width).
pub fn vr_step_band(step: VrStep) -> (r: (u32, u32))
    ensures
        r == vr_step_band_spec(step),
        r.0 + r.1 <= 100,
{
    match step {
        VrStep::CopyIn => (0, 5),
        VrStep::Split => (5, 7),
        VrStep::LeftPass => (12, 40),
        VrStep::RightPass => (52, 40),
        VrStep::Merge => (92, 5),
        VrStep::CheckMerged => (97, 0),
        VrStep::CopyOut => (97, 3),
        VrStep::CheckOutput => (100, 0),
    }
}

/// The notice shown as a step starts, if any.
pub open spec fn vr_step_notice_spec(step: VrStep) -> Option<Seq<char>> {
    match step {
        VrStep::CopyIn => Some("VR detected — copying source to work drive..."@),
        VrStep::Merge => Some("VR: merging L/R + audio..."@),
        _ => None,
    }
}

/// The notice shown as a step starts, if any.
pub fn vr_step_notice(step: VrStep) -> (r: Option<String>)
    ensures
        crate::text::opt_string_view(r) == vr_step_notice_spec(step),
{
    match step {
        VrStep::CopyIn => Some(String::from_str("VR detected — copying source to work drive...")),
        VrStep::Merge => Some(String::from_str("VR: merging L/R + audio...")),
        _ => None,
    }
}

/// A work folder that a VR job leaves behind when it crashes or its drive
/// drops out: `lada-vr-tmp-*`, or `.lada_vr_tmp_*` of earlier versions.
pub open spec fn is_leftover_vr_dir_spec(name: Seq<char>) -> bool {
    starts_with(name, "lada-vr-tmp-"@) || starts_with(name, ".lada_vr_tmp_"@)
}

/// Whether a folder of this name is a VR work folder left behind, to be swept
/// before a new batch of jobs starts.
pub fn is_leftover_vr_dir(name: &str) -> (r: bool)
    ensures
        r == is_leftover_vr_dir_spec(name@),
{
    let v = chars_of(name);
    strip_prefix_chars(&v, &chars_of("lada-vr-tmp-")).is_some() || strip_prefix_chars(
        &v,
        &chars_of(".lada_vr_tmp_"),
    ).is_some()
}

} // verus!
