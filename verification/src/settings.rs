//! The user's job settings and the values derived from them.
use vstd::prelude::*;

verus! {

/// Largest Lada clip window (in frames) for the per-eye passes of a VR file:
/// at 4K per eye a longer window does not fit in memory.
pub const VR_MAX_CLIP_LENGTH: u32 = 20;

/// Largest number of files processed at once.
pub const MAX_PARALLEL_JOBS: u32 = 8;

/// Settings of a processing run, as the user interface sends them.
#[derive(Clone, Debug)]
pub struct LadaSettings {
    pub detection_model: String,
    pub restoration_model: String,
    /// `"auto"`, `"on"` or `"off"`.
    pub fp16: String,
    pub max_clip_length: u32,
    pub encoder: String,
    pub crf: u32,
    pub preset: String,
    pub prefix: String,
    pub same_directory: bool,
    pub output_directory: String,
    pub delete_original: bool,
    pub shutdown_after: bool,
    pub parallel_jobs: u32,
    /// GB per container; 0 means unlimited.
    pub memory_limit: u32,
}

/// Memory limit (GB) used when saved settings do not name one.
pub fn default_memory_limit() -> (r: u32)
    ensures
        r == 10,
{
    10
}

/// Restoration model used when saved settings do not name one.
pub fn default_restoration_model() -> (r: String)
    ensures
        r@ == "basicvsrpp-v1.2"@,
{
    String::from_str("basicvsrpp-v1.2")
}

/// FP16 mode used when saved settings do not name one.
pub fn default_fp16() -> (r: String)
    ensures
        r@ == "auto"@,
{
    String::from_str("auto")
}

/// Number of files processed at once: the setting, kept within `1..=8`.
pub open spec fn spec_parallel_job_count(requested: u32) -> u32 {
    if requested < 1 {
        1
    } else if requested > MAX_PARALLEL_JOBS {
        MAX_PARALLEL_JOBS
    } else {
        requested
    }
}

/// How many files a run processes at once.
pub fn parallel_job_count(settings: &LadaSettings) -> (r: u32)
    ensures
        r == spec_parallel_job_count(settings.parallel_jobs),
        1 <= r <= MAX_PARALLEL_JOBS,
{
    let p = settings.parallel_jobs;
    let at_least_one = if p < 1 {
        1
    } else {
        p
    };
    if at_least_one > MAX_PARALLEL_JOBS {
        MAX_PARALLEL_JOBS
    } else {
        at_least_one
    }
}

/// Clip window of the per-eye passes of a VR file.
pub open spec fn spec_vr_clip_length(max_clip_length: u32) -> u32 {
    if max_clip_length < VR_MAX_CLIP_LENGTH {
        max_clip_length
    } else {
        VR_MAX_CLIP_LENGTH
    }
}

/// Clip window of the per-eye passes of a VR file: the user's setting, but
/// never more than `VR_MAX_CLIP_LENGTH`.
pub fn vr_clip_length(settings: &LadaSettings) -> (r: u32)
    ensures
        r == spec_vr_clip_length(settings.max_clip_length),
        r <= VR_MAX_CLIP_LENGTH,
        r <= settings.max_clip_length,
{
    if settings.max_clip_length < VR_MAX_CLIP_LENGTH {
        settings.max_clip_length
    } else {
        VR_MAX_CLIP_LENGTH
    }
}

/// The folder a job writes its output to: the input's own folder when the
/// settings say so, else the configured output folder.
pub fn output_dir_for(settings: &LadaSettings, input_dir: &str) -> (r: String)
    ensures
        r@ == if settings.same_directory {
            input_dir@
        } else {
            settings.output_directory@
        },
{
    if settings.same_directory {
        String::from_str(input_dir)
    } else {
        String::from_str(settings.output_directory.as_str())
    }
}

} // verus!
