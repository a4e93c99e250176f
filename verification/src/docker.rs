//! Docker volume paths and the `docker` command lines of a job.
use vstd::prelude::*;

use crate::settings::LadaSettings;
use crate::text::{
    ascii_lower, chars_of, concat2, decimal, lemma_string_views_push, push_decimal,
    push_str, str_eq, string_of, string_views, u64_to_string,
};

verus! {

// ---------------------------------------------------------------------------
// Volume paths
// ---------------------------------------------------------------------------

/// A Windows path that starts with a drive letter, such as `X:\foo` or `X:`.
/// (Its first char is one byte long exactly when `:` is the second byte.)
pub open spec fn has_drive_prefix(p: Seq<char>) -> bool {
    p.len() >= 2 && (p[0] as u32) < 128 && p[1] == ':'
}

/// `s` with every `\` replaced by `/`.
pub open spec fn forward_slashes(s: Seq<char>) -> Seq<char> {
    s.map_values(|c: char| if c == '\\' { '/' } else { c })
}

/// How a host path is written in a `docker -v` mount.
/// On a Windows host (Docker Desktop): `X:\foo\bar` becomes `/x/foo/bar`, and
/// any other path only has its backslashes turned into slashes.
/// On any other host (Linux, WSL) the path is passed through as it is.
pub open spec fn docker_volume_path(p: Seq<char>, windows_host: bool) -> Seq<char> {
    if !windows_host {
        p
    } else if has_drive_prefix(p) {
        seq!['/', ascii_lower(p[0])] + forward_slashes(p.skip(2))
    } else {
        forward_slashes(p)
    }
}

/// `std::path::MAIN_SEPARATOR`: `\` on Windows (and UEFI) targets, `/` on all others.
#[verifier::external_body]
fn main_separator() -> (c: char)
    ensures
        c == '/' || c == '\\',
{
    std::path::MAIN_SEPARATOR
}

/// Whether this program was built for a host whose paths use `\`, that is Windows.
pub fn host_is_windows() -> bool {
    main_separator() == '\\'
}

/// Appends `forward_slashes(v@.skip(from))` to `out`.
fn push_forward_slashes(out: &mut Vec<char>, v: &Vec<char>, from: usize)
    requires
        from <= v.len(),
    ensures
        final(out)@ == old(out)@ + forward_slashes(v@.skip(from as int)),
{
    let mut i = from;
    while i < v.len()
        invariant
            from <= i <= v.len(),
            out@ == old(out)@ + forward_slashes(v@.subrange(from as int, i as int)),
        decreases v.len() - i,
    {
        let c = v[i];
        out.push(if c == '\\' {
            '/'
        } else {
            c
        });
        i = i + 1;
        assert(forward_slashes(v@.subrange(from as int, i as int)) =~= forward_slashes(
            v@.subrange(from as int, i - 1),
        ).push(if c == '\\' {
            '/'
        } else {
            c
        }));
        assert(out@ =~= old(out)@ + forward_slashes(v@.subrange(from as int, i as int)));
    }
    assert(v@.subrange(from as int, v.len() as int) =~= v@.skip(from as int));
}

/// `path` written as a Docker mount source for the given kind of host.
pub fn docker_volume_path_for(path: &str, windows_host: bool) -> (r: String)
    ensures
        r@ == docker_volume_path(path@, windows_host),
{
    if !windows_host {
        return String::from_str(path);
    }
    let v = chars_of(path);
    let mut out: Vec<char> = Vec::new();
    if v.len() >= 2 && (v[0] as u32) < 128 && v[1] == ':' {
        let c = v[0];
        let drive = if 'A' <= c && c <= 'Z' {
            ((c as u8) + 32) as char
        } else {
            c
        };
        out.push('/');
        out.push(drive);
        let ghost head = out@;
        push_forward_slashes(&mut out, &v, 2);
        assert(head =~= seq!['/', drive]);
    } else {
        push_forward_slashes(&mut out, &v, 0);
        assert(v@.skip(0) =~= v@);
        assert(out@ =~= forward_slashes(v@));
    }
    string_of(&out)
}

/// Convert a native OS path to Docker volume mount format for the host this
/// program runs on.
pub fn to_docker_volume_path(path: &str) -> (r: String)
    ensures
        r@ == docker_volume_path(path@, true) || r@ == docker_volume_path(path@, false),
{
    docker_volume_path_for(path, host_is_windows())
}

// ---------------------------------------------------------------------------
// Building argument vectors
// ---------------------------------------------------------------------------

fn push_arg(args: &mut Vec<String>, s: &str)
    ensures
        string_views(final(args)@) == string_views(old(args)@).push(s@),
{
    let st = String::from_str(s);
    proof {
        lemma_string_views_push(args@, st);
    }
    args.push(st);
}

fn push_owned(args: &mut Vec<String>, st: String)
    ensures
        string_views(final(args)@) == string_views(old(args)@).push(st@),
{
    proof {
        lemma_string_views_push(args@, st);
    }
    args.push(st);
}

/// The Docker image that runs Lada, ffmpeg and ffprobe.
pub open spec fn image() -> Seq<char> {
    "ladaapp/lada:latest"@
}

/// The encoder is one of the NVENC hardware encoders.
pub open spec fn is_nvenc(encoder: Seq<char>) -> bool {
    encoder == "hevc_nvenc"@ || encoder == "h264_nvenc"@
}

fn is_nvenc_exec(encoder: &str) -> (r: bool)
    ensures
        r == is_nvenc(encoder@),
{
    str_eq(encoder, "hevc_nvenc") || str_eq(encoder, "h264_nvenc")
}

/// The value of Lada's `--encoder-options`: NVENC takes a preset and a constant
/// quality, the software encoders a CRF and a preset.
pub open spec fn encoder_options(s: LadaSettings) -> Seq<char> {
    if is_nvenc(s.encoder@) {
        "-preset "@ + s.preset@ + " -cq "@ + decimal(s.crf as nat)
    } else {
        "-crf "@ + decimal(s.crf as nat) + " -preset "@ + s.preset@
            + " -x265-params log_level=error"@
    }
}

fn encoder_options_exec(s: &LadaSettings) -> (r: String)
    ensures
        r@ == encoder_options(*s),
{
    let mut v: Vec<char> = Vec::new();
    if is_nvenc_exec(s.encoder.as_str()) {
        push_str(&mut v, "-preset ");
        push_str(&mut v, s.preset.as_str());
        push_str(&mut v, " -cq ");
        push_decimal(&mut v, s.crf as u64);
    } else {
        push_str(&mut v, "-crf ");
        push_decimal(&mut v, s.crf as u64);
        push_str(&mut v, " -preset ");
        push_str(&mut v, s.preset.as_str());
        push_str(&mut v, " -x265-params log_level=error");
    }
    assert(v@ =~= encoder_options(*s));
    string_of(&v)
}

/// The arguments that select half precision: none for `auto` (Lada decides),
/// otherwise forced on or off.
pub open spec fn fp16_args(fp16: Seq<char>) -> Seq<Seq<char>> {
    if fp16 == "on"@ {
        seq!["--fp16"@]
    } else if fp16 == "off"@ {
        seq!["--no-fp16"@]
    } else {
        seq![]
    }
}

/// The container memory cap: none when the limit is 0 (unlimited).
pub open spec fn memory_args(memory_limit_gb: u32) -> Seq<Seq<char>> {
    if memory_limit_gb > 0 {
        seq!["--memory"@, decimal(memory_limit_gb as nat) + "g"@]
    } else {
        seq![]
    }
}

/// `docker run ... ladaapp/lada` for one Lada job.
pub open spec fn lada_args(
    input_dir_docker: Seq<char>,
    output_dir_docker: Seq<char>,
    tmp_dir_docker: Seq<char>,
    input_file_name: Seq<char>,
    output_filename: Seq<char>,
    s: LadaSettings,
    memory_limit_gb: u32,
    clip_length: u32,
) -> Seq<Seq<char>> {
    seq!["run"@, "--rm"@, "--gpus"@, "all"@] + memory_args(memory_limit_gb) + seq![
        "-v"@,
        input_dir_docker + ":/input"@,
        "-v"@,
        output_dir_docker + ":/output"@,
        "-v"@,
        tmp_dir_docker + ":/tmp"@,
        "-e"@,
        "NVIDIA_DRIVER_CAPABILITIES=compute,video,utility"@,
        image(),
        "--input"@,
        "/input/"@ + input_file_name,
        "--output"@,
        "/output/"@ + output_filename,
        "--temporary-directory"@,
        "/tmp"@,
        "--mosaic-detection-model"@,
        s.detection_model@,
        "--mosaic-restoration-model"@,
        s.restoration_model@,
        "--max-clip-length"@,
        decimal(clip_length as nat),
        "--encoder"@,
        s.encoder@,
        "--encoder-options"@,
        encoder_options(s),
    ] + fp16_args(s.fp16@)
}

/// Build the `docker run ... ladaapp/lada` argument vector for one Lada job.
/// Mounts are parameterized so the same builder serves the normal 2D path
/// (input dir / output dir separate) and the VR sub-passes (all pointing at the
/// work dir). A `memory_limit_gb` of 0 runs the container without a memory cap.
#[verifier::spinoff_prover]
#[verifier::rlimit(40)]
pub fn build_lada_args(
    input_dir_docker: &str,
    output_dir_docker: &str,
    tmp_dir_docker: &str,
    input_file_name: &str,
    output_filename: &str,
    settings: &LadaSettings,
    memory_limit_gb: u32,
    clip_length: u32,
) -> (r: Vec<String>)
    ensures
        string_views(r@) == lada_args(
            input_dir_docker@,
            output_dir_docker@,
            tmp_dir_docker@,
            input_file_name@,
            output_filename@,
            *settings,
            memory_limit_gb,
            clip_length,
        ),
{
    let mut args: Vec<String> = Vec::new();
    push_arg(&mut args, "run");
    push_arg(&mut args, "--rm");
    push_arg(&mut args, "--gpus");
    push_arg(&mut args, "all");
    let ghost a0 = string_views(args@);
    assert(a0 =~= seq!["run"@, "--rm"@, "--gpus"@, "all"@]);
    if memory_limit_gb > 0 {
        push_arg(&mut args, "--memory");
        let g = u64_to_string(memory_limit_gb as u64);
        push_owned(&mut args, g.concat("g"));
    }
    let ghost a1 = string_views(args@);
    assert(a1 =~= a0 + memory_args(memory_limit_gb));
    push_arg(&mut args, "-v");
    push_owned(&mut args, concat2(input_dir_docker, ":/input"));
    push_arg(&mut args, "-v");
    push_owned(&mut args, concat2(output_dir_docker, ":/output"));
    push_arg(&mut args, "-v");
    push_owned(&mut args, concat2(tmp_dir_docker, ":/tmp"));
    push_arg(&mut args, "-e");
    push_arg(&mut args, "NVIDIA_DRIVER_CAPABILITIES=compute,video,utility");
    push_arg(&mut args, "ladaapp/lada:latest");
    push_arg(&mut args, "--input");
    push_owned(&mut args, concat2("/input/", input_file_name));
    push_arg(&mut args, "--output");
    push_owned(&mut args, concat2("/output/", output_filename));
    push_arg(&mut args, "--temporary-directory");
    push_arg(&mut args, "/tmp");
    push_arg(&mut args, "--mosaic-detection-model");
    push_arg(&mut args, settings.detection_model.as_str());
    push_arg(&mut args, "--mosaic-restoration-model");
    push_arg(&mut args, settings.restoration_model.as_str());
    push_arg(&mut args, "--max-clip-length");
    push_owned(&mut args, u64_to_string(clip_length as u64));
    push_arg(&mut args, "--encoder");
    push_arg(&mut args, settings.encoder.as_str());
    push_arg(&mut args, "--encoder-options");
    push_owned(&mut args, encoder_options_exec(settings));
    let ghost a2 = string_views(args@);
    if str_eq(settings.fp16.as_str(), "on") {
        push_arg(&mut args, "--fp16");
    } else if str_eq(settings.fp16.as_str(), "off") {
        push_arg(&mut args, "--no-fp16");
    }
    assert(string_views(args@) =~= a2 + fp16_args(settings.fp16@));
    assert(string_views(args@) =~= lada_args(
        input_dir_docker@,
        output_dir_docker@,
        tmp_dir_docker@,
        input_file_name@,
        output_filename@,
        *settings,
        memory_limit_gb,
        clip_length,
    ));
    args
}


/// ffmpeg in the image that splits the input into `/tmp/vr_left.mp4` and
/// `/tmp/vr_right.mp4` in one decode pass (NVENC, high quality, no audio),
/// streaming machine-readable progress on stdout.
pub open spec fn split_args(
    input_dir_docker: Seq<char>,
    work_dir_docker: Seq<char>,
    input_file_name: Seq<char>,
) -> Seq<Seq<char>> {
    seq![
        "run"@, "--rm"@, "--gpus"@, "all"@,
        "-e"@, "NVIDIA_DRIVER_CAPABILITIES=compute,video,utility"@,
        "-v"@, input_dir_docker + ":/input"@,
        "-v"@, work_dir_docker + ":/tmp"@,
        "--entrypoint"@, "ffmpeg"@,
        image(),
        "-nostdin"@, "-v"@, "error"@, "-progress"@, "pipe:1"@, "-nostats"@, "-y"@,
        "-i"@, "/input/"@ + input_file_name,
        "-filter_complex"@,
        "[0:v]split=2[a][b];[a]crop=iw/2:ih:0:0[l];[b]crop=iw/2:ih:iw/2:0[r]"@,
        "-map"@, "[l]"@, "-c:v"@, "hevc_nvenc"@,
        "-preset"@, "p5"@, "-cq"@, "18"@, "-an"@, "/tmp/vr_left.mp4"@,
        "-map"@, "[r]"@, "-c:v"@, "hevc_nvenc"@,
        "-preset"@, "p5"@, "-cq"@, "18"@, "-an"@, "/tmp/vr_right.mp4"@,
    ]
}

fn push_args(args: &mut Vec<String>, items: &[&str])
    ensures
        string_views(final(args)@) == string_views(old(args)@) + items@.map_values(|s: &str| s@),
{
    let mut i: usize = 0;
    while i < items.len()
        invariant
            i <= items@.len(),
            string_views(args@) == string_views(old(args)@) + items@.take(i as int).map_values(
                |s: &str| s@,
            ),
        decreases items@.len() - i,
    {
        push_arg(args, items[i]);
        i = i + 1;
        assert(items@.take(i as int).map_values(|s: &str| s@) =~= items@.take(i - 1).map_values(
            |s: &str| s@,
        ).push(items@[i - 1]@));
    }
    assert(items@.take(items@.len() as int) =~= items@);
}

/// Build the ffmpeg args that split the input into its left and right halves.
pub fn split_lr_args(input_dir_docker: &str, work_dir_docker: &str, input_file_name: &str) -> (r:
    Vec<String>)
    ensures
        string_views(r@) == split_args(input_dir_docker@, work_dir_docker@, input_file_name@),
{
    let mut args: Vec<String> = Vec::new();
    push_args(&mut args, &["run", "--rm", "--gpus", "all", "-e", "NVIDIA_DRIVER_CAPABILITIES=compute,video,utility", "-v"]);
    push_owned(&mut args, concat2(input_dir_docker, ":/input"));
    push_arg(&mut args, "-v");
    push_owned(&mut args, concat2(work_dir_docker, ":/tmp"));
    push_args(&mut args, &["--entrypoint", "ffmpeg", "ladaapp/lada:latest", "-nostdin", "-v", "error", "-progress", "pipe:1", "-nostats", "-y", "-i"]);
    push_owned(&mut args, concat2("/input/", input_file_name));
    push_args(&mut args, &[
        "-filter_complex",
        "[0:v]split=2[a][b];[a]crop=iw/2:ih:0:0[l];[b]crop=iw/2:ih:iw/2:0[r]",
        "-map", "[l]", "-c:v", "hevc_nvenc", "-preset", "p5", "-cq", "18", "-an", "/tmp/vr_left.mp4",
        "-map", "[r]", "-c:v", "hevc_nvenc", "-preset", "p5", "-cq", "18", "-an", "/tmp/vr_right.mp4",
    ]);
    assert(string_views(args@) =~= split_args(input_dir_docker@, work_dir_docker@, input_file_name@));
    args
}

/// Video encoder arguments of the merge step: the user's encoder, with a preset
/// and constant quality for NVENC, or a CRF and preset for the software encoders.
pub open spec fn merge_video_args(s: LadaSettings) -> Seq<Seq<char>> {
    if is_nvenc(s.encoder@) {
        seq!["-c:v"@, s.encoder@, "-preset"@, s.preset@, "-cq"@, decimal(s.crf as nat)]
    } else {
        seq![
            "-c:v"@, s.encoder@, "-crf"@, decimal(s.crf as nat), "-preset"@, s.preset@,
            "-x265-params"@, "log_level=error"@,
        ]
    }
}

/// ffmpeg in the image that puts the two processed halves side by side again
/// (hstack) and muxes the original audio back in.
pub open spec fn merge_args(
    input_dir_docker: Seq<char>,
    work_dir_docker: Seq<char>,
    output_dir_docker: Seq<char>,
    orig_file_name: Seq<char>,
    output_filename: Seq<char>,
    s: LadaSettings,
) -> Seq<Seq<char>> {
    seq![
        "run"@, "--rm"@, "--gpus"@, "all"@,
        "-e"@, "NVIDIA_DRIVER_CAPABILITIES=compute,video,utility"@,
        "-v"@, input_dir_docker + ":/input"@,
        "-v"@, work_dir_docker + ":/tmp"@,
        "-v"@, output_dir_docker + ":/output"@,
        "--entrypoint"@, "ffmpeg"@,
        image(),
        "-nostdin"@, "-v"@, "error"@, "-progress"@, "pipe:1"@, "-nostats"@, "-y"@,
        "-i"@, "/tmp/vr_left_out.mp4"@,
        "-i"@, "/tmp/vr_right_out.mp4"@,
        "-i"@, "/input/"@ + orig_file_name,
        "-filter_complex"@, "[0:v][1:v]hstack=inputs=2[v]"@,
        "-map"@, "[v]"@, "-map"@, "2:a?"@,
    ] + merge_video_args(s) + seq!["-c:a"@, "copy"@, "/output/"@ + output_filename]
}

/// Build the ffmpeg args that recombine the two processed halves and mux the
/// original audio back in, re-encoding video with the user's encoder.
pub fn merge_lr_args(
    input_dir_docker: &str,
    work_dir_docker: &str,
    output_dir_docker: &str,
    orig_file_name: &str,
    output_filename: &str,
    settings: &LadaSettings,
) -> (r: Vec<String>)
    ensures
        string_views(r@) == merge_args(
            input_dir_docker@,
            work_dir_docker@,
            output_dir_docker@,
            orig_file_name@,
            output_filename@,
            *settings,
        ),
{
    let mut args: Vec<String> = Vec::new();
    push_args(&mut args, &["run", "--rm", "--gpus", "all", "-e", "NVIDIA_DRIVER_CAPABILITIES=compute,video,utility", "-v"]);
    push_owned(&mut args, concat2(input_dir_docker, ":/input"));
    push_arg(&mut args, "-v");
    push_owned(&mut args, concat2(work_dir_docker, ":/tmp"));
    push_arg(&mut args, "-v");
    push_owned(&mut args, concat2(output_dir_docker, ":/output"));
    push_args(&mut args, &[
        "--entrypoint", "ffmpeg", "ladaapp/lada:latest", "-nostdin", "-v", "error", "-progress",
        "pipe:1", "-nostats", "-y", "-i", "/tmp/vr_left_out.mp4", "-i", "/tmp/vr_right_out.mp4", "-i",
    ]);
    push_owned(&mut args, concat2("/input/", orig_file_name));
    push_args(&mut args, &["-filter_complex", "[0:v][1:v]hstack=inputs=2[v]", "-map", "[v]", "-map", "2:a?"]);
    let ghost before_venc = string_views(args@);
    push_arg(&mut args, "-c:v");
    push_arg(&mut args, settings.encoder.as_str());
    if is_nvenc_exec(settings.encoder.as_str()) {
        push_arg(&mut args, "-preset");
        push_arg(&mut args, settings.preset.as_str());
        push_arg(&mut args, "-cq");
        push_owned(&mut args, u64_to_string(settings.crf as u64));
    } else {
        push_arg(&mut args, "-crf");
        push_owned(&mut args, u64_to_string(settings.crf as u64));
        push_arg(&mut args, "-preset");
        push_arg(&mut args, settings.preset.as_str());
        push_arg(&mut args, "-x265-params");
        push_arg(&mut args, "log_level=error");
    }
    assert(string_views(args@) =~= before_venc + merge_video_args(*settings));
    push_arg(&mut args, "-c:a");
    push_arg(&mut args, "copy");
    push_owned(&mut args, concat2("/output/", output_filename));
    assert(string_views(args@) =~= merge_args(
        input_dir_docker@,
        work_dir_docker@,
        output_dir_docker@,
        orig_file_name@,
        output_filename@,
        *settings,
    ));
    args
}

/// ffprobe in the image that prints the width and height of the first video
/// stream and the container's duration, one value per line.
pub open spec fn probe_args(input_dir_docker: Seq<char>, input_file_name: Seq<char>) -> Seq<
    Seq<char>,
> {
    seq![
        "run"@, "--rm"@,
        "-v"@, input_dir_docker + ":/input"@,
        "--entrypoint"@, "ffprobe"@,
        image(),
        "-v"@, "error"@,
        "-select_streams"@, "v:0"@,
        "-show_entries"@, "stream=width,height"@,
        "-show_entries"@, "format=duration"@,
        "-of"@, "default=noprint_wrappers=1:nokey=1"@,
        "/input/"@ + input_file_name,
    ]
}

/// Arguments of the `docker` call that probes a file's dimensions and duration.
pub fn probe_dims_args(input_dir_docker: &str, input_file_name: &str) -> (r: Vec<String>)
    ensures
        string_views(r@) == probe_args(input_dir_docker@, input_file_name@),
{
    let mut args: Vec<String> = Vec::new();
    push_args(&mut args, &["run", "--rm", "-v"]);
    push_owned(&mut args, concat2(input_dir_docker, ":/input"));
    push_args(&mut args, &[
        "--entrypoint", "ffprobe", "ladaapp/lada:latest", "-v", "error", "-select_streams", "v:0",
        "-show_entries", "stream=width,height", "-show_entries", "format=duration", "-of",
        "default=noprint_wrappers=1:nokey=1",
    ]);
    push_owned(&mut args, concat2("/input/", input_file_name));
    assert(string_views(args@) =~= probe_args(input_dir_docker@, input_file_name@));
    args
}

/// ffmpeg in the image that compares the left and right halves of about ten
/// frames from `seek_text` seconds on (SSIM, written to stderr).
pub open spec fn ssim_args(
    input_dir_docker: Seq<char>,
    input_file_name: Seq<char>,
    seek_text: Seq<char>,
) -> Seq<Seq<char>> {
    seq![
        "run"@, "--rm"@, "--gpus"@, "all"@,
        "-v"@, input_dir_docker + ":/input"@,
        "--entrypoint"@, "ffmpeg"@,
        image(),
        "-nostdin"@,
        "-ss"@, seek_text,
        "-i"@, "/input/"@ + input_file_name,
        "-an"@,
        "-frames:v"@, "10"@,
        "-filter_complex"@,
        "[0:v]crop=iw/2:ih:0:0,scale=256:256,format=gray[l];[0:v]crop=iw/2:ih:iw/2:0,scale=256:256,format=gray[r];[l][r]ssim"@,
        "-f"@, "null"@, "-"@,
    ]
}

/// Arguments of the `docker` call that measures how alike the two halves of a
/// frame are. `seek_text` is the start time in seconds, written with three decimals.
pub fn lr_ssim_args(input_dir_docker: &str, input_file_name: &str, seek_text: &str) -> (r: Vec<
    String,
>)
    ensures
        string_views(r@) == ssim_args(input_dir_docker@, input_file_name@, seek_text@),
{
    let mut args: Vec<String> = Vec::new();
    push_args(&mut args, &["run", "--rm", "--gpus", "all", "-v"]);
    push_owned(&mut args, concat2(input_dir_docker, ":/input"));
    push_args(&mut args, &["--entrypoint", "ffmpeg", "ladaapp/lada:latest", "-nostdin", "-ss"]);
    push_arg(&mut args, seek_text);
    push_arg(&mut args, "-i");
    push_owned(&mut args, concat2("/input/", input_file_name));
    push_args(&mut args, &[
        "-an", "-frames:v", "10", "-filter_complex",
        "[0:v]crop=iw/2:ih:0:0,scale=256:256,format=gray[l];[0:v]crop=iw/2:ih:iw/2:0,scale=256:256,format=gray[r];[l][r]ssim",
        "-f", "null", "-",
    ]);
    assert(string_views(args@) =~= ssim_args(input_dir_docker@, input_file_name@, seek_text@));
    args
}

/// What is done to every running Lada container.
#[derive(Clone, Copy, Debug, PartialEq, Eq)]
pub enum ContainerAction {
    Stop,
    Pause,
    Unpause,
}

pub open spec fn action_verb(a: ContainerAction) -> Seq<char> {
    match a {
        ContainerAction::Stop => "stop"@,
        ContainerAction::Pause => "pause"@,
        ContainerAction::Unpause => "unpause"@,
    }
}

/// `docker ps` that lists the ids of the Lada containers, only the paused ones
/// when `paused_only`.
pub open spec fn container_list_args(paused_only: bool) -> Seq<Seq<char>> {
    seq!["ps"@, "-q"@, "--filter"@, "ancestor=ladaapp/lada:latest"@] + if paused_only {
        seq!["--filter"@, "status=paused"@]
    } else {
        seq![]
    }
}

/// Arguments of the `docker ps` call that lists Lada containers.
pub fn lada_container_list_args(paused_only: bool) -> (r: Vec<String>)
    ensures
        string_views(r@) == container_list_args(paused_only),
{
    let mut args: Vec<String> = Vec::new();
    push_args(&mut args, &["ps", "-q", "--filter", "ancestor=ladaapp/lada:latest"]);
    if paused_only {
        push_args(&mut args, &["--filter", "status=paused"]);
    }
    assert(string_views(args@) =~= container_list_args(paused_only));
    args
}

/// Arguments of the `docker stop|pause|unpause <id>` call for one container.
pub fn container_action_args(action: ContainerAction, id: &str) -> (r: Vec<String>)
    ensures
        string_views(r@) == seq![action_verb(action), id@],
{
    let mut args: Vec<String> = Vec::new();
    match action {
        ContainerAction::Stop => push_arg(&mut args, "stop"),
        ContainerAction::Pause => push_arg(&mut args, "pause"),
        ContainerAction::Unpause => push_arg(&mut args, "unpause"),
    }
    push_arg(&mut args, id);
    assert(string_views(args@) =~= seq![action_verb(action), id@]);
    args
}

} // verus!
