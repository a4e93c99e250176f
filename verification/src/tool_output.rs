//! Reading what `docker`, `ffprobe` and `nvidia-smi` print.
use vstd::prelude::*;

use crate::text::opt_string_view;
use crate::text::{
    chars_of, contains, float_literal_ok, is_float_literal, lemma_views_push, lines,
    lines_chars, parse_u32, parse_u64, parse_unsigned, split_chars, split_on, str_contains,
    string_of, string_views, strings_of, trim, trim_chars, views,
};

verus! {

/// The lines of `out`, trimmed, without the blank ones
/// (`out.lines().map(str::trim).filter(|l| !l.is_empty())`).
pub open spec fn nonblank_trimmed(ps: Seq<Seq<char>>) -> Seq<Seq<char>>
    decreases ps.len(),
{
    if ps.len() == 0 {
        seq![]
    } else {
        let r = nonblank_trimmed(ps.drop_last());
        let t = trim(ps.last());
        if t.len() > 0 {
            r.push(t)
        } else {
            r
        }
    }
}

pub proof fn lemma_nonblank_trimmed_items(ps: Seq<Seq<char>>)
    ensures
        forall|i: int|
            0 <= i < nonblank_trimmed(ps).len() ==> #[trigger] nonblank_trimmed(ps)[i].len() > 0,
    decreases ps.len(),
{
    if ps.len() > 0 {
        lemma_nonblank_trimmed_items(ps.drop_last());
        let r = nonblank_trimmed(ps.drop_last());
        assert forall|i: int| 0 <= i < nonblank_trimmed(ps).len() implies #[trigger] nonblank_trimmed(
            ps,
        )[i].len() > 0 by {
            if i < r.len() {
                assert(nonblank_trimmed(ps)[i] == r[i]);
            }
        }
    }
}

fn nonblank_trimmed_exec(parts: &Vec<Vec<char>>) -> (r: Vec<Vec<char>>)
    ensures
        views(r@) == nonblank_trimmed(views(parts@)),
{
    let mut out: Vec<Vec<char>> = Vec::new();
    let mut i: usize = 0;
    while i < parts.len()
        invariant
            i <= parts.len(),
            views(out@) == nonblank_trimmed(views(parts@).take(i as int)),
        decreases parts.len() - i,
    {
        let t = trim_chars(&parts[i]);
        let ghost before = out@;
        assert(views(parts@).take(i + 1).drop_last() =~= views(parts@).take(i as int));
        assert(views(parts@).take(i + 1).last() == parts@[i as int]@);
        if t.len() > 0 {
            out.push(t);
            proof {
                lemma_views_push(before, t);
            }
        }
        i = i + 1;
    }
    assert(views(parts@).take(parts.len() as int) =~= views(parts@));
    out
}

/// Ids printed by `docker ps -q`: its output lines, trimmed, without blank ones.
pub open spec fn container_ids_in(out: Seq<char>) -> Seq<Seq<char>> {
    nonblank_trimmed(lines(out))
}

/// The container ids in the output of `docker ps -q`.
pub fn container_ids(ps_output: &str) -> (r: Vec<String>)
    ensures
        string_views(r@) == container_ids_in(ps_output@),
{
    let v = chars_of(ps_output);
    let ls = lines_chars(&v);
    let ids = nonblank_trimmed_exec(&ls);
    strings_of(&ids)
}

/// What an ffprobe call reported: frame width and height, and the duration
/// token when it is a number that `str::parse::<f64>` accepts.
#[derive(Debug)]
pub struct ProbeDims {
    pub width: u32,
    pub height: u32,
    pub duration_text: Option<String>,
}

/// The probe output read as `width`, `height` and optionally `duration`, one
/// value per non-blank line; `None` when fewer than two values are there or
/// either dimension is not a `u32`.
pub open spec fn probe_result(out: Seq<char>) -> Option<(u32, u32, Option<Seq<char>>)> {
    let nums = nonblank_trimmed(lines(out));
    if nums.len() < 2 {
        None
    } else {
        match (parse_unsigned(nums[0], u32::MAX as nat), parse_unsigned(nums[1], u32::MAX as nat)) {
            (Some(w), Some(h)) => Some(
                (
                    w as u32,
                    h as u32,
                    if nums.len() > 2 && is_float_literal(nums[2]) {
                        Some(nums[2])
                    } else {
                        None
                    },
                ),
            ),
            _ => None,
        }
    }
}

/// Reads the output of the ffprobe call of `probe_dims_args`.
pub fn parse_probe_output(stdout: &str) -> (r: Option<ProbeDims>)
    ensures
        match r {
            Some(d) => probe_result(stdout@) == Some((d.width, d.height, opt_string_view(d.duration_text))),
            None => probe_result(stdout@) is None,
        },
{
    let v = chars_of(stdout);
    let ls = lines_chars(&v);
    let nums = nonblank_trimmed_exec(&ls);
    if nums.len() < 2 {
        return None;
    }
    let ws = string_of(&nums[0]);
    let hs = string_of(&nums[1]);
    let w = match parse_u32(ws.as_str()) {
        Some(w) => w,
        None => return None,
    };
    let h = match parse_u32(hs.as_str()) {
        Some(h) => h,
        None => return None,
    };
    let duration_text = if nums.len() > 2 && float_literal_ok(&nums[2]) {
        Some(string_of(&nums[2]))
    } else {
        None
    };
    Some(ProbeDims { width: w, height: h, duration_text })
}

/// A side-by-side VR frame: about 2:1 (strictly between 1.9:1 and 2.1:1, which
/// leaves out 16:9 and 2.39:1 scope) and taller than 1080 lines.
pub open spec fn is_sbs_frame(width: u32, height: u32) -> bool {
    height > 1080 && 10 * width > 19 * height && 10 * width < 21 * height
}

/// Whether a frame of this size can be a side-by-side VR frame. Only such files
/// go on to the left/right similarity test.
pub fn sbs_frame_candidate(width: u32, height: u32) -> (r: bool)
    ensures
        r == is_sbs_frame(width, height),
{
    let w = width as u64;
    let h = height as u64;
    h > 1080 && 10 * w > 19 * h && 10 * w < 21 * h
}

/// GPU figures read from `nvidia-smi --format=csv,noheader,nounits`.
#[derive(Debug)]
pub struct GpuReading {
    /// Utilization in percent.
    pub usage: u32,
    /// Memory used, MB.
    pub vram_used: u64,
    /// Memory installed, MB.
    pub vram_total: u64,
    /// Temperature, degrees Celsius.
    pub temp: u32,
    /// Power draw in watts, as printed, when `str::parse::<f32>` accepts it.
    pub power_text: Option<String>,
}

pub open spec fn value_or_zero(s: Seq<char>, max: nat) -> nat {
    match parse_unsigned(s, max) {
        Some(n) => n,
        None => 0,
    }
}

/// The comma-separated fields of the (trimmed) `nvidia-smi` output, each trimmed.
pub open spec fn gpu_fields(out: Seq<char>) -> Seq<Seq<char>> {
    split_on(trim(out), ',').map_values(|p: Seq<char>| trim(p))
}

/// Reads `utilization, memory.used, memory.total, temperature, power` from the
/// output of `nvidia-smi`. A field that does not parse counts as 0; fewer than
/// five fields give all zeros.
pub fn parse_gpu_stats(stdout: &str) -> (r: GpuReading)
    ensures
        ({
            let f = gpu_fields(stdout@);
            if f.len() >= 5 {
                &&& r.usage == value_or_zero(f[0], u32::MAX as nat)
                &&& r.vram_used == value_or_zero(f[1], u64::MAX as nat)
                &&& r.vram_total == value_or_zero(f[2], u64::MAX as nat)
                &&& r.temp == value_or_zero(f[3], u32::MAX as nat)
                &&& opt_string_view(r.power_text) == if is_float_literal(f[4]) {
                    Some(f[4])
                } else {
                    None
                }
            } else {
                &&& r.usage == 0
                &&& r.vram_used == 0
                &&& r.vram_total == 0
                &&& r.temp == 0
                &&& r.power_text is None
            }
        }),
{
    let v = chars_of(stdout);
    let t = trim_chars(&v);
    let pieces = split_chars(&t, ',');
    if pieces.len() < 5 {
        assert(gpu_fields(stdout@).len() == views(pieces@).len());
        return GpuReading { usage: 0, vram_used: 0, vram_total: 0, temp: 0, power_text: None };
    }
    let f0 = trim_chars(&pieces[0]);
    let f1 = trim_chars(&pieces[1]);
    let f2 = trim_chars(&pieces[2]);
    let f3 = trim_chars(&pieces[3]);
    let f4 = trim_chars(&pieces[4]);
    proof {
        let f = gpu_fields(stdout@);
        assert(f[0] == f0@);
        assert(f[1] == f1@);
        assert(f[2] == f2@);
        assert(f[3] == f3@);
        assert(f[4] == f4@);
    }
    let usage = match parse_u32(string_of(&f0).as_str()) {
        Some(n) => n,
        None => 0,
    };
    let vram_used = match parse_u64(string_of(&f1).as_str()) {
        Some(n) => n,
        None => 0,
    };
    let vram_total = match parse_u64(string_of(&f2).as_str()) {
        Some(n) => n,
        None => 0,
    };
    let temp = match parse_u32(string_of(&f3).as_str()) {
        Some(n) => n,
        None => 0,
    };
    let power_text = if float_literal_ok(&f4) {
        Some(string_of(&f4))
    } else {
        None
    };
    GpuReading { usage, vram_used, vram_total, temp, power_text }
}

/// Bytes to whole MiB, rounding down (how RAM figures are shown).
pub fn bytes_to_mib(bytes: u64) -> (r: u64)
    ensures
        r == bytes / 1048576u64,
{
    bytes / 1048576
}

/// `docker info` output mentions an NVIDIA runtime.
pub open spec fn mentions_nvidia(out: Seq<char>) -> bool {
    contains(out, "nvidia"@) || contains(out, "NVIDIA"@)
}

/// What the Docker check reports: whether Docker answered, and whether it has
/// GPU access.
pub fn docker_info_verdict(success: bool, stdout: &str) -> (r: Result<String, String>)
    ensures
        match r {
            Ok(m) => success && m@ == (if mentions_nvidia(stdout@) {
                "Docker OK, GPU: NVIDIA"@
            } else {
                "Docker OK, GPU: not detected"@
            }),
            Err(e) => !success && e@ == "Docker is not running"@,
        },
{
    if success {
        if str_contains(stdout, "nvidia") || str_contains(stdout, "NVIDIA") {
            Ok(String::from_str("Docker OK, GPU: NVIDIA"))
        } else {
            Ok(String::from_str("Docker OK, GPU: not detected"))
        }
    } else {
        Err(String::from_str("Docker is not running"))
    }
}

/// What an image update reports: the pull's stdout when it succeeded, its
/// stderr when it did not.
pub fn pull_verdict(success: bool, stdout: &str, stderr: &str) -> (r: Result<String, String>)
    ensures
        match r {
            Ok(m) => success && m@ == stdout@,
            Err(e) => !success && e@ == stderr@,
        },
{
    if success {
        Ok(String::from_str(stdout))
    } else {
        Err(String::from_str(stderr))
    }
}

} // verus!
