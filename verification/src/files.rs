//! File names: which paths are videos, what outputs and work folders are
//! called, the messages that end a job, and where VR intermediates go.
use vstd::prelude::*;

use crate::text::opt_string_view;
use crate::text::{
    chars_of, decimal, lemma_string_views_push, occurs_at, push_decimal, push_str, string_of,
    string_views,
};

verus! {

// ---------------------------------------------------------------------------
// File names of paths
// ---------------------------------------------------------------------------

/// `n` occurs somewhere in `s`.
pub open spec fn is_substring(n: Seq<char>, s: Seq<char>) -> bool {
    exists|i: int| occurs_at(s, n, i)
}

/// A path that reads the same on Unix and on Windows: no `\\`, no `:` (so no
/// Windows prefix) and no leading `//` (so no UNC share); `/` is its only
/// separator.
pub open spec fn is_plain_path(p: Seq<char>) -> bool {
    &&& forall|i: int| 0 <= i < p.len() ==> #[trigger] p[i] != '\\' && p[i] != ':'
    &&& !(p.len() >= 2 && p[0] == '/' && p[1] == '/')
}

/// The components of a plain path that carry a name: the pieces between `/`
/// without the empty ones (repeated or trailing separators) and without `.`.
pub open spec fn named_pieces(p: Seq<char>) -> Seq<Seq<char>> {
    crate::text::split_on(p, '/').filter(carries_a_name())
}

/// A piece between `/` that names something: not empty and not `.`.
pub open spec fn carries_a_name() -> spec_fn(Seq<char>) -> bool {
    |piece: Seq<char>| piece.len() > 0 && piece != seq!['.']
}

/// The file name of a plain path: its last named piece, unless that is `..`;
/// none when it has no named piece (`""`, `"/"`, `"."`).
pub open spec fn plain_file_name(p: Seq<char>) -> Option<Seq<char>> {
    let pieces = named_pieces(p);
    if pieces.len() == 0 || pieces.last() == seq!['.', '.'] {
        None
    } else {
        Some(pieces.last())
    }
}

/// `std::path::Path::new(path).file_name()`, converted with `to_string_lossy`
/// (lossless here: the path is a `&str`). The name, when there is one, is a
/// non-empty piece of the path. For a plain path it is the last component
/// after normalisation (repeated separators and `.` ignored), and there is
/// none when that component is `..` or the path has no component with a name;
/// std documents this alike for Unix and Windows. What a Windows build does
/// with `\\`, drive prefixes and UNC paths is left unsaid.
#[verifier::external_body]
fn path_file_name(path: &str) -> (r: Option<String>)
    ensures
        r matches Some(n) ==> n@.len() > 0 && is_substring(n@, path@),
        is_plain_path(path@) ==> opt_string_view(r) == plain_file_name(path@),
{
    match std::path::Path::new(path).file_name() {
        Some(n) => Some(n.to_string_lossy().into_owned()),
        None => None,
    }
}

/// The name shown for a file: its file name, or the whole path when the path
/// has none (it ends in `..`, or is a root or a prefix).
pub fn file_name_or_path(name: Option<String>, path: &str) -> (r: String)
    ensures
        r@ == match opt_string_view(name) {
            Some(n) => n,
            None => path@,
        },
{
    match name {
        Some(n) => n,
        None => String::from_str(path),
    }
}

/// The file name of a path, for display; the whole path when it has none.
/// For a plain path that is its last named component, or the path itself when
/// that is `..` or there is none.
pub fn file_name_from_path(path: &str) -> (r: String)
    ensures
        r@ == path@ || (r@.len() > 0 && is_substring(r@, path@)),
        is_plain_path(path@) ==> r@ == match plain_file_name(path@) {
            Some(n) => n,
            None => path@,
        },
{
    let name = path_file_name(path);
    file_name_or_path(name, path)
}

// ---------------------------------------------------------------------------
// Video paths
// ---------------------------------------------------------------------------

/// `c` lower-cases (`char::to_lowercase`) to the ASCII char `t`, which is a
/// lower-case letter, a digit or `.`. Besides `t` itself and its upper-case
/// letter, only KELVIN SIGN (U+212A) lower-cases to an ASCII char, `k`; the
/// one char whose lower case is longer than one char (U+0130) ends it with
/// U+0307, so it can never end such a suffix.
pub open spec fn lowers_to(c: char, t: char) -> bool {
    ||| c == t
    ||| ('a' <= t && t <= 'z' && (c as u32) + 32 == (t as u32))
    ||| (t == 'k' && c == '\u{212A}')
}

/// `path.to_lowercase().ends_with(suffix)` for an ASCII suffix in lower case.
pub open spec fn lower_ends_with(path: Seq<char>, suffix: Seq<char>) -> bool {
    &&& suffix.len() <= path.len()
    &&& forall|k: int|
        0 <= k < suffix.len() ==> lowers_to(
            #[trigger] path[path.len() - suffix.len() + k],
            suffix[k],
        )
}

/// The path names a video: its lower-cased form ends with one of the known
/// video extensions.
pub open spec fn is_video_path(p: Seq<char>) -> bool {
    ||| lower_ends_with(p, ".mp4"@)
    ||| lower_ends_with(p, ".mkv"@)
    ||| lower_ends_with(p, ".avi"@)
    ||| lower_ends_with(p, ".mov"@)
    ||| lower_ends_with(p, ".wmv"@)
    ||| lower_ends_with(p, ".flv"@)
    ||| lower_ends_with(p, ".webm"@)
    ||| lower_ends_with(p, ".ts"@)
}

fn lowers_to_exec(c: char, t: char) -> (r: bool)
    ensures
        r == lowers_to(c, t),
{
    c == t || ('a' <= t && t <= 'z' && (c as u32) + 32 == (t as u32)) || (t == 'k' && c
        == '\u{212A}')
}

fn lower_ends_with_exec(p: &Vec<char>, suffix: &str) -> (r: bool)
    ensures
        r == lower_ends_with(p@, suffix@),
{
    let s = chars_of(suffix);
    if s.len() > p.len() {
        return false;
    }
    let base = p.len() - s.len();
    let mut k: usize = 0;
    while k < s.len()
        invariant
            s@ == suffix@,
            s.len() <= p.len(),
            base == p.len() - s.len(),
            k <= s.len(),
            forall|j: int| 0 <= j < k ==> lowers_to(#[trigger] p@[p@.len() - s@.len() + j], s@[j]),
        decreases s.len() - k,
    {
        if !lowers_to_exec(p[base + k], s[k]) {
            return false;
        }
        k = k + 1;
    }
    true
}

/// Whether `path` names a video file, by its extension in any letter case.
pub fn is_video_file(path: &str) -> (r: bool)
    ensures
        r == is_video_path(path@),
{
    let p = chars_of(path);
    lower_ends_with_exec(&p, ".mp4") || lower_ends_with_exec(&p, ".mkv") || lower_ends_with_exec(
        &p,
        ".avi",
    ) || lower_ends_with_exec(&p, ".mov") || lower_ends_with_exec(&p, ".wmv")
        || lower_ends_with_exec(&p, ".flv") || lower_ends_with_exec(&p, ".webm")
        || lower_ends_with_exec(&p, ".ts")
}

/// The video paths among `args`, in their order.
pub open spec fn video_paths(args: Seq<Seq<char>>) -> Seq<Seq<char>>
    decreases args.len(),
{
    if args.len() == 0 {
        seq![]
    } else {
        let r = video_paths(args.drop_last());
        if is_video_path(args.last()) {
            r.push(args.last())
        } else {
            r
        }
    }
}

/// Keeps the arguments that name video files (command-line or second-instance
/// arguments), in their order.
pub fn filter_video_paths(args: &[String]) -> (r: Vec<String>)
    ensures
        string_views(r@) == video_paths(string_views(args@)),
{
    let ghost all = string_views(args@);
    let mut out: Vec<String> = Vec::new();
    let mut i: usize = 0;
    while i < args.len()
        invariant
            i <= args@.len(),
            all == string_views(args@),
            string_views(out@) == video_paths(all.take(i as int)),
        decreases args@.len() - i,
    {
        let a = &args[i];
        assert(all.take(i + 1).drop_last() =~= all.take(i as int));
        assert(all.take(i + 1).last() == a@);
        if is_video_file(a.as_str()) {
            let c = String::from_str(a.as_str());
            proof {
                lemma_string_views_push(out@, c);
            }
            out.push(c);
        }
        i = i + 1;
    }
    assert(all.take(args@.len() as int) =~= all);
    out
}

// ---------------------------------------------------------------------------
// Names of outputs and work folders
// ---------------------------------------------------------------------------

/// Output file name: `<prefix> <input stem>.mp4`.
pub fn output_file_name(prefix: &str, stem: &str) -> (r: String)
    ensures
        r@ == prefix@ + " "@ + stem@ + ".mp4"@,
{
    let mut v: Vec<char> = Vec::new();
    push_str(&mut v, prefix);
    push_str(&mut v, " ");
    push_str(&mut v, stem);
    push_str(&mut v, ".mp4");
    string_of(&v)
}

fn numbered_name(base: &str, index: usize) -> (r: String)
    ensures
        r@ == base@ + decimal(index as nat),
{
    let mut v: Vec<char> = Vec::new();
    push_str(&mut v, base);
    push_decimal(&mut v, index as u64);
    string_of(&v)
}

/// Per-job temporary folder of a 2D job, so parallel jobs do not collide.
pub fn job_temp_dir_name(index: usize) -> (r: String)
    ensures
        r@ == "lada-gui-tmp-"@ + decimal(index as nat),
{
    numbered_name("lada-gui-tmp-", index)
}

/// Per-job work folder of a VR job.
pub fn vr_work_dir_name(index: usize) -> (r: String)
    ensures
        r@ == "lada-vr-tmp-"@ + decimal(index as nat),
{
    numbered_name("lada-vr-tmp-", index)
}

/// Plain ASCII name under which the source of a VR job is staged, keeping its
/// extension (`mp4` when it has none that is valid text).
pub fn staged_source_name(extension: Option<&str>) -> (r: String)
    ensures
        r@ == "vr_source."@ + match extension {
            Some(e) => e@,
            None => "mp4"@,
        },
{
    match extension {
        Some(e) => crate::text::concat2("vr_source.", e),
        None => crate::text::concat2("vr_source.", "mp4"),
    }
}

// ---------------------------------------------------------------------------
// Messages that end a job
// ---------------------------------------------------------------------------

/// What became of the original file after a successful job.
#[derive(Debug)]
pub enum OriginalFile {
    /// The settings keep originals.
    Kept,
    Deleted,
    /// Deleting failed with this error.
    DeleteFailed(String),
}

/// The message of a finished job (`Saved (VR): ...` for a VR file).
pub open spec fn saved_message_spec(vr: bool, output_filename: Seq<char>, original: OriginalFile) -> Seq<
    char,
> {
    let head = (if vr {
        "Saved (VR): "@
    } else {
        "Saved: "@
    }) + output_filename;
    match original {
        OriginalFile::Kept => head,
        OriginalFile::Deleted => head + " (original deleted)"@,
        OriginalFile::DeleteFailed(e) => head + " (failed to delete original: "@ + e@ + ")"@,
    }
}

/// The message shown when a job has finished.
pub fn saved_message(vr: bool, output_filename: &str, original: &OriginalFile) -> (r: String)
    ensures
        r@ == saved_message_spec(vr, output_filename@, *original),
{
    let mut v: Vec<char> = Vec::new();
    if vr {
        push_str(&mut v, "Saved (VR): ");
    } else {
        push_str(&mut v, "Saved: ");
    }
    push_str(&mut v, output_filename);
    match original {
        OriginalFile::Kept => {},
        OriginalFile::Deleted => push_str(&mut v, " (original deleted)"),
        OriginalFile::DeleteFailed(e) => {
            push_str(&mut v, " (failed to delete original: ");
            push_str(&mut v, e.as_str());
            push_str(&mut v, ")");
        },
    }
    assert(v@ =~= saved_message_spec(vr, output_filename@, *original));
    string_of(&v)
}

/// The stages of the VR pipeline that can fail.
#[derive(Clone, Copy, Debug, PartialEq, Eq)]
pub enum VrStage {
    CopyIn,
    Split,
    Merge,
    CopyOut,
}

pub open spec fn stage_name(s: VrStage) -> Seq<char> {
    match s {
        VrStage::CopyIn => "copy-in"@,
        VrStage::Split => "split"@,
        VrStage::Merge => "merge"@,
        VrStage::CopyOut => "copy-out"@,
    }
}

/// The message shown when a stage of a VR job failed.
pub fn vr_failure_message(stage: VrStage, error: &str) -> (r: String)
    ensures
        r@ == "VR "@ + stage_name(stage) + " failed: "@ + error@,
{
    let name = match stage {
        VrStage::CopyIn => "copy-in",
        VrStage::Split => "split",
        VrStage::Merge => "merge",
        VrStage::CopyOut => "copy-out",
    };
    crate::text::concat3("VR ", name, " failed: ").concat(error)
}

// ---------------------------------------------------------------------------
// Where VR intermediates go
// ---------------------------------------------------------------------------

/// Room a VR job needs on its work drive: five times the source (staged source,
/// split halves and restored halves), saturating at `u64::MAX`.
pub open spec fn vr_space_needed(input_size: u64) -> u64 {
    if input_size * 5 > u64::MAX {
        u64::MAX
    } else {
        (input_size * 5) as u64
    }
}

/// Room a VR job needs on its work drive.
pub fn vr_space_needed_bytes(input_size: u64) -> (r: u64)
    ensures
        r == vr_space_needed(input_size),
{
    if input_size > u64::MAX / 5 {
        u64::MAX
    } else {
        input_size * 5
    }
}

/// VR intermediates go to the system temp folder when its drive has more room
/// than needed (`free` is unknown when no mount holds it); else to the output drive.
pub fn use_system_temp(input_size: u64, free: Option<u64>) -> (r: bool)
    ensures
        r == (free matches Some(f) && f > vr_space_needed(input_size)),
{
    let needed = vr_space_needed_bytes(input_size);
    match free {
        Some(f) => f > needed,
        None => false,
    }
}

/// Of the mounts that hold a path, given as (length of the mount point, free
/// bytes), the first one with the longest mount point.
pub open spec fn longest_mount(mounts: Seq<(usize, u64)>) -> Option<(usize, u64)>
    decreases mounts.len(),
{
    if mounts.len() == 0 {
        None
    } else {
        let best = longest_mount(mounts.drop_last());
        match best {
            Some(b) => if mounts.last().0 > b.0 {
                Some(mounts.last())
            } else {
                best
            },
            None => Some(mounts.last()),
        }
    }
}

/// Free bytes on the filesystem that holds a path: that of the longest matching
/// mount point among `mounts` (mount-point length, free bytes).
pub fn free_space_of_longest_mount(mounts: &Vec<(usize, u64)>) -> (r: Option<u64>)
    ensures
        r == match longest_mount(mounts@) {
            Some(b) => Some(b.1),
            None => None,
        },
{
    let mut best: Option<(usize, u64)> = None;
    let mut i: usize = 0;
    while i < mounts.len()
        invariant
            i <= mounts.len(),
            best == longest_mount(mounts@.take(i as int)),
        decreases mounts.len() - i,
    {
        let m = mounts[i];
        assert(mounts@.take(i + 1).drop_last() =~= mounts@.take(i as int));
        best = match best {
            Some(b) => if m.0 > b.0 {
                Some(m)
            } else {
                Some(b)
            },
            None => Some(m),
        };
        i = i + 1;
    }
    assert(mounts@.take(mounts.len() as int) =~= mounts@);
    match best {
        Some(b) => Some(b.1),
        None => None,
    }
}

} // verus!
