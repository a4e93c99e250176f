//! Properties of the library that span its functions or hold of all inputs.
use vstd::prelude::*;

use crate::docker::{docker_volume_path, forward_slashes, has_drive_prefix};
use crate::files::{
    carries_a_name, is_substring, is_video_path, longest_mount, named_pieces, plain_file_name, video_paths,
};
use crate::docker::{encoder_options, fp16_args, is_nvenc, lada_args, memory_args, merge_video_args};
use crate::progress::{
    copy_retry_delay, detail_cut, drive_unavailable, from_processed, copy_failure_spec, retry_delay, start_failure_spec,
    FIRST_RETRY_DELAY_SECS, MAX_PASS_ATTEMPTS, MAX_RETRY_DELAY_SECS, is_detail_trailer, last_n, pass_verdict_spec,
    progress_detail, trim_detail_end,
};
use crate::patterns::{digit_run, percent_at_first_marker, progress_marker, whitespace_run};
use crate::progress::reports_percent;
use crate::settings::LadaSettings;
use crate::text::{contains, ends_with, find, join, starts_with, lemma_split_on_nonempty, split_on, is_whitespace, lemma_find_from, occurs_at, trim, trim_end, trim_start};
use crate::files::VrStage;
use crate::vr::{
    is_leftover_vr_dir_spec, merged_invalid_error, step_index, vr_freed_files, vr_next_spec,
    vr_step_band_spec,
    VrMove, VrStep,
};
use crate::tool_output::{container_ids_in, is_sbs_frame, nonblank_trimmed};
use crate::text::{all_digits, decimal, digit_char, digits_value, parse_unsigned};

verus! {

proof fn lemma_digit_char(k: nat)
    requires
        k < 10,
    ensures
        crate::text::digit_value(digit_char(k)) == k,
        crate::text::is_digit(digit_char(k)),
        digit_char(k) != '+',
{
    assert(((48 + k) as u32) as char as u32 == (48 + k) as u32);
}

proof fn lemma_decimal(n: nat)
    ensures
        decimal(n).len() > 0,
        all_digits(decimal(n)),
        digits_value(decimal(n)) == n,
        decimal(n)[0] != '+',
    decreases n,
{
    lemma_digit_char(n % 10);
    if n >= 10 {
        lemma_decimal(n / 10);
        let s = decimal(n / 10);
        let d = decimal(n);
        assert(d.drop_last() =~= s);
        assert(d[0] == s[0]);
        assert(d.last() == digit_char(n % 10));
        assert(digits_value(d) == 10 * digits_value(s) + crate::text::digit_value(d.last()));
        assert(n == 10 * (n / 10) + n % 10);
        assert forall|i: int| 0 <= i < d.len() implies crate::text::is_digit(#[trigger] d[i]) by {
            if i < s.len() {
                assert(d[i] == s[i]);
            }
        }
    } else {
        let d = decimal(n);
        assert(d.drop_last() =~= Seq::<char>::empty());
        assert(digits_value(d.drop_last()) == 0);
        assert(d.last() == digit_char(n));
        assert(digits_value(d) == 10 * digits_value(d.drop_last()) + crate::text::digit_value(
            d.last(),
        ));
    }
}

/// Reading back what `u64_to_string` writes gives the number again: for every
/// `n` within the bound of the integer type, `str::parse` of `n.to_string()` is `n`.
pub proof fn law_decimal_roundtrip(n: nat, max: nat)
    requires
        n <= max,
    ensures
        parse_unsigned(decimal(n), max) == Some(n),
{
    lemma_decimal(n);
}

/// Writing a path as a Docker mount source twice changes nothing more than
/// writing it once, except for a "drive letter" that is itself `:` or `\` on a
/// Windows host.
pub proof fn law_docker_volume_path_idempotent(p: Seq<char>, windows_host: bool)
    requires
        windows_host && has_drive_prefix(p) ==> p[0] != ':' && p[0] != '\\',
    ensures
        docker_volume_path(docker_volume_path(p, windows_host), windows_host)
            == docker_volume_path(p, windows_host),
{
    let r = docker_volume_path(p, windows_host);
    if !windows_host {
    } else if has_drive_prefix(p) {
        let drive = crate::text::ascii_lower(p[0]);
        assert(r[0] == '/');
        assert(r[1] == drive);
        assert(!has_drive_prefix(r));
        assert forall|i: int| 0 <= i < r.len() implies r[i] != '\\' by {
            if i >= 2 {
                assert(r[i] == forward_slashes(p.skip(2))[i - 2]);
            }
        }
        assert(forward_slashes(r) =~= r);
    } else {
        assert(!has_drive_prefix(r)) by {
            if r.len() >= 2 {
                assert(r[0] == (if p[0] == '\\' { '/' } else { p[0] }));
                assert(r[1] == (if p[1] == '\\' { '/' } else { p[1] }));
            }
        }
        assert(forward_slashes(r) =~= r);
    }
}

/// On a Windows host a mount source has only forward slashes, unless its
/// "drive letter" is itself a backslash.
pub proof fn law_windows_mount_has_no_backslash(p: Seq<char>)
    requires
        has_drive_prefix(p) ==> p[0] != '\\',
    ensures
        forall|i: int|
            0 <= i < docker_volume_path(p, true).len() ==> #[trigger] docker_volume_path(
                p,
                true,
            )[i] != '\\',
{
    let r = docker_volume_path(p, true);
    assert forall|i: int| 0 <= i < r.len() implies #[trigger] r[i] != '\\' by {
        if has_drive_prefix(p) && i >= 2 {
            assert(r[i] == forward_slashes(p.skip(2))[i - 2]);
        }
    }
}

/// Every path that the video filter keeps names a video, and filtering again
/// keeps all of them.
pub proof fn law_video_filter_idempotent(args: Seq<Seq<char>>)
    ensures
        forall|i: int|
            0 <= i < video_paths(args).len() ==> is_video_path(#[trigger] video_paths(args)[i]),
        video_paths(video_paths(args)) == video_paths(args),
    decreases args.len(),
{
    if args.len() > 0 {
        law_video_filter_idempotent(args.drop_last());
        let r = video_paths(args.drop_last());
        if is_video_path(args.last()) {
            let v = r.push(args.last());
            assert(v.drop_last() =~= r);
            assert forall|i: int| 0 <= i < v.len() implies is_video_path(#[trigger] v[i]) by {
                if i < r.len() {
                    assert(v[i] == r[i]);
                }
            }
        }
    } else {
        assert(video_paths(video_paths(args)) =~= video_paths(args));
    }
}

/// The recent-lines buffer, fed one line at a time, always holds the last ten
/// lines of everything it was fed: keeping the last ten after each line is the
/// same as keeping the last ten of the whole.
pub proof fn law_recent_lines_keep_last_ten<A>(s: Seq<A>, x: A)
    ensures
        last_n(last_n(s, 10).push(x), 10) == last_n(s.push(x), 10),
{
    assert(last_n(last_n(s, 10).push(x), 10) =~= last_n(s.push(x), 10));
}

/// The free space reported for a path comes from one of the mounts that hold
/// it, and no other such mount has a longer mount point.
pub proof fn law_longest_mount(mounts: Seq<(usize, u64)>)
    ensures
        match longest_mount(mounts) {
            Some(b) => mounts.contains(b) && forall|i: int|
                0 <= i < mounts.len() ==> #[trigger] mounts[i].0 <= b.0,
            None => mounts.len() == 0,
        },
    decreases mounts.len(),
{
    if mounts.len() > 0 {
        law_longest_mount(mounts.drop_last());
        let best = longest_mount(mounts.drop_last());
        let b = longest_mount(mounts).unwrap();
        assert(mounts[mounts.len() - 1] == mounts.last());
        match best {
            Some(p) => {
                let k = choose|k: int| 0 <= k < mounts.drop_last().len() && mounts.drop_last()[k] == p;
                assert(mounts[k] == p);
                assert forall|i: int| 0 <= i < mounts.len() implies #[trigger] mounts[i].0 <= b.0 by {
                    if i < mounts.len() - 1 {
                        assert(mounts[i] == mounts.drop_last()[i]);
                    }
                }
            },
            None => {},
        }
    }
}


proof fn lemma_trim_start_suffix(x: Seq<char>)
    ensures
        trim_start(x).len() <= x.len(),
        trim_start(x) == x.skip(x.len() - trim_start(x).len()),
        trim_start(x).len() > 0 ==> !is_whitespace(trim_start(x)[0]),
    decreases x.len(),
{
    if x.len() > 0 && is_whitespace(x[0]) {
        lemma_trim_start_suffix(x.drop_first());
        let t = trim_start(x.drop_first());
        assert(x.drop_first().skip(x.drop_first().len() - t.len()) =~= x.skip(x.len() - t.len()));
    } else {
        assert(x.skip(0) =~= x);
    }
}

proof fn lemma_trim_end_prefix(x: Seq<char>)
    ensures
        trim_end(x).len() <= x.len(),
        trim_end(x) == x.take(trim_end(x).len() as int),
        trim_end(x).len() > 0 ==> !is_whitespace(trim_end(x).last()),
    decreases x.len(),
{
    if x.len() > 0 && is_whitespace(x.last()) {
        lemma_trim_end_prefix(x.drop_last());
        let t = trim_end(x.drop_last());
        assert(x.drop_last().take(t.len() as int) =~= x.take(t.len() as int));
    } else {
        assert(x.take(x.len() as int) =~= x);
    }
}

proof fn lemma_trim_detail_end_prefix(x: Seq<char>)
    ensures
        trim_detail_end(x).len() <= x.len(),
        trim_detail_end(x) == x.take(trim_detail_end(x).len() as int),
        trim_detail_end(x).len() > 0 ==> !is_detail_trailer(trim_detail_end(x).last()),
    decreases x.len(),
{
    if x.len() > 0 && is_detail_trailer(x.last()) {
        lemma_trim_detail_end_prefix(x.drop_last());
        let t = trim_detail_end(x.drop_last());
        assert(x.drop_last().take(t.len() as int) =~= x.take(t.len() as int));
    } else {
        assert(x.take(x.len() as int) =~= x);
    }
}

/// Trimmed text that is not empty starts and ends with a non-whitespace char.
proof fn lemma_trim_ends(x: Seq<char>)
    ensures
        trim(x).len() > 0 ==> !is_whitespace(trim(x)[0]) && !is_whitespace(trim(x).last()),
{
    lemma_trim_start_suffix(x);
    lemma_trim_end_prefix(trim_start(x));
    if trim(x).len() > 0 {
        assert(trim(x)[0] == trim_start(x)[0]);
    }
}

/// A text without `pat` has no `pat` in any piece of it.
proof fn lemma_no_occurrence_in_piece(s: Seq<char>, pat: Seq<char>, a: int, b: int)
    requires
        0 <= a <= b <= s.len(),
        forall|j: int| 0 <= j ==> !#[trigger] occurs_at(s, pat, j),
    ensures
        forall|j: int| 0 <= j ==> !#[trigger] occurs_at(s.subrange(a, b), pat, j),
{
    assert forall|j: int| 0 <= j implies !#[trigger] occurs_at(s.subrange(a, b), pat, j) by {
        if occurs_at(s.subrange(a, b), pat, j) {
            assert(s.subrange(a, b).subrange(j, j + pat.len()) =~= s.subrange(
                a + j,
                a + j + pat.len(),
            ));
            assert(occurs_at(s, pat, a + j));
        }
    }
}

/// What has no `pat` keeps none through the label's trimming.
proof fn lemma_detail_trim_keeps_absence(head: Seq<char>, pat: Seq<char>)
    requires
        forall|j: int| 0 <= j ==> !#[trigger] occurs_at(head, pat, j),
    ensures
        forall|j: int| 0 <= j ==> !#[trigger] occurs_at(trim_detail_end(trim(head)), pat, j),
{
    lemma_trim_start_suffix(head);
    let ts = trim_start(head);
    lemma_no_occurrence_in_piece(head, pat, head.len() - ts.len(), head.len() as int);
    assert(head.subrange(head.len() - ts.len(), head.len() as int) =~= ts);
    lemma_trim_end_prefix(ts);
    let te = trim_end(ts);
    lemma_no_occurrence_in_piece(ts, pat, 0, te.len() as int);
    assert(ts.subrange(0, te.len() as int) =~= te);
    lemma_trim_detail_end_prefix(te);
    let r = trim_detail_end(te);
    lemma_no_occurrence_in_piece(te, pat, 0, r.len() as int);
    assert(te.subrange(0, r.len() as int) =~= r);
}

/// The text before the cut holds neither `Remaining` nor `Speed`.
proof fn lemma_head_before_cut(detail: Seq<char>, pat: Seq<char>)
    requires
        pat == "Remaining"@ || pat == "Speed"@,
    ensures
        forall|j: int|
            0 <= j ==> !#[trigger] occurs_at(detail.take(detail_cut(detail) as int), pat, j),
{
    reveal_strlit("Remaining");
    reveal_strlit("Speed");
    lemma_find_from(detail, "Remaining"@, 0);
    lemma_find_from(detail, "Speed"@, 0);
    let cut = detail_cut(detail) as int;
    let head = detail.take(cut);
    assert forall|j: int| 0 <= j implies !#[trigger] occurs_at(head, pat, j) by {
        if occurs_at(head, pat, j) {
            assert(head.subrange(j, j + pat.len()) =~= detail.subrange(j, j + pat.len()));
            assert(occurs_at(detail, pat, j));
        }
    }
}

/// The progress label shows neither the remaining time nor the speed: the
/// detail of a Lada status line contains neither `Remaining` nor `Speed`.
pub proof fn law_progress_detail_has_no_remaining_or_speed(line: Seq<char>)
    ensures
        !contains(progress_detail(line), "Remaining"@),
        !contains(progress_detail(line), "Speed"@),
{
    let detail = from_processed(line);
    let head = detail.take(detail_cut(detail) as int);
    lemma_head_before_cut(detail, "Remaining"@);
    lemma_head_before_cut(detail, "Speed"@);
    lemma_detail_trim_keeps_absence(head, "Remaining"@);
    lemma_detail_trim_keeps_absence(head, "Speed"@);
    lemma_find_from(progress_detail(line), "Remaining"@, 0);
    lemma_find_from(progress_detail(line), "Speed"@, 0);
}

/// The progress detail has no whitespace at either end and does not end with
/// `,`, `|` or `[`.
pub proof fn law_progress_detail_is_clean(line: Seq<char>)
    ensures
        progress_detail(line).len() > 0 ==> {
            &&& !is_whitespace(progress_detail(line)[0])
            &&& !is_detail_trailer(progress_detail(line).last())
        },
{
    let detail = from_processed(line);
    let head = detail.take(detail_cut(detail) as int);
    let t = trim(head);
    lemma_trim_ends(head);
    lemma_trim_detail_end_prefix(t);
    let r = trim_detail_end(t);
    if r.len() > 0 {
        assert(r[0] == t[0]);
    }
}

/// Trimming the end keeps every char up to the last one that is not whitespace.
proof fn lemma_trim_end_keeps(x: Seq<char>, j: int)
    requires
        0 <= j < x.len(),
        !is_whitespace(x[j]),
    ensures
        trim_end(x).len() > j,
    decreases x.len(),
{
    if is_whitespace(x.last()) {
        assert(x.drop_last()[j] == x[j]);
        lemma_trim_end_keeps(x.drop_last(), j);
    }
}

/// Dropping trailing `,`, `|`, `[` and whitespace keeps every char up to the
/// last one that is none of these.
proof fn lemma_trim_detail_end_keeps(x: Seq<char>, j: int)
    requires
        0 <= j < x.len(),
        !is_detail_trailer(x[j]),
    ensures
        trim_detail_end(x).len() > j,
    decreases x.len(),
{
    if is_detail_trailer(x.last()) {
        assert(x.drop_last()[j] == x[j]);
        lemma_trim_detail_end_keeps(x.drop_last(), j);
    }
}

/// When a status line has `Processed:`, its detail starts with it.
pub proof fn law_progress_detail_starts_with_processed(line: Seq<char>)
    requires
        find(line, "Processed:"@) is Some,
    ensures
        occurs_at(progress_detail(line), "Processed:"@, 0),
{
    reveal_strlit("Processed:");
    reveal_strlit("Remaining");
    reveal_strlit("Speed");
    let pat = "Processed:"@;
    lemma_find_from(line, pat, 0);
    let p = find(line, pat).unwrap();
    let detail = from_processed(line);
    assert(detail == line.skip(p as int));
    assert forall|k: int| 0 <= k < 10 implies #[trigger] detail[k] == pat[k] by {
        assert(line.subrange(p as int, p as int + 10)[k] == line[p + k]);
    }
    lemma_find_from(detail, "Remaining"@, 0);
    lemma_find_from(detail, "Speed"@, 0);
    match find(detail, "Remaining"@) {
        Some(a) => {
            assert(detail.subrange(a as int, a as int + 9)[0] == "Remaining"@[0]);
            assert(a >= 10);
        },
        None => {},
    }
    match find(detail, "Speed"@) {
        Some(b) => {
            assert(detail.subrange(b as int, b as int + 5)[0] == "Speed"@[0]);
            assert(b >= 10);
        },
        None => {},
    }
    let cut = detail_cut(detail) as int;
    assert(cut >= 10);
    let head = detail.take(cut);
    assert(head[0] == 'P');
    assert(trim_start(head) == head);
    lemma_trim_end_keeps(head, 9);
    lemma_trim_end_prefix(head);
    let te = trim_end(head);
    assert(te[9] == ':');
    lemma_trim_detail_end_keeps(te, 9);
    lemma_trim_detail_end_prefix(te);
    let r = trim_detail_end(te);
    assert(r == progress_detail(line));
    assert(r.subrange(0, 10) =~= pat) by {
        assert forall|k: int| 0 <= k < 10 implies r.subrange(0, 10)[k] == pat[k] by {
            assert(r[k] == te[k]);
            assert(te[k] == head[k]);
        }
    }
}

/// Extracting the detail of a detail changes nothing: the label text is
/// already in the form the extraction produces.
pub proof fn law_progress_detail_idempotent(line: Seq<char>)
    ensures
        progress_detail(progress_detail(line)) == progress_detail(line),
{
    let pat = "Processed:"@;
    let r = progress_detail(line);
    law_progress_detail_has_no_remaining_or_speed(line);
    law_progress_detail_is_clean(line);
    lemma_find_from(r, "Remaining"@, 0);
    lemma_find_from(r, "Speed"@, 0);
    lemma_find_from(line, pat, 0);
    // from `Processed:` on, the detail is all of itself
    if find(line, pat) is Some {
        law_progress_detail_starts_with_processed(line);
        assert(find(r, pat) == Some(0nat));
        assert(r.skip(0) =~= r);
    } else {
        let detail = from_processed(line);
        lemma_find_from(detail, "Remaining"@, 0);
        lemma_find_from(detail, "Speed"@, 0);
        assert(detail_cut(detail) <= detail.len());
        let head = detail.take(detail_cut(detail) as int);
        assert forall|j: int| 0 <= j implies !#[trigger] occurs_at(head, pat, j) by {
            if occurs_at(head, pat, j) {
                assert(head.subrange(j, j + pat.len()) =~= detail.subrange(j, j + pat.len()));
                assert(occurs_at(detail, pat, j));
            }
        }
        lemma_detail_trim_keeps_absence(head, pat);
        lemma_find_from(r, pat, 0);
    }
    assert(from_processed(r) == r);
    assert(detail_cut(r) == r.len());
    assert(r.take(r.len() as int) =~= r);
    if r.len() > 0 {
        assert(!is_whitespace(r.last()));
        assert(trim_start(r) == r);
        assert(trim_end(r) == r);
        assert(trim_detail_end(r) == r);
    } else {
        assert(r =~= Seq::<char>::empty());
    }
}

/// The detail is a piece of the status line, cut out of it unchanged.
pub proof fn law_progress_detail_is_a_piece_of_the_line(line: Seq<char>)
    ensures
        exists|a: int, b: int|
            0 <= a <= b <= line.len() && #[trigger] line.subrange(a, b) == progress_detail(line),
{
    let pat = "Processed:"@;
    lemma_find_from(line, pat, 0);
    let p: int = match find(line, pat) {
        Some(k) => k as int,
        None => 0,
    };
    let detail = from_processed(line);
    assert(detail =~= line.subrange(p, line.len() as int));
    lemma_find_from(detail, "Remaining"@, 0);
    lemma_find_from(detail, "Speed"@, 0);
    let cut = detail_cut(detail) as int;
    assert(cut <= detail.len());
    let head = detail.take(cut);
    lemma_trim_start_suffix(head);
    let ts = trim_start(head);
    let k = head.len() - ts.len();
    lemma_trim_end_prefix(ts);
    let te = trim_end(ts);
    lemma_trim_detail_end_prefix(te);
    let r = trim_detail_end(te);
    assert(r == progress_detail(line));
    let a = p + k;
    let b = p + k + r.len();
    assert(line.subrange(a, b) =~= r) by {
        assert forall|i: int| 0 <= i < r.len() implies line.subrange(a, b)[i] == r[i] by {
            assert(r[i] == te[i]);
            assert(te[i] == ts[i]);
            assert(ts[i] == head[k + i]);
            assert(head[k + i] == detail[k + i]);
        }
    }
}

/// Every id read from `docker ps` is non-empty and has no surrounding whitespace.
pub proof fn law_container_ids_are_trimmed(out: Seq<char>)
    ensures
        forall|i: int|
            0 <= i < container_ids_in(out).len() ==> {
                &&& #[trigger] container_ids_in(out)[i].len() > 0
                &&& !is_whitespace(container_ids_in(out)[i][0])
                &&& !is_whitespace(container_ids_in(out)[i].last())
            },
{
    lemma_nonblank_trimmed_ends(crate::text::lines(out));
}

proof fn lemma_nonblank_trimmed_ends(ps: Seq<Seq<char>>)
    ensures
        forall|i: int|
            0 <= i < nonblank_trimmed(ps).len() ==> {
                &&& #[trigger] nonblank_trimmed(ps)[i].len() > 0
                &&& !is_whitespace(nonblank_trimmed(ps)[i][0])
                &&& !is_whitespace(nonblank_trimmed(ps)[i].last())
            },
    decreases ps.len(),
{
    if ps.len() > 0 {
        lemma_nonblank_trimmed_ends(ps.drop_last());
        lemma_trim_ends(ps.last());
        let r = nonblank_trimmed(ps.drop_last());
        assert forall|i: int| 0 <= i < nonblank_trimmed(ps).len() implies {
            &&& #[trigger] nonblank_trimmed(ps)[i].len() > 0
            &&& !is_whitespace(nonblank_trimmed(ps)[i][0])
            &&& !is_whitespace(nonblank_trimmed(ps)[i].last())
        } by {
            if i < r.len() {
                assert(nonblank_trimmed(ps)[i] == r[i]);
            }
        }
    }
}

/// How a Lada run is judged: a cancelled job is reported as cancelled whatever
/// the exit; a run with its output is done; a lost drive (exit code 125 with
/// Docker's mount-source error) or a missing input fails the job at once; any
/// other failure, such as an out-of-memory kill (exit code 137) or a missing
/// output, is retried after `retry_delay(attempt)` seconds while attempts are
/// left, and fails the job at the last one.
pub proof fn law_pass_verdict_classes(
    cancelled: bool,
    exit_success: bool,
    exit_code: Option<i32>,
    output_valid: bool,
    input_present: bool,
    label: Seq<char>,
    attempt: u32,
    tail: Seq<Seq<char>>,
)
    ensures
        ({
            let v = pass_verdict_spec(
                cancelled,
                exit_success,
                exit_code,
                output_valid,
                input_present,
                label,
                attempt,
                tail,
            );
            let transient = !cancelled && !(exit_success && output_valid) && input_present
                && !(!exit_success && drive_unavailable(exit_code, crate::text::join(tail, "\n"@)));
            &&& cancelled ==> v.0 == 0
            &&& !cancelled && exit_success && output_valid ==> v.0 == 1
            &&& !cancelled && !exit_success && drive_unavailable(
                exit_code,
                crate::text::join(tail, "\n"@),
            ) ==> v.0 == 2
            &&& !cancelled && !(exit_success && output_valid) && !input_present ==> v.0 == 2
            &&& transient && attempt < MAX_PASS_ATTEMPTS ==> v.0 == 3 && v.2 == retry_delay(
                attempt as nat,
            )
            &&& transient && attempt >= MAX_PASS_ATTEMPTS ==> v.0 == 2
            &&& !cancelled && !exit_success && exit_code == Some(137i32) && input_present
                && attempt < MAX_PASS_ATTEMPTS ==> v.0 == 3
        }),
{
}

/// Retries are bounded: from attempt `MAX_PASS_ATTEMPTS` on, neither a failed
/// run, nor a failed start, nor a failed copy is retried.
pub proof fn law_retries_are_bounded(
    cancelled: bool,
    exit_success: bool,
    exit_code: Option<i32>,
    output_valid: bool,
    input_present: bool,
    label: Seq<char>,
    attempt: u32,
    tail: Seq<Seq<char>>,
    error: Seq<char>,
)
    requires
        attempt >= MAX_PASS_ATTEMPTS,
    ensures
        pass_verdict_spec(
            cancelled,
            exit_success,
            exit_code,
            output_valid,
            input_present,
            label,
            attempt,
            tail,
        ).0 != 3,
        start_failure_spec(label, attempt, error).0 == 2,
        copy_failure_spec(cancelled, label, attempt, error).0 != 3,
{
}

/// The wait between attempts backs off: it starts at 30 s (15 s for a copy),
/// doubles after each failed attempt, never shrinks and never exceeds
/// `MAX_RETRY_DELAY_SECS`.
pub proof fn law_retry_delay_backs_off(a: nat, b: nat)
    ensures
        retry_delay(1) == FIRST_RETRY_DELAY_SECS,
        FIRST_RETRY_DELAY_SECS <= retry_delay(a) <= MAX_RETRY_DELAY_SECS,
        a >= 1 && 2 * retry_delay(a) <= MAX_RETRY_DELAY_SECS ==> retry_delay(a + 1) == 2
            * retry_delay(a),
        a <= b ==> retry_delay(a) <= retry_delay(b),
        copy_retry_delay(1) == 15,
        a <= b ==> copy_retry_delay(a) <= copy_retry_delay(b),
    decreases b,
{
    lemma_retry_delay_bounds(a);
    lemma_retry_delay_bounds(b);
    if a < b {
        law_retry_delay_backs_off(a, (b - 1) as nat);
        lemma_retry_delay_bounds((b - 1) as nat);
    }
}

proof fn lemma_retry_delay_bounds(a: nat)
    ensures
        FIRST_RETRY_DELAY_SECS <= retry_delay(a) <= MAX_RETRY_DELAY_SECS,
    decreases a,
{
    if a > 1 {
        lemma_retry_delay_bounds((a - 1) as nat);
    }
}

/// Frames of exactly 2:1 taller than 1080 lines pass the side-by-side test;
/// 16:9 and 2.39:1 frames never do.
pub proof fn law_sbs_frames(h: u32, k: u32)
    ensures
        1080 < h && 2 * h <= u32::MAX ==> is_sbs_frame((2 * h) as u32, h),
        16 * k <= u32::MAX ==> !is_sbs_frame((16 * k) as u32, (9 * k) as u32),
        239 * k <= u32::MAX ==> !is_sbs_frame((239 * k) as u32, (100 * k) as u32),
{
}

/// A memory limit of 0 runs the Lada container uncapped (no `--memory`
/// argument after `run --rm --gpus all`); any other limit `g` caps it at `g` GB.
pub proof fn law_memory_limit_args(
    input_dir: Seq<char>,
    output_dir: Seq<char>,
    tmp_dir: Seq<char>,
    input_file: Seq<char>,
    output_file: Seq<char>,
    s: LadaSettings,
    memory_limit_gb: u32,
    clip_length: u32,
)
    ensures
        ({
            let a = lada_args(
                input_dir,
                output_dir,
                tmp_dir,
                input_file,
                output_file,
                s,
                memory_limit_gb,
                clip_length,
            );
            &&& memory_limit_gb == 0 ==> a[4] == "-v"@
            &&& memory_limit_gb > 0 ==> a[4] == "--memory"@ && a[5] == decimal(
                memory_limit_gb as nat,
            ) + "g"@
        }),
{
}

/// A VR job runs its steps in order: when a step succeeds and the job is not
/// cancelled, the step right after it runs, and after the last check the job
/// finishes.
pub proof fn law_vr_steps_run_in_order(step: VrStep, error: Seq<char>)
    ensures
        step != VrStep::CheckOutput ==> (vr_next_spec(step, true, error, false) matches VrMove::Run(
            n,
        ) && step_index(n) == step_index(step) + 1),
        vr_next_spec(VrStep::CheckOutput, true, error, false) is Finish,
{
}

/// A VR job only moves forward: whatever a step's outcome, the step that runs
/// next comes right after it, so a job runs at most eight steps.
pub proof fn law_vr_moves_forward(step: VrStep, ok: bool, error: Seq<char>, cancelled: bool)
    ensures
        vr_next_spec(step, ok, error, cancelled) matches VrMove::Run(n) ==> step_index(n)
            == step_index(step) + 1,
{
}

/// A step that failed ends the VR job: no further step runs and the job does
/// not finish. A job finishes only once its output was checked.
pub proof fn law_vr_failure_ends_the_job(
    step: VrStep,
    ok: bool,
    error: Seq<char>,
    cancelled: bool,
)
    ensures
        !ok ==> !(vr_next_spec(step, ok, error, cancelled) is Run),
        !ok ==> !(vr_next_spec(step, ok, error, cancelled) is Finish),
        vr_next_spec(step, ok, error, cancelled) is Finish ==> step == VrStep::CheckOutput && ok,
{
}

/// A failed copy, split or merge of a cancelled VR job ends it quietly: the
/// only failure a cancelled job reports is a merged file that is missing.
pub proof fn law_vr_cancel_is_quiet(step: VrStep, ok: bool, error: Seq<char>)
    ensures
        vr_next_spec(step, ok, error, true) is Fail ==> step == VrStep::CheckMerged,
{
}

/// A failure of a VR job names the stage of the step that failed, with the
/// error the step gave (a missing merged file is a failed merge).
pub proof fn law_vr_failure_names_its_stage(step: VrStep, error: Seq<char>)
    ensures
        vr_next_spec(step, false, error, false) matches VrMove::Fail(stage, e) ==> match step {
            VrStep::CopyIn => stage == VrStage::CopyIn && e == error,
            VrStep::Split => stage == VrStage::Split && e == error,
            VrStep::Merge => stage == VrStage::Merge && e == error,
            VrStep::CheckMerged => stage == VrStage::Merge && e == merged_invalid_error(),
            VrStep::CopyOut => stage == VrStage::CopyOut && e == error,
            _ => false,
        },
{
}

/// The sweep before a batch finds every work folder that a VR job makes, and
/// none of the temp folders of ordinary jobs.
pub proof fn law_sweep_finds_vr_work_dirs(index: nat)
    ensures
        is_leftover_vr_dir_spec("lada-vr-tmp-"@ + decimal(index)),
        !is_leftover_vr_dir_spec("lada-gui-tmp-"@ + decimal(index)),
{
    reveal_strlit("lada-vr-tmp-");
    reveal_strlit(".lada_vr_tmp_");
    reveal_strlit("lada-gui-tmp-");
    let vr = "lada-vr-tmp-"@ + decimal(index);
    assert(vr.take(12) =~= "lada-vr-tmp-"@);
    let job = "lada-gui-tmp-"@ + decimal(index);
    assert(job.take(12)[5] != "lada-vr-tmp-"@[5]);
    assert(job.take(13)[0] != ".lada_vr_tmp_"@[0]);
}

/// The steps of a VR job fill the progress bar from 0 to 100 percent, each
/// starting where the one before it ended.
pub proof fn law_vr_bands_tile_the_bar(a: VrStep, b: VrStep)
    ensures
        vr_step_band_spec(VrStep::CopyIn).0 == 0,
        vr_step_band_spec(VrStep::CheckOutput).0 + vr_step_band_spec(VrStep::CheckOutput).1 == 100,
        step_index(b) == step_index(a) + 1 ==> vr_step_band_spec(a).0 + vr_step_band_spec(a).1
            == vr_step_band_spec(b).0,
{
}

/// A piece without `sep` appended to a text extends the text's last piece.
proof fn lemma_split_on_append(x: Seq<char>, y: Seq<char>, sep: char)
    requires
        forall|i: int| 0 <= i < y.len() ==> y[i] != sep,
    ensures
        split_on(x + y, sep) == split_on(x, sep).update(
            split_on(x, sep).len() - 1,
            split_on(x, sep).last() + y,
        ),
    decreases y.len(),
{
    lemma_split_on_nonempty(x, sep);
    let r = split_on(x, sep);
    if y.len() == 0 {
        assert(x + y =~= x);
        assert(r.last() + y =~= r.last());
        assert(r.update(r.len() - 1, r.last()) =~= r);
    } else {
        let y2 = y.drop_last();
        lemma_split_on_append(x, y2, sep);
        assert((x + y).drop_last() =~= x + y2);
        assert((x + y).last() == y.last());
        let r2 = r.update(r.len() - 1, r.last() + y2);
        assert(r2.last() == r.last() + y2);
        assert((r.last() + y2).push(y.last()) =~= r.last() + y);
        assert(r2.update(r2.len() - 1, r2.last().push(y.last())) =~= r.update(
            r.len() - 1,
            r.last() + y,
        ));
    }
}

/// Words without spaces, joined by single spaces, split back into the words.
proof fn lemma_split_joined_words(ws: Seq<Seq<char>>)
    requires
        ws.len() >= 1,
        forall|k: int, i: int| 0 <= k < ws.len() && 0 <= i < ws[k].len() ==> ws[k][i] != ' ',
    ensures
        split_on(join(ws, " "@), ' ') == ws,
    decreases ws.len(),
{
    reveal_strlit(" ");
    let e = Seq::<char>::empty();
    if ws.len() == 1 {
        lemma_split_on_append(e, ws[0], ' ');
        assert(e + ws[0] =~= ws[0]);
        assert(seq![e].update(0, ws[0]) =~= ws);
    } else {
        let init = ws.drop_last();
        assert forall|k: int, i: int| 0 <= k < init.len() && 0 <= i < init[k].len() implies init[k][i]
            != ' ' by {
            assert(init[k] == ws[k]);
        }
        lemma_split_joined_words(init);
        let x = join(init, " "@) + " "@;
        assert(x.drop_last() =~= join(init, " "@));
        assert(x.last() == ' ');
        assert(split_on(x, ' ') == init.push(e));
        assert(ws.last() == ws[ws.len() - 1]);
        lemma_split_on_append(x, ws.last(), ' ');
        assert(e + ws.last() =~= ws.last());
        assert(init.push(e).update(init.len() as int, e + ws.last()) =~= ws);
    }
}

/// Decimal notation has no space in it.
proof fn lemma_decimal_has_no_space(n: nat)
    ensures
        forall|i: int| 0 <= i < decimal(n).len() ==> decimal(n)[i] != ' ',
{
    lemma_decimal(n);
    assert forall|i: int| 0 <= i < decimal(n).len() implies decimal(n)[i] != ' ' by {
        assert(crate::text::is_digit(decimal(n)[i]));
    }
}

/// The merge of a VR job re-encodes with the encoder settings that Lada is
/// given: its video arguments are `-c:v`, Lada's `--encoder` value, and Lada's
/// `--encoder-options` value split at its spaces (for a preset with no space
/// in it). In Lada's arguments those two values follow `--encoder` and
/// `--encoder-options`, after the optional memory cap.
pub proof fn law_merge_encodes_like_lada(
    input_dir_docker: Seq<char>,
    output_dir_docker: Seq<char>,
    tmp_dir_docker: Seq<char>,
    input_file_name: Seq<char>,
    output_filename: Seq<char>,
    s: LadaSettings,
    memory_limit_gb: u32,
    clip_length: u32,
)
    requires
        forall|i: int| 0 <= i < s.preset@.len() ==> s.preset@[i] != ' ',
    ensures
        merge_video_args(s) == seq!["-c:v"@, s.encoder@] + split_on(encoder_options(s), ' '),
        ({
            let a = lada_args(
                input_dir_docker,
                output_dir_docker,
                tmp_dir_docker,
                input_file_name,
                output_filename,
                s,
                memory_limit_gb,
                clip_length,
            );
            let m = memory_args(memory_limit_gb).len() as int;
            &&& a[m + 25] == "--encoder"@
            &&& a[m + 26] == s.encoder@
            &&& a[m + 27] == "--encoder-options"@
            &&& a[m + 28] == encoder_options(s)
        }),
{
    reveal_strlit("-preset");
    reveal_strlit("-cq");
    reveal_strlit("-crf");
    reveal_strlit("-x265-params");
    reveal_strlit("log_level=error");
    reveal_strlit("-preset ");
    reveal_strlit(" -cq ");
    reveal_strlit("-crf ");
    reveal_strlit(" -preset ");
    reveal_strlit(" -x265-params log_level=error");
    reveal_strlit(" ");
    let d = decimal(s.crf as nat);
    lemma_decimal_has_no_space(s.crf as nat);
    let sp = " "@;
    if is_nvenc(s.encoder@) {
        let ws = seq!["-preset"@, s.preset@, "-cq"@, d];
        assert forall|k: int, i: int| 0 <= k < ws.len() && 0 <= i < ws[k].len() implies ws[k][i]
            != ' ' by {
            if k == 1 {
                assert(ws[k] == s.preset@);
            } else if k == 3 {
                assert(ws[k] == d);
            }
        }
        let w3 = ws.drop_last();
        let w2 = w3.drop_last();
        let w1 = w2.drop_last();
        assert(w1 =~= seq!["-preset"@]);
        assert(w2 =~= seq!["-preset"@, s.preset@]);
        assert(w3 =~= seq!["-preset"@, s.preset@, "-cq"@]);
        assert(join(w1, sp) == "-preset"@);
        assert(join(w2, sp) == join(w1, sp) + sp + s.preset@);
        assert(join(w3, sp) == join(w2, sp) + sp + "-cq"@);
        assert(join(ws, sp) == join(w3, sp) + sp + d);
        assert(join(ws, sp) =~= "-preset"@ + sp + s.preset@ + sp + "-cq"@ + sp + d);
        assert(encoder_options(s) =~= join(ws, sp));
        lemma_split_joined_words(ws);
        assert(merge_video_args(s) =~= seq!["-c:v"@, s.encoder@] + ws);
    } else {
        let ws = seq!["-crf"@, d, "-preset"@, s.preset@, "-x265-params"@, "log_level=error"@];
        assert forall|k: int, i: int| 0 <= k < ws.len() && 0 <= i < ws[k].len() implies ws[k][i]
            != ' ' by {
            if k == 1 {
                assert(ws[k] == d);
            } else if k == 3 {
                assert(ws[k] == s.preset@);
            }
        }
        let w5 = ws.drop_last();
        let w4 = w5.drop_last();
        let w3 = w4.drop_last();
        let w2 = w3.drop_last();
        let w1 = w2.drop_last();
        assert(w1 =~= seq!["-crf"@]);
        assert(w2 =~= seq!["-crf"@, d]);
        assert(w3 =~= seq!["-crf"@, d, "-preset"@]);
        assert(w4 =~= seq!["-crf"@, d, "-preset"@, s.preset@]);
        assert(w5 =~= seq!["-crf"@, d, "-preset"@, s.preset@, "-x265-params"@]);
        assert(join(w1, sp) == "-crf"@);
        assert(join(w2, sp) == join(w1, sp) + sp + d);
        assert(join(w3, sp) == join(w2, sp) + sp + "-preset"@);
        assert(join(w4, sp) == join(w3, sp) + sp + s.preset@);
        assert(join(w5, sp) == join(w4, sp) + sp + "-x265-params"@);
        assert(join(ws, sp) == join(w5, sp) + sp + "log_level=error"@);
        assert(join(ws, sp) =~= "-crf"@ + sp + d + sp + "-preset"@ + sp + s.preset@ + sp
            + "-x265-params"@ + sp + "log_level=error"@);
        assert(encoder_options(s) =~= join(ws, sp));
        lemma_split_joined_words(ws);
        assert(merge_video_args(s) =~= seq!["-c:v"@, s.encoder@] + ws);
    }
}

/// A work file of a VR job is deleted only once no later step reads it: the
/// staged source (read by the split, and by the merge for its audio) and the
/// restored halves (read by the merge) only after the merged file was checked;
/// each half only once Lada has restored it. The merged file itself is never
/// deleted on its own (the final copy reads it; the work folder goes with it).
pub proof fn law_vr_frees_files_after_their_last_reader(step: VrStep, staged_name: Seq<char>)
    requires
        staged_name != "vr_left.mp4"@,
        staged_name != "vr_right.mp4"@,
        staged_name != "vr_left_out.mp4"@,
        staged_name != "vr_right_out.mp4"@,
        staged_name != "vr_merged.mp4"@,
    ensures
        vr_freed_files(step, staged_name).contains(staged_name) ==> step_index(step) > step_index(
            VrStep::Merge,
        ),
        vr_freed_files(step, staged_name).contains("vr_left_out.mp4"@) ==> step_index(step)
            > step_index(VrStep::Merge),
        vr_freed_files(step, staged_name).contains("vr_right_out.mp4"@) ==> step_index(step)
            > step_index(VrStep::Merge),
        vr_freed_files(step, staged_name).contains("vr_left.mp4"@) ==> step_index(step)
            >= step_index(VrStep::LeftPass),
        vr_freed_files(step, staged_name).contains("vr_right.mp4"@) ==> step_index(step)
            >= step_index(VrStep::RightPass),
        !vr_freed_files(step, staged_name).contains("vr_merged.mp4"@),
{
    reveal_strlit("vr_left.mp4");
    reveal_strlit("vr_right.mp4");
    reveal_strlit("vr_left_out.mp4");
    reveal_strlit("vr_right_out.mp4");
    reveal_strlit("vr_merged.mp4");
    let f = vr_freed_files(step, staged_name);
    let names = seq![
        "vr_left.mp4"@,
        "vr_right.mp4"@,
        "vr_left_out.mp4"@,
        "vr_right_out.mp4"@,
        "vr_merged.mp4"@,
    ];
    assert forall|a: int, b: int| 0 <= a < b < 5 implies names[a] != names[b] by {
        if a < 2 {
            assert(names[a][3] != names[b][3] || names[a].len() != names[b].len());
        } else {
            assert(names[a][3] != names[b][3] || names[a][9] != names[b][9] || names[a].len()
                != names[b].len());
        }
    }
    assert(names[0] == "vr_left.mp4"@);
    assert(names[1] == "vr_right.mp4"@);
    assert(names[2] == "vr_left_out.mp4"@);
    assert(names[3] == "vr_right_out.mp4"@);
    assert(names[4] == "vr_merged.mp4"@);
    match step {
        VrStep::LeftPass => {
            assert(f =~= seq![names[0]]);
        },
        VrStep::RightPass => {
            assert(f =~= seq![names[1]]);
        },
        VrStep::CheckMerged => {},
        _ => {
            assert(f =~= Seq::<Seq<char>>::empty());
        },
    }
}

/// Each step of a VR job that frees work files frees every one of them that
/// it no longer needs: the half Lada just restored, and after the merged file
/// was checked, both restored halves and the staged source.
pub proof fn law_vr_frees_what_is_done(staged_name: Seq<char>)
    ensures
        vr_freed_files(VrStep::LeftPass, staged_name).contains("vr_left.mp4"@),
        vr_freed_files(VrStep::RightPass, staged_name).contains("vr_right.mp4"@),
        vr_freed_files(VrStep::CheckMerged, staged_name).contains("vr_left_out.mp4"@),
        vr_freed_files(VrStep::CheckMerged, staged_name).contains("vr_right_out.mp4"@),
        vr_freed_files(VrStep::CheckMerged, staged_name).contains(staged_name),
{
    assert(vr_freed_files(VrStep::LeftPass, staged_name)[0] == "vr_left.mp4"@);
    assert(vr_freed_files(VrStep::RightPass, staged_name)[0] == "vr_right.mp4"@);
    let c = vr_freed_files(VrStep::CheckMerged, staged_name);
    assert(c[0] == "vr_left_out.mp4"@);
    assert(c[1] == "vr_right_out.mp4"@);
    assert(c[2] == staged_name);
}

/// Lada's command line carries the job's files and settings where Lada reads
/// them: the three mounts, the input and output names, the user's detection
/// and restoration models, the clip window, and the encoder with its options,
/// each right after its flag (after the optional memory cap), followed only by
/// the half-precision flag the settings ask for.
pub proof fn law_lada_args_carry_the_settings(
    input_dir_docker: Seq<char>,
    output_dir_docker: Seq<char>,
    tmp_dir_docker: Seq<char>,
    input_file_name: Seq<char>,
    output_filename: Seq<char>,
    s: LadaSettings,
    memory_limit_gb: u32,
    clip_length: u32,
)
    ensures
        ({
            let a = lada_args(
                input_dir_docker,
                output_dir_docker,
                tmp_dir_docker,
                input_file_name,
                output_filename,
                s,
                memory_limit_gb,
                clip_length,
            );
            let m = memory_args(memory_limit_gb).len() as int;
            &&& a.len() == m + 29 + fp16_args(s.fp16@).len()
            &&& a[m + 4] == "-v"@ && a[m + 5] == input_dir_docker + ":/input"@
            &&& a[m + 6] == "-v"@ && a[m + 7] == output_dir_docker + ":/output"@
            &&& a[m + 8] == "-v"@ && a[m + 9] == tmp_dir_docker + ":/tmp"@
            &&& a[m + 13] == "--input"@ && a[m + 14] == "/input/"@ + input_file_name
            &&& a[m + 15] == "--output"@ && a[m + 16] == "/output/"@ + output_filename
            &&& a[m + 19] == "--mosaic-detection-model"@ && a[m + 20] == s.detection_model@
            &&& a[m + 21] == "--mosaic-restoration-model"@ && a[m + 22] == s.restoration_model@
            &&& a[m + 23] == "--max-clip-length"@ && a[m + 24] == decimal(clip_length as nat)
            &&& a[m + 25] == "--encoder"@ && a[m + 26] == s.encoder@
            &&& a[m + 27] == "--encoder-options"@ && a[m + 28] == encoder_options(s)
            &&& a.skip(m + 29) == fp16_args(s.fp16@)
        }),
{
    let a = lada_args(
        input_dir_docker,
        output_dir_docker,
        tmp_dir_docker,
        input_file_name,
        output_filename,
        s,
        memory_limit_gb,
        clip_length,
    );
    let m = memory_args(memory_limit_gb).len() as int;
    assert(a.skip(m + 29) =~= fp16_args(s.fp16@));
}

/// A container that could not start is tried again, after `retry_delay`
/// seconds, as long as attempts remain; only the attempt numbered
/// `MAX_PASS_ATTEMPTS` or later gives up. A failed copy of a job that is not
/// cancelled is treated the same way, with `copy_retry_delay`.
pub proof fn law_failed_starts_and_copies_retry_while_attempts_remain(
    label: Seq<char>,
    attempt: u32,
    error: Seq<char>,
)
    ensures
        attempt < MAX_PASS_ATTEMPTS ==> start_failure_spec(label, attempt, error).0 == 3
            && start_failure_spec(label, attempt, error).2 == retry_delay(attempt as nat),
        attempt >= MAX_PASS_ATTEMPTS ==> start_failure_spec(label, attempt, error).0 == 2,
        attempt < MAX_PASS_ATTEMPTS ==> copy_failure_spec(false, label, attempt, error).0 == 3
            && copy_failure_spec(false, label, attempt, error).2 == copy_retry_delay(
            attempt as nat,
        ),
        attempt >= MAX_PASS_ATTEMPTS ==> copy_failure_spec(false, label, attempt, error).0 == 2,
        copy_failure_spec(true, label, attempt, error).0 == 0,
{
}

proof fn lemma_whitespace_run_exact(s: Seq<char>, i: int, n: int)
    requires
        0 <= i,
        0 <= n,
        i + n <= s.len(),
        forall|t: int| 0 <= t < n ==> is_whitespace(#[trigger] s[i + t]),
        i + n < s.len() ==> !is_whitespace(s[i + n]),
    ensures
        whitespace_run(s, i) == n,
    decreases n,
{
    if n > 0 {
        assert(is_whitespace(s[i + 0]));
        assert forall|t: int| 0 <= t < n - 1 implies is_whitespace(#[trigger] s[(i + 1) + t]) by {
            assert(s[(i + 1) + t] == s[i + (t + 1)]);
        }
        lemma_whitespace_run_exact(s, i + 1, n - 1);
    }
}

proof fn lemma_digit_run_exact(s: Seq<char>, i: int, n: int)
    requires
        0 <= i,
        0 <= n,
        i + n <= s.len(),
        forall|t: int| 0 <= t < n ==> crate::text::is_digit(#[trigger] s[i + t]),
        i + n < s.len() ==> !crate::text::is_digit(s[i + n]),
    ensures
        digit_run(s, i) == n,
    decreases n,
{
    if n > 0 {
        assert(crate::text::is_digit(s[i + 0]));
        assert forall|t: int| 0 <= t < n - 1 implies crate::text::is_digit(#[trigger] s[(i + 1) + t])
            by {
            assert(s[(i + 1) + t] == s[i + (t + 1)]);
        }
        lemma_digit_run_exact(s, i + 1, n - 1);
    }
}

/// Every Lada status line whose first `Processing video:` is followed by
/// whitespace, a number in ASCII digits (of any length) and `%` is a progress
/// report, and its percentage is that number as written; `parse_lada_progress`
/// returns it as `percent_text`.
pub proof fn law_progress_percent_is_read(
    pre: Seq<char>,
    ws: Seq<char>,
    digits: Seq<char>,
    rest: Seq<char>,
)
    requires
        find(pre + progress_marker() + ws + digits + "%"@ + rest, progress_marker()) == Some(
            pre.len(),
        ),
        ws.len() > 0,
        forall|i: int| 0 <= i < ws.len() ==> is_whitespace(#[trigger] ws[i]),
        digits.len() > 0,
        all_digits(digits),
    ensures
        percent_at_first_marker(pre + progress_marker() + ws + digits + "%"@ + rest) == Some(
            digits,
        ),
        reports_percent(Some(digits)),
{
    reveal_strlit("%");
    reveal_strlit("Processing video:");
    let line = pre + progress_marker() + ws + digits + "%"@ + rest;
    let j: int = pre.len() as int + progress_marker().len() as int;
    let w = ws.len() as int;
    let n = digits.len() as int;
    assert forall|t: int| 0 <= t < w implies is_whitespace(#[trigger] line[j + t]) by {
        assert(line[j + t] == ws[t]);
    }
    assert(line[j + w] == digits[0]);
    assert(crate::text::is_digit(digits[0]));
    lemma_whitespace_run_exact(line, j, w);
    assert forall|t: int| 0 <= t < n implies crate::text::is_digit(#[trigger] line[(j + w) + t]) by {
        assert(line[(j + w) + t] == digits[t]);
    }
    assert(line[j + w + n] == '%');
    lemma_digit_run_exact(line, j + w, n);
    assert(line.subrange(j + w, j + w + n) =~= digits);
    crate::progress::lemma_digits_are_float_literal(digits);
}

/// How a VR job ends when a step fails: a failed copy, split or merge of a
/// job that is not cancelled fails with that step's stage and the step's own
/// error, and ends quietly when the job is cancelled; a failed Lada pass ends
/// quietly (the pass reported why); a missing merged file fails the merge,
/// cancelled or not; a missing output is reported as such.
pub proof fn law_vr_failure_outcomes(error: Seq<char>, cancelled: bool)
    ensures
        vr_next_spec(VrStep::CopyIn, false, error, cancelled) == (if cancelled {
            VrMove::Stop
        } else {
            VrMove::Fail(VrStage::CopyIn, error)
        }),
        vr_next_spec(VrStep::Split, false, error, cancelled) == (if cancelled {
            VrMove::Stop
        } else {
            VrMove::Fail(VrStage::Split, error)
        }),
        vr_next_spec(VrStep::Merge, false, error, cancelled) == (if cancelled {
            VrMove::Stop
        } else {
            VrMove::Fail(VrStage::Merge, error)
        }),
        vr_next_spec(VrStep::CopyOut, false, error, cancelled) == (if cancelled {
            VrMove::Stop
        } else {
            VrMove::Fail(VrStage::CopyOut, error)
        }),
        vr_next_spec(VrStep::LeftPass, false, error, cancelled) is Stop,
        vr_next_spec(VrStep::RightPass, false, error, cancelled) is Stop,
        vr_next_spec(VrStep::CheckMerged, false, error, cancelled) == VrMove::Fail(
            VrStage::Merge,
            "merged output missing/invalid"@,
        ),
        vr_next_spec(VrStep::CheckOutput, false, error, cancelled) is OutputInvalid,
        vr_next_spec(VrStep::Split, true, error, true) is Stop,
{
}

/// A mount source, char by char: on a host that is not Windows it is the path
/// itself. On a Windows host it has the path's length; a path that starts with
/// a drive (`X:`) starts with `/` and the drive letter in lower case; every
/// other char is the path's own, with `\\` turned into `/`.
pub proof fn law_volume_path_char_by_char(p: Seq<char>)
    ensures
        docker_volume_path(p, false) == p,
        docker_volume_path(p, true).len() == p.len(),
        has_drive_prefix(p) ==> docker_volume_path(p, true)[0] == '/',
        has_drive_prefix(p) ==> docker_volume_path(p, true)[1] as int == if 'A' <= p[0] && p[0]
            <= 'Z' {
            p[0] as int + 32
        } else {
            p[0] as int
        },
        forall|i: int|
            (if has_drive_prefix(p) {
                2int
            } else {
                0int
            }) <= i < p.len() ==> #[trigger] docker_volume_path(p, true)[i] == if p[i] == '\\' {
                '/'
            } else {
                p[i]
            },
{
    let r = docker_volume_path(p, true);
    if has_drive_prefix(p) {
        assert forall|i: int| 2 <= i < p.len() implies #[trigger] r[i] == if p[i] == '\\' {
            '/'
        } else {
            p[i]
        } by {
            assert(r[i] == forward_slashes(p.skip(2))[i - 2]);
        }
        let c = p[0];
        if 'A' <= c && c <= 'Z' {
            assert(((c as u32 + 32) as char) as u32 == c as u32 + 32);
        }
    }
}

proof fn lemma_filter_push(s: Seq<Seq<char>>, x: Seq<char>, pred: spec_fn(Seq<char>) -> bool)
    ensures
        s.push(x).filter(pred) == if pred(x) {
            s.filter(pred).push(x)
        } else {
            s.filter(pred)
        },
{
    reveal(Seq::filter);
    assert(s.push(x).drop_last() =~= s);
}

/// `dir/piece` splits at `/` into the pieces of `dir` and then `piece`.
proof fn lemma_split_after_slash(dir: Seq<char>, piece: Seq<char>)
    requires
        forall|i: int| 0 <= i < piece.len() ==> piece[i] != '/',
    ensures
        split_on(dir + seq!['/'] + piece, '/') == split_on(dir, '/').push(piece),
{
    let x = dir + seq!['/'];
    assert(x.drop_last() =~= dir);
    assert(x.last() == '/');
    let e = Seq::<char>::empty();
    assert(split_on(x, '/') == split_on(dir, '/').push(e));
    lemma_split_on_append(x, piece, '/');
    assert(e + piece =~= piece);
    assert(split_on(dir, '/').push(e).update(split_on(dir, '/').len() as int, e + piece)
        =~= split_on(dir, '/').push(piece));
}

/// The file name of a plain path `dir/name` is `name` whenever `name` is a
/// real name (not empty, no `/`, neither `.` nor `..`); so is that of `name`
/// alone, and a trailing `/` changes nothing. A path that ends in `/..` has
/// none.
pub proof fn law_plain_file_name(dir: Seq<char>, name: Seq<char>)
    requires
        name.len() > 0,
        forall|i: int| 0 <= i < name.len() ==> name[i] != '/',
        name != seq!['.'],
        name != seq!['.', '.'],
    ensures
        plain_file_name(dir + seq!['/'] + name) == Some(name),
        plain_file_name(dir + seq!['/'] + name + seq!['/']) == Some(name),
        plain_file_name(name) == Some(name),
        plain_file_name(dir + seq!['/', '.', '.']) is None,
{
    let pred = carries_a_name();
    let p = dir + seq!['/'] + name;
    lemma_split_after_slash(dir, name);
    lemma_filter_push(split_on(dir, '/'), name, pred);
    assert(named_pieces(p) == split_on(dir, '/').filter(pred).push(name));
    // a trailing separator adds an empty piece, which carries no name
    let q = p + seq!['/'];
    assert(q.drop_last() =~= p);
    assert(split_on(q, '/') == split_on(p, '/').push(Seq::<char>::empty()));
    lemma_filter_push(split_on(p, '/'), Seq::<char>::empty(), pred);
    assert(named_pieces(q) == named_pieces(p));
    // the name alone
    let e = Seq::<char>::empty();
    lemma_split_on_append(e, name, '/');
    assert(e + name =~= name);
    assert(split_on(name, '/') =~= seq![e].update(0, name));
    assert(seq![e].update(0, name) =~= Seq::<Seq<char>>::empty().push(name));
    lemma_filter_push(Seq::<Seq<char>>::empty(), name, pred);
    reveal(Seq::filter);
    assert(Seq::<Seq<char>>::empty().filter(pred) =~= Seq::<Seq<char>>::empty());
    assert(named_pieces(name) =~= seq![name]);
    // `..` at the end
    let dd = seq!['.', '.'];
    assert(dir + seq!['/', '.', '.'] =~= dir + seq!['/'] + dd);
    lemma_split_after_slash(dir, dd);
    lemma_filter_push(split_on(dir, '/'), dd, pred);
    assert(dd != seq!['.']) by {
        assert(dd.len() != 1);
    }
}

/// `x + y + z` has `y` at `x.len()`.
proof fn lemma_middle_occurs(x: Seq<char>, y: Seq<char>, z: Seq<char>)
    ensures
        is_substring(y, x + y + z),
        (x + y + z).take(x.len() as int) == x,
{
    assert((x + y + z).subrange(x.len() as int, x.len() + y.len() as int) =~= y);
    assert(occurs_at(x + y + z, y, x.len() as int));
    assert((x + y + z).take(x.len() as int) =~= x);
}

/// The message of a Lada run that did not succeed starts by naming the pass
/// and the attempt, says how long the wait before a retry is (the same wait as
/// the verdict carries), or that the job gives up, and ends with the recent
/// stderr lines. A failed start names the attempt and the wait the same way.
pub proof fn law_verdict_messages_name_attempt_and_wait(
    cancelled: bool,
    exit_success: bool,
    exit_code: Option<i32>,
    output_valid: bool,
    input_present: bool,
    label: Seq<char>,
    attempt: u32,
    tail: Seq<Seq<char>>,
    error: Seq<char>,
)
    ensures
        ({
            let v = pass_verdict_spec(
                cancelled,
                exit_success,
                exit_code,
                output_valid,
                input_present,
                label,
                attempt,
                tail,
            );
            let head = label + "Attempt "@ + decimal(attempt as nat);
            let t = crate::text::join(tail, "\n"@);
            &&& v.0 >= 2 ==> starts_with(v.1, head) && ends_with(v.1, "\n"@ + t)
            &&& v.0 == 3 ==> is_substring(" Retrying in "@ + decimal(v.2) + "s..."@, v.1)
            &&& v.0 == 2 && attempt >= MAX_PASS_ATTEMPTS && input_present && !(!exit_success
                && drive_unavailable(exit_code, t)) ==> is_substring(
                " Giving up after "@ + decimal(MAX_PASS_ATTEMPTS as nat) + " attempts."@,
                v.1,
            )
        }),
        ({
            let v = start_failure_spec(label, attempt, error);
            let head = label + "Attempt "@ + decimal(attempt as nat);
            &&& starts_with(v.1, head)
            &&& v.0 == 3 ==> is_substring(" Retrying in "@ + decimal(v.2) + "s..."@, v.1)
        }),
{
    let v = pass_verdict_spec(
        cancelled,
        exit_success,
        exit_code,
        output_valid,
        input_present,
        label,
        attempt,
        tail,
    );
    let head = label + "Attempt "@ + decimal(attempt as nat);
    let t = crate::text::join(tail, "\n"@);
    let what = head + if exit_success {
        ": output missing."@
    } else {
        ": exit code "@ + crate::progress::exit_code_debug(exit_code) + "."@
    };
    let nl = "\n"@ + t;
    if v.0 >= 2 {
        let note = if !exit_success && drive_unavailable(exit_code, t) {
            crate::progress::drive_hint()
        } else if !input_present {
            crate::progress::input_missing_note()
        } else if attempt >= MAX_PASS_ATTEMPTS {
            crate::progress::give_up_note()
        } else {
            crate::progress::retry_note(v.2)
        };
        assert(v.1 =~= what + note + nl);
        assert(v.1.take(head.len() as int) =~= head);
        assert(v.1.skip(v.1.len() - nl.len()) =~= nl);
        assert(what + note + nl =~= what + note + nl);
        lemma_middle_occurs(what, note, nl);
    }
    let sv = start_failure_spec(label, attempt, error);
    let swhat = head + " failed to start: "@ + error + "."@;
    assert(sv.1.take(head.len() as int) =~= head);
    if sv.0 == 3 {
        lemma_middle_occurs(swhat, crate::progress::retry_note(sv.2), Seq::<char>::empty());
        assert(swhat + crate::progress::retry_note(sv.2) + Seq::<char>::empty() =~= sv.1);
    }
}

} // verus!
