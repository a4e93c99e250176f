//! Progress reports of Lada and ffmpeg, and what the job runner decides from
//! them.
use vstd::prelude::*;

use crate::patterns::{
    all_capture_group1, capture_group1, digit_run, percent_at_first_marker, progress_marker,
    regex_all_group1, regex_group1, whitespace_run,
};
use crate::text::{all_digits, count_dots, exp_marker_from, is_digit, is_mantissa};
use crate::text::{
    opt_string_view,
    chars_of, copy_range, decimal, find, find_chars, float_literal_ok, is_float_literal,
    is_whitespace, is_whitespace_char, join, join_chars, lines, lines_chars, push_decimal,
    push_str, starts_with, strip_prefix_chars, string_of, string_views, trim, trim_chars, views,
};

verus! {

// ---------------------------------------------------------------------------
// The progress detail of a Lada status line
// ---------------------------------------------------------------------------

pub open spec fn is_detail_trailer(c: char) -> bool {
    c == ',' || c == '|' || c == '[' || is_whitespace(c)
}

/// `s.trim_end_matches(|c| c == ',' || c == '|' || c == '[' || c.is_whitespace())`.
pub open spec fn trim_detail_end(s: Seq<char>) -> Seq<char>
    decreases s.len(),
{
    if s.len() > 0 && is_detail_trailer(s.last()) {
        trim_detail_end(s.drop_last())
    } else {
        s
    }
}

pub proof fn lemma_trim_detail_end_take(s: Seq<char>, j: int)
    requires
        0 <= j <= s.len(),
        forall|k: int| j <= k < s.len() ==> is_detail_trailer(#[trigger] s[k]),
    ensures
        trim_detail_end(s) == trim_detail_end(s.take(j)),
    decreases s.len() - j,
{
    if j < s.len() {
        assert(s.drop_last().take(j) =~= s.take(j));
        lemma_trim_detail_end_take(s.drop_last(), j);
    } else {
        assert(s.take(j) =~= s);
    }
}

/// The text of a Lada status line from its first `Processed:` on; the whole
/// line when it has none.
pub open spec fn from_processed(line: Seq<char>) -> Seq<char> {
    match find(line, "Processed:"@) {
        Some(p) => line.skip(p as int),
        None => line,
    }
}

/// Where the label's text ends in `detail`: before the first `Remaining` or the
/// first `Speed`, whichever comes first; at its end when it has neither.
pub open spec fn detail_cut(detail: Seq<char>) -> nat {
    match (find(detail, "Remaining"@), find(detail, "Speed"@)) {
        (Some(a), Some(b)) => if a <= b {
            a
        } else {
            b
        },
        (Some(a), None) => a,
        (None, Some(b)) => b,
        (None, None) => detail.len(),
    }
}

/// The part of a Lada status line that the progress label shows: everything
/// from `Processed:` on (the whole line when it has none), cut before the first
/// `Remaining` or `Speed`, trimmed, and without trailing `,`, `|` or `[`.
pub open spec fn progress_detail(line: Seq<char>) -> Seq<char> {
    let detail = from_processed(line);
    trim_detail_end(trim(detail.take(detail_cut(detail) as int)))
}

/// Extracts the "Processed: ..." part of a Lada status line; remaining time and
/// speed are reported in fields of their own.
pub fn extract_progress_detail(line: &str) -> (r: String)
    ensures
        r@ == progress_detail(line@),
{
    let v = chars_of(line);
    proof {
        crate::text::lemma_find_from(v@, "Processed:"@, 0);
    }
    let detail = match find_chars(&v, &chars_of("Processed:")) {
        Some(p) => copy_range(&v, p, v.len()),
        None => copy_range(&v, 0, v.len()),
    };
    assert(v@.subrange(0, v@.len() as int) =~= v@);
    assert(detail@ == from_processed(line@));
    proof {
        crate::text::lemma_find_from(detail@, "Remaining"@, 0);
        crate::text::lemma_find_from(detail@, "Speed"@, 0);
    }
    let remaining = find_chars(&detail, &chars_of("Remaining"));
    let speed = find_chars(&detail, &chars_of("Speed"));
    let cut = match (remaining, speed) {
        (Some(a), Some(b)) => if a <= b {
            a
        } else {
            b
        },
        (Some(a), None) => a,
        (None, Some(b)) => b,
        (None, None) => detail.len(),
    };
    assert(cut == detail_cut(detail@));
    let head = copy_range(&detail, 0, cut);
    assert(head@ =~= detail@.take(cut as int));
    let t = trim_chars(&head);
    let mut end = t.len();
    while end > 0 && (t[end - 1] == ',' || t[end - 1] == '|' || t[end - 1] == '['
        || is_whitespace_char(t[end - 1]))
        invariant
            end <= t.len(),
            forall|k: int| end <= k < t.len() ==> is_detail_trailer(#[trigger] t@[k]),
        decreases end,
    {
        end = end - 1;
    }
    proof {
        lemma_trim_detail_end_take(t@, end as int);
        if end > 0 {
            assert(t@.take(end as int).last() == t@[end - 1]);
        }
    }
    let out = copy_range(&t, 0, end);
    assert(out@ =~= t@.take(end as int));
    string_of(&out)
}

// ---------------------------------------------------------------------------
// Lada progress lines
// ---------------------------------------------------------------------------

/// The pattern of Lada's percentage; group 1 holds the number.
pub open spec fn percent_pattern() -> Seq<char> {
    "Processing video:\\s+(\\d+)%"@
}

/// The pattern of the estimated time left; group 1 holds it.
pub open spec fn remaining_pattern() -> Seq<char> {
    "Remaining:\\s*(\\S+)"@
}

/// The pattern of the processing speed; group 1 holds it.
pub open spec fn speed_pattern() -> Seq<char> {
    "Speed:\\s*(\\S+)"@
}

/// What one Lada status line reports.
#[derive(Debug)]
pub struct LadaProgress {
    /// The percentage as printed; `str::parse::<f64>` accepts it.
    pub percent_text: String,
    /// Estimated time left, empty when the line has none.
    pub remaining: String,
    /// Processing speed, empty when the line has none.
    pub speed: String,
    /// The message shown next to the progress bar.
    pub message: String,
}

/// The progress message: the pass label, a retry marker from the second
/// attempt on, and the processed-frames detail.
pub open spec fn progress_message(label: Seq<char>, attempt: u32, detail: Seq<char>) -> Seq<
    char,
> {
    if attempt > 1 {
        label + "[Retry #"@ + decimal(attempt as nat) + "] "@ + detail
    } else {
        label + detail
    }
}

pub open spec fn or_empty(o: Option<Seq<char>>) -> Seq<char> {
    match o {
        Some(s) => s,
        None => Seq::empty(),
    }
}

/// A status line is a progress report when its percentage was found and
/// `str::parse::<f64>` accepts it.
pub open spec fn reports_percent(percent: Option<Seq<char>>) -> bool {
    percent matches Some(t) && is_float_literal(t)
}

/// The chars counted by `digit_run` are ASCII digits inside `s`.
pub proof fn lemma_digit_run(s: Seq<char>, i: int)
    requires
        0 <= i,
    ensures
        digit_run(s, i) > 0 ==> i + digit_run(s, i) <= s.len(),
        forall|t: int| 0 <= t < digit_run(s, i) ==> is_digit(#[trigger] s[i + t]),
    decreases s.len() - i,
{
    if 0 <= i < s.len() && is_digit(s[i]) {
        lemma_digit_run(s, i + 1);
        assert forall|t: int| 0 <= t < digit_run(s, i) implies is_digit(#[trigger] s[i + t]) by {
            if t > 0 {
                assert(s[i + t] == s[(i + 1) + (t - 1)]);
            }
        }
    }
}

proof fn lemma_no_exp_marker(d: Seq<char>, i: nat)
    requires
        all_digits(d),
    ensures
        exp_marker_from(d, i) is None,
    decreases d.len() - i,
{
    if i < d.len() {
        assert(is_digit(d[i as int]));
        lemma_no_exp_marker(d, i + 1);
    }
}

proof fn lemma_no_dots(d: Seq<char>)
    requires
        all_digits(d),
    ensures
        count_dots(d) == 0,
    decreases d.len(),
{
    if d.len() > 0 {
        assert(is_digit(d.last()));
        assert(all_digits(d.drop_last())) by {
            assert forall|i: int| 0 <= i < d.drop_last().len() implies is_digit(
                #[trigger] d.drop_last()[i],
            ) by {
                assert(d.drop_last()[i] == d[i]);
            }
        }
        lemma_no_dots(d.drop_last());
    }
}

/// A number written in ASCII digits is a float literal for `str::parse`.
pub proof fn lemma_digits_are_float_literal(d: Seq<char>)
    requires
        d.len() > 0,
        all_digits(d),
    ensures
        is_float_literal(d),
{
    assert(is_digit(d[0]));
    lemma_no_exp_marker(d, 0);
    lemma_no_dots(d);
    assert(is_mantissa(d));
}

/// What the progress pattern captures at the first marker is a number that
/// `str::parse` accepts.
pub proof fn lemma_percent_at_first_marker_is_a_number(s: Seq<char>)
    requires
        percent_at_first_marker(s) is Some,
    ensures
        reports_percent(percent_at_first_marker(s)),
{
    let k = find(s, progress_marker()).unwrap();
    let j: int = k as int + progress_marker().len() as int;
    let w: int = whitespace_run(s, j) as int;
    lemma_digit_run(s, j + w);
    let d = percent_at_first_marker(s).unwrap();
    assert forall|t: int| 0 <= t < d.len() implies is_digit(#[trigger] d[t]) by {
        assert(d[t] == s[(j + w) + t]);
    }
    lemma_digits_are_float_literal(d);
}

/// The progress report of a status line, given what the three patterns
/// captured in it.
pub fn lada_progress_from_captures(
    line: &str,
    label: &str,
    attempt: u32,
    percent: Option<String>,
    remaining: Option<String>,
    speed: Option<String>,
) -> (r: Option<LadaProgress>)
    ensures
        match r {
            Some(p) => {
                &&& reports_percent(opt_string_view(percent))
                &&& opt_string_view(percent) == Some(p.percent_text@)
                &&& p.remaining@ == or_empty(opt_string_view(remaining))
                &&& p.speed@ == or_empty(opt_string_view(speed))
                &&& p.message@ == progress_message(label@, attempt, progress_detail(line@))
            },
            None => !reports_percent(opt_string_view(percent)),
        },
{
    let percent_text = match percent {
        Some(t) => t,
        None => return None,
    };
    if !float_literal_ok(&chars_of(percent_text.as_str())) {
        return None;
    }
    let remaining = match remaining {
        Some(s) => s,
        None => String::new(),
    };
    let speed = match speed {
        Some(s) => s,
        None => String::new(),
    };
    let detail = extract_progress_detail(line);
    let mut m: Vec<char> = Vec::new();
    push_str(&mut m, label);
    if attempt > 1 {
        push_str(&mut m, "[Retry #");
        push_decimal(&mut m, attempt as u64);
        push_str(&mut m, "] ");
    }
    push_str(&mut m, detail.as_str());
    assert(m@ =~= progress_message(label@, attempt, progress_detail(line@)));
    let message = string_of(&m);
    Some(LadaProgress { percent_text, remaining, speed, message })
}

/// Reads one Lada status line. `attempt` counts the runs of this pass from 1.
pub fn parse_lada_progress(line: &str, label: &str, attempt: u32) -> (r: Option<LadaProgress>)
    ensures
        percent_at_first_marker(line@) matches Some(d) ==> (r matches Some(p)
            && p.percent_text@ == d),
        match r {
            Some(p) => {
                &&& reports_percent(regex_group1(percent_pattern(), line@))
                &&& regex_group1(percent_pattern(), line@) == Some(p.percent_text@)
                &&& p.remaining@ == or_empty(regex_group1(remaining_pattern(), line@))
                &&& p.speed@ == or_empty(regex_group1(speed_pattern(), line@))
                &&& p.message@ == progress_message(label@, attempt, progress_detail(line@))
            },
            None => !reports_percent(regex_group1(percent_pattern(), line@)),
        },
{
    let percent = capture_group1("Processing video:\\s+(\\d+)%", line);
    proof {
        if percent_at_first_marker(line@) is Some {
            lemma_percent_at_first_marker_is_a_number(line@);
        }
    }
    if percent.is_none() {
        return None;
    }
    let remaining = capture_group1("Remaining:\\s*(\\S+)", line);
    let speed = capture_group1("Speed:\\s*(\\S+)", line);
    lada_progress_from_captures(line, label, attempt, percent, remaining, speed)
}

// ---------------------------------------------------------------------------
// ffmpeg progress and errors
// ---------------------------------------------------------------------------

/// The microseconds value of an ffmpeg `-progress` line `out_time_us=<n>`
/// (after trimming), when `str::parse::<f64>` accepts it.
pub open spec fn out_time_value(line: Seq<char>) -> Option<Seq<char>> {
    let t = trim(line);
    let key = "out_time_us="@;
    if starts_with(t, key) && is_float_literal(t.skip(key.len() as int)) {
        Some(t.skip(key.len() as int))
    } else {
        None
    }
}

/// Reads one line of ffmpeg's `-progress` output.
pub fn ffmpeg_out_time_text(line: &str) -> (r: Option<String>)
    ensures
        opt_string_view(r) == out_time_value(line@),
{
    let t = trim_chars(&chars_of(line));
    let key = chars_of("out_time_us=");
    match strip_prefix_chars(&t, &key) {
        Some(rest) => {
            if float_literal_ok(&rest) {
                Some(string_of(&rest))
            } else {
                None
            }
        },
        None => None,
    }
}

/// The last `n` items of `s` (all of them when there are fewer).
pub open spec fn last_n<A>(s: Seq<A>, n: nat) -> Seq<A> {
    if s.len() > n {
        s.skip(s.len() - n)
    } else {
        s
    }
}

/// The error text of a failed ffmpeg step: the last five lines of its stderr,
/// joined with ` | `.
pub open spec fn stderr_summary(err: Seq<char>) -> Seq<char> {
    join(last_n(lines(err), 5), " | "@)
}

/// Summarizes the stderr of a failed ffmpeg step.
pub fn summarize_stderr(err: &str) -> (r: String)
    ensures
        r@ == stderr_summary(err@),
{
    let ls = lines_chars(&chars_of(err));
    let n = ls.len();
    let from = if n > 5 {
        n - 5
    } else {
        0
    };
    let mut tail: Vec<Vec<char>> = Vec::new();
    let mut i = from;
    while i < n
        invariant
            n == ls.len(),
            from <= i <= n,
            views(tail@) == views(ls@).subrange(from as int, i as int),
        decreases n - i,
    {
        let l = copy_range(&ls[i], 0, ls[i].len());
        assert(l@ =~= ls@[i as int]@);
        let ghost before = tail@;
        tail.push(l);
        proof {
            crate::text::lemma_views_push(before, l);
        }
        i = i + 1;
        assert(views(ls@).subrange(from as int, i as int) =~= views(ls@).subrange(
            from as int,
            i - 1,
        ).push(ls@[i - 1]@));
    }
    assert(views(ls@).subrange(from as int, n as int) =~= last_n(lines(err@), 5));
    string_of(&join_chars(&tail, " | "))
}

/// How an ffmpeg step ended: success, cancelled by the user, or failed with
/// the summary of its stderr.
pub fn ffmpeg_step_result(success: bool, cancelled: bool, stderr: &str) -> (r: Result<(), String>)
    ensures
        match r {
            Ok(()) => success,
            Err(e) => !success && e@ == (if cancelled {
                "cancelled"@
            } else {
                stderr_summary(stderr@)
            }),
        },
{
    if success {
        Ok(())
    } else if cancelled {
        Err(String::from_str("cancelled"))
    } else {
        Err(summarize_stderr(stderr))
    }
}


// ---------------------------------------------------------------------------
// Left/right similarity of a VR candidate
// ---------------------------------------------------------------------------

/// ffmpeg's ssim filter logs `... All:<average> (...)`; group 1 holds the average.
pub open spec fn ssim_pattern() -> Seq<char> {
    "All:([0-9.]+)"@
}

/// The last captured value that `str::parse::<f64>` accepts.
pub open spec fn last_float_capture(caps: Seq<Option<Seq<char>>>) -> Option<Seq<char>>
    decreases caps.len(),
{
    if caps.len() == 0 {
        None
    } else {
        match caps.last() {
            Some(t) => if is_float_literal(t) {
                Some(t)
            } else {
                last_float_capture(caps.drop_last())
            },
            None => last_float_capture(caps.drop_last()),
        }
    }
}

/// The last of the captured values that is a number.
pub fn last_float_text(caps: &Vec<Option<String>>) -> (r: Option<String>)
    ensures
        opt_string_view(r) == last_float_capture(
            caps@.map_values(|x: Option<String>| opt_string_view(x)),
        ),
{
    let ghost cv = caps@.map_values(|x: Option<String>| opt_string_view(x));
    let mut i = caps.len();
    assert(cv.take(caps.len() as int) =~= cv);
    while i > 0
        invariant
            i <= caps.len(),
            cv == caps@.map_values(|x: Option<String>| opt_string_view(x)),
            last_float_capture(cv) == last_float_capture(cv.take(i as int)),
        decreases i,
    {
        assert(cv.take(i as int).drop_last() =~= cv.take(i - 1));
        assert(cv.take(i as int).last() == opt_string_view(caps@[i - 1]));
        match &caps[i - 1] {
            Some(t) => {
                if float_literal_ok(&chars_of(t.as_str())) {
                    return Some(String::from_str(t.as_str()));
                }
            },
            None => {},
        }
        i = i - 1;
    }
    None
}

/// The SSIM average that ffmpeg's stderr reports last, as text that
/// `str::parse::<f64>` accepts; `None` when it reports none.
pub fn ssim_score_text(stderr: &str) -> (r: Option<String>)
    ensures
        opt_string_view(r) == match regex_all_group1(ssim_pattern(), stderr@) {
            Some(caps) => last_float_capture(caps),
            None => None,
        },
{
    match all_capture_group1("All:([0-9.]+)", stderr) {
        Some(caps) => last_float_text(&caps),
        None => None,
    }
}

// ---------------------------------------------------------------------------
// Lada's stderr, line by line
// ---------------------------------------------------------------------------

pub open spec fn is_line_break(b: u8) -> bool {
    b == 13 || b == 10
}

/// No `\r` or `\n` in `s`.
pub open spec fn unbroken(s: Seq<u8>) -> bool {
    forall|i: int| 0 <= i < s.len() ==> !is_line_break(#[trigger] s[i])
}

/// Cuts a byte stream into lines at every `\r` or `\n` (Lada redraws its
/// progress bar with `\r`); empty lines are skipped.
pub struct LineSplitter {
    pending: Vec<u8>,
}

impl LineSplitter {
    /// Bytes of the line under way.
    pub closed spec fn pending(&self) -> Seq<u8> {
        self.pending@
    }

    pub open spec fn wf(&self) -> bool {
        unbroken(self.pending())
    }

    pub fn new() -> (r: Self)
        ensures
            r.pending() == Seq::<u8>::empty(),
            r.wf(),
    {
        LineSplitter { pending: Vec::new() }
    }

    /// Takes the next byte; returns the line it completes, if any.
    pub fn push_byte(&mut self, b: u8) -> (r: Option<Vec<u8>>)
        requires
            old(self).wf(),
        ensures
            final(self).wf(),
            is_line_break(b) ==> final(self).pending() == Seq::<u8>::empty() && match r {
                Some(l) => old(self).pending().len() > 0 && l@ == old(self).pending(),
                None => old(self).pending().len() == 0,
            },
            !is_line_break(b) ==> final(self).pending() == old(self).pending().push(b) && r is None,
            r matches Some(l) ==> l@.len() > 0 && unbroken(l@),
    {
        if b == 13 || b == 10 {
            if self.pending.len() > 0 {
                let mut line: Vec<u8> = Vec::new();
                std::mem::swap(&mut line, &mut self.pending);
                assert(self.pending@ =~= Seq::<u8>::empty());
                Some(line)
            } else {
                None
            }
        } else {
            self.pending.push(b);
            proof {
                assert forall|i: int| 0 <= i < self.pending@.len() implies !is_line_break(
                    #[trigger] self.pending@[i],
                ) by {
                    if i < old(self).pending@.len() {
                        assert(self.pending@[i] == old(self).pending@[i]);
                    }
                }
            }
            None
        }
    }
}

/// The most recent lines of Lada's stderr, at most ten, oldest first.
pub struct RecentLines {
    lines: Vec<String>,
}

/// How many stderr lines a failure report quotes.
pub const RECENT_LINE_LIMIT: usize = 10;

impl RecentLines {
    pub closed spec fn view_lines(&self) -> Seq<Seq<char>> {
        string_views(self.lines@)
    }

    pub fn new() -> (r: Self)
        ensures
            r.view_lines() == Seq::<Seq<char>>::empty(),
    {
        let r = RecentLines { lines: Vec::new() };
        assert(r.view_lines() =~= Seq::<Seq<char>>::empty());
        r
    }

    /// Records a line, dropping the oldest one beyond ten.
    pub fn push(&mut self, line: String)
        requires
            old(self).view_lines().len() <= RECENT_LINE_LIMIT,
        ensures
            final(self).view_lines() == last_n(
                old(self).view_lines().push(line@),
                RECENT_LINE_LIMIT as nat,
            ),
            final(self).view_lines().len() <= RECENT_LINE_LIMIT,
    {
        let ghost before = self.lines@;
        self.lines.push(line);
        proof {
            crate::text::lemma_string_views_push(before, line);
        }
        if self.lines.len() > RECENT_LINE_LIMIT {
            let ghost pushed = self.lines@;
            self.lines.remove(0);
            assert(string_views(self.lines@) =~= string_views(pushed).skip(1));
        }
    }

    /// The recorded lines joined with `\n`.
    pub fn joined(&self) -> (r: String)
        ensures
            r@ == join(self.view_lines(), "\n"@),
    {
        let mut out: Vec<char> = Vec::new();
        let mut i: usize = 0;
        while i < self.lines.len()
            invariant
                i <= self.lines.len(),
                out@ == join(string_views(self.lines@).take(i as int), "\n"@),
            decreases self.lines.len() - i,
        {
            let ghost prev = string_views(self.lines@).take(i as int);
            assert(string_views(self.lines@).take(i + 1).drop_last() =~= prev);
            if i > 0 {
                push_str(&mut out, "\n");
            }
            push_str(&mut out, self.lines[i].as_str());
            i = i + 1;
            assert(out@ =~= join(string_views(self.lines@).take(i as int), "\n"@));
        }
        assert(string_views(self.lines@).take(self.lines.len() as int) =~= string_views(
            self.lines@,
        ));
        string_of(&out)
    }
}

// ---------------------------------------------------------------------------
// The outcome of a Lada pass
// ---------------------------------------------------------------------------

/// A finished output file counts when it exists and is larger than 1000 bytes.
pub fn output_file_valid(size: Option<u64>) -> (r: bool)
    ensures
        r == (size matches Some(n) && n > 1000),
{
    match size {
        Some(n) => n > 1000,
        None => false,
    }
}

/// How many times a Lada pass is run before the job gives up.
pub const MAX_PASS_ATTEMPTS: u32 = 5;

/// The wait before the first retry, in seconds; it doubles after each failed
/// attempt.
pub const FIRST_RETRY_DELAY_SECS: u64 = 30;

/// The longest wait between two attempts, in seconds.
pub const MAX_RETRY_DELAY_SECS: u64 = 300;

/// The wait after failed attempt number `attempt` (from 1): 30 s after the
/// first, doubled after each further one, at most 300 s.
pub open spec fn retry_delay(attempt: nat) -> nat
    decreases attempt,
{
    if attempt <= 1 {
        FIRST_RETRY_DELAY_SECS as nat
    } else {
        let d = 2 * retry_delay((attempt - 1) as nat);
        if d > MAX_RETRY_DELAY_SECS {
            MAX_RETRY_DELAY_SECS as nat
        } else {
            d
        }
    }
}

/// Once the wait has reached its bound it stays there.
pub proof fn lemma_retry_delay_capped(i: nat, j: nat)
    requires
        1 <= i <= j,
        retry_delay(i) == MAX_RETRY_DELAY_SECS,
    ensures
        retry_delay(j) == MAX_RETRY_DELAY_SECS,
    decreases j - i,
{
    if i < j {
        lemma_retry_delay_capped(i, (j - 1) as nat);
    }
}

/// The wait, in seconds, before the attempt that follows failed attempt
/// number `attempt`.
pub fn retry_delay_secs(attempt: u32) -> (r: u64)
    ensures
        r == retry_delay(attempt as nat),
{
    let mut d: u64 = FIRST_RETRY_DELAY_SECS;
    let mut i: u32 = 1;
    while i < attempt && d < MAX_RETRY_DELAY_SECS
        invariant
            1 <= i,
            i <= attempt || i == 1,
            d == retry_delay(i as nat),
            d <= MAX_RETRY_DELAY_SECS,
        decreases attempt - i,
    {
        d = if 2 * d > MAX_RETRY_DELAY_SECS {
            MAX_RETRY_DELAY_SECS
        } else {
            2 * d
        };
        i = i + 1;
    }
    proof {
        if i < attempt {
            lemma_retry_delay_capped(i as nat, attempt as nat);
        } else if attempt == 0 {
            assert(retry_delay(0) == retry_delay(1));
        }
    }
    d
}

/// What the job runner does after a Lada run ended.
#[derive(Debug)]
pub enum PassVerdict {
    /// The user cancelled the job.
    Cancelled,
    /// The output exists: the pass is done.
    Succeeded,
    /// The job fails with this message: the drive or the input went away, or
    /// the last allowed attempt failed.
    Failed(String),
    /// Transient failure: show this message, wait this many seconds and run
    /// the pass again.
    Retry(String, u64),
}

/// `{:?}` of an exit code: `Some(<code>)` or `None`.
pub open spec fn exit_code_debug(code: Option<i32>) -> Seq<char> {
    match code {
        Some(c) => "Some("@ + crate::text::signed_decimal(c as int) + ")"@,
        None => "None"@,
    }
}

/// Exit code 125 with Docker's mount-source error: the drive that holds the
/// video (or the work dir) is gone, typically a disconnected external disk.
pub open spec fn drive_unavailable(code: Option<i32>, stderr_tail: Seq<char>) -> bool {
    code == Some(125i32) && crate::text::contains(stderr_tail, "mount source path"@)
}

pub open spec fn drive_hint() -> Seq<char> {
    " [drive unavailable — check the drive is connected, then restart Docker Desktop]"@
}

pub open spec fn input_missing_note() -> Seq<char> {
    " Input file missing."@
}

pub open spec fn retry_note(delay: nat) -> Seq<char> {
    " Retrying in "@ + decimal(delay) + "s..."@
}

pub open spec fn give_up_note() -> Seq<char> {
    " Giving up after "@ + decimal(MAX_PASS_ATTEMPTS as nat) + " attempts."@
}

/// The decision after a Lada run, as (kind, message, wait): kind 0 cancelled,
/// 1 done, 2 failed for good (the drive or the input went away, or this was
/// the last allowed attempt), 3 retried after the wait. The message names the
/// attempt and what went wrong and quotes the recent stderr lines.
pub open spec fn pass_verdict_spec(
    cancelled: bool,
    exit_success: bool,
    exit_code: Option<i32>,
    output_valid: bool,
    input_present: bool,
    label: Seq<char>,
    attempt: u32,
    tail: Seq<Seq<char>>,
) -> (int, Seq<char>, nat) {
    let t = join(tail, "\n"@);
    let what = label + "Attempt "@ + decimal(attempt as nat) + if exit_success {
        ": output missing."@
    } else {
        ": exit code "@ + exit_code_debug(exit_code) + "."@
    };
    if cancelled {
        (0, Seq::empty(), 0)
    } else if exit_success && output_valid {
        (1, Seq::empty(), 0)
    } else if !exit_success && drive_unavailable(exit_code, t) {
        (2, what + drive_hint() + "\n"@ + t, 0)
    } else if !input_present {
        (2, what + input_missing_note() + "\n"@ + t, 0)
    } else if attempt >= MAX_PASS_ATTEMPTS {
        (2, what + give_up_note() + "\n"@ + t, 0)
    } else {
        (3, what + retry_note(retry_delay(attempt as nat)) + "\n"@ + t, retry_delay(attempt as nat))
    }
}

/// A verdict as (kind, message, wait), in the numbering of `pass_verdict_spec`.
pub open spec fn verdict_view(v: PassVerdict) -> (int, Seq<char>, nat) {
    match v {
        PassVerdict::Cancelled => (0, Seq::empty(), 0),
        PassVerdict::Succeeded => (1, Seq::empty(), 0),
        PassVerdict::Failed(m) => (2, m@, 0),
        PassVerdict::Retry(m, d) => (3, m@, d as nat),
    }
}

fn push_exit_code(v: &mut Vec<char>, code: Option<i32>)
    ensures
        final(v)@ == old(v)@ + exit_code_debug(code),
{
    match code {
        Some(c) => {
            push_str(v, "Some(");
            let s = crate::text::i32_to_string(c);
            push_str(v, s.as_str());
            push_str(v, ")");
        },
        None => push_str(v, "None"),
    }
}

/// Appends `retry_note(delay)`.
fn push_retry_note(v: &mut Vec<char>, delay: u64)
    ensures
        final(v)@ == old(v)@ + retry_note(delay as nat),
{
    push_str(v, " Retrying in ");
    push_decimal(v, delay);
    push_str(v, "s...");
    assert(final(v)@ =~= old(v)@ + retry_note(delay as nat));
}

/// Appends `give_up_note()`.
fn push_give_up_note(v: &mut Vec<char>)
    ensures
        final(v)@ == old(v)@ + give_up_note(),
{
    push_str(v, " Giving up after ");
    push_decimal(v, MAX_PASS_ATTEMPTS as u64);
    push_str(v, " attempts.");
    assert(final(v)@ =~= old(v)@ + give_up_note());
}

/// Decides what happens after a Lada run: `exit_code` is the process's exit
/// code, `output_valid` whether the expected output file is there,
/// `input_present` whether the input file still is, `attempt` the number of
/// this run from 1. A lost drive or a missing input fails at once; any other
/// failure is retried with a growing wait until `MAX_PASS_ATTEMPTS` runs
/// have failed.
pub fn lada_pass_verdict(
    cancelled: bool,
    exit_success: bool,
    exit_code: Option<i32>,
    output_valid: bool,
    input_present: bool,
    label: &str,
    attempt: u32,
    tail: &RecentLines,
) -> (r: PassVerdict)
    ensures
        verdict_view(r) == pass_verdict_spec(
            cancelled,
            exit_success,
            exit_code,
            output_valid,
            input_present,
            label@,
            attempt,
            tail.view_lines(),
        ),
{
    if cancelled {
        return PassVerdict::Cancelled;
    }
    if exit_success && output_valid {
        return PassVerdict::Succeeded;
    }
    let t = tail.joined();
    let ghost tj = join(tail.view_lines(), "\n"@);
    let mut m: Vec<char> = Vec::new();
    push_str(&mut m, label);
    push_str(&mut m, "Attempt ");
    push_decimal(&mut m, attempt as u64);
    if exit_success {
        push_str(&mut m, ": output missing.");
    } else {
        push_str(&mut m, ": exit code ");
        push_exit_code(&mut m, exit_code);
        push_str(&mut m, ".");
    }
    let ghost what = m@;
    assert(what =~= label@ + "Attempt "@ + decimal(attempt as nat) + if exit_success {
        ": output missing."@
    } else {
        ": exit code "@ + exit_code_debug(exit_code) + "."@
    });
    let drive_gone = if exit_success {
        false
    } else {
        match exit_code {
            Some(c) => c == 125 && crate::text::str_contains(t.as_str(), "mount source path"),
            None => false,
        }
    };
    assert(drive_gone == (!exit_success && drive_unavailable(exit_code, tj)));
    let failed = if drive_gone {
        push_str(&mut m, " [drive unavailable — check the drive is connected, then restart Docker Desktop]");
        true
    } else if !input_present {
        push_str(&mut m, " Input file missing.");
        true
    } else if attempt >= MAX_PASS_ATTEMPTS {
        push_give_up_note(&mut m);
        true
    } else {
        false
    };
    if failed {
        push_str(&mut m, "\n");
        push_str(&mut m, t.as_str());
        PassVerdict::Failed(string_of(&m))
    } else {
        let delay = retry_delay_secs(attempt);
        push_retry_note(&mut m, delay);
        push_str(&mut m, "\n");
        push_str(&mut m, t.as_str());
        PassVerdict::Retry(string_of(&m), delay)
    }
}

/// The decision when the Lada container could not be started: retried with
/// the same growing wait as a failed run, until `MAX_PASS_ATTEMPTS` attempts
/// have failed.
pub open spec fn start_failure_spec(label: Seq<char>, attempt: u32, error: Seq<char>) -> (
    int,
    Seq<char>,
    nat,
) {
    let what = label + "Attempt "@ + decimal(attempt as nat) + " failed to start: "@ + error + "."@;
    if attempt >= MAX_PASS_ATTEMPTS {
        (2, what + give_up_note(), 0)
    } else {
        (3, what + retry_note(retry_delay(attempt as nat)), retry_delay(attempt as nat))
    }
}

/// What happens when attempt number `attempt` could not start the container
/// (`error` is the reason the system gave).
pub fn start_failure_verdict(label: &str, attempt: u32, error: &str) -> (r: PassVerdict)
    ensures
        verdict_view(r) == start_failure_spec(label@, attempt, error@),
{
    let mut m: Vec<char> = Vec::new();
    push_str(&mut m, label);
    push_str(&mut m, "Attempt ");
    push_decimal(&mut m, attempt as u64);
    push_str(&mut m, " failed to start: ");
    push_str(&mut m, error);
    push_str(&mut m, ".");
    if attempt >= MAX_PASS_ATTEMPTS {
        push_give_up_note(&mut m);
        PassVerdict::Failed(string_of(&m))
    } else {
        let delay = retry_delay_secs(attempt);
        push_retry_note(&mut m, delay);
        PassVerdict::Retry(string_of(&m), delay)
    }
}

// ---------------------------------------------------------------------------
// Copying files with progress
// ---------------------------------------------------------------------------

/// Bytes copied between two progress reports: 256 MiB.
pub const COPY_REPORT_STEP: u64 = 268435456;

/// Bytes copied so far and the count at the last progress report.
pub struct CopyMeter {
    pub done: u64,
    pub last_report: u64,
}

impl CopyMeter {
    pub fn new() -> (r: Self)
        ensures
            r.done == 0,
            r.last_report == 0,
    {
        CopyMeter { done: 0, last_report: 0 }
    }

    /// Records `n` more bytes copied; returns whether to report progress now,
    /// which is once at least 256 MiB were copied since the last report.
    pub fn record(&mut self, n: u64) -> (r: bool)
        requires
            old(self).last_report <= old(self).done,
            old(self).done + n <= u64::MAX,
        ensures
            final(self).done == old(self).done + n,
            r == (final(self).done - old(self).last_report >= COPY_REPORT_STEP),
            final(self).last_report == if r {
                final(self).done
            } else {
                old(self).last_report
            },
            final(self).last_report <= final(self).done,
    {
        self.done = self.done + n;
        if self.done - self.last_report >= COPY_REPORT_STEP {
            self.last_report = self.done;
            true
        } else {
            false
        }
    }
}

/// The wait after failed copy attempt number `attempt`: half the wait between
/// Lada runs, so 15 s after the first, doubling from there.
pub open spec fn copy_retry_delay(attempt: nat) -> nat {
    retry_delay(attempt) / 2
}

/// The decision after a failed copy attempt, as (kind, message, wait) in the
/// numbering of `pass_verdict_spec`: a cancelled job stops; otherwise the copy
/// is retried after `copy_retry_delay(attempt)` seconds (a removable drive may
/// briefly drop out) until `MAX_PASS_ATTEMPTS` attempts have failed.
pub open spec fn copy_failure_spec(cancelled: bool, label: Seq<char>, attempt: u32, error: Seq<char>) -> (
    int,
    Seq<char>,
    nat,
) {
    let what = label + "attempt "@ + decimal(attempt as nat) + " failed: "@ + error;
    if cancelled {
        (0, Seq::empty(), 0)
    } else if attempt >= MAX_PASS_ATTEMPTS {
        (2, what + " — giving up after "@ + decimal(MAX_PASS_ATTEMPTS as nat) + " attempts"@, 0)
    } else {
        let d = copy_retry_delay(attempt as nat);
        (3, what + " — retrying in "@ + decimal(d) + "s (is the drive connected?)"@, d)
    }
}

/// What happens after copy attempt number `attempt` failed with `error`.
pub fn copy_failure_verdict(cancelled: bool, label: &str, attempt: u32, error: &str) -> (r:
    PassVerdict)
    ensures
        verdict_view(r) == copy_failure_spec(cancelled, label@, attempt, error@),
{
    if cancelled {
        return PassVerdict::Cancelled;
    }
    let mut m: Vec<char> = Vec::new();
    push_str(&mut m, label);
    push_str(&mut m, "attempt ");
    push_decimal(&mut m, attempt as u64);
    push_str(&mut m, " failed: ");
    push_str(&mut m, error);
    if attempt >= MAX_PASS_ATTEMPTS {
        push_str(&mut m, " — giving up after ");
        push_decimal(&mut m, MAX_PASS_ATTEMPTS as u64);
        push_str(&mut m, " attempts");
        PassVerdict::Failed(string_of(&m))
    } else {
        let d = retry_delay_secs(attempt) / 2;
        push_str(&mut m, " — retrying in ");
        push_decimal(&mut m, d);
        push_str(&mut m, "s (is the drive connected?)");
        PassVerdict::Retry(string_of(&m), d)
    }
}

} // verus!
