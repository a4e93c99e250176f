use lada_gui::progress::{
    copy_failure_verdict, extract_progress_detail, ffmpeg_out_time_text, ffmpeg_step_result,
    lada_pass_verdict, lada_progress_from_captures, last_float_text, output_file_valid,
    parse_lada_progress, retry_delay_secs, ssim_score_text, start_failure_verdict, summarize_stderr,
    CopyMeter, LineSplitter, PassVerdict, RecentLines, MAX_PASS_ATTEMPTS, MAX_RETRY_DELAY_SECS,
};

const LINE: &str = "Processing video:  45%|#####     | Processed: 00:00:12 (120/300) | Remaining: 00:01:23 | Speed: 12.3fps";

#[test]
fn detail_stops_before_remaining() {
    assert_eq!(extract_progress_detail(LINE), "Processed: 00:00:12 (120/300)");
    assert_eq!(
        extract_progress_detail("Processing video: 45%|##| Processed: 120/300 frames, Remaining: 00:01:23, Speed: 12fps"),
        "Processed: 120/300 frames"
    );
}

#[test]
fn detail_stops_before_speed_when_it_comes_first() {
    assert_eq!(extract_progress_detail("Processed: 10 | Speed: 2x | Remaining: 5s"), "Processed: 10");
    assert_eq!(extract_progress_detail("x Processed: 3, Speed 4, Remaining 5, Speed 6"), "Processed: 3");
}

#[test]
fn detail_is_unchanged_by_a_second_extraction() {
    for line in [LINE, "Processed: 10 | Speed: 2x | Remaining: 5s", "  plain text  ", "abc [ Speed: 3", ""] {
        let once = extract_progress_detail(line);
        assert_eq!(extract_progress_detail(&once), once);
    }
}

#[test]
fn detail_without_processed_or_remaining() {
    assert_eq!(extract_progress_detail("abc [ Speed: 3"), "abc");
    assert_eq!(extract_progress_detail("  plain text  "), "plain text");
    assert_eq!(extract_progress_detail(""), "");
    assert_eq!(extract_progress_detail("Remaining: 1"), "");
}

#[test]
fn lada_progress_line_first_attempt() {
    let p = parse_lada_progress(LINE, "", 1).unwrap();
    assert_eq!(p.percent_text, "45");
    assert_eq!(p.remaining, "00:01:23");
    assert_eq!(p.speed, "12.3fps");
    assert_eq!(p.message, "Processed: 00:00:12 (120/300)");
}

#[test]
fn lada_progress_line_on_retry_is_marked() {
    let p = parse_lada_progress(LINE, "VR L: ", 2).unwrap();
    assert_eq!(p.message, "VR L: [Retry #2] Processed: 00:00:12 (120/300)");
}

#[test]
fn lada_progress_without_optional_fields() {
    let p = parse_lada_progress("Processing video:   7%", "", 1).unwrap();
    assert_eq!(p.percent_text, "7");
    assert_eq!(p.remaining, "");
    assert_eq!(p.speed, "");
}

#[test]
fn non_progress_lines_are_ignored() {
    assert!(parse_lada_progress("Loading model...", "", 1).is_none());
    assert!(parse_lada_progress("Processing video:45%", "", 1).is_none());
}

#[test]
fn progress_from_captures_checks_the_number() {
    assert!(lada_progress_from_captures("x", "", 1, None, None, None).is_none());
    assert!(lada_progress_from_captures("x", "", 1, Some("4.5.6".to_string()), None, None).is_none());
    let p = lada_progress_from_captures("x", "L: ", 3, Some("12".to_string()), Some("1m".to_string()), None).unwrap();
    assert_eq!(p.remaining, "1m");
    assert_eq!(p.speed, "");
    assert_eq!(p.message, "L: [Retry #3] x");
}

#[test]
fn ffmpeg_progress_lines() {
    assert_eq!(ffmpeg_out_time_text("out_time_us=1500000\n"), Some("1500000".to_string()));
    assert_eq!(ffmpeg_out_time_text("  out_time_us=-5"), Some("-5".to_string()));
    assert_eq!(ffmpeg_out_time_text("out_time_us=N/A"), None);
    assert_eq!(ffmpeg_out_time_text("frame=10"), None);
}

#[test]
fn stderr_summary_keeps_last_five_lines() {
    assert_eq!(summarize_stderr("a\nb\nc\nd\ne\nf\ng\n"), "c | d | e | f | g");
    assert_eq!(summarize_stderr("x\r\ny"), "x | y");
    assert_eq!(summarize_stderr(""), "");
    let err = "1\n2\r\n\n3\r";
    let std_summary = err.lines().rev().take(5).collect::<Vec<_>>().into_iter().rev().collect::<Vec<_>>().join(" | ");
    assert_eq!(summarize_stderr(err), std_summary);
}

#[test]
fn ffmpeg_step_results() {
    assert_eq!(ffmpeg_step_result(true, true, "x"), Ok(()));
    assert_eq!(ffmpeg_step_result(false, true, "x"), Err("cancelled".to_string()));
    assert_eq!(ffmpeg_step_result(false, false, "boom\nbad input"), Err("boom | bad input".to_string()));
}

#[test]
fn ssim_score_is_the_last_number_reported() {
    let err = "[Parsed_ssim_4 @ 0x1] SSIM Y:0.61 All:0.612345 (4.1)\nframe 2\n[Parsed_ssim_4 @ 0x1] SSIM Y:0.5 All:0.58 (3.7)\n";
    assert_eq!(ssim_score_text(err), Some("0.58".to_string()));
    assert_eq!(ssim_score_text("All:0.5 then All:1.2.3"), Some("0.5".to_string()));
    assert_eq!(ssim_score_text("All:1.2.3"), None);
    assert_eq!(ssim_score_text("no score here"), None);
}

#[test]
fn last_float_text_skips_non_numbers() {
    let caps = vec![Some("0.4".to_string()), None, Some("..".to_string())];
    assert_eq!(last_float_text(&caps), Some("0.4".to_string()));
    assert_eq!(last_float_text(&vec![]), None);
}

#[test]
fn splitter_cuts_at_cr_and_lf_and_skips_empty_lines() {
    let mut s = LineSplitter::new();
    let mut lines: Vec<Vec<u8>> = Vec::new();
    for b in b"abc\r\rdef\nxy" {
        if let Some(l) = s.push_byte(*b) {
            lines.push(l);
        }
    }
    assert_eq!(lines, vec![b"abc".to_vec(), b"def".to_vec()]);
}

#[test]
fn recent_lines_keep_the_last_ten() {
    let mut r = RecentLines::new();
    for i in 1..=12 {
        r.push(format!("line {}", i));
    }
    let expected: Vec<String> = (3..=12).map(|i| format!("line {}", i)).collect();
    assert_eq!(r.joined(), expected.join("\n"));
}

fn tail(lines: &[&str]) -> RecentLines {
    let mut r = RecentLines::new();
    for l in lines {
        r.push(l.to_string());
    }
    r
}

#[test]
fn verdict_cancel_and_success() {
    let t = tail(&["x"]);
    assert!(matches!(lada_pass_verdict(true, true, Some(0), true, true, "", 1, &t), PassVerdict::Cancelled));
    assert!(matches!(lada_pass_verdict(true, false, Some(125), false, false, "", 9, &t), PassVerdict::Cancelled));
    assert!(matches!(lada_pass_verdict(false, true, Some(0), true, true, "", 1, &t), PassVerdict::Succeeded));
    assert!(matches!(lada_pass_verdict(false, true, Some(0), true, false, "", 7, &t), PassVerdict::Succeeded));
}

#[test]
fn verdict_output_missing_is_retried() {
    let t = tail(&["done"]);
    match lada_pass_verdict(false, true, Some(0), false, true, "VR R: ", 1, &t) {
        PassVerdict::Retry(m, d) => {
            assert_eq!(m, "VR R: Attempt 1: output missing. Retrying in 30s...\ndone");
            assert_eq!(d, 30);
        }
        other => panic!("unexpected {:?}", other),
    }
    match lada_pass_verdict(false, true, Some(0), false, true, "VR R: ", 2, &t) {
        PassVerdict::Retry(m, d) => {
            assert_eq!(m, "VR R: Attempt 2: output missing. Retrying in 60s...\ndone");
            assert_eq!(d, 60);
        }
        other => panic!("unexpected {:?}", other),
    }
}

#[test]
fn verdict_out_of_memory_is_retried() {
    let t = tail(&["a", "b"]);
    match lada_pass_verdict(false, false, Some(137), false, true, "", 1, &t) {
        PassVerdict::Retry(m, d) => {
            assert_eq!(m, "Attempt 1: exit code Some(137). Retrying in 30s...\na\nb");
            assert_eq!(d, 30);
        }
        other => panic!("unexpected {:?}", other),
    }
    match lada_pass_verdict(false, false, None, false, true, "", 4, &tail(&[])) {
        PassVerdict::Retry(m, d) => {
            assert_eq!(m, "Attempt 4: exit code None. Retrying in 240s...\n");
            assert_eq!(d, 240);
        }
        other => panic!("unexpected {:?}", other),
    }
    match lada_pass_verdict(false, false, Some(-1), false, true, "", 1, &tail(&[])) {
        PassVerdict::Retry(m, _) => assert_eq!(m, "Attempt 1: exit code Some(-1). Retrying in 30s...\n"),
        other => panic!("unexpected {:?}", other),
    }
}

#[test]
fn verdict_gives_up_at_the_last_attempt() {
    match lada_pass_verdict(false, false, Some(137), false, true, "", MAX_PASS_ATTEMPTS, &tail(&["oom"])) {
        PassVerdict::Failed(m) => assert_eq!(m, "Attempt 5: exit code Some(137). Giving up after 5 attempts.\noom"),
        other => panic!("unexpected {:?}", other),
    }
    match lada_pass_verdict(false, true, Some(0), false, true, "VR L: ", 6, &tail(&[])) {
        PassVerdict::Failed(m) => assert_eq!(m, "VR L: Attempt 6: output missing. Giving up after 5 attempts.\n"),
        other => panic!("unexpected {:?}", other),
    }
    // every attempt below the limit is retried, so a job sees at most MAX_PASS_ATTEMPTS runs
    let mut runs = 0;
    for attempt in 1..=20u32 {
        runs += 1;
        match lada_pass_verdict(false, false, Some(1), false, true, "", attempt, &tail(&[])) {
            PassVerdict::Retry(_, _) => continue,
            PassVerdict::Failed(_) => break,
            other => panic!("unexpected {:?}", other),
        }
    }
    assert_eq!(runs, MAX_PASS_ATTEMPTS);
}

#[test]
fn verdict_missing_input_fails_immediately() {
    match lada_pass_verdict(false, false, Some(1), false, false, "", 1, &tail(&["no such file"])) {
        PassVerdict::Failed(m) => assert_eq!(m, "Attempt 1: exit code Some(1). Input file missing.\nno such file"),
        other => panic!("unexpected {:?}", other),
    }
}

#[test]
fn verdict_lost_drive_fails_immediately() {
    let t = tail(&["docker: Error response from daemon: invalid mount config: mount source path does not exist"]);
    match lada_pass_verdict(false, false, Some(125), false, true, "", 3, &t) {
        PassVerdict::Failed(m) => assert_eq!(
            m,
            "Attempt 3: exit code Some(125). [drive unavailable — check the drive is connected, then restart Docker Desktop]\ndocker: Error response from daemon: invalid mount config: mount source path does not exist"
        ),
        other => panic!("unexpected {:?}", other),
    }
    // exit 125 without the mount error is an ordinary retry
    assert!(matches!(lada_pass_verdict(false, false, Some(125), false, true, "", 1, &tail(&["other"])), PassVerdict::Retry(_, 30)));
}

#[test]
fn retry_delay_doubles_up_to_its_bound() {
    let delays: Vec<u64> = (0..=8u32).map(retry_delay_secs).collect();
    assert_eq!(delays, vec![30, 30, 60, 120, 240, 300, 300, 300, 300]);
    assert_eq!(retry_delay_secs(u32::MAX), MAX_RETRY_DELAY_SECS);
}

#[test]
fn output_validity_needs_more_than_1000_bytes() {
    assert!(output_file_valid(Some(1001)));
    assert!(!output_file_valid(Some(1000)));
    assert!(!output_file_valid(None));
}

#[test]
fn retry_messages() {
    match start_failure_verdict("VR L: ", 2, "not found") {
        PassVerdict::Retry(m, d) => {
            assert_eq!(m, "VR L: Attempt 2 failed to start: not found. Retrying in 60s...");
            assert_eq!(d, 60);
        }
        other => panic!("unexpected {:?}", other),
    }
    match start_failure_verdict("", 5, "not found") {
        PassVerdict::Failed(m) => assert_eq!(m, "Attempt 5 failed to start: not found. Giving up after 5 attempts."),
        other => panic!("unexpected {:?}", other),
    }
    match copy_failure_verdict(false, "VR copying in: ", 1, "device gone") {
        PassVerdict::Retry(m, d) => {
            assert_eq!(m, "VR copying in: attempt 1 failed: device gone — retrying in 15s (is the drive connected?)");
            assert_eq!(d, 15);
        }
        other => panic!("unexpected {:?}", other),
    }
    match copy_failure_verdict(false, "VR copying out: ", 3, "io") {
        PassVerdict::Retry(m, d) => {
            assert_eq!(m, "VR copying out: attempt 3 failed: io — retrying in 60s (is the drive connected?)");
            assert_eq!(d, 60);
        }
        other => panic!("unexpected {:?}", other),
    }
    match copy_failure_verdict(false, "VR copying in: ", 5, "device gone") {
        PassVerdict::Failed(m) => assert_eq!(m, "VR copying in: attempt 5 failed: device gone — giving up after 5 attempts"),
        other => panic!("unexpected {:?}", other),
    }
    assert!(matches!(copy_failure_verdict(true, "", 1, "x"), PassVerdict::Cancelled));
}

#[test]
fn copy_meter_reports_every_256_mib() {
    let mib = 1024 * 1024;
    let mut m = CopyMeter::new();
    assert!(!m.record(100 * mib));
    assert!(!m.record(100 * mib));
    assert!(m.record(56 * mib));
    assert_eq!(m.last_report, 256 * mib);
    assert!(!m.record(255 * mib));
    assert!(m.record(mib));
    assert_eq!(m.done, 512 * mib);
}

#[test]
fn detail_is_a_piece_of_the_line_starting_at_processed() {
    for line in [LINE, "  x Processed: 1/2 ,| Speed: 3", "Processed:"] {
        let d = extract_progress_detail(line);
        assert!(d.starts_with("Processed:"));
        assert!(line.contains(d.as_str()));
        assert!(!d.contains("Remaining") && !d.contains("Speed"));
    }
}
