use lada_gui::tool_output::{
    bytes_to_mib, container_ids, docker_info_verdict, parse_gpu_stats, parse_probe_output,
    pull_verdict, sbs_frame_candidate,
};

#[test]
fn container_ids_skip_blank_lines_and_trim() {
    assert_eq!(container_ids("abc123\n  def456  \r\n\n\t\n"), vec!["abc123".to_string(), "def456".to_string()]);
    assert!(container_ids("").is_empty());
    assert!(container_ids("\n \n").is_empty());
    assert_eq!(container_ids("x"), vec!["x".to_string()]);
}

#[test]
fn container_ids_agree_with_std_lines() {
    let out = "a1\r\n b2 \n\n c3\r";
    let expected: Vec<String> = out.lines().map(|l| l.trim()).filter(|l| !l.is_empty()).map(|s| s.to_string()).collect();
    assert_eq!(container_ids(out), expected);
}

#[test]
fn probe_output_with_duration() {
    let d = parse_probe_output("3840\n1920\n60.500000\n").unwrap();
    assert_eq!((d.width, d.height), (3840, 1920));
    assert_eq!(d.duration_text, Some("60.500000".to_string()));
}

#[test]
fn probe_output_without_usable_duration() {
    let d = parse_probe_output(" 1920 \n\n1080\nN/A\n").unwrap();
    assert_eq!((d.width, d.height), (1920, 1080));
    assert_eq!(d.duration_text, None);
    let d = parse_probe_output("640\n480").unwrap();
    assert_eq!(d.duration_text, None);
}

#[test]
fn probe_output_rejected() {
    assert!(parse_probe_output("3840\n").is_none());
    assert!(parse_probe_output("").is_none());
    assert!(parse_probe_output("3840\nN/A\n12.0\n").is_none());
    assert!(parse_probe_output("-1\n100\n").is_none());
    assert!(parse_probe_output("4294967296\n100\n").is_none());
}

#[test]
fn sbs_gate_keeps_tall_two_to_one_frames_only() {
    assert!(sbs_frame_candidate(3840, 1920));
    assert!(sbs_frame_candidate(8192, 4096));
    assert!(!sbs_frame_candidate(2160, 1080)); // 2:1 but not taller than 1080
    assert!(!sbs_frame_candidate(3840, 2160)); // 16:9
    assert!(!sbs_frame_candidate(4780, 2000)); // 2.39:1
    assert!(!sbs_frame_candidate(3800, 2000)); // exactly 1.9:1
    assert!(!sbs_frame_candidate(4200, 2000)); // exactly 2.1:1
    assert!(sbs_frame_candidate(3802, 2000));
    assert!(!sbs_frame_candidate(100, 0));
}

#[test]
fn gpu_stats_read_all_fields() {
    let g = parse_gpu_stats("45, 1024, 24576, 60, 250.37\n");
    assert_eq!((g.usage, g.vram_used, g.vram_total, g.temp), (45, 1024, 24576, 60));
    assert_eq!(g.power_text, Some("250.37".to_string()));
}

#[test]
fn gpu_stats_bad_fields_count_as_zero() {
    let g = parse_gpu_stats("[N/A], 10, 20, x, [N/A]");
    assert_eq!((g.usage, g.vram_used, g.vram_total, g.temp), (0, 10, 20, 0));
    assert_eq!(g.power_text, None);
    let g = parse_gpu_stats("1, 2, 3");
    assert_eq!((g.usage, g.vram_used, g.vram_total, g.temp), (0, 0, 0, 0));
    assert_eq!(g.power_text, None);
}

#[test]
fn ram_is_reported_in_mib() {
    assert_eq!(bytes_to_mib(3 * 1024 * 1024 + 5), 3);
    assert_eq!(bytes_to_mib(1024 * 1024 - 1), 0);
}

#[test]
fn docker_check_messages() {
    assert_eq!(docker_info_verdict(true, "Runtimes: io.containerd.runc.v2 nvidia runc"), Ok("Docker OK, GPU: NVIDIA".to_string()));
    assert_eq!(docker_info_verdict(true, "NVIDIA Container Runtime"), Ok("Docker OK, GPU: NVIDIA".to_string()));
    assert_eq!(docker_info_verdict(true, "Runtimes: runc"), Ok("Docker OK, GPU: not detected".to_string()));
    assert_eq!(docker_info_verdict(false, "nvidia"), Err("Docker is not running".to_string()));
}

#[test]
fn pull_reports_stdout_or_stderr() {
    assert_eq!(pull_verdict(true, "pulled", "warn"), Ok("pulled".to_string()));
    assert_eq!(pull_verdict(false, "pulled", "denied"), Err("denied".to_string()));
}
