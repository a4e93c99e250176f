use lada_gui::docker::{
    build_lada_args, container_action_args, docker_volume_path_for, host_is_windows,
    lada_container_list_args, lr_ssim_args, merge_lr_args, probe_dims_args, split_lr_args,
    to_docker_volume_path, ContainerAction,
};
use lada_gui::settings::LadaSettings;

fn settings(encoder: &str, fp16: &str) -> LadaSettings {
    LadaSettings {
        detection_model: "v4-accurate".to_string(),
        restoration_model: "basicvsrpp-v1.2".to_string(),
        fp16: fp16.to_string(),
        max_clip_length: 180,
        encoder: encoder.to_string(),
        crf: 18,
        preset: "medium".to_string(),
        prefix: "[nm]".to_string(),
        same_directory: true,
        output_directory: String::new(),
        delete_original: false,
        shutdown_after: false,
        parallel_jobs: 2,
        memory_limit: 10,
    }
}

fn strs(v: &[&str]) -> Vec<String> {
    v.iter().map(|s| s.to_string()).collect()
}

#[test]
fn windows_host_mounts_drive_paths_as_slash_letter() {
    assert_eq!(docker_volume_path_for("C:\\Videos\\a b.mp4", true), "/c/Videos/a b.mp4");
    assert_eq!(docker_volume_path_for("d:", true), "/d");
    assert_eq!(docker_volume_path_for("\\\\server\\share\\x", true), "//server/share/x");
    assert_eq!(docker_volume_path_for("/already/unix", true), "/already/unix");
}

#[test]
fn other_hosts_pass_paths_through_as_is() {
    assert_eq!(docker_volume_path_for("C:\\Videos\\a b.mp4", false), "C:\\Videos\\a b.mp4");
    assert_eq!(docker_volume_path_for("E:", false), "E:");
    assert_eq!(docker_volume_path_for("/home/u/clip.mp4", false), "/home/u/clip.mp4");
    assert_eq!(docker_volume_path_for("rel\\path", false), "rel\\path");
    assert_eq!(docker_volume_path_for("", false), "");
}

#[test]
fn non_ascii_first_char_is_not_a_drive() {
    assert_eq!(docker_volume_path_for("é:\\x", true), "é:/x");
    assert_eq!(docker_volume_path_for("é:\\x", false), "é:\\x");
}

#[test]
fn volume_path_is_idempotent() {
    for p in ["C:\\a\\b", "/mnt/c/a", "x\\y", "Z:"] {
        for w in [true, false] {
            let once = docker_volume_path_for(p, w);
            assert_eq!(docker_volume_path_for(&once, w), once);
        }
    }
}

#[test]
fn host_volume_path_follows_the_host_separator() {
    assert_eq!(host_is_windows(), std::path::MAIN_SEPARATOR == '\\');
    let p = "C:\\v\\x.mp4";
    assert_eq!(to_docker_volume_path(p), docker_volume_path_for(p, host_is_windows()));
    if host_is_windows() {
        assert_eq!(to_docker_volume_path(p), "/c/v/x.mp4");
    } else {
        assert_eq!(to_docker_volume_path(p), p);
    }
}

#[test]
fn lada_args_with_memory_cap_and_forced_fp16() {
    let args = build_lada_args("/c/in", "/c/out", "/tmp/x", "a.mp4", "[nm] a.mp4", &settings("hevc_nvenc", "on"), 10, 180);
    assert_eq!(
        args,
        strs(&[
            "run", "--rm", "--gpus", "all", "--memory", "10g",
            "-v", "/c/in:/input", "-v", "/c/out:/output", "-v", "/tmp/x:/tmp",
            "-e", "NVIDIA_DRIVER_CAPABILITIES=compute,video,utility", "ladaapp/lada:latest",
            "--input", "/input/a.mp4", "--output", "/output/[nm] a.mp4",
            "--temporary-directory", "/tmp",
            "--mosaic-detection-model", "v4-accurate",
            "--mosaic-restoration-model", "basicvsrpp-v1.2",
            "--max-clip-length", "180", "--encoder", "hevc_nvenc",
            "--encoder-options", "-preset medium -cq 18", "--fp16",
        ])
    );
}

#[test]
fn lada_args_unlimited_memory_software_encoder_auto_fp16() {
    let args = build_lada_args("/w", "/w", "/w", "vr_left.mp4", "vr_left_out.mp4", &settings("libx265", "auto"), 0, 20);
    assert_eq!(
        args,
        strs(&[
            "run", "--rm", "--gpus", "all",
            "-v", "/w:/input", "-v", "/w:/output", "-v", "/w:/tmp",
            "-e", "NVIDIA_DRIVER_CAPABILITIES=compute,video,utility", "ladaapp/lada:latest",
            "--input", "/input/vr_left.mp4", "--output", "/output/vr_left_out.mp4",
            "--temporary-directory", "/tmp",
            "--mosaic-detection-model", "v4-accurate",
            "--mosaic-restoration-model", "basicvsrpp-v1.2",
            "--max-clip-length", "20", "--encoder", "libx265",
            "--encoder-options", "-crf 18 -preset medium -x265-params log_level=error",
        ])
    );
}

#[test]
fn lada_args_fp16_off() {
    let args = build_lada_args("/i", "/o", "/t", "a", "b", &settings("h264_nvenc", "off"), 4294967295, 0);
    assert_eq!(args[4], "--memory");
    assert_eq!(args[5], "4294967295g");
    assert_eq!(args.last().unwrap(), "--no-fp16");
    assert!(args.contains(&"-preset medium -cq 18".to_string()));
    assert!(args.contains(&"0".to_string()));
}

#[test]
fn split_args_are_exact() {
    assert_eq!(
        split_lr_args("/w", "/w", "vr_source.mp4"),
        strs(&[
            "run", "--rm", "--gpus", "all",
            "-e", "NVIDIA_DRIVER_CAPABILITIES=compute,video,utility",
            "-v", "/w:/input", "-v", "/w:/tmp",
            "--entrypoint", "ffmpeg", "ladaapp/lada:latest",
            "-nostdin", "-v", "error", "-progress", "pipe:1", "-nostats", "-y",
            "-i", "/input/vr_source.mp4",
            "-filter_complex", "[0:v]split=2[a][b];[a]crop=iw/2:ih:0:0[l];[b]crop=iw/2:ih:iw/2:0[r]",
            "-map", "[l]", "-c:v", "hevc_nvenc", "-preset", "p5", "-cq", "18", "-an", "/tmp/vr_left.mp4",
            "-map", "[r]", "-c:v", "hevc_nvenc", "-preset", "p5", "-cq", "18", "-an", "/tmp/vr_right.mp4",
        ])
    );
}

#[test]
fn merge_args_for_nvenc_and_software_encoders() {
    let head = [
        "run", "--rm", "--gpus", "all",
        "-e", "NVIDIA_DRIVER_CAPABILITIES=compute,video,utility",
        "-v", "/w:/input", "-v", "/w:/tmp", "-v", "/w:/output",
        "--entrypoint", "ffmpeg", "ladaapp/lada:latest",
        "-nostdin", "-v", "error", "-progress", "pipe:1", "-nostats", "-y",
        "-i", "/tmp/vr_left_out.mp4", "-i", "/tmp/vr_right_out.mp4", "-i", "/input/vr_source.mkv",
        "-filter_complex", "[0:v][1:v]hstack=inputs=2[v]",
        "-map", "[v]", "-map", "2:a?",
    ];
    let mut nv = strs(&head);
    nv.extend(strs(&["-c:v", "hevc_nvenc", "-preset", "medium", "-cq", "18", "-c:a", "copy", "/output/vr_merged.mp4"]));
    assert_eq!(merge_lr_args("/w", "/w", "/w", "vr_source.mkv", "vr_merged.mp4", &settings("hevc_nvenc", "auto")), nv);
    let mut sw = strs(&head);
    sw.extend(strs(&[
        "-c:v", "libx264", "-crf", "18", "-preset", "medium", "-x265-params", "log_level=error",
        "-c:a", "copy", "/output/vr_merged.mp4",
    ]));
    assert_eq!(merge_lr_args("/w", "/w", "/w", "vr_source.mkv", "vr_merged.mp4", &settings("libx264", "auto")), sw);
}

#[test]
fn probe_and_ssim_args_are_exact() {
    assert_eq!(
        probe_dims_args("/c/v", "a b.mp4"),
        strs(&[
            "run", "--rm", "-v", "/c/v:/input", "--entrypoint", "ffprobe", "ladaapp/lada:latest",
            "-v", "error", "-select_streams", "v:0", "-show_entries", "stream=width,height",
            "-show_entries", "format=duration", "-of", "default=noprint_wrappers=1:nokey=1",
            "/input/a b.mp4",
        ])
    );
    assert_eq!(
        lr_ssim_args("/c/v", "a.mp4", "30.000"),
        strs(&[
            "run", "--rm", "--gpus", "all", "-v", "/c/v:/input", "--entrypoint", "ffmpeg",
            "ladaapp/lada:latest", "-nostdin", "-ss", "30.000", "-i", "/input/a.mp4", "-an",
            "-frames:v", "10", "-filter_complex",
            "[0:v]crop=iw/2:ih:0:0,scale=256:256,format=gray[l];[0:v]crop=iw/2:ih:iw/2:0,scale=256:256,format=gray[r];[l][r]ssim",
            "-f", "null", "-",
        ])
    );
}

#[test]
fn container_command_args() {
    assert_eq!(lada_container_list_args(false), strs(&["ps", "-q", "--filter", "ancestor=ladaapp/lada:latest"]));
    assert_eq!(
        lada_container_list_args(true),
        strs(&["ps", "-q", "--filter", "ancestor=ladaapp/lada:latest", "--filter", "status=paused"])
    );
    assert_eq!(container_action_args(ContainerAction::Stop, "abc"), strs(&["stop", "abc"]));
    assert_eq!(container_action_args(ContainerAction::Pause, "abc"), strs(&["pause", "abc"]));
    assert_eq!(container_action_args(ContainerAction::Unpause, "abc"), strs(&["unpause", "abc"]));
}

#[test]
fn merge_encodes_with_the_settings_lada_is_given() {
    for enc in ["hevc_nvenc", "h264_nvenc", "libx265"] {
        let s = settings(enc, "auto");
        for mem in [0u32, 10] {
            let b = build_lada_args("/w", "/w", "/w", "vr_left.mp4", "vr_left_out.mp4", &s, mem, 20);
            let m = if mem > 0 { 2 } else { 0 };
            assert_eq!(b[m + 25], "--encoder");
            assert_eq!(b[m + 26], s.encoder);
            assert_eq!(b[m + 27], "--encoder-options");
            let r = merge_lr_args("/w", "/w", "/w", "vr_source.mp4", "vr_merged.mp4", &s);
            let mut expected = vec!["-c:v".to_string(), s.encoder.clone()];
            expected.extend(b[m + 28].split(' ').map(String::from));
            assert_eq!(r[34..r.len() - 3].to_vec(), expected);
        }
    }
}
