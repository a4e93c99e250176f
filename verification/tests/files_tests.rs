use lada_gui::files::{
    file_name_from_path, file_name_or_path, filter_video_paths, free_space_of_longest_mount,
    is_video_file, job_temp_dir_name, output_file_name, saved_message, staged_source_name,
    use_system_temp, vr_failure_message, vr_space_needed_bytes, vr_work_dir_name, OriginalFile,
    VrStage,
};

#[test]
fn file_names_of_paths() {
    assert_eq!(file_name_from_path("/videos/clip one.mp4"), "clip one.mp4");
    assert_eq!(file_name_from_path("/videos/"), "videos");
    assert_eq!(file_name_from_path("clip.mkv"), "clip.mkv");
    assert_eq!(file_name_from_path("/a/.."), "/a/..");
    assert_eq!(file_name_from_path("/"), "/");
    assert_eq!(file_name_from_path(""), "");
    assert_eq!(file_name_from_path("/home/u/Videos/clip 01.mp4"), "clip 01.mp4");
    assert_eq!(file_name_from_path("/v/dir/"), "dir");
    assert_eq!(file_name_from_path("a/b.mp4"), "b.mp4");
    assert_eq!(file_name_from_path("a//b.mp4/."), "b.mp4");
    assert_eq!(file_name_from_path(".."), "..");
    assert_eq!(file_name_from_path("."), ".");
    assert_eq!(file_name_from_path("./x.mkv"), "x.mkv");
}

#[test]
fn file_name_falls_back_to_the_path() {
    assert_eq!(file_name_or_path(Some("x.mp4".to_string()), "/a/x.mp4"), "x.mp4");
    assert_eq!(file_name_or_path(None, "/a/.."), "/a/..");
}

#[test]
fn video_filter_keeps_video_extensions_in_order() {
    let args: Vec<String> = ["lada-gui.exe", "a.MP4", "b.mkv", "c.txt", "d.Webm", "e.ts", "f.mp4.bak", "g.AVI", "h.mov", "i.wmv", "j.flv", "mp4"]
        .iter().map(|s| s.to_string()).collect();
    assert_eq!(
        filter_video_paths(&args),
        vec!["a.MP4", "b.mkv", "d.Webm", "e.ts", "g.AVI", "h.mov", "i.wmv", "j.flv"]
            .iter().map(|s| s.to_string()).collect::<Vec<_>>()
    );
}

#[test]
fn video_filter_agrees_with_std_lowercase() {
    let exts = ["mp4", "mkv", "avi", "mov", "wmv", "flv", "webm", "ts"];
    let samples = ["x.m\u{212A}v", "x.MKV", "x.mkV", "\u{130}.ts", "x.t\u{130}", "clip.Ts", "movie.mp4 ", "", ".ts", "a.webM"];
    for s in samples {
        let lower = s.to_lowercase();
        let expected = exts.iter().any(|e| lower.ends_with(&format!(".{}", e)));
        assert_eq!(is_video_file(s), expected, "{}", s);
    }
}

#[test]
fn video_filter_is_idempotent() {
    let args: Vec<String> = ["a.mp4", "b.doc", "c.MKV"].iter().map(|s| s.to_string()).collect();
    let once = filter_video_paths(&args);
    assert_eq!(filter_video_paths(&once), once);
}

#[test]
fn output_and_work_names() {
    assert_eq!(output_file_name("[nm]", "clip one"), "[nm] clip one.mp4");
    assert_eq!(output_file_name("", "x"), " x.mp4");
    assert_eq!(job_temp_dir_name(3), "lada-gui-tmp-3");
    assert_eq!(vr_work_dir_name(0), "lada-vr-tmp-0");
    assert_eq!(vr_work_dir_name(12), "lada-vr-tmp-12");
    assert_eq!(staged_source_name(Some("mkv")), "vr_source.mkv");
    assert_eq!(staged_source_name(None), "vr_source.mp4");
}

#[test]
fn final_messages() {
    assert_eq!(saved_message(false, "[nm] a.mp4", &OriginalFile::Kept), "Saved: [nm] a.mp4");
    assert_eq!(saved_message(false, "o.mp4", &OriginalFile::Deleted), "Saved: o.mp4 (original deleted)");
    assert_eq!(
        saved_message(true, "o.mp4", &OriginalFile::DeleteFailed("denied".to_string())),
        "Saved (VR): o.mp4 (failed to delete original: denied)"
    );
    assert_eq!(vr_failure_message(VrStage::CopyIn, "gone"), "VR copy-in failed: gone");
    assert_eq!(vr_failure_message(VrStage::Split, "e"), "VR split failed: e");
    assert_eq!(vr_failure_message(VrStage::Merge, "merged output missing/invalid"), "VR merge failed: merged output missing/invalid");
    assert_eq!(vr_failure_message(VrStage::CopyOut, "e"), "VR copy-out failed: e");
}

#[test]
fn vr_work_drive_choice() {
    assert_eq!(vr_space_needed_bytes(10), 50);
    assert_eq!(vr_space_needed_bytes(u64::MAX / 4), u64::MAX);
    assert!(use_system_temp(10, Some(51)));
    assert!(!use_system_temp(10, Some(50)));
    assert!(!use_system_temp(10, None));
    assert!(!use_system_temp(u64::MAX, Some(u64::MAX)));
}

#[test]
fn longest_mount_wins() {
    assert_eq!(free_space_of_longest_mount(&vec![(1, 100), (5, 200), (5, 300), (3, 400)]), Some(200));
    assert_eq!(free_space_of_longest_mount(&vec![(1, 7)]), Some(7));
    assert_eq!(free_space_of_longest_mount(&vec![]), None);
}
