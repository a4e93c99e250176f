use lada_gui::settings::{
    default_fp16, default_memory_limit, default_restoration_model, output_dir_for, parallel_job_count,
    vr_clip_length, LadaSettings, MAX_PARALLEL_JOBS, VR_MAX_CLIP_LENGTH,
};

fn settings(parallel_jobs: u32, max_clip_length: u32) -> LadaSettings {
    LadaSettings {
        detection_model: "v4-accurate".to_string(),
        restoration_model: "basicvsrpp-v1.2".to_string(),
        fp16: "auto".to_string(),
        max_clip_length,
        encoder: "hevc_nvenc".to_string(),
        crf: 18,
        preset: "medium".to_string(),
        prefix: "[nm]".to_string(),
        same_directory: true,
        output_directory: String::new(),
        delete_original: true,
        shutdown_after: false,
        parallel_jobs,
        memory_limit: 10,
    }
}

#[test]
fn defaults_match_saved_settings_fallbacks() {
    assert_eq!(default_memory_limit(), 10);
    assert_eq!(default_restoration_model(), "basicvsrpp-v1.2");
    assert_eq!(default_fp16(), "auto");
}

#[test]
fn parallel_jobs_are_clamped_to_one_through_eight() {
    assert_eq!(parallel_job_count(&settings(0, 180)), 1);
    assert_eq!(parallel_job_count(&settings(1, 180)), 1);
    assert_eq!(parallel_job_count(&settings(3, 180)), 3);
    assert_eq!(parallel_job_count(&settings(8, 180)), 8);
    assert_eq!(parallel_job_count(&settings(9, 180)), 8);
    assert_eq!(parallel_job_count(&settings(150, 180)), MAX_PARALLEL_JOBS);
}

#[test]
fn vr_clip_length_never_exceeds_twenty() {
    assert_eq!(vr_clip_length(&settings(1, 180)), VR_MAX_CLIP_LENGTH);
    assert_eq!(vr_clip_length(&settings(1, 20)), 20);
    assert_eq!(vr_clip_length(&settings(1, 12)), 12);
    assert_eq!(vr_clip_length(&settings(1, 0)), 0);
}

#[test]
fn output_goes_next_to_the_input_or_to_the_output_folder() {
    let mut s = settings(1, 180);
    s.output_directory = "/out".to_string();
    assert_eq!(output_dir_for(&s, "/videos"), "/videos");
    s.same_directory = false;
    assert_eq!(output_dir_for(&s, "/videos"), "/out");
}
