use lada_gui::files::VrStage;
use lada_gui::vr::{
    is_leftover_vr_dir, vr_files_to_free, vr_next, vr_output_invalid_message, vr_step_band, vr_step_label,
    vr_step_notice, VrAction, VrStep,
};

const ORDER: [VrStep; 8] = [
    VrStep::CopyIn,
    VrStep::Split,
    VrStep::LeftPass,
    VrStep::RightPass,
    VrStep::Merge,
    VrStep::CheckMerged,
    VrStep::CopyOut,
    VrStep::CheckOutput,
];

#[test]
fn vr_job_runs_every_step_in_order_then_finishes() {
    let mut step = VrStep::CopyIn;
    let mut seen = vec![step];
    loop {
        match vr_next(step, true, "", false) {
            VrAction::Run(next) => {
                step = next;
                seen.push(step);
            }
            VrAction::Finish => break,
            other => panic!("unexpected {:?}", other),
        }
    }
    assert_eq!(seen, ORDER.to_vec());
}

#[test]
fn vr_failures_name_their_stage() {
    let cases = [
        (VrStep::CopyIn, VrStage::CopyIn),
        (VrStep::Split, VrStage::Split),
        (VrStep::Merge, VrStage::Merge),
        (VrStep::CopyOut, VrStage::CopyOut),
    ];
    for (step, stage) in cases {
        match vr_next(step, false, "disk full", false) {
            VrAction::Fail(s, e) => {
                assert_eq!(s, stage);
                assert_eq!(e, "disk full");
            }
            other => panic!("unexpected {:?}", other),
        }
    }
    match vr_next(VrStep::CheckMerged, false, "", false) {
        VrAction::Fail(s, e) => {
            assert_eq!(s, VrStage::Merge);
            assert_eq!(e, "merged output missing/invalid");
        }
        other => panic!("unexpected {:?}", other),
    }
    assert!(matches!(vr_next(VrStep::CheckOutput, false, "", false), VrAction::OutputInvalid));
    assert_eq!(vr_output_invalid_message(), "VR: merged output missing/invalid");
}

#[test]
fn vr_cancelled_failures_stop_quietly() {
    for step in [VrStep::CopyIn, VrStep::Split, VrStep::Merge, VrStep::CopyOut, VrStep::LeftPass, VrStep::RightPass] {
        assert!(matches!(vr_next(step, false, "cancelled", true), VrAction::Stop));
    }
    // a split that finished still stops a cancelled job
    assert!(matches!(vr_next(VrStep::Split, true, "", true), VrAction::Stop));
    // a Lada pass that gave up ends the job without a second report
    assert!(matches!(vr_next(VrStep::LeftPass, false, "", false), VrAction::Stop));
}

#[test]
fn vr_frees_work_files_as_soon_as_possible() {
    assert_eq!(vr_files_to_free(VrStep::LeftPass, "vr_source.mkv"), vec!["vr_left.mp4".to_string()]);
    assert_eq!(vr_files_to_free(VrStep::RightPass, "vr_source.mkv"), vec!["vr_right.mp4".to_string()]);
    assert_eq!(
        vr_files_to_free(VrStep::CheckMerged, "vr_source.mkv"),
        vec!["vr_left_out.mp4".to_string(), "vr_right_out.mp4".to_string(), "vr_source.mkv".to_string()]
    );
    assert!(vr_files_to_free(VrStep::Merge, "vr_source.mkv").is_empty());
}

#[test]
fn vr_step_labels_bands_and_notices() {
    assert_eq!(vr_step_label(VrStep::LeftPass), "VR L: ");
    assert_eq!(vr_step_label(VrStep::Split), "VR splitting L/R: ");
    assert_eq!(vr_step_band(VrStep::RightPass), (52, 40));
    assert_eq!(vr_step_band(VrStep::CopyOut), (97, 3));
    assert_eq!(vr_step_notice(VrStep::CopyIn).as_deref(), Some("VR detected — copying source to work drive..."));
    assert_eq!(vr_step_notice(VrStep::Merge).as_deref(), Some("VR: merging L/R + audio..."));
    assert_eq!(vr_step_notice(VrStep::Split), None);
    // the bands tile the bar in step order
    let mut end = 0;
    for step in ORDER {
        let (start, width) = vr_step_band(step);
        assert_eq!(start, end);
        end = start + width;
    }
    assert_eq!(end, 100);
}

#[test]
fn sweep_recognises_left_over_vr_work_folders() {
    assert!(is_leftover_vr_dir("lada-vr-tmp-3"));
    assert!(is_leftover_vr_dir(".lada_vr_tmp_12"));
    assert!(is_leftover_vr_dir(&lada_gui::files::vr_work_dir_name(7)));
    assert!(!is_leftover_vr_dir(&lada_gui::files::job_temp_dir_name(7)));
    assert!(!is_leftover_vr_dir("lada-vr-tm"));
    assert!(!is_leftover_vr_dir("my lada-vr-tmp-1"));
    assert!(!is_leftover_vr_dir(""));
}
