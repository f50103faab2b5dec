use cs_reco::quantize::slice_file_name;
use cs_reco::slurm::JobState;
use cs_reco::supervisor::needs_relaunch;
use cs_reco::volume_manager::{
    keep_launching, launch_volume_manager_job, re_launch_volume_manager_job, volume_zero, Report,
    ScalingRecordState, VmError, VmState, VolumeManager, Work,
};

fn rank(s: VmState) -> u8 {
    match s {
        VmState::NotInstantiated => 0,
        VmState::Idle => 1,
        VmState::PreProcessing => 2,
        VmState::Reconstructing => 3,
        VmState::WritingOutput => 4,
        VmState::Done => 5,
    }
}

fn copy(vm: &VolumeManager) -> VolumeManager {
    VolumeManager {
        file: vm.file.clone(),
        mrd: vm.mrd.clone(),
        phase_table: vm.phase_table.clone(),
        mrd_vol_offset: vm.mrd_vol_offset,
        reco_settings: vm.reco_settings.clone(),
        state: vm.state,
        kspace: vm.kspace.clone(),
        imspace: vm.imspace.clone(),
    }
}

#[test]
fn single_ready_volume_end_to_end() {
    let dir = "/scratch/run1.work/0";
    let mut vm = VolumeManager::launch(dir, "/scratch/run1.work/raw/foo.raw", "/tables/stream_CS256_8x_pa18_pb54", 0, "run1.json");
    assert_eq!(vm.file, "/scratch/run1.work/0/volume-manager.toml");
    assert_eq!(vm.state, VmState::Idle);
    assert!(matches!(vm.work(dir, "run1", "_meta.txt"), Ok(Work::Commit)));
    vm.advance(dir, Report::Done);
    assert_eq!(vm.state, VmState::PreProcessing);
    match vm.work(dir, "run1", "_meta.txt").unwrap() {
        Work::Preprocess { raw, offset, kspace, .. } => {
            assert_eq!(raw, "/scratch/run1.work/raw/foo.raw");
            assert_eq!(offset, 0);
            assert_eq!(kspace, "/scratch/run1.work/0/foo_kspace");
        }
        _ => panic!("expected pre-processing work"),
    }
    vm.advance(dir, Report::Done);
    assert_eq!(vm.state, VmState::Reconstructing);
    assert_eq!(vm.kspace, Some("/scratch/run1.work/0/foo_kspace".to_string()));
    match vm.work(dir, "run1", "_meta.txt").unwrap() {
        Work::Reconstruct { kspace, image } => {
            assert_eq!(kspace, "/scratch/run1.work/0/foo_kspace");
            assert_eq!(image, "/scratch/run1.work/0/foo_imspace");
        }
        _ => panic!("expected reconstruction work"),
    }
    vm.advance(dir, Report::Done);
    assert_eq!(vm.state, VmState::WritingOutput);
    match vm.work(dir, "run1", "_meta.txt").unwrap() {
        Work::WriteOutput { image, out_dir, image_name, scaling_file, meta, headfile, first } => {
            assert_eq!(image, "/scratch/run1.work/0/foo_imspace");
            assert_eq!(out_dir, "/scratch/run1.work/0/image");
            assert_eq!(image_name, "run1_m0");
            assert_eq!(scaling_file, "/scratch/run1.work/image-scaling.toml");
            assert_eq!(meta, "/scratch/run1.work/raw/foo_meta.txt");
            assert_eq!(headfile, "/scratch/run1.work/0/image/run1_m0.headfile");
            assert!(first);
            assert_eq!(slice_file_name(&image_name, "t9imx", 0), "run1_m0t9imx.000.raw");
            assert_eq!(slice_file_name(&image_name, "t9imx", 11), "run1_m0t9imx.011.raw");
        }
        _ => panic!("expected output work"),
    }
    vm.advance(dir, Report::Done);
    assert_eq!(vm.state, VmState::Done);
    assert!(matches!(vm.work(dir, "run1", "_meta.txt"), Ok(Work::Nothing)));
    assert!(VolumeManager::is_done(&Some(copy(&vm))));
}

#[test]
fn two_volumes_non_zero_first() {
    let dir = "/scratch/run2.work/1";
    let mut b = VolumeManager::launch(dir, "/scratch/run2.work/raw/b.raw", "table", 1, "run2.json");
    for _ in 0..3 {
        b.advance(dir, Report::Done);
    }
    assert_eq!(b.state, VmState::WritingOutput);
    match b.work(dir, "run2", "_meta.txt").unwrap() {
        Work::WriteOutput { first, .. } => assert!(!first),
        _ => panic!("expected output work"),
    }
    b.advance(dir, Report::Scaling(ScalingRecordState::Absent));
    assert_eq!(b.state, VmState::WritingOutput);
    b.advance(dir, Report::Done);
    assert_eq!(b.state, VmState::WritingOutput);
    assert!(needs_relaunch(JobState::Completed, b.state));
    b.advance(dir, Report::Scaling(ScalingRecordState::Malformed));
    assert_eq!(b.state, VmState::WritingOutput);

    let adir = "/scratch/run2.work/0";
    let mut a = VolumeManager::launch(adir, "/scratch/run2.work/raw/a.raw", "table", 0, "run2.json");
    for _ in 0..4 {
        a.advance(adir, Report::Done);
    }
    assert_eq!(a.state, VmState::Done);
    b.advance(dir, Report::Scaling(ScalingRecordState::Present));
    assert_eq!(b.state, VmState::Done);
    assert!(!needs_relaunch(JobState::Completed, b.state));
}

#[test]
fn crash_after_persisting_resumes_from_the_new_state() {
    let dir = "/w/r.work/00";
    let mut vm = VolumeManager::launch(dir, "/w/r.work/raw/x.mrd", "t", 0, "r.json");
    vm.advance(dir, Report::Done);
    vm.advance(dir, Report::Done);
    let reread = copy(&vm);
    assert_eq!(reread.state, VmState::Reconstructing);
    assert!(matches!(reread.work(dir, "r", "_meta.txt"), Ok(Work::Reconstruct { .. })));
}

#[test]
fn raw_missing_leaves_the_state() {
    let dir = "/w/r.work/3";
    let mut vm = VolumeManager::launch(dir, "/w/raw/x.mrd", "t", 0, "r.json");
    vm.advance(dir, Report::Done);
    vm.advance(dir, Report::RawMissing);
    assert_eq!(vm.state, VmState::PreProcessing);
    assert_eq!(vm.kspace, None);
}

#[test]
fn states_never_decrease_over_reports() {
    let dir = "/w/r.work/5";
    let mut vm = VolumeManager::launch(dir, "/w/raw/x.mrd", "t", 0, "r.json");
    let reports = [
        Report::RawMissing,
        Report::Done,
        Report::RawMissing,
        Report::Done,
        Report::Scaling(ScalingRecordState::Absent),
        Report::Done,
        Report::Done,
        Report::Scaling(ScalingRecordState::Present),
        Report::Done,
    ];
    let mut prev = rank(vm.state);
    for r in reports.iter() {
        vm.advance(dir, *r);
        assert!(rank(vm.state) >= prev);
        prev = rank(vm.state);
    }
    assert_eq!(vm.state, VmState::Done);
}

#[test]
fn missing_artifacts_are_errors() {
    let dir = "/w/r.work/0";
    let mut vm = VolumeManager::launch(dir, "/w/raw/x.mrd", "t", 0, "r.json");
    vm.state = VmState::Reconstructing;
    assert!(matches!(vm.work(dir, "r", "_meta.txt"), Err(VmError::MissingKspace)));
    vm.state = VmState::WritingOutput;
    assert!(matches!(vm.work(dir, "r", "_meta.txt"), Err(VmError::MissingImage)));
}

#[test]
fn volume_zero_tags() {
    assert!(volume_zero("0"));
    assert!(volume_zero("00"));
    assert!(volume_zero("000"));
    assert!(!volume_zero("0000"));
    assert!(!volume_zero("10"));
    assert!(!volume_zero(""));
    assert_eq!(VolumeManager::state(&None), VmState::NotInstantiated);
    assert!(!VolumeManager::is_done(&None));
}

#[test]
fn fixed_point_loop_stops() {
    assert!(keep_launching(VmState::Idle, VmState::PreProcessing));
    assert!(!keep_launching(VmState::WritingOutput, VmState::WritingOutput));
    assert!(!keep_launching(VmState::WritingOutput, VmState::Done));
}

#[test]
fn job_scripts_call_the_program_back() {
    let j = launch_volume_manager_job("/bin/cs_reco", "/w/r.work/0", "/w/raw/a b.raw", "tab", 7, "r.json");
    assert_eq!(j.options.output, "/w/r.work/0/slurm-log.out");
    assert_eq!(j.commands, vec![
        "\"/bin/cs_reco\" \"volume-manager\" \"/w/r.work/0\" \"/w/raw/a b.raw\" \"tab\" \"7\" \"r.json\"".to_string()
    ]);
    let r = re_launch_volume_manager_job("/bin/cs_reco", "/w/r.work/\"q\"");
    assert_eq!(r.commands, vec![
        "\"/bin/cs_reco\" \"volume-manager-relaunch\" \"/w/r.work/\\\"q\\\"\"".to_string()
    ]);
    assert_eq!(
        r.print(),
        "#!/usr/bin/env bash\n#SBATCH --job-name=slurm-job\n#SBATCH --no-requeue\n#SBATCH --output=/w/r.work/\"q\"/slurm-log.out\n\"/bin/cs_reco\" \"volume-manager-relaunch\" \"/w/r.work/\\\"q\\\"\""
    );
}

#[test]
fn launch_keeps_an_existing_record() {
    let dir = "/w/r.work/4";
    let mut vm = VolumeManager::launch(dir, "/w/raw/x.mrd", "t", 0, "r.json");
    vm.advance(dir, Report::Done);
    vm.advance(dir, Report::Done);
    let (same, created) = VolumeManager::open_or_launch(Some(copy(&vm)), dir, "/other.mrd", "u", 9, "s.json");
    assert!(!created);
    assert_eq!(same.state, VmState::Reconstructing);
    assert_eq!(same.mrd, "/w/raw/x.mrd");
    assert_eq!(same.mrd_vol_offset, 0);
    let (fresh, created) = VolumeManager::open_or_launch(None, dir, "/other.mrd", "u", 9, "s.json");
    assert!(created);
    assert_eq!(fresh.state, VmState::Idle);
    assert_eq!(fresh.mrd_vol_offset, 9);
}
