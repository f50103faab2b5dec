use cs_reco::supervisor::{count_done, needs_submission, plan_relaunches, plan_submissions, progress_line, record_job, volume_dir, JobRegistry, VolumeObservation};
use cs_reco::slurm::JobState;
use cs_reco::table::StrMap;
use cs_reco::text::{decimal_string, lines, parse_i32, parse_u32, split_whitespace};
use cs_reco::utils::{bytes_to_int, bytes_to_long, trim_newline, vec_to_string};
use cs_reco::volume_manager::VmState;

#[test]
fn byte_reads() {
    assert_eq!(bytes_to_long(&[1, 0, 0, 0]), 1);
    assert_eq!(bytes_to_long(&[0xff, 0xff, 0xff, 0xff]), -1);
    assert_eq!(bytes_to_long(&[0, 0, 0, 0x80]), i32::MIN);
    assert_eq!(bytes_to_int(&[0x34, 0x12]), 0x1234);
    assert_eq!(bytes_to_int(&[0xfe, 0xff]), -2);
}

#[test]
fn newline_trimming_and_joining() {
    let mut s = "abc\r\n".to_string();
    trim_newline(&mut s);
    assert_eq!(s, "abc");
    let mut t = "abc\r".to_string();
    trim_newline(&mut t);
    assert_eq!(t, "abc\r");
    assert_eq!(vec_to_string(&vec![480, 1, 0]), "480 1 0");
    assert_eq!(vec_to_string(&vec![]), "");
}

#[test]
fn text_parsing() {
    assert_eq!(parse_u32("+12"), Some(12));
    assert_eq!(parse_u32("4294967296"), None);
    assert_eq!(parse_u32("-1"), None);
    assert_eq!(parse_i32("-2147483648"), Some(i32::MIN));
    assert_eq!(parse_i32("2147483648"), None);
    assert_eq!(parse_i32(""), None);
    assert_eq!(decimal_string(1234567890123), "1234567890123");
    assert_eq!(lines("a\r\nb\n\nc"), vec!["a", "b", "", "c"]);
    assert_eq!(split_whitespace("  a \u{3000}b\t"), vec!["a", "b"]);
}

#[test]
fn supervisor_decisions() {
    let obs = vec![
        VolumeObservation { has_record: false, raw_ready: true },
        VolumeObservation { has_record: true, raw_ready: true },
        VolumeObservation { has_record: false, raw_ready: false },
    ];
    assert_eq!(plan_submissions(&obs), vec![0]);
    assert!(!needs_submission(obs[2]));
    let states = vec![
        (JobState::Completed, VmState::WritingOutput),
        (JobState::Completed, VmState::Done),
        (JobState::Running, VmState::Reconstructing),
        (JobState::Unknown, VmState::WritingOutput),
    ];
    assert_eq!(plan_relaunches(&states), vec![0]);
    assert_eq!(count_done(&vec![VmState::Done, VmState::Idle, VmState::Done]), 2);
    assert_eq!(volume_dir("/w/r.work", "3"), "/w/r.work/3");
    assert_eq!(
        progress_line("0", Some(JobState::Completed), VmState::Done),
        "0 : slurm job : Completed; volume-manager : Done\t\n"
    );
    assert_eq!(
        progress_line("1", None, VmState::NotInstantiated),
        "1 : slurm job : not submitted; volume-manager : NotInstantiated\t\n"
    );
    let mut reg: JobRegistry = StrMap::new();
    record_job(&mut reg, "/w/0".to_string(), 10);
    record_job(&mut reg, "/w/1".to_string(), 11);
    record_job(&mut reg, "/w/0".to_string(), 12);
    assert_eq!(reg.len(), 2);
    assert_eq!(reg.get("/w/0"), Some(&12));
    assert_eq!(reg.get("/w/2"), None);
}
