use cs_reco::slurm::{get_job_state, job_state_from_output, BatchScript, JobIdError, JobPoll, JobState, SBatchOpts};

#[test]
fn slurm_test() {
    let cmd = "scp mrs@stejskal:/d/smis/N20220811_00/_03_MGRE/mgre.mrd /home/wa41".to_string();
    let mut j = BatchScript::new("test_job");
    j.commands.push(cmd);
    j.options.output = "/home/wa41/test_log".to_string();
    println!("{}", j.print());
    assert_eq!(
        j.print(),
        "#!/usr/bin/env bash\n#SBATCH --job-name=test_job\n#SBATCH --no-requeue\n#SBATCH --output=/home/wa41/test_log\nscp mrs@stejskal:/d/smis/N20220811_00/_03_MGRE/mgre.mrd /home/wa41"
    );
    assert_eq!(j.script_path("/home/wa41"), "/home/wa41/test_job.bash");
}

#[test]
fn options_with_reservation() {
    let mut o = SBatchOpts::new("j");
    o.set_reservation("night");
    o.no_requeue = false;
    assert_eq!(o.print(), "#SBATCH --job-name=j\n#SBATCH --reservation=night");
    assert_eq!(o.job_name(), "j");
}

#[test]
fn job_id_from_response() {
    assert_eq!(BatchScript::response_to_job_id("Submitted batch job 4242\n"), Ok(4242));
    assert_eq!(BatchScript::response_to_job_id("error: no partition\n"), Err(JobIdError::NoJobId));
    assert_eq!(BatchScript::response_to_job_id("1 2\n"), Err(JobIdError::MultipleJobIds));
    assert_eq!(BatchScript::response_to_job_id("job 99999999999 77"), Ok(77));
}

#[test]
fn job_state_from_accounting_output() {
    let out = "     State \n---------- \n COMPLETED \n\n";
    assert_eq!(job_state_from_output(out), Some(JobState::Completed));
    assert_eq!(job_state_from_output("State\nRunning"), Some(JobState::Running));
    assert_eq!(job_state_from_output("pending"), Some(JobState::Pending));
    assert_eq!(job_state_from_output("FAILED\n"), Some(JobState::Failed));
    assert_eq!(job_state_from_output("x\nCANCELLED"), Some(JobState::Cancelled));
    assert_eq!(job_state_from_output("State\n----"), None);
    assert_eq!(job_state_from_output(""), None);
    assert_eq!(get_job_state("State\n----", 3), JobPoll::Retry(2));
    assert_eq!(get_job_state("State\n----", 0), JobPoll::State(JobState::Unknown));
    assert_eq!(get_job_state("RUNNING", 0), JobPoll::State(JobState::Running));
}
