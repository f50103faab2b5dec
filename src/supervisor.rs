//! The decisions of one supervisor pass: which volumes get a first batch job, which
//! get relaunched, and how far the run has come. The caller fetches the index,
//! copies raw files, submits jobs and polls their states.
use vstd::prelude::*;
use crate::paths::{concat, file_name, file_name_of, join, join_path, stem, stem_of};
use crate::resource::{add_id, ids, Resource, ResourceList};
use crate::slurm::JobState;
use crate::table::StrMap;
use crate::volume_manager::VmState;

verus! {

/// The batch job last launched for each volume directory.
pub type JobRegistry = StrMap<u32>;

/// What the supervisor sees of a volume at the start of a pass.
#[derive(PartialEq, Eq, Debug, Clone, Copy, Structural)]
pub struct VolumeObservation {
    /// The volume directory holds a volume-manager record.
    pub has_record: bool,
    /// The volume's raw file is on the local disk.
    pub raw_ready: bool,
}

/// A volume gets its first job when it has no record yet and its raw file is there.
pub open spec fn wants_submission(o: VolumeObservation) -> bool {
    !o.has_record && o.raw_ready
}

/// A volume whose job completed while its record is not done is relaunched: this
/// wakes volumes that stopped to wait for the scaling record.
pub open spec fn wants_relaunch(job: JobState, vm: VmState) -> bool {
    job == JobState::Completed && vm != VmState::Done
}

/// The positions of the volumes that get a first job, in order.
pub open spec fn submissions(obs: Seq<VolumeObservation>) -> Seq<usize>
    decreases obs.len(),
{
    if obs.len() == 0 {
        Seq::empty()
    } else if wants_submission(obs.last()) {
        submissions(obs.drop_last()).push((obs.len() - 1) as usize)
    } else {
        submissions(obs.drop_last())
    }
}

/// The positions of the volumes that get relaunched, in order.
pub open spec fn relaunches(states: Seq<(JobState, VmState)>) -> Seq<usize>
    decreases states.len(),
{
    if states.len() == 0 {
        Seq::empty()
    } else if wants_relaunch(states.last().0, states.last().1) {
        relaunches(states.drop_last()).push((states.len() - 1) as usize)
    } else {
        relaunches(states.drop_last())
    }
}

/// How many of the states are `Done`.
pub open spec fn done_count(states: Seq<VmState>) -> nat
    decreases states.len(),
{
    if states.len() == 0 {
        0
    } else {
        done_count(states.drop_last()) + if states.last() == VmState::Done {
            1nat
        } else {
            0nat
        }
    }
}

/// The directory of the volume with index `index` in the run's working directory.
pub fn volume_dir(run_workdir: &str, index: &str) -> (r: String)
    ensures
        r@ == join(run_workdir@, index@),
{
    join_path(run_workdir, index)
}

/// Decides whether a volume gets its first job.
pub fn needs_submission(o: VolumeObservation) -> (r: bool)
    ensures
        r == wants_submission(o),
{
    !o.has_record && o.raw_ready
}

/// Decides whether a volume gets relaunched.
pub fn needs_relaunch(job: JobState, vm: VmState) -> (r: bool)
    ensures
        r == wants_relaunch(job, vm),
{
    job == JobState::Completed && vm != VmState::Done
}

/// The positions of the volumes that get a first job.
pub fn plan_submissions(obs: &Vec<VolumeObservation>) -> (r: Vec<usize>)
    ensures
        r@ == submissions(obs@),
{
    let mut out: Vec<usize> = Vec::new();
    let mut i: usize = 0;
    while i < obs.len()
        invariant
            i <= obs@.len(),
            out@ == submissions(obs@.take(i as int)),
        decreases obs.len() - i,
    {
        proof {
            assert(obs@.take(i + 1).drop_last() == obs@.take(i as int));
        }
        if needs_submission(obs[i]) {
            out.push(i);
        }
        i = i + 1;
    }
    proof {
        assert(obs@.take(obs@.len() as int) == obs@);
    }
    out
}

/// The positions of the volumes that get relaunched, from each volume's job state and
/// record state.
pub fn plan_relaunches(states: &Vec<(JobState, VmState)>) -> (r: Vec<usize>)
    ensures
        r@ == relaunches(states@),
{
    let mut out: Vec<usize> = Vec::new();
    let mut i: usize = 0;
    while i < states.len()
        invariant
            i <= states@.len(),
            out@ == relaunches(states@.take(i as int)),
        decreases states.len() - i,
    {
        proof {
            assert(states@.take(i + 1).drop_last() == states@.take(i as int));
        }
        let (j, v) = states[i];
        if needs_relaunch(j, v) {
            out.push(i);
        }
        i = i + 1;
    }
    proof {
        assert(states@.take(states@.len() as int) == states@);
    }
    out
}

/// Counts the volumes that are done.
pub fn count_done(states: &Vec<VmState>) -> (r: usize)
    ensures
        r as nat == done_count(states@),
{
    let mut n: usize = 0;
    let mut i: usize = 0;
    while i < states.len()
        invariant
            i <= states@.len(),
            n as nat == done_count(states@.take(i as int)),
            n <= i,
        decreases states.len() - i,
    {
        proof {
            assert(states@.take(i + 1).drop_last() == states@.take(i as int));
        }
        if states[i] == VmState::Done {
            n = n + 1;
        }
        i = i + 1;
    }
    proof {
        assert(states@.take(states@.len() as int) == states@);
    }
    n
}

/// Records the job last launched for a volume directory, replacing an earlier one.
pub fn record_job(registry: &mut JobRegistry, volume_dir: String, job_id: u32)
    requires
        old(registry).wf(),
    ensures
        final(registry).wf(),
        final(registry).view() == old(registry).view().insert(volume_dir@, job_id),
{
    registry.insert(volume_dir, job_id);
}

pub open spec fn job_state_name(s: JobState) -> Seq<char> {
    match s {
        JobState::Pending => "Pending"@,
        JobState::Running => "Running"@,
        JobState::Completed => "Completed"@,
        JobState::Failed => "Failed"@,
        JobState::Cancelled => "Cancelled"@,
        JobState::Unknown => "Unknown"@,
    }
}

pub open spec fn vm_state_name(s: VmState) -> Seq<char> {
    match s {
        VmState::NotInstantiated => "NotInstantiated"@,
        VmState::Idle => "Idle"@,
        VmState::PreProcessing => "PreProcessing"@,
        VmState::Reconstructing => "Reconstructing"@,
        VmState::WritingOutput => "WritingOutput"@,
        VmState::Done => "Done"@,
    }
}

/// The name of a job state.
pub fn job_state_str(s: JobState) -> (r: &'static str)
    ensures
        r@ == job_state_name(s),
{
    match s {
        JobState::Pending => "Pending",
        JobState::Running => "Running",
        JobState::Completed => "Completed",
        JobState::Failed => "Failed",
        JobState::Cancelled => "Cancelled",
        JobState::Unknown => "Unknown",
    }
}

/// The name of a volume state.
pub fn vm_state_str(s: VmState) -> (r: &'static str)
    ensures
        r@ == vm_state_name(s),
{
    match s {
        VmState::NotInstantiated => "NotInstantiated",
        VmState::Idle => "Idle",
        VmState::PreProcessing => "PreProcessing",
        VmState::Reconstructing => "Reconstructing",
        VmState::WritingOutput => "WritingOutput",
        VmState::Done => "Done",
    }
}

/// One row of the progress table: the volume, its batch job's state (or that none was
/// submitted) and its record's state.
pub open spec fn progress_row(index: Seq<char>, job: Option<JobState>, vm: VmState) -> Seq<char> {
    let j = match job {
        Some(s) => job_state_name(s),
        None => "not submitted"@,
    };
    index + " : slurm job : "@ + j + "; volume-manager : "@ + vm_state_name(vm) + "\t\n"@
}

/// Renders one row of the progress table.
pub fn progress_line(index: &str, job: Option<JobState>, vm: VmState) -> (r: String)
    ensures
        r@ == progress_row(index@, job, vm),
{
    let j = match job {
        Some(s) => job_state_str(s),
        None => "not submitted",
    };
    let a = concat(index, " : slurm job : ");
    let b = concat(a.as_str(), j);
    let c = concat(b.as_str(), "; volume-manager : ");
    let d = concat(c.as_str(), vm_state_str(vm));
    concat(d.as_str(), "\t\n")
}

/// The identities after adding, for each ready raw file `name` in `base`, the file
/// and its metadata file (its stem, then `suffix`), both into the list's directory.
pub open spec fn enqueued_ids(
    start: Seq<(Seq<char>, Seq<char>)>,
    workdir: Seq<char>,
    base: Seq<char>,
    suffix: Seq<char>,
    names: Seq<Seq<char>>,
) -> Seq<(Seq<char>, Seq<char>)>
    decreases names.len(),
{
    if names.len() == 0 {
        start
    } else {
        let prev = enqueued_ids(start, workdir, base, suffix, names.drop_last());
        let n = names.last();
        let with_raw = add_id(prev, (join(base, n), join(workdir, Seq::empty())));
        add_id(with_raw, (join(base, stem(file_name(n)) + suffix), join(workdir, Seq::empty())))
    }
}

/// Queues the copies of each ready volume's raw file and metadata file from `raw_base`
/// on the scanner into the list's directory; `ready` holds `(name, index)` pairs.
pub fn enqueue_ready(list: &mut ResourceList, raw_base: &str, ready: &Vec<(String, String)>, meta_suffix: &str)
    ensures
        final(list).workdir == old(list).workdir,
        final(list).host == old(list).host,
        ids(final(list).item@) == enqueued_ids(
            ids(old(list).item@),
            old(list).workdir@,
            raw_base@,
            meta_suffix@,
            ready@.map_values(|e: (String, String)| e.0@),
        ),
{
    let ghost start = ids(list.item@);
    let ghost names = ready@.map_values(|e: (String, String)| e.0@);
    let mut i: usize = 0;
    while i < ready.len()
        invariant
            i <= ready@.len(),
            list.workdir == old(list).workdir,
            list.host == old(list).host,
            names == ready@.map_values(|e: (String, String)| e.0@),
            ids(list.item@) == enqueued_ids(
                start,
                list.workdir@,
                raw_base@,
                meta_suffix@,
                names.take(i as int),
            ),
        decreases ready.len() - i,
    {
        proof {
            assert(names.take(i + 1).drop_last() == names.take(i as int));
            assert(names[i as int] == ready@[i as int].0@);
        }
        let name = ready[i].0.as_str();
        let raw = join_path(raw_base, name);
        let fname = file_name_of(name);
        let st = stem_of(fname.as_str());
        let meta_name = concat(st.as_str(), meta_suffix);
        let meta = join_path(raw_base, meta_name.as_str());
        proof {
            reveal_strlit("");
            assert(""@ =~= Seq::<char>::empty());
        }
        list.try_add(Resource::new(raw.as_str(), ""));
        list.try_add(Resource::new(meta.as_str(), ""));
        i = i + 1;
    }
    proof {
        assert(names.take(ready@.len() as int) == names);
    }
}

} // verus!
