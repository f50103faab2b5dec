//! The per-volume state machine. A volume manager reads its durable record, the
//! caller performs the work that the record's state demands, and the manager
//! advances on the report of that work. Its state never moves backwards, and a
//! volume other than volume zero leaves `WritingOutput` only once the scaling
//! record is there.
use vstd::prelude::*;
use crate::paths::{concat, file_name, file_name_of, join, join_path, parent, parent_of, stem, stem_of};
use crate::slurm::BatchScript;
use crate::text::{decimal, decimal_string, push_char};

verus! {

/// The lifecycle of one volume. `NotInstantiated` stands for a volume that has no
/// record yet; a record starts at `Idle`.
#[derive(Clone, Copy, PartialEq, Eq, Debug, Structural)]
pub enum VmState {
    NotInstantiated,
    Idle,
    PreProcessing,
    Reconstructing,
    WritingOutput,
    Done,
}

/// The position of a state in the lifecycle.
pub open spec fn rank(s: VmState) -> nat {
    match s {
        VmState::NotInstantiated => 0,
        VmState::Idle => 1,
        VmState::PreProcessing => 2,
        VmState::Reconstructing => 3,
        VmState::WritingOutput => 4,
        VmState::Done => 5,
    }
}

/// The state that follows `s` once its work is done.
pub open spec fn next_state(s: VmState) -> VmState {
    match s {
        VmState::Idle => VmState::PreProcessing,
        VmState::PreProcessing => VmState::Reconstructing,
        VmState::Reconstructing => VmState::WritingOutput,
        VmState::WritingOutput => VmState::Done,
        _ => s,
    }
}

/// What the caller found at the scaling record's path.
#[derive(Clone, Copy, PartialEq, Eq, Debug, Structural)]
pub enum ScalingRecordState {
    Absent,
    Malformed,
    Present,
}

/// How the work that a state demanded went.
#[derive(Clone, Copy, PartialEq, Eq, Debug, Structural)]
pub enum Report {
    /// The work was carried out.
    Done,
    /// The raw file is not there yet.
    RawMissing,
    /// For a volume other than volume zero: what was found at the scaling record's path,
    /// and, when it was present, the slices and headfile were written with its scale.
    Scaling(ScalingRecordState),
}

/// The state after one advance from `s` on `report`, for volume zero when `zero` holds.
pub open spec fn step_state(s: VmState, zero: bool, report: Report) -> VmState {
    match s {
        VmState::Idle => VmState::PreProcessing,
        VmState::PreProcessing => if report == Report::Done {
            VmState::Reconstructing
        } else {
            s
        },
        VmState::Reconstructing => if report == Report::Done {
            VmState::WritingOutput
        } else {
            s
        },
        VmState::WritingOutput => if (zero && report == Report::Done) || (!zero && report
            == Report::Scaling(ScalingRecordState::Present)) {
            VmState::Done
        } else {
            s
        },
        _ => s,
    }
}

/// The state after a run of advances.
pub open spec fn run_states(s: VmState, zero: bool, reports: Seq<Report>) -> VmState
    decreases reports.len(),
{
    if reports.len() == 0 {
        s
    } else {
        step_state(run_states(s, zero, reports.drop_last()), zero, reports.last())
    }
}

/// One advance never moves a volume's state backwards.
pub proof fn lemma_step_monotone(s: VmState, zero: bool, report: Report)
    ensures
        rank(step_state(s, zero, report)) >= rank(s),
{
}

/// A volume's state never moves backwards over any run of passes, whatever their reports.
pub proof fn lemma_state_monotone(s: VmState, zero: bool, reports: Seq<Report>, k: int)
    requires
        0 <= k <= reports.len(),
    ensures
        rank(run_states(s, zero, reports)) >= rank(run_states(s, zero, reports.take(k))),
        rank(run_states(s, zero, reports)) >= rank(s),
    decreases reports.len(),
{
    if k == reports.len() {
        assert(reports.take(k) == reports);
    }
    if reports.len() > 0 {
        if k < reports.len() {
            lemma_state_monotone(s, zero, reports.drop_last(), k);
            assert(reports.drop_last().take(k) == reports.take(k));
        } else {
            lemma_state_monotone(s, zero, reports.drop_last(), 0);
        }
    }
    assert(reports.take(0) == Seq::<Report>::empty());
}

/// A volume other than volume zero moves from `WritingOutput` to `Done` only on a pass
/// that found the scaling record present.
pub proof fn lemma_rendezvous(s: VmState, report: Report)
    requires
        s == VmState::WritingOutput,
        step_state(s, false, report) == VmState::Done,
    ensures
        report == Report::Scaling(ScalingRecordState::Present),
{
}

/// Whether a volume directory's name marks volume zero.
pub open spec fn is_volume_zero(tag: Seq<char>) -> bool {
    tag == "0"@ || tag == "00"@ || tag == "000"@
}

/// Decides whether a volume directory's name marks volume zero.
pub fn volume_zero(tag: &str) -> (r: bool)
    ensures
        r == is_volume_zero(tag@),
{
    let n = tag.unicode_len();
    proof {
        reveal_strlit("0");
        reveal_strlit("00");
        reveal_strlit("000");
    }
    if n < 1 || n > 3 {
        return false;
    }
    let mut i: usize = 0;
    while i < n
        invariant
            n == tag@.len(),
            1 <= n <= 3,
            i <= n,
            forall|j: int| 0 <= j < i ==> tag@[j] == '0',
        decreases n - i,
    {
        if tag.get_char(i) != '0' {
            proof {
                reveal_strlit("0");
                reveal_strlit("00");
                reveal_strlit("000");
                assert(tag@ != "0"@ && tag@ != "00"@ && tag@ != "000"@) by {
                    if tag@ == "0"@ {
                        assert("0"@[i as int] == '0');
                    }
                    if tag@ == "00"@ {
                        assert("00"@[i as int] == '0');
                    }
                    if tag@ == "000"@ {
                        assert("000"@[i as int] == '0');
                    }
                }
            }
            return false;
        }
        i = i + 1;
    }
    proof {
        reveal_strlit("0");
        reveal_strlit("00");
        reveal_strlit("000");
        if n == 1 {
            assert(tag@ =~= "0"@);
        } else if n == 2 {
            assert(tag@ =~= "00"@);
        } else {
            assert(tag@ =~= "000"@);
        }
    }
    true
}

/// The durable record of one volume.
pub struct VolumeManager {
    /// Where the record itself is kept.
    pub file: String,
    /// The raw acquisition file.
    pub mrd: String,
    /// The phase-encode table.
    pub phase_table: String,
    /// Which volume of the raw file this is.
    pub mrd_vol_offset: usize,
    /// The run's descriptor file.
    pub reco_settings: String,
    pub state: VmState,
    /// The k-space grid, once written.
    pub kspace: Option<String>,
    /// The reconstructed image, once written.
    pub imspace: Option<String>,
}

pub open spec fn opt_view(o: Option<String>) -> Option<Seq<char>> {
    match o {
        Some(s) => Some(s@),
        None => None,
    }
}

/// The record's file in a volume directory.
pub open spec fn record_path(workdir: Seq<char>) -> Seq<char> {
    join(workdir, "volume-manager.toml"@)
}

/// The k-space grid of the raw file `mrd`, in `workdir`.
pub open spec fn kspace_path(workdir: Seq<char>, mrd: Seq<char>) -> Seq<char> {
    join(workdir, stem(file_name(mrd)) + "_kspace"@)
}

/// The reconstructed image of the raw file `mrd`, in `workdir`.
pub open spec fn image_path(workdir: Seq<char>, mrd: Seq<char>) -> Seq<char> {
    join(workdir, stem(file_name(mrd)) + "_imspace"@)
}

/// The name of the volume directory that holds the record `file`.
pub open spec fn volume_tag(file: Seq<char>) -> Seq<char> {
    file_name(parent(file))
}

/// Why a record cannot go on.
#[derive(Clone, Copy, PartialEq, Eq, Debug, Structural)]
pub enum VmError {
    /// The record is past pre-processing but names no k-space grid.
    MissingKspace,
    /// The record is past reconstruction but names no image.
    MissingImage,
}

/// The work that a record's state demands.
pub enum Work {
    /// Nothing: the volume is done, or has no record.
    Nothing,
    /// Record the commitment to process the volume.
    Commit,
    /// Load volume `offset` of `raw`, zero-fill it with `phase_table`, and write the grid to `kspace`.
    Preprocess { raw: String, phase_table: String, offset: usize, kspace: String },
    /// Run the solver on `kspace` and write the image to `image`.
    Reconstruct { kspace: String, image: String },
    /// Write the 16-bit slices of `image` into `out_dir` under `image_name`, and the
    /// headfile made from the metadata file `meta` at `headfile`. Volume zero (`first`) computes the
    /// scale and writes it to `scaling_file`; every other volume reads it from there.
    WriteOutput {
        image: String,
        out_dir: String,
        image_name: String,
        scaling_file: String,
        meta: String,
        headfile: String,
        first: bool,
    },
}

impl VolumeManager {
    /// The record's file in the volume directory `workdir`.
    pub fn fpath(workdir: &str) -> (r: String)
        ensures
            r@ == record_path(workdir@),
    {
        join_path(workdir, "volume-manager.toml")
    }

    /// A new record for a volume, at `Idle`, kept in `workdir`.
    pub fn launch(workdir: &str, mrd: &str, phase_table: &str, vol_offset: usize, reco_settings: &str) -> (r: VolumeManager)
        ensures
            r.file@ == record_path(workdir@),
            r.mrd@ == mrd@,
            r.phase_table@ == phase_table@,
            r.mrd_vol_offset == vol_offset,
            r.reco_settings@ == reco_settings@,
            r.state == VmState::Idle,
            r.kspace.is_none(),
            r.imspace.is_none(),
    {
        VolumeManager {
            file: VolumeManager::fpath(workdir),
            mrd: String::from_str(mrd),
            phase_table: String::from_str(phase_table),
            mrd_vol_offset: vol_offset,
            reco_settings: String::from_str(reco_settings),
            state: VmState::Idle,
            kspace: None,
            imspace: None,
        }
    }

    /// The record that a launch in `workdir` drives: the loaded record `existing` as it
    /// is, the arguments ignored; or, when there is none, a new one at `Idle`. The
    /// flag tells whether the record is new (and so is to be written, not advanced).
    pub fn open_or_launch(
        existing: Option<VolumeManager>,
        workdir: &str,
        mrd: &str,
        phase_table: &str,
        vol_offset: usize,
        reco_settings: &str,
    ) -> (r: (VolumeManager, bool))
        ensures
            match existing {
                Some(v) => r.0 == v && !r.1,
                None => {
                    &&& r.1
                    &&& r.0.file@ == record_path(workdir@)
                    &&& r.0.mrd@ == mrd@
                    &&& r.0.phase_table@ == phase_table@
                    &&& r.0.mrd_vol_offset == vol_offset
                    &&& r.0.reco_settings@ == reco_settings@
                    &&& r.0.state == VmState::Idle
                    &&& r.0.kspace.is_none()
                    &&& r.0.imspace.is_none()
                },
            },
    {
        match existing {
            Some(v) => (v, false),
            None => (VolumeManager::launch(workdir, mrd, phase_table, vol_offset, reco_settings), true),
        }
    }

    /// The state of a volume whose record is `vm`, `NotInstantiated` when it has none.
    pub fn state(vm: &Option<VolumeManager>) -> (r: VmState)
        ensures
            r == (match vm {
                Some(v) => v.state,
                None => VmState::NotInstantiated,
            }),
    {
        match vm {
            Some(v) => v.state,
            None => VmState::NotInstantiated,
        }
    }

    /// Whether a volume whose record is `vm` is done.
    pub fn is_done(vm: &Option<VolumeManager>) -> (r: bool)
        ensures
            r == (match vm {
                Some(v) => v.state == VmState::Done,
                None => false,
            }),
    {
        match vm {
            Some(v) => match v.state {
                VmState::Done => true,
                _ => false,
            },
            None => false,
        }
    }

    /// The name of the volume directory that holds the record.
    pub fn tag(&self) -> (r: String)
        ensures
            r@ == volume_tag(self.file@),
    {
        let dir = parent_of(self.file.as_str());
        file_name_of(dir.as_str())
    }

    /// The state that follows the current one, once its work is done.
    pub fn advance_state(&mut self)
        ensures
            final(self).state == next_state(old(self).state),
            final(self).file == old(self).file,
            final(self).mrd == old(self).mrd,
            final(self).phase_table == old(self).phase_table,
            final(self).mrd_vol_offset == old(self).mrd_vol_offset,
            final(self).reco_settings == old(self).reco_settings,
            final(self).kspace == old(self).kspace,
            final(self).imspace == old(self).imspace,
    {
        self.state = match self.state {
            VmState::Idle => VmState::PreProcessing,
            VmState::PreProcessing => VmState::Reconstructing,
            VmState::Reconstructing => VmState::WritingOutput,
            VmState::WritingOutput => VmState::Done,
            VmState::Done => VmState::Done,
            VmState::NotInstantiated => VmState::NotInstantiated,
        };
    }

    /// The work that the record's state demands, for a volume directory `workdir` of
    /// the run `run_number` whose raw files have metadata files ending in `meta_suffix`.
    pub fn work(&self, workdir: &str, run_number: &str, meta_suffix: &str) -> (r: Result<Work, VmError>)
        ensures
            match r {
                Ok(w) => work_for(*self, workdir@, run_number@, meta_suffix@, w),
                Err(VmError::MissingKspace) => self.state == VmState::Reconstructing && self.kspace.is_none(),
                Err(VmError::MissingImage) => self.state == VmState::WritingOutput && self.imspace.is_none(),
            },
            r.is_err() <==> ((self.state == VmState::Reconstructing && self.kspace.is_none()) || (
            self.state == VmState::WritingOutput && self.imspace.is_none())),
    {
        match self.state {
            VmState::Idle => Ok(Work::Commit),
            VmState::PreProcessing => {
                let name = file_name_of(self.mrd.as_str());
                let st = stem_of(name.as_str());
                let k = concat(st.as_str(), "_kspace");
                Ok(
                    Work::Preprocess {
                        raw: String::from_str(self.mrd.as_str()),
                        phase_table: String::from_str(self.phase_table.as_str()),
                        offset: self.mrd_vol_offset,
                        kspace: join_path(workdir, k.as_str()),
                    },
                )
            },
            VmState::Reconstructing => match &self.kspace {
                None => Err(VmError::MissingKspace),
                Some(k) => {
                    let name = file_name_of(self.mrd.as_str());
                    let st = stem_of(name.as_str());
                    let i = concat(st.as_str(), "_imspace");
                    Ok(
                        Work::Reconstruct {
                            kspace: String::from_str(k.as_str()),
                            image: join_path(workdir, i.as_str()),
                        },
                    )
                },
            },
            VmState::WritingOutput => match &self.imspace {
                None => Err(VmError::MissingImage),
                Some(img) => {
                    let dir = parent_of(self.file.as_str());
                    let out_dir = join_path(dir.as_str(), "image");
                    let tag = file_name_of(dir.as_str());
                    let prefix = concat(run_number, "_m");
                    let image_name = concat(prefix.as_str(), tag.as_str());
                    let run_dir = parent_of(dir.as_str());
                    let scaling_file = join_path(run_dir.as_str(), "image-scaling.toml");
                    let raw_dir = parent_of(self.mrd.as_str());
                    let name = file_name_of(self.mrd.as_str());
                    let st = stem_of(name.as_str());
                    let meta_name = concat(st.as_str(), meta_suffix);
                    let meta = join_path(raw_dir.as_str(), meta_name.as_str());
                    let hname = concat(image_name.as_str(), ".headfile");
                    let headfile = join_path(out_dir.as_str(), hname.as_str());
                    let first = volume_zero(tag.as_str());
                    Ok(
                        Work::WriteOutput {
                            image: String::from_str(img.as_str()),
                            out_dir,
                            image_name,
                            scaling_file,
                            meta,
                            headfile,
                            first,
                        },
                    )
                },
            },
            VmState::Done => Ok(Work::Nothing),
            VmState::NotInstantiated => Ok(Work::Nothing),
        }
    }

    /// Advances the record of the volume directory `workdir` on the report of the work
    /// that its state demanded: the state moves on when that work was done (for a volume
    /// other than volume zero leaving `WritingOutput`: when the scaling record was found
    /// present), and the artifact that the work wrote is recorded.
    pub fn advance(&mut self, workdir: &str, report: Report)
        ensures
            final(self).state == step_state(
                old(self).state,
                is_volume_zero(volume_tag(old(self).file@)),
                report,
            ),
            opt_view(final(self).kspace) == (if old(self).state == VmState::PreProcessing && report
                == Report::Done {
                Some(kspace_path(workdir@, old(self).mrd@))
            } else {
                opt_view(old(self).kspace)
            }),
            opt_view(final(self).imspace) == (if old(self).state == VmState::Reconstructing && report
                == Report::Done {
                Some(image_path(workdir@, old(self).mrd@))
            } else {
                opt_view(old(self).imspace)
            }),
            final(self).file == old(self).file,
            final(self).mrd == old(self).mrd,
            final(self).phase_table == old(self).phase_table,
            final(self).mrd_vol_offset == old(self).mrd_vol_offset,
            final(self).reco_settings == old(self).reco_settings,
    {
        let done = match report {
            Report::Done => true,
            _ => false,
        };
        match self.state {
            VmState::Idle => {
                self.advance_state();
            },
            VmState::PreProcessing => {
                if done {
                    let name = file_name_of(self.mrd.as_str());
                    let st = stem_of(name.as_str());
                    let k = concat(st.as_str(), "_kspace");
                    self.kspace = Some(join_path(workdir, k.as_str()));
                    self.advance_state();
                }
            },
            VmState::Reconstructing => {
                if done {
                    let name = file_name_of(self.mrd.as_str());
                    let st = stem_of(name.as_str());
                    let i = concat(st.as_str(), "_imspace");
                    self.imspace = Some(join_path(workdir, i.as_str()));
                    self.advance_state();
                }
            },
            VmState::WritingOutput => {
                let tag = self.tag();
                let zero = volume_zero(tag.as_str());
                let found = match report {
                    Report::Scaling(ScalingRecordState::Present) => true,
                    _ => false,
                };
                if (zero && done) || (!zero && found) {
                    self.advance_state();
                }
            },
            VmState::Done => {},
            VmState::NotInstantiated => {},
        }
    }
}

/// `w` is the work that the record `vm` demands.
pub open spec fn work_for(vm: VolumeManager, workdir: Seq<char>, run: Seq<char>, suffix: Seq<char>, w: Work) -> bool {
    match vm.state {
        VmState::Idle => w is Commit,
        VmState::PreProcessing => match w {
            Work::Preprocess { raw, phase_table, offset, kspace } => raw@ == vm.mrd@ && phase_table@
                == vm.phase_table@ && offset == vm.mrd_vol_offset && kspace@ == kspace_path(
                workdir,
                vm.mrd@,
            ),
            _ => false,
        },
        VmState::Reconstructing => match w {
            Work::Reconstruct { kspace, image } => opt_view(vm.kspace) == Some(kspace@) && image@
                == image_path(workdir, vm.mrd@),
            _ => false,
        },
        VmState::WritingOutput => match w {
            Work::WriteOutput { image, out_dir, image_name, scaling_file, meta, headfile, first } => {
                let dir = parent(vm.file@);
                let tag = file_name(dir);
                &&& opt_view(vm.imspace) == Some(image@)
                &&& out_dir@ == join(dir, "image"@)
                &&& image_name@ == run + "_m"@ + tag
                &&& scaling_file@ == join(parent(dir), "image-scaling.toml"@)
                &&& meta@ == join(parent(vm.mrd@), stem(file_name(vm.mrd@)) + suffix)
                &&& headfile@ == join(out_dir@, image_name@ + ".headfile"@)
                &&& first == is_volume_zero(tag)
            },
            _ => false,
        },
        _ => w is Nothing,
    }
}

/// A word escaped for a double-quoted shell word: `"` and `\\` get a backslash.
pub open spec fn escaped(w: Seq<char>) -> Seq<char>
    decreases w.len(),
{
    if w.len() == 0 {
        Seq::empty()
    } else {
        let c = w.last();
        if c == '"' || c == '\\' {
            escaped(w.drop_last()).push('\\').push(c)
        } else {
            escaped(w.drop_last()).push(c)
        }
    }
}

/// A command line: each word in double quotes, with a space between words.
pub open spec fn command_line(words: Seq<Seq<char>>) -> Seq<char>
    decreases words.len(),
{
    if words.len() == 0 {
        Seq::empty()
    } else {
        let q = seq!['"'] + escaped(words.last()) + seq!['"'];
        if words.len() == 1 {
            q
        } else {
            command_line(words.drop_last()).push(' ') + q
        }
    }
}

fn push_quoted(s: &mut String, w: &str)
    ensures
        final(s)@ == old(s)@ + seq!['"'] + escaped(w@) + seq!['"'],
{
    let ghost start = s@;
    push_char(s, '"');
    let n = w.unicode_len();
    let mut i: usize = 0;
    while i < n
        invariant
            n == w@.len(),
            i <= n,
            s@ == start + seq!['"'] + escaped(w@.take(i as int)),
        decreases n - i,
    {
        let c = w.get_char(i);
        proof {
            assert(w@.take(i + 1).drop_last() == w@.take(i as int));
        }
        if c == '"' || c == '\\' {
            push_char(s, '\\');
        }
        push_char(s, c);
        i = i + 1;
    }
    proof {
        assert(w@.take(n as int) == w@);
    }
    push_char(s, '"');
}

/// Renders words as one command line.
pub fn render_command(words: &Vec<String>) -> (r: String)
    ensures
        r@ == command_line(words.deep_view()),
{
    let mut s = String::new();
    let mut i: usize = 0;
    while i < words.len()
        invariant
            i <= words.len(),
            s@ == command_line(words.deep_view().take(i as int)),
        decreases words.len() - i,
    {
        proof {
            assert(words.deep_view().take(i + 1).drop_last() == words.deep_view().take(i as int));
            assert(words.deep_view()[i as int] == words[i as int]@);
        }
        if i > 0 {
            push_char(&mut s, ' ');
        } else {
            proof {
                assert(s@ == Seq::<char>::empty());
            }
        }
        push_quoted(&mut s, words[i].as_str());
        i = i + 1;
    }
    proof {
        assert(words.deep_view().take(words.len() as int) == words.deep_view());
    }
    s
}

/// A job named `slurm-job` that runs `command`, logging to `slurm-log.out` in `workdir`.
fn job_for(workdir: &str, command: String) -> (r: BatchScript)
    ensures
        r.preamble@ == "#!/usr/bin/env bash"@,
        r.options.job_name@ == "slurm-job"@,
        r.options.reservation@.len() == 0,
        r.options.no_requeue,
        r.options.output@ == join(workdir@, "slurm-log.out"@),
        r.commands.deep_view() == seq![command@],
        r.job_id.is_none(),
{
    let mut job = BatchScript::new("slurm-job");
    job.options.output = join_path(workdir, "slurm-log.out");
    job.commands.push(command);
    proof {
        assert(job.commands.deep_view() =~= seq![command@]);
    }
    job
}

/// The batch job that runs the volume manager of `workdir` through the program `exe`
/// with the `volume-manager` subcommand.
pub fn launch_volume_manager_job(exe: &str, workdir: &str, mrd: &str, phase_table: &str, vol_offset: usize, reco_settings: &str) -> (r: BatchScript)
    ensures
        r.options.job_name@ == "slurm-job"@,
        r.options.output@ == join(workdir@, "slurm-log.out"@),
        r.commands.deep_view() == seq![
            command_line(
                seq![exe@, "volume-manager"@, workdir@, mrd@, phase_table@, decimal(vol_offset as nat), reco_settings@],
            ),
        ],
        r.job_id.is_none(),
{
    let mut words: Vec<String> = Vec::new();
    words.push(String::from_str(exe));
    words.push(String::from_str("volume-manager"));
    words.push(String::from_str(workdir));
    words.push(String::from_str(mrd));
    words.push(String::from_str(phase_table));
    words.push(decimal_string(vol_offset as u64));
    words.push(String::from_str(reco_settings));
    proof {
        assert(words.deep_view() =~= seq![exe@, "volume-manager"@, workdir@, mrd@, phase_table@, decimal(vol_offset as nat), reco_settings@]);
    }
    let cmd = render_command(&words);
    job_for(workdir, cmd)
}

/// The batch job that resumes the volume manager of `workdir` through the program `exe`
/// with the `volume-manager-relaunch` subcommand.
pub fn re_launch_volume_manager_job(exe: &str, workdir: &str) -> (r: BatchScript)
    ensures
        r.options.job_name@ == "slurm-job"@,
        r.options.output@ == join(workdir@, "slurm-log.out"@),
        r.commands.deep_view() == seq![command_line(seq![exe@, "volume-manager-relaunch"@, workdir@])],
        r.job_id.is_none(),
{
    let mut words: Vec<String> = Vec::new();
    words.push(String::from_str(exe));
    words.push(String::from_str("volume-manager-relaunch"));
    words.push(String::from_str(workdir));
    proof {
        assert(words.deep_view() =~= seq![exe@, "volume-manager-relaunch"@, workdir@]);
    }
    let cmd = render_command(&words);
    job_for(workdir, cmd)
}

/// Whether the fixed-point loop that drives a volume goes on after a pass that moved
/// its state from `prev` to `now`: it stops at `Done` and on a pass that changed nothing.
pub fn keep_launching(prev: VmState, now: VmState) -> (r: bool)
    ensures
        r == (now != prev && now != VmState::Done),
{
    now != prev && now != VmState::Done
}

} // verus!
