//! The cluster batch system: submission scripts, the submitter's answer and job states.
use vstd::prelude::*;
use crate::paths::{concat, join, join_path};
use crate::text::{
    lines, lines_of, parse_u32, parse_unsigned, space_char, split_whitespace, ws_tokens,
};

verus! {

/// The state of a cluster job, as the accounting query reports it.
#[derive(PartialEq, Eq, Debug, Clone, Copy, Structural)]
pub enum JobState {
    Pending,
    Running,
    Completed,
    Failed,
    Cancelled,
    Unknown,
}

/// The `#SBATCH` options of a submission script.
pub struct SBatchOpts {
    pub reservation: String,
    pub job_name: String,
    pub no_requeue: bool,
    pub output: String,
}

/// A submission script: shebang, options and command lines.
pub struct BatchScript {
    pub preamble: String,
    pub options: SBatchOpts,
    pub commands: Vec<String>,
    pub job_id: Option<u32>,
}

/// The lines of `s` joined with `\n` between them.
pub open spec fn join_lines(s: Seq<Seq<char>>) -> Seq<char>
    decreases s.len(),
{
    if s.len() == 0 {
        Seq::empty()
    } else if s.len() == 1 {
        s[0]
    } else {
        join_lines(s.drop_last()).push('\n') + s.last()
    }
}

/// Joins texts with `\n` between them.
pub fn join_newline(v: &Vec<String>) -> (r: String)
    ensures
        r@ == join_lines(v.deep_view()),
{
    let mut s = String::new();
    let mut i: usize = 0;
    while i < v.len()
        invariant
            i <= v.len(),
            s@ == join_lines(v.deep_view().take(i as int)),
        decreases v.len() - i,
    {
        proof {
            assert(v.deep_view().take(i + 1).drop_last() == v.deep_view().take(i as int));
            assert(v.deep_view()[i as int] == v[i as int]@);
        }
        if i > 0 {
            crate::text::push_char(&mut s, '\n');
        } else {
            proof {
                assert(v.deep_view().take(1) == seq![v[0]@]);
            }
        }
        s.append(v[i].as_str());
        i = i + 1;
    }
    proof {
        assert(v.deep_view().take(v.len() as int) == v.deep_view());
    }
    s
}

/// The option lines that a script with these settings carries.
pub open spec fn option_lines(job_name: Seq<char>, reservation: Seq<char>, no_requeue: bool, output: Seq<char>) -> Seq<Seq<char>> {
    let a = seq!["#SBATCH --job-name="@ + job_name];
    let b = if reservation.len() > 0 { a.push("#SBATCH --reservation="@ + reservation) } else { a };
    let c = if no_requeue { b.push("#SBATCH --no-requeue"@) } else { b };
    if output.len() > 0 { c.push("#SBATCH --output="@ + output) } else { c }
}

impl SBatchOpts {
    pub open spec fn lines_spec(&self) -> Seq<Seq<char>> {
        option_lines(self.job_name@, self.reservation@, self.no_requeue, self.output@)
    }

    /// Options for a job of this name: no reservation, not requeued, no log file.
    pub fn new(job_name: &str) -> (r: SBatchOpts)
        ensures
            r.job_name@ == job_name@,
            r.reservation@.len() == 0,
            r.no_requeue,
            r.output@.len() == 0,
    {
        SBatchOpts {
            job_name: String::from_str(job_name),
            reservation: String::new(),
            no_requeue: true,
            output: String::new(),
        }
    }

    /// The job's name.
    pub fn job_name(&self) -> (r: &str)
        ensures
            r@ == self.job_name@,
    {
        self.job_name.as_str()
    }

    /// Sets the reservation that the job runs in.
    pub fn set_reservation(&mut self, reservation: &str)
        ensures
            final(self).reservation@ == reservation@,
            final(self).job_name == old(self).job_name,
            final(self).no_requeue == old(self).no_requeue,
            final(self).output == old(self).output,
    {
        self.reservation = String::from_str(reservation);
    }

    /// The option lines, one `#SBATCH` directive each.
    pub fn print(&self) -> (r: String)
        ensures
            r@ == join_lines(self.lines_spec()),
    {
        let mut opts: Vec<String> = Vec::new();
        opts.push(concat("#SBATCH --job-name=", self.job_name.as_str()));
        if self.reservation.unicode_len() > 0 {
            opts.push(concat("#SBATCH --reservation=", self.reservation.as_str()));
        }
        if self.no_requeue {
            opts.push(String::from_str("#SBATCH --no-requeue"));
        }
        if self.output.unicode_len() > 0 {
            opts.push(concat("#SBATCH --output=", self.output.as_str()));
        }
        proof {
            assert(opts.deep_view() =~= self.lines_spec());
        }
        join_newline(&opts)
    }
}

impl BatchScript {
    /// A script for a job of this name, with no command yet.
    pub fn new(job_name: &str) -> (r: BatchScript)
        ensures
            r.preamble@ == "#!/usr/bin/env bash"@,
            r.options.job_name@ == job_name@,
            r.options.reservation@.len() == 0,
            r.options.no_requeue,
            r.options.output@.len() == 0,
            r.commands@.len() == 0,
            r.job_id.is_none(),
    {
        BatchScript {
            preamble: String::from_str("#!/usr/bin/env bash"),
            options: SBatchOpts::new(job_name),
            commands: Vec::new(),
            job_id: None,
        }
    }

    /// The command lines, one per line.
    pub fn commands(&self) -> (r: String)
        ensures
            r@ == join_lines(self.commands.deep_view()),
    {
        join_newline(&self.commands)
    }

    /// The whole script: shebang, options, then the commands.
    pub fn print(&self) -> (r: String)
        ensures
            r@ == join_lines(
                seq![self.preamble@, join_lines(self.options.lines_spec()), join_lines(self.commands.deep_view())],
            ),
    {
        let mut elems: Vec<String> = Vec::new();
        elems.push(String::from_str(self.preamble.as_str()));
        elems.push(self.options.print());
        elems.push(self.commands());
        proof {
            assert(elems.deep_view() =~= seq![
                self.preamble@,
                join_lines(self.options.lines_spec()),
                join_lines(self.commands.deep_view()),
            ]);
        }
        join_newline(&elems)
    }

    /// Where the script is written in `location`: `<location>/<job name>.bash`.
    pub fn script_path(&self, location: &str) -> (r: String)
        ensures
            r@ == join(location@, self.options.job_name@ + ".bash"@),
    {
        let name = concat(self.options.job_name.as_str(), ".bash");
        join_path(location, name.as_str())
    }

    /// Reads the job id out of the submitter's answer: the one token that parses as
    /// an unsigned integer.
    pub fn response_to_job_id(resp: &str) -> (r: Result<u32, JobIdError>)
        ensures
            match r {
                Ok(id) => job_ids(ws_tokens(resp@)) == seq![id],
                Err(JobIdError::NoJobId) => job_ids(ws_tokens(resp@)).len() == 0,
                Err(JobIdError::MultipleJobIds) => job_ids(ws_tokens(resp@)).len() > 1,
            },
    {
        let toks = split_whitespace(resp);
        let mut ids: Vec<u32> = Vec::new();
        let mut i: usize = 0;
        while i < toks.len()
            invariant
                i <= toks.len(),
                toks.deep_view() == ws_tokens(resp@),
                ids@ == job_ids(toks.deep_view().take(i as int)),
            decreases toks.len() - i,
        {
            proof {
                assert(toks.deep_view().take(i + 1).drop_last() == toks.deep_view().take(i as int));
                assert(toks.deep_view()[i as int] == toks[i as int]@);
            }
            match parse_u32(toks[i].as_str()) {
                Some(v) => ids.push(v),
                None => {},
            }
            i = i + 1;
        }
        proof {
            assert(toks.deep_view().take(toks.len() as int) == toks.deep_view());
        }
        if ids.len() == 0 {
            Err(JobIdError::NoJobId)
        } else if ids.len() != 1 {
            Err(JobIdError::MultipleJobIds)
        } else {
            proof {
                assert(ids@ == seq![ids[0]]);
            }
            Ok(ids[0])
        }
    }
}

/// Why no job id could be read from the submitter's answer.
#[derive(PartialEq, Eq, Debug, Clone, Copy, Structural)]
pub enum JobIdError {
    NoJobId,
    MultipleJobIds,
}

/// The values of the tokens that parse as `u32`, in order.
pub open spec fn job_ids(toks: Seq<Seq<char>>) -> Seq<u32>
    decreases toks.len(),
{
    if toks.len() == 0 {
        Seq::empty()
    } else {
        let prev = job_ids(toks.drop_last());
        match parse_unsigned(toks.last(), u32::MAX as nat) {
            Some(v) => prev.push(v as u32),
            None => prev,
        }
    }
}

/// `s` without trailing whitespace.
pub open spec fn trim_end(s: Seq<char>) -> Seq<char>
    decreases s.len(),
{
    if s.len() > 0 && space_char(s.last()) {
        trim_end(s.drop_last())
    } else {
        s
    }
}

/// `s` without leading whitespace.
pub open spec fn trim_start(s: Seq<char>) -> Seq<char>
    decreases s.len(),
{
    if s.len() > 0 && space_char(s[0]) {
        trim_start(s.skip(1))
    } else {
        s
    }
}

/// `s` without leading and trailing whitespace, as `str::trim` gives it.
pub open spec fn trim(s: Seq<char>) -> Seq<char> {
    trim_start(trim_end(s))
}

/// Removes leading and trailing whitespace.
pub fn trim_str(s: &str) -> (r: String)
    ensures
        r@ == trim(s@),
{
    let n = s.unicode_len();
    let mut e: usize = n;
    proof {
        assert(s@.take(n as int) == s@);
    }
    while e > 0
        invariant
            n == s@.len(),
            e <= n,
            trim_end(s@) == trim_end(s@.take(e as int)),
        ensures
            e <= n,
            trim_end(s@) == trim_end(s@.take(e as int)),
            e == 0 || !space_char(s@[e - 1]),
        decreases e,
    {
        proof {
            assert(s@.take(e as int).drop_last() == s@.take(e - 1));
        }
        if !crate::text::is_space_char(s.get_char(e - 1)) {
            break;
        }
        e = e - 1;
    }
    let t = s.substring_char(0, e);
    proof {
        assert(t@ == s@.take(e as int));
        if e > 0 {
            assert(t@.last() == s@[e - 1]);
        }
        assert(trim_end(t@) == t@);
    }
    let mut b: usize = 0;
    proof {
        assert(t@.skip(0) == t@);
    }
    while b < e
        invariant
            e == t@.len(),
            b <= e,
            trim_start(t@) == trim_start(t@.skip(b as int)),
        ensures
            b <= e,
            trim_start(t@) == trim_start(t@.skip(b as int)),
            b == e || !space_char(t@[b as int]),
        decreases e - b,
    {
        proof {
            assert(t@.skip(b as int).skip(1) == t@.skip(b + 1));
            assert(t@.skip(b as int)[0] == t@[b as int]);
        }
        if !crate::text::is_space_char(t.get_char(b)) {
            break;
        }
        b = b + 1;
    }
    let u = t.substring_char(b, e);
    proof {
        assert(u@ == t@.skip(b as int));
        if b < e {
            assert(u@[0] == t@[b as int]);
        }
        assert(trim_start(u@) == u@);
    }
    String::from_str(u)
}

/// Whether `t` spells the lower-case word `w` up to the case of ASCII letters.
pub open spec fn matches_lower(t: Seq<char>, w: Seq<char>) -> bool {
    t.len() == w.len() && forall|i: int|
        0 <= i < t.len() ==> #[trigger] t[i] == w[i] || ('A' <= t[i] <= 'Z' && t[i] as int + 32 == w[i] as int)
}

fn matches_lower_exec(t: &str, w: &str) -> (r: bool)
    ensures
        r == matches_lower(t@, w@),
{
    let n = t.unicode_len();
    if n != w.unicode_len() {
        return false;
    }
    let mut i: usize = 0;
    while i < n
        invariant
            n == t@.len(),
            n == w@.len(),
            i <= n,
            forall|j: int|
                0 <= j < i ==> #[trigger] t@[j] == w@[j] || ('A' <= t@[j] <= 'Z' && t@[j] as int + 32 == w@[j] as int),
        decreases n - i,
    {
        let a = t.get_char(i);
        let c = w.get_char(i);
        if !(a == c || ('A' <= a && a <= 'Z' && (a as u32) + 32 == c as u32)) {
            return false;
        }
        i = i + 1;
    }
    true
}

/// The job state that the accounting query's word names, ignoring ASCII case.
pub open spec fn state_of_word(t: Seq<char>) -> Option<JobState> {
    if matches_lower(t, "pending"@) {
        Some(JobState::Pending)
    } else if matches_lower(t, "cancelled"@) {
        Some(JobState::Cancelled)
    } else if matches_lower(t, "failed"@) {
        Some(JobState::Failed)
    } else if matches_lower(t, "running"@) {
        Some(JobState::Running)
    } else if matches_lower(t, "completed"@) {
        Some(JobState::Completed)
    } else {
        None
    }
}

/// The job state that a word names.
pub fn state_from_word(t: &str) -> (r: Option<JobState>)
    ensures
        r == state_of_word(t@),
{
    if matches_lower_exec(t, "pending") {
        Some(JobState::Pending)
    } else if matches_lower_exec(t, "cancelled") {
        Some(JobState::Cancelled)
    } else if matches_lower_exec(t, "failed") {
        Some(JobState::Failed)
    } else if matches_lower_exec(t, "running") {
        Some(JobState::Running)
    } else if matches_lower_exec(t, "completed") {
        Some(JobState::Completed)
    } else {
        None
    }
}

/// The last line that is not empty.
pub open spec fn last_nonempty(ls: Seq<Seq<char>>) -> Option<Seq<char>>
    decreases ls.len(),
{
    if ls.len() == 0 {
        None
    } else if ls.last().len() > 0 {
        Some(ls.last())
    } else {
        last_nonempty(ls.drop_last())
    }
}

/// The job state that the accounting query's output reports: its last non-empty line,
/// trimmed, read as a state word.
pub open spec fn state_of_output(out: Seq<char>) -> Option<JobState> {
    match last_nonempty(lines_of(out)) {
        Some(l) => state_of_word(trim(l)),
        None => None,
    }
}

/// Reads the job state out of the accounting query's output.
pub fn job_state_from_output(out: &str) -> (r: Option<JobState>)
    ensures
        r == state_of_output(out@),
{
    let ls = lines(out);
    let mut i: usize = ls.len();
    proof {
        assert(ls.deep_view().take(ls.len() as int) == ls.deep_view());
    }
    while i > 0
        invariant
            i <= ls.len(),
            ls.deep_view() == lines_of(out@),
            last_nonempty(lines_of(out@)) == last_nonempty(ls.deep_view().take(i as int)),
        decreases i,
    {
        proof {
            assert(ls.deep_view().take(i as int).drop_last() == ls.deep_view().take(i - 1));
            assert(ls.deep_view()[i - 1] == ls[i - 1]@);
        }
        if ls[i - 1].unicode_len() > 0 {
            let t = trim_str(ls[i - 1].as_str());
            return state_from_word(t.as_str());
        }
        i = i - 1;
    }
    None
}

/// What to do after one accounting query.
#[derive(PartialEq, Eq, Debug, Clone, Copy, Structural)]
pub enum JobPoll {
    /// The job's state is settled.
    State(JobState),
    /// The answer named no state: wait a second and ask again with this many tries left.
    Retry(u16),
}

/// Decides on the accounting query's output with `n_tries` retries left: a named state is
/// the answer; otherwise the query is retried, and with no retry left the state is `Unknown`.
pub fn get_job_state(out: &str, n_tries: u16) -> (r: JobPoll)
    ensures
        r == (match state_of_output(out@) {
            Some(s) => JobPoll::State(s),
            None => if n_tries > 0 {
                JobPoll::Retry((n_tries - 1) as u16)
            } else {
                JobPoll::State(JobState::Unknown)
            },
        }),
{
    match job_state_from_output(out) {
        Some(s) => JobPoll::State(s),
        None => {
            if n_tries > 0 {
                JobPoll::Retry(n_tries - 1)
            } else {
                JobPoll::State(JobState::Unknown)
            }
        },
    }
}

} // verus!
