use vstd::prelude::*;
use crate::number::{decimal, decimal_text};
use crate::text::{chars_of, extend_chars, str_equal, string_of};

verus! {

/// What the live-job table knows of one job.
#[derive(Clone, Copy, Debug, PartialEq, Eq, Structural)]
pub struct JobState {
    /// The process that runs the job.
    pub pid: u32,
    /// True once cancellation of the job was asked for.
    pub cancel_requested: bool,
}

/// One registration in the live-job table.
#[derive(Clone, Debug)]
pub struct JobEntry {
    pub id: String,
    pub state: JobState,
}

/// The live-job table: the jobs in flight, by job id.
///
/// The table is plain data. Whoever shares it between tasks wraps it in a lock.
pub struct ConversionManager {
    /// The registrations in the order they were made; of two with the same
    /// id the later one counts.
    pub processes: Vec<JobEntry>,
}

/// Why a cancellation was not carried out.
#[derive(Clone, Copy, Debug, PartialEq, Eq, Structural)]
pub enum CancelError {
    /// No job with that id is in flight.
    NotFound,
}

/// The time that a process is given to end on request before it is ended
/// by force, in milliseconds.
pub const GRACE_PERIOD_MS: u64 = 500;

/// One step of terminating a process.
#[derive(Clone, Copy, Debug, PartialEq, Eq, Structural)]
pub enum TerminationStep {
    /// Ask the process to end.
    Graceful(u32),
    /// Wait for so many milliseconds.
    Wait(u64),
    /// End the process by force.
    Forced(u32),
}

/// How a job ended.
#[derive(Clone, Copy, Debug, PartialEq, Eq, Structural)]
pub enum Outcome {
    /// The tool ended with exit code zero.
    Completed,
    /// The job was stopped by the user.
    Cancelled,
    /// The tool ended with another exit code, or without one.
    Failed(i32),
    /// The tool could not be started.
    SpawnFailed,
}

/// The terminal result of a job.
#[derive(Clone, Debug)]
pub struct ConversionResult {
    pub success: bool,
    /// The output path, on success.
    pub output_path: Option<String>,
    /// What went wrong, otherwise.
    pub error: Option<String>,
    /// Wall time of the job in milliseconds.
    pub duration_millis: u64,
    pub outcome: Outcome,
}

/// The table that a sequence of registrations stands for.
pub open spec fn table_of(entries: Seq<JobEntry>) -> Map<Seq<char>, JobState>
    decreases entries.len(),
{
    if entries.len() == 0 {
        Map::empty()
    } else {
        table_of(entries.drop_last()).insert(entries.last().id@, entries.last().state)
    }
}

/// The steps that terminate the process `pid`: where the platform knows a
/// request to end, the request, a grace period and then force; else force
/// at once.
pub open spec fn termination_steps(pid: u32, graceful: bool) -> Seq<TerminationStep> {
    if graceful {
        seq![
            TerminationStep::Graceful(pid),
            TerminationStep::Wait(GRACE_PERIOD_MS),
            TerminationStep::Forced(pid),
        ]
    } else {
        seq![TerminationStep::Forced(pid)]
    }
}

/// The table after cancellation of `id` was asked for: the job stays in the
/// table, marked.
pub open spec fn table_after_cancel(table: Map<Seq<char>, JobState>, id: Seq<char>) -> Map<
    Seq<char>,
    JobState,
> {
    if table.contains_key(id) {
        table.insert(id, JobState { pid: table[id].pid, cancel_requested: true })
    } else {
        table
    }
}

/// How a job ended, given what the table knew of it when its process ended
/// and the exit code, if there was one. A job whose cancellation was asked
/// for was stopped by the user, whatever the exit code.
pub open spec fn outcome_of(state: Option<JobState>, exit_code: Option<i32>) -> Outcome {
    if state is Some && state->0.cancel_requested {
        Outcome::Cancelled
    } else {
        match exit_code {
            Some(code) => if code == 0 {
                Outcome::Completed
            } else {
                Outcome::Failed(code)
            },
            None => Outcome::Failed(-1i32),
        }
    }
}

/// What the table knows of `id`.
pub open spec fn state_of(table: Map<Seq<char>, JobState>, id: Seq<char>) -> Option<JobState> {
    if table.contains_key(id) {
        Some(table[id])
    } else {
        None
    }
}

/// The decimal writing of a signed number.
pub open spec fn signed_decimal(n: int) -> Seq<char> {
    if n < 0 {
        seq!['-'] + decimal((-n) as nat)
    } else {
        decimal(n as nat)
    }
}

/// The message of a failed run: the exit code and, where there is any, the
/// diagnostic output that was captured.
pub open spec fn failure_text(code: i32, diagnostics: Seq<char>) -> Seq<char> {
    let head = "FFmpeg exited with error code: "@ + signed_decimal(code as int);
    if diagnostics.len() == 0 {
        head
    } else {
        head + ": "@ + diagnostics
    }
}

/// The message of a tool that could not be started, with the cause that the
/// system gave.
pub open spec fn spawn_failure_text(cause: Seq<char>) -> Seq<char> {
    "Failed to start ffmpeg: "@ + cause + ". Make sure ffmpeg is installed and in your PATH."@
}

/// The message of each outcome; none for success. For a tool that ran,
/// `detail` is its diagnostic output; for one that did not start, the cause.
pub open spec fn error_text(outcome: Outcome, detail: Seq<char>) -> Option<Seq<char>> {
    match outcome {
        Outcome::Completed => None,
        Outcome::Cancelled => Some("Conversion stopped by user"@),
        Outcome::Failed(code) => Some(failure_text(code, detail)),
        Outcome::SpawnFailed => Some(spawn_failure_text(detail)),
    }
}

/// An id that no registration has is not in the table.
pub proof fn lemma_table_absent(entries: Seq<JobEntry>, id: Seq<char>)
    requires
        forall|j: int| 0 <= j < entries.len() ==> (#[trigger] entries[j]).id@ != id,
    ensures
        !table_of(entries).contains_key(id),
    decreases entries.len(),
{
    if entries.len() > 0 {
        let rest = entries.drop_last();
        assert forall|j: int| 0 <= j < rest.len() implies (#[trigger] rest[j]).id@ != id by {
            assert(rest[j] == entries[j]);
        }
        lemma_table_absent(rest, id);
        assert(entries.last() == entries[entries.len() - 1]);
    }
}

/// The last registration of an id is what the table holds for it.
pub proof fn lemma_table_last(entries: Seq<JobEntry>, id: Seq<char>, k: int)
    requires
        0 <= k < entries.len(),
        entries[k].id@ == id,
        forall|j: int| k < j < entries.len() ==> (#[trigger] entries[j]).id@ != id,
    ensures
        table_of(entries).contains_key(id),
        table_of(entries)[id] == entries[k].state,
    decreases entries.len(),
{
    if k < entries.len() - 1 {
        let rest = entries.drop_last();
        assert forall|j: int| k < j < rest.len() implies (#[trigger] rest[j]).id@ != id by {
            assert(rest[j] == entries[j]);
        }
        assert(rest[k] == entries[k]);
        lemma_table_last(rest, id, k);
        assert(entries.last() == entries[entries.len() - 1]);
    }
}

impl View for ConversionManager {
    type V = Map<Seq<char>, JobState>;

    open spec fn view(&self) -> Map<Seq<char>, JobState> {
        table_of(self.processes@)
    }
}

impl ConversionManager {
    /// An empty table.
    pub fn new() -> (m: ConversionManager)
        ensures
            m@ == Map::<Seq<char>, JobState>::empty(),
    {
        ConversionManager { processes: Vec::new() }
    }

    fn position(&self, id: &str) -> (r: Option<usize>)
        ensures
            match r {
                Some(k) => k < self.processes@.len() && self.processes@[k as int].id@ == id@
                    && forall|j: int|
                    k < j < self.processes@.len() ==> (#[trigger] self.processes@[j]).id@ != id@,
                None => forall|j: int|
                    0 <= j < self.processes@.len() ==> (#[trigger] self.processes@[j]).id@ != id@,
            },
    {
        let mut i: usize = self.processes.len();
        while i > 0
            invariant
                i <= self.processes@.len(),
                forall|j: int|
                    i <= j < self.processes@.len() ==> (#[trigger] self.processes@[j]).id@ != id@,
            decreases i,
        {
            i = i - 1;
            if str_equal(self.processes[i].id.as_str(), id) {
                return Some(i);
            }
        }
        None
    }

    /// Looks a job up.
    pub fn lookup(&self, id: &str) -> (r: Option<JobState>)
        ensures
            r == state_of(self@, id@),
    {
        match self.position(id) {
            Some(k) => {
                proof {
                    lemma_table_last(self.processes@, id@, k as int);
                }
                Some(self.processes[k].state)
            },
            None => {
                proof {
                    lemma_table_absent(self.processes@, id@);
                }
                None
            },
        }
    }

    /// Registers the process of a job that was just started. An earlier
    /// registration under the same id is replaced.
    pub fn register(&mut self, id: String, pid: u32)
        ensures
            final(self)@ == old(self)@.insert(id@, (JobState { pid, cancel_requested: false })),
    {
        let ghost before = self.processes@;
        let entry = JobEntry { id, state: JobState { pid, cancel_requested: false } };
        self.processes.push(entry);
        assert(self.processes@.drop_last() =~= before);
    }

    /// Takes a job out of the table, whether or not it is there.
    pub fn remove(&mut self, id: &str)
        ensures
            final(self)@ == old(self)@.remove(id@),
    {
        let mut kept: Vec<JobEntry> = Vec::new();
        let mut i: usize = 0;
        assert(self.processes@.subrange(0, 0) =~= Seq::<JobEntry>::empty());
        assert(table_of(kept@) =~= table_of(self.processes@.subrange(0, 0)).remove(id@));
        while i < self.processes.len()
            invariant
                i <= self.processes@.len(),
                self.processes@ == old(self).processes@,
                table_of(kept@) == table_of(self.processes@.subrange(0, i as int)).remove(id@),
            decreases self.processes.len() - i,
        {
            let ghost before = self.processes@.subrange(0, i as int);
            let ghost after = self.processes@.subrange(0, i + 1);
            let ghost kept_before = kept@;
            proof {
                assert(after.drop_last() =~= before);
                assert(after.last() == self.processes@[i as int]);
            }
            if !str_equal(self.processes[i].id.as_str(), id) {
                let entry = JobEntry {
                    id: self.processes[i].id.clone(),
                    state: self.processes[i].state,
                };
                kept.push(entry);
                proof {
                    assert(kept@.drop_last() =~= kept_before);
                    assert(table_of(kept@) =~= table_of(after).remove(id@));
                }
            } else {
                proof {
                    assert(table_of(kept@) =~= table_of(after).remove(id@));
                }
            }
            i = i + 1;
        }
        assert(self.processes@.subrange(0, self.processes@.len() as int) =~= self.processes@);
        self.processes = kept;
    }

    /// Plans the cancellation of a job and marks the job as cancelled.
    ///
    /// For a job that is not in the table the result is `NotFound`, no step
    /// is planned and the table stays as it is. Otherwise the result holds
    /// the steps that terminate the job's process; the job stays in the
    /// table until its process has ended.
    pub fn cancel_conversion(&mut self, id: &str, graceful: bool) -> (r: Result<
        Vec<TerminationStep>,
        CancelError,
    >)
        ensures
            final(self)@ == table_after_cancel(old(self)@, id@),
            match state_of(old(self)@, id@) {
                Some(state) => r is Ok && r->Ok_0@ == termination_steps(state.pid, graceful),
                None => r == Err::<Vec<TerminationStep>, CancelError>(CancelError::NotFound)
                    && final(self)@ == old(self)@,
            },
    {
        match self.position(id) {
            Some(k) => {
                proof {
                    lemma_table_last(self.processes@, id@, k as int);
                }
                let ghost before = self.processes@;
                let pid: u32 = self.processes[k].state.pid;
                let entry = JobEntry {
                    id: self.processes[k].id.clone(),
                    state: JobState { pid, cancel_requested: true },
                };
                self.processes.push(entry);
                assert(self.processes@.drop_last() =~= before);
                let mut steps: Vec<TerminationStep> = Vec::new();
                if graceful {
                    steps.push(TerminationStep::Graceful(pid));
                    steps.push(TerminationStep::Wait(GRACE_PERIOD_MS));
                }
                steps.push(TerminationStep::Forced(pid));
                assert(steps@ =~= termination_steps(pid, graceful));
                Ok(steps)
            },
            None => {
                proof {
                    lemma_table_absent(self.processes@, id@);
                }
                Err(CancelError::NotFound)
            },
        }
    }

    /// Closes a job whose process has ended: the job leaves the table, and
    /// the result says how it ended.
    pub fn conclude(
        &mut self,
        id: &str,
        exit_code: Option<i32>,
        output_path: &str,
        diagnostics: &str,
        duration_millis: u64,
    ) -> (result: ConversionResult)
        ensures
            final(self)@ == old(self)@.remove(id@),
            result.outcome == outcome_of(state_of(old(self)@, id@), exit_code),
            result.success == (result.outcome == Outcome::Completed),
            result.duration_millis == duration_millis,
            match result.output_path {
                Some(path) => result.success && path@ == output_path@,
                None => !result.success,
            },
            match result.error {
                Some(text) => error_text(result.outcome, diagnostics@) == Some(text@),
                None => error_text(result.outcome, diagnostics@) is None,
            },
    {
        let state = self.lookup(id);
        self.remove(id);
        let cancelled: bool = match state {
            Some(s) => s.cancel_requested,
            None => false,
        };
        let outcome: Outcome = if cancelled {
            Outcome::Cancelled
        } else {
            match exit_code {
                Some(code) => if code == 0 {
                    Outcome::Completed
                } else {
                    Outcome::Failed(code)
                },
                None => Outcome::Failed(-1),
            }
        };
        match outcome {
            Outcome::Completed => ConversionResult {
                success: true,
                output_path: Some(output_path.to_owned()),
                error: None,
                duration_millis,
                outcome,
            },
            Outcome::Cancelled => ConversionResult {
                success: false,
                output_path: None,
                error: Some("Conversion stopped by user".to_owned()),
                duration_millis,
                outcome,
            },
            Outcome::Failed(code) => ConversionResult {
                success: false,
                output_path: None,
                error: Some(failure_message(code, diagnostics)),
                duration_millis,
                outcome,
            },
            Outcome::SpawnFailed => ConversionResult {
                success: false,
                output_path: None,
                error: Some(spawn_failure_message(diagnostics)),
                duration_millis,
                outcome,
            },
        }
    }
}

/// Writes the message of a tool that could not be started.
pub fn spawn_failure_message(cause: &str) -> (out: String)
    ensures
        out@ == spawn_failure_text(cause@),
{
    let mut chars = chars_of("Failed to start ffmpeg: ");
    extend_chars(&mut chars, &chars_of(cause));
    extend_chars(&mut chars, &chars_of(". Make sure ffmpeg is installed and in your PATH."));
    string_of(&chars)
}

/// The result of a job whose tool could not be started. Such a job never
/// entered the live-job table.
pub fn spawn_failure(cause: &str, duration_millis: u64) -> (result: ConversionResult)
    ensures
        !result.success,
        result.outcome == Outcome::SpawnFailed,
        result.output_path is None,
        result.error is Some,
        result.error->0@ == spawn_failure_text(cause@),
        result.duration_millis == duration_millis,
{
    ConversionResult {
        success: false,
        output_path: None,
        error: Some(spawn_failure_message(cause)),
        duration_millis,
        outcome: Outcome::SpawnFailed,
    }
}

/// Writes a signed number in decimal.
pub fn signed_decimal_text(n: i32) -> (out: Vec<char>)
    ensures
        out@ == signed_decimal(n as int),
{
    if n < 0 {
        let magnitude: u64 = (-(n as i64)) as u64;
        let mut out: Vec<char> = Vec::new();
        out.push('-');
        let digits = decimal_text(magnitude);
        extend_chars(&mut out, &digits);
        assert(out@ =~= seq!['-'] + decimal((-n) as nat));
        out
    } else {
        decimal_text(n as u64)
    }
}

/// Writes the message of a failed run.
pub fn failure_message(code: i32, diagnostics: &str) -> (out: String)
    ensures
        out@ == failure_text(code, diagnostics@),
{
    let mut chars = chars_of("FFmpeg exited with error code: ");
    let number = signed_decimal_text(code);
    extend_chars(&mut chars, &number);
    let detail = chars_of(diagnostics);
    if detail.len() > 0 {
        let sep = chars_of(": ");
        extend_chars(&mut chars, &sep);
        extend_chars(&mut chars, &detail);
    }
    string_of(&chars)
}

/// Cancelling a job that is not in the table is refused, plans no step and
/// leaves the table as it is.
pub proof fn law_cancel_unknown_job_changes_nothing(table: Map<Seq<char>, JobState>, id: Seq<char>)
    requires
        !table.contains_key(id),
    ensures
        state_of(table, id) is None,
        table_after_cancel(table, id) == table,
{
}

/// A cancelled job stays in the table until its process ends; then it
/// leaves the table, and its result says that the user stopped it, whatever
/// exit code the process gave.
pub proof fn law_cancelled_job_ends_as_cancelled(
    table: Map<Seq<char>, JobState>,
    id: Seq<char>,
    exit_code: Option<i32>,
)
    requires
        table.contains_key(id),
    ensures
        table_after_cancel(table, id).contains_key(id),
        table_after_cancel(table, id)[id].pid == table[id].pid,
        outcome_of(state_of(table_after_cancel(table, id), id), exit_code) == Outcome::Cancelled,
        !table_after_cancel(table, id).remove(id).contains_key(id),
        table_after_cancel(table, id).remove(id) == table.remove(id),
{
    assert(table_after_cancel(table, id).remove(id) =~= table.remove(id));
}

/// A job that nobody cancelled succeeds exactly when its exit code is zero.
pub proof fn law_success_is_exit_code_zero(state: Option<JobState>, exit_code: Option<i32>)
    requires
        state is None || !state->0.cancel_requested,
    ensures
        outcome_of(state, exit_code) == Outcome::Completed <==> exit_code == Some(0i32),
{
}

} // verus!
