//! The terminals of a server: who has which descriptor, what a new child is started with, and what
//! is made of the answers of the operating system. The calls themselves belong to the caller.
use crate::cgroups::PaneCgroups;
use crate::command::RunCommand;
use crate::fd_table;
use crate::fd_table::FdTable;
use crate::text;
use vstd::prelude::*;

verus! {

// ---------------------------------------------------------------------------------------------
// writing without blocking
// ---------------------------------------------------------------------------------------------

/// What became of one attempt to write.
#[derive(Clone, Copy, Debug, PartialEq, Eq, Structural)]
pub enum WriteOutcome {
    /// So many bytes were taken.
    Wrote(usize),
    /// A signal came first.
    Interrupted,
    /// The terminal takes nothing now.
    WouldBlock,
    /// The operating system refused, with this error number.
    Refused(i32),
}

/// What to do after one attempt to write.
#[derive(Clone, Copy, Debug, PartialEq, Eq, Structural)]
pub enum WriteStep {
    /// Write what is left.
    Again,
    /// Stop; so many bytes were written in all.
    Done(usize),
    /// Give up, with this error number.
    Failed(i32),
}

/// Writing one buffer, piece by piece.
#[derive(Clone, Copy, Debug)]
pub struct PartialWrite {
    written: usize,
    total: usize,
}

impl PartialWrite {
    /// How many bytes were written.
    pub closed spec fn done(&self) -> nat {
        self.written as nat
    }

    /// How many bytes there are.
    pub closed spec fn all(&self) -> nat {
        self.total as nat
    }

    /// Never more is written than there is.
    pub open spec fn wf(&self) -> bool {
        self.done() <= self.all()
    }

    pub fn new(total: usize) -> (w: Self)
        ensures
            w.wf(),
            w.done() == 0,
            w.all() == total,
    {
        PartialWrite { written: 0, total }
    }

    /// Where the rest of the buffer begins.
    pub fn written(&self) -> (n: usize)
        ensures
            n == self.done(),
    {
        self.written
    }

    /// Whether everything is written.
    pub fn is_complete(&self) -> (b: bool)
        requires
            self.wf(),
        ensures
            b == (self.done() == self.all()),
    {
        self.written >= self.total
    }

    /// Take in one attempt. An interrupted one is made again; a terminal that takes nothing ends the
    /// writing, which is no error.
    pub fn step(&mut self, outcome: WriteOutcome) -> (step: WriteStep)
        requires
            old(self).wf(),
            outcome matches WriteOutcome::Wrote(n) ==> n <= old(self).all() - old(self).done(),
        ensures
            final(self).wf(),
            final(self).all() == old(self).all(),
            match outcome {
                WriteOutcome::Wrote(n) => {
                    &&& final(self).done() == old(self).done() + n
                    &&& step == (if n == 0 || final(self).done() == final(self).all() {
                        WriteStep::Done(final(self).done() as usize)
                    } else {
                        WriteStep::Again
                    })
                },
                WriteOutcome::Interrupted => final(self).done() == old(self).done() && step
                    == WriteStep::Again,
                WriteOutcome::WouldBlock => final(self).done() == old(self).done() && step
                    == WriteStep::Done(old(self).done() as usize),
                WriteOutcome::Refused(e) => final(self).done() == old(self).done() && step
                    == WriteStep::Failed(e),
            },
    {
        match outcome {
            WriteOutcome::Wrote(n) => {
                self.written = self.written + n;
                if n == 0 || self.written == self.total {
                    WriteStep::Done(self.written)
                } else {
                    WriteStep::Again
                }
            },
            WriteOutcome::Interrupted => WriteStep::Again,
            WriteOutcome::WouldBlock => WriteStep::Done(self.written),
            WriteOutcome::Refused(e) => WriteStep::Failed(e),
        }
    }
}

/// What writing `left` more bytes comes to when the attempts bring `outcomes` and the terminal then
/// takes nothing: the number of bytes written, or the error.
pub open spec fn bytes_written(left: nat, outcomes: Seq<WriteOutcome>) -> Result<nat, i32>
    decreases outcomes.len(),
{
    if left == 0 || outcomes.len() == 0 {
        Ok(0)
    } else {
        match outcomes[0] {
            WriteOutcome::Wrote(n) => if n == 0 {
                Ok(0)
            } else {
                match bytes_written((left - n) as nat, outcomes.skip(1)) {
                    Ok(more) => Ok(n as nat + more),
                    Err(e) => Err(e),
                }
            },
            WriteOutcome::Interrupted => bytes_written(left, outcomes.skip(1)),
            WriteOutcome::WouldBlock => Ok(0),
            WriteOutcome::Refused(e) => Err(e),
        }
    }
}

/// Whether no attempt takes more than is left.
pub open spec fn are_possible(left: nat, outcomes: Seq<WriteOutcome>) -> bool
    decreases outcomes.len(),
{
    outcomes.len() > 0 ==> match outcomes[0] {
        WriteOutcome::Wrote(n) => n <= left && are_possible((left - n) as nat, outcomes.skip(1)),
        _ => are_possible(left, outcomes.skip(1)),
    }
}

/// Write a buffer of `total` bytes to a terminal whose attempts bring `outcomes`, after which it
/// takes nothing. The bytes that were not written are the caller's to keep.
pub fn try_write_to_fd(total: usize, outcomes: &Vec<WriteOutcome>) -> (r: Result<usize, i32>)
    requires
        are_possible(total as nat, outcomes@),
    ensures
        match r {
            Ok(n) => n <= total && bytes_written(total as nat, outcomes@) == Ok::<nat, i32>(
                n as nat,
            ),
            Err(e) => bytes_written(total as nat, outcomes@) == Err::<nat, i32>(e),
        },
{
    let mut progress = PartialWrite::new(total);
    let mut i: usize = 0;
    let ghost goal = bytes_written(total as nat, outcomes@);
    assert(outcomes@.skip(0) =~= outcomes@);
    while !progress.is_complete() && i < outcomes.len()
        invariant
            i <= outcomes@.len(),
            progress.wf(),
            progress.all() == total,
            are_possible((total - progress.done()) as nat, outcomes@.skip(i as int)),
            goal == bytes_written(total as nat, outcomes@),
            goal == (match bytes_written(
                (total - progress.done()) as nat,
                outcomes@.skip(i as int),
            ) {
                Ok(more) => Ok::<nat, i32>(progress.done() + more),
                Err(e) => Err::<nat, i32>(e),
            }),
        decreases outcomes@.len() - i,
    {
        let ghost rest = outcomes@.skip(i as int);
        let outcome = outcomes[i];
        assert(rest[0] == outcome);
        assert(rest.skip(1) =~= outcomes@.skip(i + 1));
        let step = progress.step(outcome);
        i += 1;
        match step {
            WriteStep::Again => {},
            WriteStep::Done(n) => {
                return Ok(n);
            },
            WriteStep::Failed(e) => {
                return Err(e);
            },
        }
    }
    Ok(progress.written())
}

/// How many bytes the attempts took.
pub open spec fn bytes_taken(outcomes: Seq<WriteOutcome>) -> nat
    decreases outcomes.len(),
{
    if outcomes.len() == 0 {
        0
    } else {
        (match outcomes[0] {
            WriteOutcome::Wrote(n) => n as nat,
            _ => 0,
        }) + bytes_taken(outcomes.skip(1))
    }
}

/// Whether an attempt went on: it took something, or a signal came first.
pub open spec fn goes_on(outcome: WriteOutcome) -> bool {
    match outcome {
        WriteOutcome::Wrote(n) => n > 0,
        WriteOutcome::Interrupted => true,
        _ => false,
    }
}

/// A terminal that is full is no error: what it took before is what was written, be it nothing, and
/// what it would take later is not written.
pub proof fn law_full_terminal_is_no_error(
    total: nat,
    outcomes: Seq<WriteOutcome>,
    later: Seq<WriteOutcome>,
)
    requires
        forall|i: int| 0 <= i < outcomes.len() ==> goes_on(#[trigger] outcomes[i]),
        bytes_taken(outcomes) < total,
    ensures
        bytes_written(total, outcomes + seq![WriteOutcome::WouldBlock] + later) == Ok::<nat, i32>(
            bytes_taken(outcomes),
        ),
    decreases outcomes.len(),
{
    let all = outcomes + seq![WriteOutcome::WouldBlock] + later;
    if outcomes.len() == 0 {
        assert(all[0] == WriteOutcome::WouldBlock);
    } else {
        let rest = outcomes.skip(1);
        assert(all[0] == outcomes[0]);
        assert(goes_on(outcomes[0]));
        assert(all.skip(1) =~= rest + seq![WriteOutcome::WouldBlock] + later);
        assert forall|i: int| 0 <= i < rest.len() implies goes_on(#[trigger] rest[i]) by {
            assert(rest[i] == outcomes[i + 1]);
        }
        let taken = match outcomes[0] {
            WriteOutcome::Wrote(n) => n as nat,
            _ => 0,
        };
        law_full_terminal_is_no_error((total - taken) as nat, rest, later);
    }
}

// ---------------------------------------------------------------------------------------------
// waiting for a child
// ---------------------------------------------------------------------------------------------

/// How often a child is asked to exit before it is killed.
pub const POLITE_ATTEMPTS: u8 = 3;

/// What to do with a child that is waited for.
#[derive(Clone, Copy, Debug, PartialEq, Eq, Structural)]
pub enum ExitStep {
    /// It is gone, with this status; `None` if a signal killed it.
    Exited(Option<i32>),
    /// Look again.
    Again,
    /// Ask it to exit, then look again.
    Terminate,
    /// Kill it; its status stays unknown.
    Kill,
}

/// Waiting for one child.
#[derive(Clone, Copy, Debug)]
pub struct ExitWatch {
    should_exit: bool,
    attempts: u8,
}

/// What is remembered while a child is waited for: whether we were asked to exit, and how often the
/// child may still be asked.
pub struct WatchMemory {
    pub should_exit: bool,
    pub attempts: nat,
}

/// What to do with a child, which has exited or not.
pub open spec fn exit_step(m: WatchMemory, exited: Option<Option<i32>>) -> ExitStep {
    match exited {
        Some(status) => ExitStep::Exited(status),
        None => if !m.should_exit {
            ExitStep::Again
        } else if m.attempts > 0 {
            ExitStep::Terminate
        } else {
            ExitStep::Kill
        },
    }
}

/// What is remembered after that, given whether a signal that asks us to exit is pending.
pub open spec fn after_exit_step(
    m: WatchMemory,
    exited: Option<Option<i32>>,
    signalled: bool,
) -> WatchMemory {
    if exited is Some {
        m
    } else if !m.should_exit {
        WatchMemory { should_exit: signalled, ..m }
    } else if m.attempts > 0 {
        WatchMemory { attempts: (m.attempts - 1) as nat, ..m }
    } else {
        m
    }
}

impl ExitWatch {
    pub closed spec fn memory(&self) -> WatchMemory {
        WatchMemory { should_exit: self.should_exit, attempts: self.attempts as nat }
    }

    pub fn new() -> (watch: Self)
        ensures
            watch.memory() == (WatchMemory { should_exit: false, attempts: POLITE_ATTEMPTS as nat }),
    {
        ExitWatch { should_exit: false, attempts: POLITE_ATTEMPTS }
    }

    /// Take in one look at the child: its status, if it has exited (`Some(None)`: killed by a
    /// signal), and whether a signal that asks us to exit is pending.
    pub fn step(&mut self, exited: Option<Option<i32>>, signalled: bool) -> (step: ExitStep)
        ensures
            step == exit_step(old(self).memory(), exited),
            final(self).memory() == after_exit_step(old(self).memory(), exited, signalled),
    {
        match exited {
            Some(status) => ExitStep::Exited(status),
            None => {
                if !self.should_exit {
                    self.should_exit = signalled;
                    ExitStep::Again
                } else if self.attempts > 0 {
                    self.attempts = self.attempts - 1;
                    ExitStep::Terminate
                } else {
                    ExitStep::Kill
                }
            },
        }
    }
}

/// What is remembered after `n` looks at a child that does not exit.
pub open spec fn after_looks(m: WatchMemory, n: nat) -> WatchMemory
    decreases n,
{
    if n == 0 {
        m
    } else {
        after_exit_step(after_looks(m, (n - 1) as nat), None, false)
    }
}

/// A child is left alone until we are asked to exit; from then on it is asked exactly so many
/// times, and killed at the next look, if it has not exited in the meantime.
pub proof fn law_polite_before_kill(m: WatchMemory, n: nat)
    requires
        m.should_exit,
    ensures
        after_looks(m, n).should_exit,
        n < m.attempts ==> exit_step(after_looks(m, n), None) == ExitStep::Terminate,
        n >= m.attempts ==> exit_step(after_looks(m, n), None) == ExitStep::Kill,
        after_looks(m, n).attempts == (if n < m.attempts {
            (m.attempts - n) as nat
        } else {
            0
        }),
    decreases n,
{
    if n > 0 {
        law_polite_before_kill(m, (n - 1) as nat);
    }
}

/// One look at a child: its status, if it has exited (`Some(None)`: killed by a signal), and whether
/// a signal that asks us to exit is pending.
#[derive(Clone, Copy, Debug, PartialEq, Eq, Structural)]
pub struct ChildLook {
    pub exited: Option<Option<i32>>,
    pub signalled: bool,
}

/// How waiting for a child ends.
#[derive(Clone, Copy, Debug, PartialEq, Eq, Structural)]
pub enum ExitEnd {
    /// It exited with this status; `None` if a signal killed it.
    Exited(Option<i32>),
    /// We killed it.
    Killed,
    /// It is still there.
    Waiting,
}

/// How often a child is asked to exit, and how waiting for it ends, when the looks at it bring
/// `looks`.
pub open spec fn exit_of(m: WatchMemory, looks: Seq<ChildLook>) -> (nat, ExitEnd)
    decreases looks.len(),
{
    if looks.len() == 0 {
        (0, ExitEnd::Waiting)
    } else {
        let look = looks[0];
        let later = exit_of(after_exit_step(m, look.exited, look.signalled), looks.skip(1));
        match exit_step(m, look.exited) {
            ExitStep::Exited(status) => (0, ExitEnd::Exited(status)),
            ExitStep::Again => later,
            ExitStep::Terminate => (later.0 + 1, later.1),
            ExitStep::Kill => (0, ExitEnd::Killed),
        }
    }
}

/// Wait for a child when the looks at it bring `looks`: how often it is asked to exit, and how the
/// waiting ends.
pub fn handle_command_exit(looks: &Vec<ChildLook>) -> (r: (usize, ExitEnd))
    ensures
        (r.0 as nat, r.1) == exit_of(
            WatchMemory { should_exit: false, attempts: POLITE_ATTEMPTS as nat },
            looks@,
        ),
{
    let mut watch = ExitWatch::new();
    let mut asked: usize = 0;
    let mut i: usize = 0;
    let ghost goal = exit_of(watch.memory(), looks@);
    assert(looks@.skip(0) =~= looks@);
    while i < looks.len()
        invariant
            i <= looks@.len(),
            asked <= i,
            goal == exit_of(
                WatchMemory { should_exit: false, attempts: POLITE_ATTEMPTS as nat },
                looks@,
            ),
            ({
                let rest = exit_of(watch.memory(), looks@.skip(i as int));
                goal == (asked as nat + rest.0, rest.1)
            }),
        decreases looks@.len() - i,
    {
        let look = looks[i];
        assert(looks@.skip(i as int)[0] == look);
        assert(looks@.skip(i as int).skip(1) =~= looks@.skip(i + 1));
        let step = watch.step(look.exited, look.signalled);
        i += 1;
        match step {
            ExitStep::Exited(status) => {
                return (asked, ExitEnd::Exited(status));
            },
            ExitStep::Again => {},
            ExitStep::Terminate => {
                asked += 1;
            },
            ExitStep::Kill => {
                return (asked, ExitEnd::Killed);
            },
        }
    }
    (asked, ExitEnd::Waiting)
}

/// Whatever happens, a child is asked to exit at most so many times, and it is killed only after
/// having been asked that often; as long as no signal asks us to exit it is left alone.
pub proof fn law_child_is_asked_before_it_is_killed(m: WatchMemory, looks: Seq<ChildLook>)
    ensures
        exit_of(m, looks).0 <= m.attempts,
        exit_of(m, looks).1 == ExitEnd::Killed ==> exit_of(m, looks).0 == m.attempts,
        !m.should_exit && (forall|i: int| 0 <= i < looks.len() ==> !(#[trigger] looks[i]).signalled)
            ==> exit_of(m, looks).0 == 0 && exit_of(m, looks).1 != ExitEnd::Killed,
    decreases looks.len(),
{
    if looks.len() > 0 {
        let look = looks[0];
        let rest = looks.skip(1);
        law_child_is_asked_before_it_is_killed(
            after_exit_step(m, look.exited, look.signalled),
            rest,
        );
        assert(forall|i: int| 0 <= i < rest.len() ==> rest[i] == looks[i + 1]);
    }
}

/// What waiting for a child that was taken over brought.
#[derive(Clone, Debug, PartialEq, Eq)]
pub enum WaitEvent {
    /// It exited with this status.
    Exited(i32),
    /// A signal killed it.
    Signaled,
    /// It was stopped or continued, and is still there.
    StillThere,
    /// A signal came first.
    Interrupted,
    /// It is not our child.
    NotOurChild,
    /// The operating system refused; its words for it.
    Refused(String),
}

/// What to do after waiting for a child that was taken over.
#[derive(Clone, Debug, PartialEq, Eq)]
pub enum ReapStep {
    /// Wait again.
    Again,
    /// It is gone, with this status, if that is known; lines for the log.
    Gone { status: Option<i32>, error: Option<String>, info: String },
    /// Ask from time to time whether it is there; a line for the log.
    Poll { info: String },
}

/// `adopted pane <id> (pid <pid>)`.
pub open spec fn pane_text(terminal_id: u32, pid: u32) -> Seq<char> {
    "adopted pane "@ + text::dec(terminal_id as nat) + " (pid "@ + text::dec(pid as nat) + ")"@
}

/// A status that may be unknown, as it is shown.
pub open spec fn status_text(status: Option<i32>) -> Seq<char> {
    match status {
        Some(status) => "Some("@ + text::signed_dec(status as int) + ")"@,
        None => "None"@,
    }
}

/// The line for the log on a child that is gone.
pub open spec fn reaped_text(terminal_id: u32, pid: u32, status: Option<i32>) -> Seq<char> {
    pane_text(terminal_id, pid) + " exited with "@ + status_text(status)
        + " (reaped with waitpid)"@
}

/// `adopted pane <id> (pid <pid>)`.
fn write_pane(terminal_id: u32, pid: u32) -> (s: String)
    ensures
        s@ == pane_text(terminal_id, pid),
{
    let mut s = "adopted pane ".to_string();
    s.append(text::decimal(terminal_id as u64).as_str());
    s.append(" (pid ");
    s.append(text::decimal(pid as u64).as_str());
    s.append(")");
    s
}

/// The line for the log on a child that is gone.
fn write_reaped(terminal_id: u32, pid: u32, status: Option<i32>) -> (s: String)
    ensures
        s@ == reaped_text(terminal_id, pid, status),
{
    let shown = match status {
        Some(status) => {
            let mut shown = "Some(".to_string();
            shown.append(text::signed_decimal(status).as_str());
            shown.append(")");
            shown
        },
        None => "None".to_string(),
    };
    let mut s = write_pane(terminal_id, pid);
    s.append(" exited with ");
    s.append(shown.as_str());
    s.append(" (reaped with waitpid)");
    s
}

/// Whether `step` is what waiting for a child calls for.
pub open spec fn answers_wait(terminal_id: u32, pid: u32, event: WaitEvent, step: ReapStep) -> bool {
    match event {
        WaitEvent::Exited(code) => step matches ReapStep::Gone { status, error, info } && status
            == Some(code) && error is None && info@ == reaped_text(terminal_id, pid, Some(code)),
        WaitEvent::Signaled => step matches ReapStep::Gone { status, error, info }
            && status is None && error is None && info@ == reaped_text(terminal_id, pid, None),
        WaitEvent::StillThere => step is Again,
        WaitEvent::Interrupted => step is Again,
        WaitEvent::NotOurChild => step matches ReapStep::Poll { info } && info@ == pane_text(
            terminal_id,
            pid,
        )
            + " is not our child (ECHILD); falling back to kill(pid, 0) liveness polling, exit status will be unknown"@,
        WaitEvent::Refused(e) => {
            &&& step matches ReapStep::Gone { status, error, info }
            &&& status is None
            &&& text::optional_view(error) == Some(
                "waitpid on "@ + pane_text(terminal_id, pid) + " failed: "@ + e@,
            )
            &&& info@ == reaped_text(terminal_id, pid, None)
        },
    }
}

/// What to do after waiting for a child that was taken over. One that is not ours cannot be waited
/// for: whether it is there has to be asked, and its status stays unknown.
pub fn reap_step(terminal_id: u32, pid: u32, event: WaitEvent) -> (step: ReapStep)
    ensures
        answers_wait(terminal_id, pid, event, step),
{
    match event {
        WaitEvent::Exited(code) => ReapStep::Gone {
            status: Some(code),
            error: None,
            info: write_reaped(terminal_id, pid, Some(code)),
        },
        WaitEvent::Signaled => ReapStep::Gone {
            status: None,
            error: None,
            info: write_reaped(terminal_id, pid, None),
        },
        WaitEvent::StillThere => ReapStep::Again,
        WaitEvent::Interrupted => ReapStep::Again,
        WaitEvent::NotOurChild => {
            let mut info = write_pane(terminal_id, pid);
            info.append(
                " is not our child (ECHILD); falling back to kill(pid, 0) liveness polling, exit status will be unknown",
            );
            ReapStep::Poll { info }
        },
        WaitEvent::Refused(e) => {
            let mut error = "waitpid on ".to_string();
            error.append(write_pane(terminal_id, pid).as_str());
            error.append(" failed: ");
            error.append(e.as_str());
            ReapStep::Gone {
                status: None,
                error: Some(error),
                info: write_reaped(terminal_id, pid, None),
            }
        },
    }
}

/// Whether waiting has to go on after an event.
pub open spec fn says_nothing(event: WaitEvent) -> bool {
    event is StillThere || event is Interrupted
}

/// Wait for a child that was taken over when the attempts bring `events`: what the first event that
/// says something calls for, or `None` where there is no such event.
pub fn reap_adopted(terminal_id: u32, pid: u32, events: Vec<WaitEvent>) -> (step: Option<ReapStep>)
    ensures
        match step {
            None => forall|i: int| 0 <= i < events@.len() ==> says_nothing(#[trigger] events@[i]),
            Some(step) => exists|k: int|
                {
                    &&& 0 <= k < events@.len()
                    &&& !says_nothing(#[trigger] events@[k])
                    &&& forall|i: int| 0 <= i < k ==> says_nothing(#[trigger] events@[i])
                    &&& answers_wait(terminal_id, pid, events@[k], step)
                },
        },
{
    let mut rest = events;
    let ghost all = rest@;
    let ghost mut done: int = 0;
    assert(all.skip(0) =~= all);
    while rest.len() > 0
        invariant
            0 <= done <= all.len(),
            all == events@,
            rest@ == all.skip(done),
            forall|i: int| 0 <= i < done ==> says_nothing(#[trigger] all[i]),
        decreases rest@.len(),
    {
        let event = rest.remove(0);
        assert(rest@ =~= all.skip(done + 1));
        assert(event == all[done]);
        match reap_step(terminal_id, pid, event) {
            ReapStep::Again => {},
            step => {
                assert(!says_nothing(all[done]));
                return Some(step);
            },
        }
        proof {
            done = done + 1;
        }
    }
    None
}

/// What is logged once a child that is not ours is gone; `None` while it is there.
pub fn poll_step(terminal_id: u32, pid: u32, is_gone: bool) -> (line: Option<String>)
    ensures
        text::optional_view(line) == (if is_gone {
            Some(pane_text(terminal_id, pid) + " is gone (liveness poll)"@)
        } else {
            None
        }),
{
    if !is_gone {
        return None;
    }
    let mut line = write_pane(terminal_id, pid);
    line.append(" is gone (liveness poll)");
    Some(line)
}

// ---------------------------------------------------------------------------------------------
// starting a child
// ---------------------------------------------------------------------------------------------

/// The variable that tells a child the id of its terminal.
pub const PANE_ID_VAR: &'static str = "ZELLIJ_PANE_ID";

/// What a child is started with.
#[derive(Clone, Debug, PartialEq, Eq)]
pub struct SpawnPlan {
    pub program: String,
    pub args: Vec<String>,
    /// The directory to start in, if the command names one that can be used.
    pub current_dir: Option<String>,
    /// The value of [`PANE_ID_VAR`].
    pub pane_id: String,
    /// A line for the log where the directory cannot be used.
    pub complaint: Option<String>,
}

/// Why a child was not started.
#[derive(Clone, Debug, PartialEq, Eq)]
pub enum SpawnError {
    /// There is no such command.
    CommandNotFound { terminal_id: u32, command: String },
}

/// What a child is started with, given whether its command is there and whether the directory that
/// it names, if any, is there and is a directory.
pub fn handle_openpty(
    cmd: &RunCommand,
    terminal_id: u32,
    command_exists: bool,
    cwd_is_dir: bool,
) -> (r: Result<SpawnPlan, SpawnError>)
    ensures
        match r {
            Ok(plan) => {
                &&& command_exists
                &&& plan.program@ == cmd.command@
                &&& text::views(plan.args@) == text::views(cmd.args@)
                &&& plan.pane_id@ == text::dec(terminal_id as nat)
                &&& match cmd.cwd {
                    None => plan.current_dir is None && plan.complaint is None,
                    Some(cwd) => if cwd_is_dir {
                        text::optional_view(plan.current_dir) == Some(cwd@)
                            && plan.complaint is None
                    } else {
                        plan.current_dir is None && text::optional_view(plan.complaint) == Some(
                            "Failed to set CWD for new pane. '"@ + cwd@
                                + "' does not exist or is not a folder"@,
                        )
                    },
                }
            },
            Err(SpawnError::CommandNotFound { terminal_id: id, command }) => !command_exists && id
                == terminal_id && command@ == cmd.command@,
        },
{
    if !command_exists {
        return Err(SpawnError::CommandNotFound { terminal_id, command: cmd.command.clone() });
    }
    let (current_dir, complaint) = match &cmd.cwd {
        None => (None, None),
        Some(cwd) => {
            if cwd_is_dir {
                (Some(cwd.clone()), None)
            } else {
                let mut line = "Failed to set CWD for new pane. '".to_string();
                line.append(cwd.as_str());
                line.append("' does not exist or is not a folder");
                (None, Some(line))
            }
        },
    };
    Ok(
        SpawnPlan {
            program: cmd.command.clone(),
            args: text::copy_list(&cmd.args),
            current_dir,
            pane_id: text::decimal(terminal_id as u64),
            complaint,
        },
    )
}

/// The line for the log where a pane gets no control group.
pub fn no_pane_cgroup(terminal_id: u32, e: &str) -> (s: String)
    ensures
        s@ == "could not create cgroup for pane "@ + text::dec(terminal_id as nat) + ": "@ + e@,
{
    let mut s = "could not create cgroup for pane ".to_string();
    s.append(text::decimal(terminal_id as u64).as_str());
    s.append(": ");
    s.append(e);
    s
}

/// What to do after a terminal was asked of the operating system.
#[derive(Clone, Debug)]
pub enum TerminalStep {
    /// Start this command on it.
    Start(RunCommand),
    /// Ask again, for this command.
    Retry(RunCommand),
    /// Give up.
    Fail,
}

/// What to do after a terminal was asked for, given whether there is one: where there is none and
/// another command is held in reserve, one more is asked for, for that command.
pub fn handle_terminal(opened: bool, cmd: RunCommand, failover: Option<RunCommand>) -> (step:
    TerminalStep)
    ensures
        step == (if opened {
            TerminalStep::Start(cmd)
        } else {
            match failover {
                Some(other) => TerminalStep::Retry(other),
                None => TerminalStep::Fail,
            }
        }),
{
    if opened {
        TerminalStep::Start(cmd)
    } else {
        match failover {
            Some(other) => TerminalStep::Retry(other),
            None => TerminalStep::Fail,
        }
    }
}

/// The control groups of this server's session and a line for the log: none where the session has
/// no name, or where they could not be made, in which case panes run without.
pub fn pane_cgroups(has_session_name: bool, made: Result<PaneCgroups, String>) -> (r: (
    Option<PaneCgroups>,
    Option<String>,
))
    ensures
        if !has_session_name {
            r.0 is None && r.1 is None
        } else {
            match made {
                Ok(tree) => r.0 == Some(tree) && text::optional_view(r.1) == Some(
                    "pane cgroups for this session live under "@ + tree.base(),
                ),
                Err(e) => r.0 is None && text::optional_view(r.1) == Some(
                    "cgroup v2 delegation unavailable ("@ + e@
                        + "); panes will not be freezable"@,
                ),
            }
        },
{
    if !has_session_name {
        return (None, None);
    }
    match made {
        Ok(tree) => {
            let mut line = "pane cgroups for this session live under ".to_string();
            line.append(tree.root());
            (Some(tree), Some(line))
        },
        Err(e) => {
            let mut line = "cgroup v2 delegation unavailable (".to_string();
            line.append(e.as_str());
            line.append("); panes will not be freezable");
            (None, Some(line))
        },
    }
}

// ---------------------------------------------------------------------------------------------
// the terminals
// ---------------------------------------------------------------------------------------------

/// The size of a terminal, in characters and in pixels.
#[derive(Clone, Copy, Debug, PartialEq, Eq, Structural)]
pub struct Winsize {
    pub ws_row: u16,
    pub ws_col: u16,
    pub ws_xpixel: u16,
    pub ws_ypixel: u16,
}

/// The size of a terminal; pixels that are not known are zero.
pub open spec fn winsize_of(
    cols: u16,
    rows: u16,
    width_in_pixels: Option<u16>,
    height_in_pixels: Option<u16>,
) -> Winsize {
    Winsize {
        ws_row: rows,
        ws_col: cols,
        ws_xpixel: width_in_pixels.unwrap_or(0),
        ws_ypixel: height_in_pixels.unwrap_or(0),
    }
}

/// The size of a terminal; pixels that are not known are zero.
pub fn winsize(
    cols: u16,
    rows: u16,
    width_in_pixels: Option<u16>,
    height_in_pixels: Option<u16>,
) -> (size: Winsize)
    ensures
        size == winsize_of(cols, rows, width_in_pixels, height_in_pixels),
{
    let ws_xpixel: u16 = match width_in_pixels {
        Some(w) => w,
        None => 0,
    };
    let ws_ypixel: u16 = match height_in_pixels {
        Some(h) => h,
        None => 0,
    };
    Winsize { ws_row: rows, ws_col: cols, ws_xpixel, ws_ypixel }
}

/// What setting the size of a terminal takes.
#[derive(Clone, Debug, PartialEq, Eq)]
pub enum SizeStep {
    /// Set the size of this descriptor.
    Apply { fd: i32, size: Winsize },
    /// An empty size is not set.
    Skip,
    /// There is no such terminal; a line for the log.
    Missing(String),
}

/// What a signal to a child is for.
#[derive(Clone, Copy, Debug, PartialEq, Eq, Structural)]
pub enum ChildSignal {
    Hangup,
    Kill,
    Interrupt,
}

/// What remains to be done once a terminal has been taken over.
#[derive(Clone, Copy, Debug, PartialEq, Eq, Structural)]
pub struct AdoptSteps {
    /// The size to set again.
    pub resize: Option<Winsize>,
    /// The child to wait for.
    pub reap: Option<u32>,
}

/// The flag by which a descriptor is closed when another program is executed.
pub const FD_CLOEXEC: i32 = 1;

/// The descriptor flags with the close-on-exec flag set or cleared; the other flags stay as they
/// are.
pub open spec fn with_cloexec(flags: i32, on: bool) -> i32 {
    if on {
        flags | FD_CLOEXEC
    } else {
        flags & !FD_CLOEXEC
    }
}

/// The descriptor flags with the close-on-exec flag set or cleared.
pub fn set_cloexec(flags: i32, on: bool) -> (r: i32)
    ensures
        r == with_cloexec(flags, on),
{
    if on {
        flags | FD_CLOEXEC
    } else {
        flags & !FD_CLOEXEC
    }
}

/// Setting the flag sets it, clearing it clears it, and no other flag changes.
pub proof fn law_cloexec_touches_one_flag(flags: i32, other: i32)
    requires
        other & FD_CLOEXEC == 0,
    ensures
        with_cloexec(flags, true) & FD_CLOEXEC == FD_CLOEXEC,
        with_cloexec(flags, false) & FD_CLOEXEC == 0,
        with_cloexec(flags, true) & other == flags & other,
        with_cloexec(flags, false) & other == flags & other,
{
    let bit: i32 = FD_CLOEXEC;
    assert((flags | bit) & bit == bit && (flags & !bit) & bit == 0) by (bit_vector);
    assert(other & bit == 0 ==> (flags | bit) & other == flags & other && (flags & !bit) & other
        == flags & other) by (bit_vector);
}

/// The id that is given out next: the counter, or none once every id has been used up.
pub open spec fn next_id(counter: nat) -> Option<u32> {
    if counter <= u32::MAX {
        Some(counter as u32)
    } else {
        None
    }
}

/// The counter after an id has been asked for.
pub open spec fn after_next(counter: nat) -> nat {
    if counter <= u32::MAX {
        counter + 1
    } else {
        counter
    }
}

/// The counter after a terminal has been taken over: above its id, and never lower than before.
pub open spec fn after_adoption(counter: nat, terminal_id: u32) -> nat {
    if terminal_id >= counter {
        terminal_id as nat + 1
    } else {
        counter
    }
}

/// The terminals of a server.
pub struct UnixPtyBackend {
    table: FdTable,
    /// Above every id that was given out or taken over; one past the largest `u32` once all are.
    next_id: u64,
}

impl UnixPtyBackend {
    /// The terminals by id; one that is only reserved has no descriptor.
    pub closed spec fn terminals(&self) -> Map<u32, Option<i32>> {
        self.table@
    }

    /// The lowest id that is above every one that was given out or taken over.
    pub closed spec fn counter(&self) -> nat {
        self.next_id as nat
    }

    /// The descriptor of a terminal, if it has one.
    pub open spec fn fd_of(&self, terminal_id: u32) -> Option<i32> {
        if self.terminals().contains_key(terminal_id) {
            self.terminals()[terminal_id]
        } else {
            None
        }
    }

    pub fn new() -> (backend: Self)
        ensures
            backend.terminals() == Map::<u32, Option<i32>>::empty(),
            backend.counter() == 0,
    {
        UnixPtyBackend { table: FdTable::new(), next_id: 0 }
    }

    /// A child was started on a new terminal: note its descriptor.
    pub fn spawn_terminal(&mut self, terminal_id: u32, master_fd: i32)
        ensures
            final(self).terminals() == old(self).terminals().insert(terminal_id, Some(master_fd)),
            final(self).counter() == old(self).counter(),
    {
        self.table.set(terminal_id, Some(master_fd));
    }

    /// What setting the size of a terminal takes.
    pub fn set_terminal_size(
        &self,
        terminal_id: u32,
        cols: u16,
        rows: u16,
        width_in_pixels: Option<u16>,
        height_in_pixels: Option<u16>,
    ) -> (step: SizeStep)
        ensures
            match self.fd_of(terminal_id) {
                Some(fd) => step == (if cols > 0 && rows > 0 {
                    SizeStep::Apply {
                        fd,
                        size: winsize_of(cols, rows, width_in_pixels, height_in_pixels),
                    }
                } else {
                    SizeStep::Skip
                }),
                None => step matches SizeStep::Missing(line) && line@
                    == "failed to set terminal id "@ + text::dec(terminal_id as nat)
                    + " to size ("@ + text::dec(rows as nat) + ", "@ + text::dec(cols as nat)
                    + "): failed to find terminal fd for id "@ + text::dec(terminal_id as nat),
            },
    {
        match self.table.get(terminal_id) {
            Some(fd) => {
                if cols > 0 && rows > 0 {
                    SizeStep::Apply {
                        fd,
                        size: winsize(cols, rows, width_in_pixels, height_in_pixels),
                    }
                } else {
                    SizeStep::Skip
                }
            },
            None => {
                let mut line = "failed to set terminal id ".to_string();
                line.append(text::decimal(terminal_id as u64).as_str());
                line.append(" to size (");
                line.append(text::decimal(rows as u64).as_str());
                line.append(", ");
                line.append(text::decimal(cols as u64).as_str());
                line.append("): failed to find terminal fd for id ");
                line.append(text::decimal(terminal_id as u64).as_str());
                SizeStep::Missing(line)
            },
        }
    }

    /// The descriptor to write to.
    pub fn write_to_tty_stdin(&self, terminal_id: u32) -> (fd: Result<i32, String>)
        ensures
            match fd {
                Ok(fd) => self.fd_of(terminal_id) == Some(fd),
                Err(message) => self.fd_of(terminal_id) is None && message@
                    == "failed to write to stdin of TTY ID "@ + text::dec(terminal_id as nat)
                    + ": could not find raw file descriptor"@,
            },
    {
        match self.table.get(terminal_id) {
            Some(fd) => Ok(fd),
            None => {
                let mut message = "failed to write to stdin of TTY ID ".to_string();
                message.append(text::decimal(terminal_id as u64).as_str());
                message.append(": could not find raw file descriptor");
                Err(message)
            },
        }
    }

    /// The descriptor to drain.
    pub fn tcdrain(&self, terminal_id: u32) -> (fd: Result<i32, String>)
        ensures
            match fd {
                Ok(fd) => self.fd_of(terminal_id) == Some(fd),
                Err(message) => self.fd_of(terminal_id) is None && message@
                    == "failed to tcdrain to TTY ID "@ + text::dec(terminal_id as nat)
                    + ": could not find raw file descriptor"@,
            },
    {
        match self.table.get(terminal_id) {
            Some(fd) => Ok(fd),
            None => {
                let mut message = "failed to tcdrain to TTY ID ".to_string();
                message.append(text::decimal(terminal_id as u64).as_str());
                message.append(": could not find raw file descriptor");
                Err(message)
            },
        }
    }

    /// The descriptor whose foreground process group is asked for.
    pub fn tcgetpgrp(&self, terminal_id: u32) -> (fd: Option<i32>)
        ensures
            fd == self.fd_of(terminal_id),
    {
        self.table.get(terminal_id)
    }

    /// The process and the signal that hang up a child.
    pub fn kill(&self, pid: u32) -> (order: (i32, ChildSignal))
        ensures
            order == (pid as i32, ChildSignal::Hangup),
    {
        (pid as i32, ChildSignal::Hangup)
    }

    /// The process and the signal that kill a child.
    pub fn force_kill(&self, pid: u32) -> (order: (i32, ChildSignal))
        ensures
            order == (pid as i32, ChildSignal::Kill),
    {
        (pid as i32, ChildSignal::Kill)
    }

    /// The process and the signal that interrupt a child.
    pub fn send_sigint(&self, pid: u32) -> (order: (i32, ChildSignal))
        ensures
            order == (pid as i32, ChildSignal::Interrupt),
    {
        (pid as i32, ChildSignal::Interrupt)
    }

    /// Keep an id for a terminal that is not open yet.
    pub fn reserve_terminal_id(&mut self, terminal_id: u32)
        ensures
            final(self).terminals() == old(self).terminals().insert(terminal_id, None),
            final(self).counter() == old(self).counter(),
    {
        self.table.set(terminal_id, None);
    }

    /// Forget a terminal.
    pub fn clear_terminal_id(&mut self, terminal_id: u32)
        ensures
            final(self).terminals() == old(self).terminals().remove(terminal_id),
            final(self).counter() == old(self).counter(),
    {
        self.table.clear(terminal_id);
    }

    /// An id for a new terminal: one that was never given out or taken over. There is none once the
    /// largest `u32` has been used.
    pub fn next_terminal_id(&mut self) -> (id: Option<u32>)
        ensures
            id == next_id(old(self).counter()),
            final(self).counter() == after_next(old(self).counter()),
            final(self).terminals() == old(self).terminals(),
    {
        if self.next_id > u32::MAX as u64 {
            return None;
        }
        let id: u32 = self.next_id as u32;
        self.next_id = self.next_id + 1;
        Some(id)
    }

    /// A terminal was taken over from another server: note its descriptor, and raise the counter above
    /// its id, so that the id is never given out again. What remains is to set its size again and to
    /// wait for its child.
    pub fn adopt_terminal(
        &mut self,
        terminal_id: u32,
        master_fd: i32,
        child_pid: Option<u32>,
        rows: u16,
        cols: u16,
    ) -> (steps: AdoptSteps)
        ensures
            final(self).terminals() == old(self).terminals().insert(terminal_id, Some(master_fd)),
            final(self).counter() == after_adoption(old(self).counter(), terminal_id),
            steps.resize == (if cols > 0 && rows > 0 {
                Some(winsize_of(cols, rows, None, None))
            } else {
                None
            }),
            steps.reap == child_pid,
    {
        self.table.set(terminal_id, Some(master_fd));
        let above: u64 = terminal_id as u64 + 1;
        if above > self.next_id {
            self.next_id = above;
        }
        let resize = if cols > 0 && rows > 0 {
            Some(winsize(cols, rows, None, None))
        } else {
            None
        };
        AdoptSteps { resize, reap: child_pid }
    }

    /// The terminals that are open, sorted by id; those that are only reserved are left out.
    pub fn terminal_fd_table(&self) -> (list: Vec<(u32, i32)>)
        ensures
            fd_table::ids_increase(list@),
            forall|id: u32, fd: i32| #[trigger]
                list@.contains((id, fd)) <==> self.fd_of(id) == Some(fd),
    {
        let list = self.table.open_terminals();
        assert forall|id: u32, fd: i32| #[trigger] list@.contains((id, fd)) <==> self.fd_of(id)
            == Some(fd) by {}
        list
    }
}

/// Something that uses up an id.
pub enum IdEvent {
    /// An id is asked for.
    Next,
    /// A terminal with this id is taken over.
    Adopt(u32),
}

/// The counter after the first `n` of a row of events.
pub open spec fn counter_after(start: nat, events: Seq<IdEvent>, n: int) -> nat
    decreases n,
{
    if n <= 0 {
        start
    } else {
        let before = counter_after(start, events, n - 1);
        match events[n - 1] {
            IdEvent::Next => after_next(before),
            IdEvent::Adopt(id) => after_adoption(before, id),
        }
    }
}

/// The id that an event of the row uses up: the one that is given out, if any is left, or the one
/// that is taken over.
pub open spec fn id_used(start: nat, events: Seq<IdEvent>, i: int) -> Option<u32> {
    match events[i] {
        IdEvent::Next => next_id(counter_after(start, events, i)),
        IdEvent::Adopt(id) => Some(id),
    }
}

/// The counter is above every id that was used up so far.
proof fn lemma_counter_is_above(start: nat, events: Seq<IdEvent>, i: int, n: int)
    requires
        0 <= i < n <= events.len(),
    ensures
        id_used(start, events, i) matches Some(id) ==> id < counter_after(start, events, n),
    decreases n,
{
    if i < n - 1 {
        lemma_counter_is_above(start, events, i, n - 1);
    }
}

/// In whatever order ids are asked for and terminals are taken over, an id that is given out was
/// neither taken over nor given out before.
pub proof fn law_adopted_id_is_not_reused(start: nat, events: Seq<IdEvent>, earlier: int, later: int)
    requires
        0 <= earlier < later < events.len(),
        events[later] is Next,
    ensures
        id_used(start, events, later) is Some ==> id_used(start, events, later) != id_used(
            start,
            events,
            earlier,
        ),
{
    lemma_counter_is_above(start, events, earlier, later);
}

// ---------------------------------------------------------------------------------------------
// laws on writing, waiting and the terminals
// ---------------------------------------------------------------------------------------------

/// Attempts that go on add up: after them the rest of the buffer is written as if it were all there
/// was, and what they took is added to it. What is taken is counted attempt by attempt.
pub proof fn law_attempts_add_up(
    total: nat,
    a: Seq<WriteOutcome>,
    b: Seq<WriteOutcome>,
    n: usize,
)
    requires
        forall|i: int| 0 <= i < a.len() ==> goes_on(#[trigger] a[i]),
        bytes_taken(a) <= total,
    ensures
        bytes_written(total, a + b) == (match bytes_written((total - bytes_taken(a)) as nat, b) {
            Ok(more) => Ok::<nat, i32>(bytes_taken(a) + more),
            Err(e) => Err::<nat, i32>(e),
        }),
        bytes_taken(a + b) == bytes_taken(a) + bytes_taken(b),
        bytes_taken(seq![WriteOutcome::Wrote(n)]) == n,
        bytes_taken(seq![WriteOutcome::Interrupted]) == 0,
        bytes_taken(seq![]) == 0,
    decreases a.len(),
{
    reveal_with_fuel(bytes_taken, 2);
    let whole = a + b;
    assert(seq![WriteOutcome::Wrote(n)].skip(1) =~= Seq::<WriteOutcome>::empty());
    assert(seq![WriteOutcome::Interrupted].skip(1) =~= Seq::<WriteOutcome>::empty());
    if a.len() == 0 {
        assert(whole =~= b);
    } else {
        let rest = a.skip(1);
        assert(goes_on(a[0]));
        assert(whole[0] == a[0]);
        assert(whole.skip(1) =~= rest + b);
        assert forall|i: int| 0 <= i < rest.len() implies goes_on(#[trigger] rest[i]) by {
            assert(rest[i] == a[i + 1]);
        }
        let taken = match a[0] {
            WriteOutcome::Wrote(n) => n as nat,
            _ => 0,
        };
        law_attempts_add_up((total - taken) as nat, rest, b, n);
        if total == 0 {
            lemma_nothing_left(rest, b);
        }
    }
}

proof fn lemma_nothing_left(a: Seq<WriteOutcome>, b: Seq<WriteOutcome>)
    ensures
        bytes_written(0, a) == Ok::<nat, i32>(0),
        bytes_written(0, b) == Ok::<nat, i32>(0),
{
}

/// Writing stops, with what was written so far, where the terminal takes nothing, where it is full
/// and where the attempts end; it fails, with the error, where the operating system refuses. Where
/// nothing is left nothing is tried.
pub proof fn law_writing_stops(left: nat, later: Seq<WriteOutcome>, e: i32)
    ensures
        left > 0 ==> bytes_written(left, seq![WriteOutcome::Refused(e)] + later) == Err::<nat, i32>(
            e,
        ),
        bytes_written(left, seq![WriteOutcome::WouldBlock] + later) == Ok::<nat, i32>(0),
        bytes_written(left, seq![WriteOutcome::Wrote(0)] + later) == Ok::<nat, i32>(0),
        bytes_written(left, seq![]) == Ok::<nat, i32>(0),
        bytes_written(0, later) == Ok::<nat, i32>(0),
{
    assert((seq![WriteOutcome::Refused(e)] + later)[0] == WriteOutcome::Refused(e));
    assert((seq![WriteOutcome::WouldBlock] + later)[0] == WriteOutcome::WouldBlock);
    assert((seq![WriteOutcome::Wrote(0)] + later)[0] == WriteOutcome::Wrote(0));
}

/// Every attempt adds what it took, and nothing more; it goes on exactly where a signal came first
/// or where something was taken and something is left, and fails exactly where it was refused.
pub proof fn law_every_attempt_counts(
    write: &mut PartialWrite,
    outcome: WriteOutcome,
    step: WriteStep,
)
    requires
        call_ensures(PartialWrite::step, (write, outcome), step),
        outcome matches WriteOutcome::Wrote(n) ==> n <= old(write).all() - old(write).done(),
        old(write).wf(),
    ensures
        final(write).done() == old(write).done() + bytes_taken(seq![outcome]),
        final(write).all() == old(write).all(),
        step is Again <==> outcome is Interrupted || (goes_on(outcome) && final(write).done()
            < final(write).all()),
        step is Failed <==> outcome is Refused,
        step matches WriteStep::Failed(e) ==> outcome == WriteOutcome::Refused(e),
        step is Done ==> step == WriteStep::Done(final(write).done() as usize),
{
    reveal_with_fuel(bytes_taken, 2);
    assert(seq![outcome].skip(1) =~= Seq::<WriteOutcome>::empty());
}

/// A child that has exited is done with at once, with its status, whatever we were asked to do; one
/// that has not is looked at again as long as we were not asked to exit, and what we remember then
/// is only whether we are asked now.
pub proof fn law_exited_child_is_done_with(
    m: WatchMemory,
    status: Option<i32>,
    signalled: bool,
    rest: Seq<ChildLook>,
)
    ensures
        exit_of(m, seq![ChildLook { exited: Some(status), signalled }] + rest) == (
            0nat,
            ExitEnd::Exited(status),
        ),
        !m.should_exit ==> exit_of(m, seq![ChildLook { exited: None, signalled }] + rest)
            == exit_of(WatchMemory { should_exit: signalled, attempts: m.attempts }, rest),
        exit_of(m, seq![]) == (0nat, ExitEnd::Waiting),
        m.should_exit && m.attempts > 0 ==> exit_of(
            m,
            seq![ChildLook { exited: None, signalled }] + rest,
        ) == ({
            let later = exit_of(
                WatchMemory { should_exit: true, attempts: (m.attempts - 1) as nat },
                rest,
            );
            (later.0 + 1, later.1)
        }),
        m.should_exit && m.attempts == 0 ==> exit_of(
            m,
            seq![ChildLook { exited: None, signalled }] + rest,
        ) == (0nat, ExitEnd::Killed),
{
    let gone = seq![ChildLook { exited: Some(status), signalled }] + rest;
    let there = seq![ChildLook { exited: None, signalled }] + rest;
    assert(gone[0].exited == Some(status) && gone.skip(1) =~= rest);
    assert(there[0].exited is None && there[0].signalled == signalled && there.skip(1) =~= rest);
}

proof fn lemma_stubborn_child(m: WatchMemory, looks: Seq<ChildLook>)
    requires
        m.should_exit,
        forall|i: int| 0 <= i < looks.len() ==> (#[trigger] looks[i]).exited is None,
    ensures
        exit_of(m, looks) == (if looks.len() <= m.attempts {
            (looks.len(), ExitEnd::Waiting)
        } else {
            (m.attempts, ExitEnd::Killed)
        }),
    decreases looks.len(),
{
    if looks.len() > 0 {
        let rest = looks.skip(1);
        assert(looks[0].exited is None);
        assert forall|i: int| 0 <= i < rest.len() implies (#[trigger] rest[i]).exited is None by {
            assert(rest[i] == looks[i + 1]);
        }
        if m.attempts > 0 {
            lemma_stubborn_child(after_exit_step(m, None, looks[0].signalled), rest);
        }
    }
}

/// A child that does not exit after we were asked to is asked at each of the next three looks, and
/// killed at the one after them.
pub proof fn law_stubborn_child_is_killed_at_the_fourth_look(
    quiet: Seq<ChildLook>,
    asked: ChildLook,
    looks: Seq<ChildLook>,
)
    requires
        forall|i: int| 0 <= i < quiet.len() ==> (#[trigger] quiet[i]).exited is None
            && !quiet[i].signalled,
        asked.exited is None && asked.signalled,
        forall|i: int| 0 <= i < looks.len() ==> (#[trigger] looks[i]).exited is None,
    ensures
        exit_of(
            WatchMemory { should_exit: false, attempts: 3 },
            quiet + seq![asked] + looks,
        ) == (if looks.len() <= 3 {
            (looks.len(), ExitEnd::Waiting)
        } else {
            (3nat, ExitEnd::Killed)
        }),
    decreases quiet.len(),
{
    let m = WatchMemory { should_exit: false, attempts: 3 };
    let all = quiet + seq![asked] + looks;
    if quiet.len() == 0 {
        assert(all[0] == asked);
        assert(all.skip(1) =~= looks);
        lemma_stubborn_child(WatchMemory { should_exit: true, attempts: 3 }, looks);
    } else {
        let rest = quiet.skip(1);
        assert(quiet[0].exited is None && all[0] == quiet[0]);
        assert forall|i: int| 0 <= i < rest.len() implies (#[trigger] rest[i]).exited is None
            && !rest[i].signalled by {
            assert(rest[i] == quiet[i + 1]);
        }
        law_stubborn_child_is_killed_at_the_fourth_look(rest, asked, looks);
        assert(all.skip(1) =~= rest + seq![asked] + looks);
    }
}

/// Waiting for a child that was taken over goes on exactly where nothing was learnt; its status is
/// known exactly where it exited by itself; only one that is not ours has to be asked after; and an
/// error is told exactly where the operating system refused.
pub proof fn law_status_is_known_of_an_exit(
    terminal_id: u32,
    pid: u32,
    event: WaitEvent,
    step: ReapStep,
    is_gone: bool,
    line: Option<String>,
)
    requires
        call_ensures(reap_step, (terminal_id, pid, event), step),
        call_ensures(poll_step, (terminal_id, pid, is_gone), line),
    ensures
        step is Again <==> event is StillThere || event is Interrupted,
        step is Poll <==> event is NotOurChild,
        step matches ReapStep::Gone { status, error, info } ==> (status is Some <==> event is Exited)
            && (event matches WaitEvent::Exited(code) ==> status == Some(code)) && (error is Some
            <==> event is Refused),
        line is Some <==> is_gone,
{
}

/// A child is started exactly where its command is there, with the command's own program, arguments
/// and terminal id; it is started in the directory that the command names exactly where that is
/// one, and where it is not, that is complained of.
pub proof fn law_child_is_started_as_asked(
    cmd: RunCommand,
    terminal_id: u32,
    command_exists: bool,
    cwd_is_dir: bool,
    r: Result<SpawnPlan, SpawnError>,
)
    requires
        call_ensures(handle_openpty, (&cmd, terminal_id, command_exists, cwd_is_dir), r),
    ensures
        r is Ok <==> command_exists,
        r matches Ok(plan) ==> plan.program@ == cmd.command@ && text::views(plan.args@)
            == text::views(cmd.args@) && text::number_of(plan.pane_id@) == Some(terminal_id as nat)
            && (plan.current_dir is Some <==> cmd.cwd is Some && cwd_is_dir) && (
        plan.current_dir is Some ==> text::optional_view(plan.current_dir) == text::optional_view(
            cmd.cwd,
        )) && (plan.complaint is Some <==> cmd.cwd is Some && !cwd_is_dir),
{
    text::law_decimal_reads_back(terminal_id as nat);
}

/// A command is started where there is a terminal for it; without one, the command in reserve is
/// tried once, if there is one. A server without a session name has no control groups, and says
/// nothing of it.
pub proof fn law_reserve_is_tried_without_a_terminal(
    opened: bool,
    cmd: RunCommand,
    failover: Option<RunCommand>,
    step: TerminalStep,
    has_session_name: bool,
    made: Result<PaneCgroups, String>,
    r: (Option<PaneCgroups>, Option<String>),
)
    requires
        call_ensures(handle_terminal, (opened, cmd, failover), step),
        call_ensures(pane_cgroups, (has_session_name, made), r),
    ensures
        step is Start <==> opened,
        step matches TerminalStep::Start(run) ==> run == cmd,
        step is Retry <==> !opened && failover is Some,
        step matches TerminalStep::Retry(run) ==> failover == Some(run),
        r.0 is Some <==> has_session_name && made is Ok,
        r.0 matches Some(tree) ==> made == Ok::<PaneCgroups, String>(tree),
        r.1 is Some <==> has_session_name,
{
}

/// Rows are rows and columns are columns, width goes across and height goes down; pixels that are
/// not known are zero. The size of a terminal is set exactly where it has a descriptor and the size
/// is not empty, and on that descriptor.
pub proof fn law_size_is_set_as_given(
    backend: UnixPtyBackend,
    id: u32,
    cols: u16,
    rows: u16,
    width: Option<u16>,
    height: Option<u16>,
    step: SizeStep,
)
    requires
        call_ensures(
            UnixPtyBackend::set_terminal_size,
            (&backend, id, cols, rows, width, height),
            step,
        ),
    ensures
        step is Apply <==> backend.fd_of(id) is Some && cols > 0 && rows > 0,
        step is Missing <==> backend.fd_of(id) is None,
        step matches SizeStep::Apply { fd, size } ==> backend.fd_of(id) == Some(fd) && size.ws_row
            == rows && size.ws_col == cols && (width matches Some(w) ==> size.ws_xpixel == w) && (
        height matches Some(h) ==> size.ws_ypixel == h) && (width is None ==> size.ws_xpixel == 0)
            && (height is None ==> size.ws_ypixel == 0),
{
}

/// The id that is given out is the lowest above all that were given out or taken over before, and
/// each is used up by being given out; taking a terminal over never lowers what comes next.
pub proof fn law_ids_are_given_out_without_gaps(counter: nat, id: u32)
    ensures
        counter <= 0xffff_ffff ==> next_id(counter) == Some(counter as u32) && after_next(counter)
            == counter + 1,
        counter > 0xffff_ffff ==> next_id(counter) is None && after_next(counter) == counter,
        after_adoption(counter, id) > id,
        after_adoption(counter, id) >= counter,
        after_adoption(counter, id) == counter || after_adoption(counter, id) == id + 1,
        id < counter ==> after_adoption(counter, id) == counter,
{
}

/// A terminal that was taken over has its descriptor, its child is the one to wait for, and its
/// size is set again exactly where it is not empty; no other terminal changes.
pub proof fn law_adopted_terminal_has_its_descriptor(
    backend: &mut UnixPtyBackend,
    id: u32,
    fd: i32,
    child: Option<u32>,
    rows: u16,
    cols: u16,
    steps: AdoptSteps,
    other: u32,
)
    requires
        call_ensures(UnixPtyBackend::adopt_terminal, (backend, id, fd, child, rows, cols), steps),
    ensures
        final(backend).fd_of(id) == Some(fd),
        other != id ==> final(backend).fd_of(other) == old(backend).fd_of(other),
        final(backend).counter() > id,
        final(backend).counter() >= old(backend).counter(),
        steps.reap == child,
        steps.resize is Some <==> rows > 0 && cols > 0,
        steps.resize matches Some(size) ==> size.ws_row == rows && size.ws_col == cols
            && size.ws_xpixel == 0 && size.ws_ypixel == 0,
{
}

/// A terminal on which a child was started has its descriptor; one that is only reserved, or that
/// was forgotten, has none; no other terminal changes, and no id is used up.
pub proof fn law_reserved_terminal_has_no_descriptor(
    a: &mut UnixPtyBackend,
    b: &mut UnixPtyBackend,
    c: &mut UnixPtyBackend,
    id: u32,
    fd: i32,
    other: u32,
)
    requires
        call_ensures(UnixPtyBackend::spawn_terminal, (a, id, fd), ()),
        call_ensures(UnixPtyBackend::reserve_terminal_id, (b, id), ()),
        call_ensures(UnixPtyBackend::clear_terminal_id, (c, id), ()),
    ensures
        final(a).fd_of(id) == Some(fd),
        final(b).fd_of(id) is None,
        final(c).fd_of(id) is None,
        other != id ==> final(a).fd_of(other) == old(a).fd_of(other),
        other != id ==> final(b).fd_of(other) == old(b).fd_of(other),
        other != id ==> final(c).fd_of(other) == old(c).fd_of(other),
        final(a).counter() == old(a).counter(),
        final(b).counter() == old(b).counter(),
        final(c).counter() == old(c).counter(),
{
}

/// To kill, to interrupt and to hang up are three different signals, all to the child itself.
pub proof fn law_signals_go_to_the_child(
    backend: UnixPtyBackend,
    pid: u32,
    hangup: (i32, ChildSignal),
    kill: (i32, ChildSignal),
    interrupt: (i32, ChildSignal),
)
    requires
        call_ensures(UnixPtyBackend::kill, (&backend, pid), hangup),
        call_ensures(UnixPtyBackend::force_kill, (&backend, pid), kill),
        call_ensures(UnixPtyBackend::send_sigint, (&backend, pid), interrupt),
    ensures
        hangup.1 is Hangup && kill.1 is Kill && interrupt.1 is Interrupt,
        pid <= 0x7fff_ffff ==> hangup.0 == pid && kill.0 == pid && interrupt.0 == pid,
{
}

/// The descriptor that is written to, drained, or asked for its foreground process is the
/// terminal's own, and there is an error exactly where it has none.
pub proof fn law_one_descriptor_per_terminal(
    backend: UnixPtyBackend,
    id: u32,
    written: Result<i32, String>,
    drained: Result<i32, String>,
    asked: Option<i32>,
)
    requires
        call_ensures(UnixPtyBackend::write_to_tty_stdin, (&backend, id), written),
        call_ensures(UnixPtyBackend::tcdrain, (&backend, id), drained),
        call_ensures(UnixPtyBackend::tcgetpgrp, (&backend, id), asked),
    ensures
        asked == backend.fd_of(id),
        written is Ok <==> asked is Some,
        drained is Ok <==> asked is Some,
        written matches Ok(fd) ==> asked == Some(fd),
        drained matches Ok(fd) ==> asked == Some(fd),
{
}

/// A buffer is written as far as the terminal takes it: what the attempts took before it was full
/// is what was written, and all of it where they took it all.
pub proof fn law_buffer_is_written_as_far_as_taken(
    total: usize,
    outcomes: Vec<WriteOutcome>,
    r: Result<usize, i32>,
    taken: Seq<WriteOutcome>,
    later: Seq<WriteOutcome>,
    e: i32,
)
    requires
        call_ensures(try_write_to_fd, (total, &outcomes), r),
        forall|i: int| 0 <= i < taken.len() ==> goes_on(#[trigger] taken[i]),
        bytes_taken(taken) <= total,
    ensures
        outcomes@ == taken ==> (r matches Ok(n) && n == bytes_taken(taken)),
        outcomes@ == taken + (seq![WriteOutcome::WouldBlock] + later) ==> (r matches Ok(n) && n
            == bytes_taken(taken)),
        outcomes@ == taken + later && bytes_taken(taken) == total ==> r == Ok::<usize, i32>(total),
        outcomes@ == taken + (seq![WriteOutcome::Refused(e)] + later) && bytes_taken(taken) < total
            ==> r == Err::<usize, i32>(e),
{
    let none = Seq::<WriteOutcome>::empty();
    let left = (total - bytes_taken(taken)) as nat;
    law_attempts_add_up(total as nat, taken, none, 0);
    assert(taken + none =~= taken);
    law_attempts_add_up(total as nat, taken, seq![WriteOutcome::WouldBlock] + later, 0);
    law_attempts_add_up(total as nat, taken, seq![WriteOutcome::Refused(e)] + later, 0);
    law_attempts_add_up(total as nat, taken, later, 0);
    law_writing_stops(left, later, e);
}

/// A child that does not exit is asked to three times once a signal has come, and then killed; as
/// long as none comes it is left alone.
pub proof fn law_waiting_asks_three_times(
    looks: Vec<ChildLook>,
    r: (usize, ExitEnd),
    quiet: Seq<ChildLook>,
    asked: ChildLook,
    later: Seq<ChildLook>,
)
    requires
        call_ensures(handle_command_exit, (&looks,), r),
        forall|i: int| 0 <= i < quiet.len() ==> (#[trigger] quiet[i]).exited is None
            && !quiet[i].signalled,
        asked.exited is None && asked.signalled,
        forall|i: int| 0 <= i < later.len() ==> (#[trigger] later[i]).exited is None,
    ensures
        looks@ == quiet + seq![asked] + later ==> r.0 == (if later.len() < 3 {
            later.len()
        } else {
            3
        }) && r.1 == (if later.len() <= 3 {
            ExitEnd::Waiting
        } else {
            ExitEnd::Killed
        }),
        looks@ == quiet ==> r.0 == 0 && r.1 != ExitEnd::Killed,
{
    law_stubborn_child_is_killed_at_the_fourth_look(quiet, asked, later);
    law_child_is_asked_before_it_is_killed(
        WatchMemory { should_exit: false, attempts: 3 },
        quiet,
    );
}

/// A child that was taken over is done with at the first event that says something of it, and then
/// as that event calls for.
pub proof fn law_first_telling_event_counts(
    terminal_id: u32,
    pid: u32,
    events: Vec<WaitEvent>,
    step: ReapStep,
)
    requires
        call_ensures(reap_adopted, (terminal_id, pid, events), Some(step)),
    ensures
        step !is Again,
        exists|k: int|
            {
                &&& 0 <= k < events@.len()
                &&& !((#[trigger] events@[k]) is StillThere || events@[k] is Interrupted)
                &&& forall|i: int|
                    0 <= i < k ==> (#[trigger] events@[i]) is StillThere || events@[i] is Interrupted
                &&& step is Poll <==> events@[k] is NotOurChild
                &&& (events@[k] matches WaitEvent::Exited(code) ==> (step matches ReapStep::Gone {
                    status,
                    error,
                    info,
                } && status == Some(code)))
            },
{
    let k = choose|k: int|
        {
            &&& 0 <= k < events@.len()
            &&& !says_nothing(#[trigger] events@[k])
            &&& forall|i: int| 0 <= i < k ==> says_nothing(#[trigger] events@[i])
            &&& answers_wait(terminal_id, pid, events@[k], step)
        };
    assert(!says_nothing(events@[k]));
    assert forall|i: int| 0 <= i < k implies (#[trigger] events@[i]) is StillThere
        || events@[i] is Interrupted by {
        assert(says_nothing(events@[i]));
    }
}

/// The id that is given out is the counter, once; the terminals that are listed are those with a
/// descriptor; and the close-on-exec flag is the one that is set or cleared.
pub proof fn law_next_id_is_the_counter(
    backend: &mut UnixPtyBackend,
    id: Option<u32>,
    list: Vec<(u32, i32)>,
    flags: i32,
    on: bool,
    r: i32,
    terminal: u32,
)
    requires
        call_ensures(UnixPtyBackend::next_terminal_id, (backend,), id),
        call_ensures(UnixPtyBackend::terminal_fd_table, (&*final(backend),), list),
        call_ensures(set_cloexec, (flags, on), r),
    ensures
        old(backend).counter() <= 0xffff_ffff ==> id == Some(old(backend).counter() as u32)
            && final(backend).counter() == old(backend).counter() + 1,
        id is None <==> old(backend).counter() > 0xffff_ffff,
        final(backend).fd_of(terminal) == old(backend).fd_of(terminal),
        final(backend).fd_of(terminal) matches Some(fd) ==> list@.contains((terminal, fd)),
        r & FD_CLOEXEC == (if on {
            FD_CLOEXEC
        } else {
            0
        }),
        r & !FD_CLOEXEC == flags & !FD_CLOEXEC,
{
    let bit: i32 = FD_CLOEXEC;
    assert(!bit & bit == 0) by (bit_vector);
    law_cloexec_touches_one_flag(flags, !FD_CLOEXEC);
}

/// At first there is no terminal, the first id is zero, nothing is written, and a child is left
/// alone.
pub proof fn law_everything_begins_at_zero(
    backend: UnixPtyBackend,
    id: u32,
    total: usize,
    write: PartialWrite,
    watch: ExitWatch,
)
    requires
        call_ensures(UnixPtyBackend::new, (), backend),
        call_ensures(PartialWrite::new, (total,), write),
        call_ensures(ExitWatch::new, (), watch),
    ensures
        backend.fd_of(id) is None && backend.counter() == 0,
        write.done() == 0 && write.all() == total,
        !watch.memory().should_exit && watch.memory().attempts == 3,
{
}

/// One look at a child does what is remembered calls for, and remembers what the look adds.
pub proof fn law_look_at_a_child(
    watch: &mut ExitWatch,
    exited: Option<Option<i32>>,
    signalled: bool,
    step: ExitStep,
)
    requires
        call_ensures(ExitWatch::step, (watch, exited, signalled), step),
    ensures
        exited matches Some(status) ==> step == ExitStep::Exited(status),
        step is Exited <==> exited is Some,
        step is Again <==> exited is None && !old(watch).memory().should_exit,
        step is Terminate <==> exited is None && old(watch).memory().should_exit && old(
            watch,
        ).memory().attempts > 0,
        step is Kill <==> exited is None && old(watch).memory().should_exit && old(
            watch,
        ).memory().attempts == 0,
        step is Terminate ==> final(watch).memory().attempts + 1 == old(watch).memory().attempts,
        step !is Terminate ==> final(watch).memory().attempts == old(watch).memory().attempts,
        step is Again ==> final(watch).memory().should_exit == signalled,
        step !is Again ==> final(watch).memory().should_exit == old(watch).memory().should_exit,
{
}

} // verus!
