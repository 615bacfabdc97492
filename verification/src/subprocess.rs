use vstd::prelude::*;

use crate::failure::{caused_failure, plain_failure, Failure, FailureText};
use crate::layout::{dict_is_ready, Presence, DICT_COUNT};
use crate::text::{
    decimal, decimal_text, is_numeral, joined, law_numbers_read_back, number_in,
};

verus! {

/// The low seven bits of a wait status: the signal that ended the process, or 0 where it exited.
pub open spec fn status_signal(status: i32) -> i32 {
    status & 0x7f
}

/// The second byte of a wait status: the code with which the process exited.
pub open spec fn status_code(status: i32) -> i32 {
    (status >> 8) & 0xff
}

/// `libc::WIFSIGNALED`: a signal ended the process. The low bits are neither 0, which stands for
/// an exit, nor all set, which stands for a stop.
#[verifier::external_body]
fn was_signaled(status: i32) -> (r: bool)
    ensures
        r == (0 < status_signal(status) < 0x7f),
{
    libc::WIFSIGNALED(status)
}

/// `libc::WTERMSIG`: the signal that ended the process.
#[verifier::external_body]
fn term_signal(status: i32) -> (r: i32)
    ensures
        r == status_signal(status),
{
    libc::WTERMSIG(status)
}

/// `libc::WIFEXITED`: the process exited.
#[verifier::external_body]
fn did_exit(status: i32) -> (r: bool)
    ensures
        r == (status_signal(status) == 0),
{
    libc::WIFEXITED(status)
}

/// `libc::WEXITSTATUS`: the code with which the process exited.
#[verifier::external_body]
fn exit_status(status: i32) -> (r: i32)
    ensures
        r == status_code(status),
{
    libc::WEXITSTATUS(status)
}

/// Why the wait for the subprocess says that the store is not complete; `None` where it exited
/// with the code 0.
pub open spec fn wait_failure(waited: int, status: i32, os_error: Seq<char>) -> Option<
    FailureText,
> {
    if waited < 0 {
        Some(
            plain_failure("waitpid for dict materialization subprocess failed: "@ + os_error),
        )
    } else if 0 < status_signal(status) < 0x7f {
        Some(
            plain_failure(
                "dict materialization subprocess killed by signal "@ + decimal_text(
                    status_signal(status) as int,
                ),
            ),
        )
    } else if status_signal(status) != 0 {
        Some(plain_failure("dict materialization subprocess terminated abnormally"@))
    } else if status_code(status) != 0 {
        Some(
            plain_failure(
                "dict materialization subprocess exited with code "@ + decimal_text(
                    status_code(status) as int,
                ),
            ),
        )
    } else {
        None
    }
}

/// Reads off what the wait for the subprocess gave: `waited` is what the wait returned, and
/// `os_error` the system's text where that is negative.
pub fn wait_outcome(waited: i32, status: i32, os_error: &str) -> (r: Result<(), Failure>)
    ensures
        match wait_failure(waited as int, status, os_error@) {
            Some(text) => r matches Err(f) && f@ == text,
            None => r is Ok,
        },
        r is Ok <==> waited >= 0 && status_signal(status) == 0 && status_code(status) == 0,
        r matches Err(f) ==> f.cause is None,
{
    if waited < 0 {
        let context = joined("waitpid for dict materialization subprocess failed: ", os_error);
        return Err(Failure::plain(context));
    }
    if was_signaled(status) {
        let signal = decimal(term_signal(status) as i128);
        let context = joined("dict materialization subprocess killed by signal ", signal.as_str());
        return Err(Failure::plain(context));
    }
    if !did_exit(status) {
        let context = "dict materialization subprocess terminated abnormally".to_owned();
        return Err(Failure::plain(context));
    }
    let code: i32 = exit_status(status);
    if code != 0 {
        let code_text = decimal(code as i128);
        let context = joined(
            "dict materialization subprocess exited with code ",
            code_text.as_str(),
        );
        return Err(Failure::plain(context));
    }
    Ok(())
}

/// What the subprocess is to do once its run over the store has ended: print a line, where there
/// is one, and exit with a code.
pub struct ChildExit {
    pub code: i32,
    pub line: Option<String>,
}

/// What the subprocess is to do once its run over the store has ended.
pub fn child_exit(ran: &Result<(), Failure>) -> (exit: ChildExit)
    ensures
        match ran {
            Ok(_) => exit.code == 0 && exit.line is None,
            Err(f) => {
                &&& exit.code == 1
                &&& exit.line matches Some(line)
                &&& line@ == "[pg_search INSTR-4902] dict materialization (child) failed: "@
                    + f@.context
            },
        },
        0 <= exit.code < 0x100,
        exit.code == 0 <==> ran is Ok,
        exit.line is Some <==> ran is Err,
        ran matches Err(f) ==> exit.line->Some_0@
            == "[pg_search INSTR-4902] dict materialization (child) failed: "@ + f.context@,
{
    match ran {
        Ok(_) => ChildExit { code: 0, line: None },
        Err(f) => {
            let line = joined(
                "[pg_search INSTR-4902] dict materialization (child) failed: ",
                f.context.as_str(),
            );
            ChildExit { code: 1, line: Some(line) }
        },
    }
}

/// What a run that leaves the work to a subprocess asks for next.
pub enum SubprocessAction {
    /// Look which of the files that tell whether a dictionary is complete are present.
    Probe { dict: usize },
    /// Create the root directory, and those above it, where they are not there.
    CreateRoot,
    /// Split off a subprocess.
    Fork,
    /// In the subprocess: run over the store, then leave as [`child_exit`] says.
    RunAndExit,
    /// Wait for the subprocess to end.
    Wait { pid: i32 },
    /// Run over the store in this process.
    RunInProcess,
    Finished,
    Failed(Failure),
}

/// A [`SubprocessAction`] over texts.
#[verifier::ext_equal]
pub enum SubprocessActionText {
    Probe { dict: int },
    CreateRoot,
    Fork,
    RunAndExit,
    Wait { pid: i32 },
    RunInProcess,
    Finished,
    Failed(FailureText),
}

impl View for SubprocessAction {
    type V = SubprocessActionText;

    open spec fn view(&self) -> SubprocessActionText {
        match *self {
            SubprocessAction::Probe { dict } => SubprocessActionText::Probe { dict: dict as int },
            SubprocessAction::CreateRoot => SubprocessActionText::CreateRoot,
            SubprocessAction::Fork => SubprocessActionText::Fork,
            SubprocessAction::RunAndExit => SubprocessActionText::RunAndExit,
            SubprocessAction::Wait { pid } => SubprocessActionText::Wait { pid },
            SubprocessAction::RunInProcess => SubprocessActionText::RunInProcess,
            SubprocessAction::Finished => SubprocessActionText::Finished,
            SubprocessAction::Failed(f) => SubprocessActionText::Failed(f@),
        }
    }
}

/// What came of an action.
pub enum SubprocessEvent {
    /// These files are present.
    Probed(Presence),
    /// It was performed.
    Done,
    /// The system refused it, with this text.
    Refused(String),
    /// What the split returned, and the system's text where that is negative.
    Forked { pid: i32, os_error: String },
    /// What the wait returned and the status that it gave, and the system's text where the former
    /// is negative.
    Waited { waited: i32, status: i32, os_error: String },
    /// How the run in this process ended.
    Ran(Result<(), Failure>),
}

/// A [`SubprocessEvent`] over texts.
#[verifier::ext_equal]
pub enum SubprocessEventText {
    Probed(Presence),
    Done,
    Refused(Seq<char>),
    Forked { pid: i32, os_error: Seq<char> },
    Waited { waited: i32, status: i32, os_error: Seq<char> },
    Ran(Option<FailureText>),
}

impl View for SubprocessEvent {
    type V = SubprocessEventText;

    open spec fn view(&self) -> SubprocessEventText {
        match *self {
            SubprocessEvent::Probed(present) => SubprocessEventText::Probed(present),
            SubprocessEvent::Done => SubprocessEventText::Done,
            SubprocessEvent::Refused(text) => SubprocessEventText::Refused(text@),
            SubprocessEvent::Forked { pid, os_error } => SubprocessEventText::Forked {
                pid,
                os_error: os_error@,
            },
            SubprocessEvent::Waited { waited, status, os_error } => SubprocessEventText::Waited {
                waited,
                status,
                os_error: os_error@,
            },
            SubprocessEvent::Ran(ran) => SubprocessEventText::Ran(
                match ran {
                    Ok(_) => None,
                    Err(f) => Some(f@),
                },
            ),
        }
    }
}

/// What a run that leaves the work to a subprocess is at.
#[derive(Clone, Copy, PartialEq, Eq, Structural, Debug)]
pub enum SubprocessStage {
    Probe,
    CreateRoot,
    Fork,
    /// This process is the subprocess.
    Child,
    Wait,
    /// The work is done in this process.
    InProcess,
    Finished,
    Failed,
}

/// A run that leaves the work to a subprocess, under way.
pub struct ViaSubprocess {
    /// The text of the root's path, for messages.
    pub root: String,
    pub stage: SubprocessStage,
    /// The dictionary that is being looked at.
    pub dict: usize,
}

/// A [`ViaSubprocess`] over texts.
#[verifier::ext_equal]
pub struct SubprocessState {
    pub root: Seq<char>,
    pub stage: SubprocessStage,
    pub dict: int,
}

impl View for ViaSubprocess {
    type V = SubprocessState;

    open spec fn view(&self) -> SubprocessState {
        SubprocessState { root: self.root@, stage: self.stage, dict: self.dict as int }
    }
}

/// The state and the action with which a run begins: a look at the first dictionary, where the
/// system has subprocesses to split off, else the run in this process.
pub open spec fn subprocess_begun(root: Seq<char>, forks: bool) -> (
    SubprocessState,
    SubprocessActionText,
) {
    if forks {
        (
            SubprocessState { root, stage: SubprocessStage::Probe, dict: 0 },
            SubprocessActionText::Probe { dict: 0 },
        )
    } else {
        (
            SubprocessState { root, stage: SubprocessStage::InProcess, dict: 0 },
            SubprocessActionText::RunInProcess,
        )
    }
}

impl SubprocessState {
    /// The state waits for this kind of event.
    pub open spec fn awaits(self, event: SubprocessEventText) -> bool {
        match self.stage {
            SubprocessStage::Probe => event is Probed,
            SubprocessStage::CreateRoot => event is Done || event is Refused,
            SubprocessStage::Fork => event is Forked,
            SubprocessStage::Wait => event is Waited,
            SubprocessStage::InProcess => event is Ran,
            _ => false,
        }
    }

    /// The run goes on at `stage`.
    pub open spec fn at(self, stage: SubprocessStage) -> SubprocessState {
        SubprocessState { stage, ..self }
    }

    /// The run has ended: without a failure, or with this one.
    pub open spec fn ended(self, failure: Option<FailureText>) -> (
        SubprocessState,
        SubprocessActionText,
    ) {
        match failure {
            Some(f) => (self.at(SubprocessStage::Failed), SubprocessActionText::Failed(f)),
            None => (self.at(SubprocessStage::Finished), SubprocessActionText::Finished),
        }
    }

    /// The state and the action that follow the event.
    pub open spec fn next(self, event: SubprocessEventText) -> (
        SubprocessState,
        SubprocessActionText,
    ) {
        match event {
            SubprocessEventText::Probed(present) => if !present.complete() {
                (self.at(SubprocessStage::CreateRoot), SubprocessActionText::CreateRoot)
            } else if self.dict + 1 < DICT_COUNT {
                (
                    SubprocessState { dict: self.dict + 1, ..self },
                    SubprocessActionText::Probe { dict: self.dict + 1 },
                )
            } else {
                self.ended(None)
            },
            SubprocessEventText::Done => (
                self.at(SubprocessStage::Fork),
                SubprocessActionText::Fork,
            ),
            SubprocessEventText::Refused(text) => self.ended(
                Some(caused_failure("mkdir "@ + self.root, text)),
            ),
            SubprocessEventText::Forked { pid, os_error } => if pid < 0 {
                self.ended(
                    Some(
                        plain_failure(
                            "fork() failed for lindera dict materialization: "@ + os_error,
                        ),
                    ),
                )
            } else if pid == 0 {
                (self.at(SubprocessStage::Child), SubprocessActionText::RunAndExit)
            } else {
                (self.at(SubprocessStage::Wait), SubprocessActionText::Wait { pid })
            },
            SubprocessEventText::Waited { waited, status, os_error } => self.ended(
                wait_failure(waited as int, status, os_error),
            ),
            SubprocessEventText::Ran(failure) => self.ended(failure),
        }
    }
}

/// Begins a run over the store under the root with the path `root` that leaves the work to a
/// subprocess, so that none of the memory it takes stays with this process. Where the system has
/// no subprocesses to split off (`forks` is false) the work is done in this process.
pub fn ensure_materialized_via_subprocess(root: &str, forks: bool) -> (r: (
    ViaSubprocess,
    SubprocessAction,
))
    ensures
        r.0.wf(),
        (r.0@, r.1@) == subprocess_begun(root@, forks),
{
    let root = root.to_owned();
    if forks {
        (
            ViaSubprocess { root, stage: SubprocessStage::Probe, dict: 0 },
            SubprocessAction::Probe { dict: 0 },
        )
    } else {
        (
            ViaSubprocess { root, stage: SubprocessStage::InProcess, dict: 0 },
            SubprocessAction::RunInProcess,
        )
    }
}

impl ViaSubprocess {
    /// The dictionary that is being looked at is one of the store.
    pub open spec fn wf(self) -> bool {
        self.dict < DICT_COUNT
    }

    /// Ends the run.
    fn end(&mut self, failure: Option<Failure>) -> (action: SubprocessAction)
        requires
            old(self).wf(),
        ensures
            final(self).wf(),
            (final(self)@, action@) == old(self)@.ended(
                match failure {
                    Some(f) => Some(f@),
                    None => None,
                },
            ),
    {
        match failure {
            Some(f) => {
                self.stage = SubprocessStage::Failed;
                SubprocessAction::Failed(f)
            },
            None => {
                self.stage = SubprocessStage::Finished;
                SubprocessAction::Finished
            },
        }
    }

    /// Takes what came of the action asked for last and says what is to be done next.
    pub fn step(&mut self, event: SubprocessEvent) -> (action: SubprocessAction)
        requires
            old(self).wf(),
            old(self)@.awaits(event@),
        ensures
            final(self).wf(),
            (final(self)@, action@) == old(self)@.next(event@),
            final(self).root@ == old(self).root@,
            event matches SubprocessEvent::Forked { pid, os_error } ==> {
                &&& pid > 0 ==> action == SubprocessAction::Wait { pid }
                &&& pid == 0 ==> action is RunAndExit
                &&& pid < 0 ==> action is Failed
            },
            event matches SubprocessEvent::Probed(present) ==> (action is CreateRoot <==> !(
            present.marker && present.da && present.metadata)),
            event is Done ==> action is Fork,
            event is Refused ==> action is Failed,
            event matches SubprocessEvent::Waited { waited, status, os_error } ==> (
            action is Finished <==> waited >= 0 && status_signal(status) == 0 && status_code(status)
                == 0),
            event matches SubprocessEvent::Ran(ran) ==> (action is Finished <==> ran is Ok),
    {
        match event {
            SubprocessEvent::Probed(present) => {
                if !dict_is_ready(present) {
                    self.stage = SubprocessStage::CreateRoot;
                    return SubprocessAction::CreateRoot;
                }
                let next: usize = self.dict + 1;
                if next < DICT_COUNT {
                    self.dict = next;
                    SubprocessAction::Probe { dict: next }
                } else {
                    self.end(None)
                }
            },
            SubprocessEvent::Done => {
                self.stage = SubprocessStage::Fork;
                SubprocessAction::Fork
            },
            SubprocessEvent::Refused(text) => {
                let context = joined("mkdir ", self.root.as_str());
                self.end(Some(Failure::caused(context, text)))
            },
            SubprocessEvent::Forked { pid, os_error } => {
                if pid < 0 {
                    let context = joined(
                        "fork() failed for lindera dict materialization: ",
                        os_error.as_str(),
                    );
                    self.end(Some(Failure::plain(context)))
                } else if pid == 0 {
                    self.stage = SubprocessStage::Child;
                    SubprocessAction::RunAndExit
                } else {
                    self.stage = SubprocessStage::Wait;
                    SubprocessAction::Wait { pid }
                }
            },
            SubprocessEvent::Waited { waited, status, os_error } => {
                match wait_outcome(waited, status, os_error.as_str()) {
                    Ok(_) => self.end(None),
                    Err(f) => self.end(Some(f)),
                }
            },
            SubprocessEvent::Ran(ran) => match ran {
                Ok(_) => self.end(None),
                Err(f) => self.end(Some(f)),
            },
        }
    }
}

/// The wait status of a process that exited with `code`: the code's low byte over a signal of 0.
pub open spec fn exited_status(code: i32) -> i32 {
    ((code & 0xff) << 8) as i32
}

/// The parent that waits for a subprocess which left with the code of [`child_exit`] finishes
/// without a failure exactly where that code is 0, which is exactly where the subprocess's own run
/// did: any other code becomes the failure that names it.
pub proof fn law_exit_code_crosses(code: i32, waited: int, os_error: Seq<char>)
    requires
        waited >= 0,
        0 <= code < 0x100,
    ensures
        status_signal(exited_status(code)) == 0,
        status_code(exited_status(code)) == code,
        code == 0 <==> wait_failure(waited, exited_status(code), os_error) is None,
        code != 0 ==> wait_failure(waited, exited_status(code), os_error) == Some(
            plain_failure(
                "dict materialization subprocess exited with code "@ + decimal_text(code as int),
            ),
        ),
{
    assert(((code & 0xff) << 8) as i32 & 0x7f == 0) by (bit_vector)
        requires
            0 <= code < 0x100,
    ;
    assert((((code & 0xff) << 8) as i32 >> 8) & 0xff == code) by (bit_vector)
        requires
            0 <= code < 0x100,
    ;
}

/// Where the system splits off no subprocess, the run in this process stands for the whole: the
/// run ends as that did.
pub proof fn law_without_fork_runs_here(root: Seq<char>, ran: Option<FailureText>)
    ensures
        ({
            let (s0, a0) = subprocess_begun(root, false);
            let (s1, a1) = s0.next(SubprocessEventText::Ran(ran));
            &&& a0 == SubprocessActionText::RunInProcess
            &&& a1 == match ran {
                Some(f) => SubprocessActionText::Failed(f),
                None => SubprocessActionText::Finished,
            }
        }),
{
}

/// A process that a signal ended, or that stopped, never passes for one that did the work.
pub proof fn law_signals_fail(status: i32, waited: int, os_error: Seq<char>)
    requires
        status_signal(status) != 0,
    ensures
        wait_failure(waited, status, os_error) is Some,
{
}

/// Where a subprocess was split off, the parent waits for that one and no other, whatever its
/// number; the subprocess itself does the work, and a split that failed is reported with the
/// system's text.
pub proof fn law_parent_waits_for_the_split(state: SubprocessState, pid: i32, os_error: Seq<char>)
    ensures
        ({
            let asked = state.next(SubprocessEventText::Forked { pid, os_error }).1;
            &&& pid > 0 ==> (asked matches SubprocessActionText::Wait { pid: awaited } && awaited
                == pid)
            &&& pid == 0 ==> asked is RunAndExit
            &&& pid < 0 ==> (asked matches SubprocessActionText::Failed(f) && f.cause is None
                && f.context == "fork() failed for lindera dict materialization: "@ + os_error)
        }),
{
}

/// A run goes on or succeeds unless there is a reason for it to fail: a root directory that was
/// refused, a split that failed, a wait that failed or gave anything but an exit with the code 0,
/// or a failed run in this process.
pub proof fn law_call_fails_for_a_reason(state: SubprocessState, event: SubprocessEventText)
    ensures
        state.next(event).1 is Failed <==> match event {
            SubprocessEventText::Refused(_) => true,
            SubprocessEventText::Forked { pid, .. } => pid < 0,
            SubprocessEventText::Waited { waited, status, .. } => waited < 0 || status_signal(
                status,
            ) != 0 || status_code(status) != 0,
            SubprocessEventText::Ran(failure) => failure is Some,
            _ => false,
        },
        event matches SubprocessEventText::Refused(text) ==> (state.next(
            event,
        ).1 matches SubprocessActionText::Failed(f) && f.context == "mkdir "@ + state.root && f.cause
            == Some(text)),
        event matches SubprocessEventText::Ran(Some(failure)) ==> (state.next(
            event,
        ).1 matches SubprocessActionText::Failed(f) && f == failure),
        event is Done ==> state.next(event).1 is Fork,
{
}

/// Each dictionary is looked at in turn until one is found that is not complete: marker, double
/// array and metadata. Then the root directory is created; where there was none the run succeeds.
pub proof fn law_looks_end_at_the_first_gap(state: SubprocessState, present: Presence)
    requires
        0 <= state.dict < 3,
    ensures
        ({
            let (after, asked) = state.next(SubprocessEventText::Probed(present));
            let found = present.marker && present.da && present.metadata;
            &&& !found ==> asked is CreateRoot
            &&& found && state.dict < 2 ==> asked == SubprocessActionText::Probe {
                dict: state.dict + 1,
            } && after.dict == state.dict + 1
            &&& found && state.dict == 2 ==> asked is Finished
        }),
{
}

/// The failure after a wait tells what the wait gave: the system's text, the number of the signal,
/// or the code, each of which reads back.
pub proof fn law_wait_failures_tell_what_happened(
    waited: int,
    status: i32,
    os_error: Seq<char>,
) -> (numeral: Seq<char>)
    ensures
        wait_failure(waited, status, os_error) is None <==> waited >= 0 && status_signal(status)
            == 0 && status_code(status) == 0,
        wait_failure(waited, status, os_error) matches Some(f) ==> f.cause is None,
        waited < 0 ==> (wait_failure(waited, status, os_error) matches Some(f) && f.context
            == "waitpid for dict materialization subprocess failed: "@ + os_error),
        waited >= 0 && 0 < status_signal(status) < 0x7f ==> (wait_failure(
            waited,
            status,
            os_error,
        ) matches Some(f) && f.context == "dict materialization subprocess killed by signal "@
            + numeral && is_numeral(numeral) && number_in(numeral) == status_signal(status)),
        waited >= 0 && status_signal(status) != 0 && !(0 < status_signal(status) < 0x7f) ==> (
        wait_failure(waited, status, os_error) matches Some(f) && f.context
            == "dict materialization subprocess terminated abnormally"@),
        waited >= 0 && status_signal(status) == 0 && status_code(status) != 0 ==> (wait_failure(
            waited,
            status,
            os_error,
        ) matches Some(f) && f.context == "dict materialization subprocess exited with code "@
            + numeral && is_numeral(numeral) && number_in(numeral) == status_code(status)),
{
    law_numbers_read_back(status_signal(status) as int);
    law_numbers_read_back(status_code(status) as int);
    if status_signal(status) != 0 {
        decimal_text(status_signal(status) as int)
    } else {
        decimal_text(status_code(status) as int)
    }
}

} // verus!
