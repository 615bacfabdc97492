//! What holds of the store over calls that leave the work to a subprocess.
//!
//! The subprocess starts from the store as its parent left it, and while the parent waits it
//! carries out a run over that store, or a part of one where it is ended early.

use vstd::prelude::*;

use crate::laws::ensure::{
    is_ensure_run, law_finished_is_ready, law_ready_store_is_left, lemma_store_len, EnsurePoint,
    Store,
};
use crate::laws::materialize::{presence_of, ready};
use crate::layout::DICT_COUNT;
use crate::subprocess::{
    exited_status, law_exit_code_crosses, status_code, status_signal, subprocess_begun,
    SubprocessActionText, SubprocessEventText, SubprocessStage, SubprocessState,
};

verus! {

/// A point of a call that leaves the work to a subprocess.
pub struct ViaPoint {
    pub state: SubprocessState,
    pub asked: SubprocessActionText,
    pub store: Store,
    /// The number of the subprocess that was split off, where one was.
    pub child: Option<i32>,
}

/// The points are those of a run over the store that takes it from `before` to `after`.
pub open spec fn leads(
    run: Seq<EnsurePoint>,
    root: Seq<char>,
    before: Store,
    after: Store,
) -> bool {
    is_ensure_run(run, root, before) && run.last().store == after
}

/// The status is one that a subprocess leaves behind that has come to the end of these points: one
/// that exits does so with the code 0 exactly if its run has finished.
pub open spec fn status_of(run: Seq<EnsurePoint>, status: i32) -> bool {
    status_signal(status) == 0 ==> (status_code(status) == 0 <==> run.last().asked is Finished)
}

/// The status of a subprocess that leaves with the code of
/// [`child_exit`](crate::subprocess::child_exit) for what its run has come to is such a status.
pub proof fn law_exit_gives_such_a_status(run: Seq<EnsurePoint>, code: i32)
    requires
        code == if run.last().asked is Finished {
            0i32
        } else {
            1i32
        },
    ensures
        status_signal(exited_status(code)) == 0,
        status_of(run, exited_status(code)),
{
    law_exit_code_crosses(code, 0, Seq::empty());
}

/// The event is what comes of the action, and `after` what the action makes of the store; `child`
/// is the subprocess that was split off. A wait for any other process fails.
pub open spec fn via_effect(
    root: Seq<char>,
    asked: SubprocessActionText,
    before: Store,
    child: Option<i32>,
    event: SubprocessEventText,
    after: Store,
) -> bool {
    match asked {
        SubprocessActionText::Probe { dict } => {
            &&& event == SubprocessEventText::Probed(presence_of(before[dict]))
            &&& after == before
        },
        SubprocessActionText::CreateRoot | SubprocessActionText::Fork => after == before,
        SubprocessActionText::Wait { pid } => exists|run: Seq<EnsurePoint>| #[trigger]
            leads(run, root, before, after) && (event matches SubprocessEventText::Waited {
                waited,
                status,
                os_error,
            } && (waited >= 0 ==> child == Some(pid) && status_of(run, status))),
        SubprocessActionText::RunInProcess => exists|run: Seq<EnsurePoint>| #[trigger]
            leads(run, root, before, after) && (event matches SubprocessEventText::Ran(failure) && (
            failure is None <==> run.last().asked is Finished)),
        _ => false,
    }
}

/// The subprocess that was split off, after an event: the split gives its number.
pub open spec fn child_after(child: Option<i32>, event: SubprocessEventText) -> Option<i32> {
    match event {
        SubprocessEventText::Forked { pid, .. } => if pid > 0 {
            Some(pid)
        } else {
            None
        },
        _ => child,
    }
}

/// The call goes from one point to the next.
pub open spec fn via_moves(root: Seq<char>, a: ViaPoint, b: ViaPoint) -> bool {
    exists|event: SubprocessEventText|
        {
            &&& a.state.awaits(event)
            &&& via_effect(root, a.asked, a.store, a.child, event, b.store)
            &&& b.child == child_after(a.child, event)
            &&& (b.state, b.asked) == #[trigger] a.state.next(event)
        }
}

/// The points are those of a call that starts from the store `start`. `forks` says whether the
/// system has subprocesses to split off.
pub open spec fn is_via_run(
    run: Seq<ViaPoint>,
    root: Seq<char>,
    forks: bool,
    start: Store,
) -> bool {
    &&& run.len() > 0
    &&& start.len() == DICT_COUNT
    &&& (run[0].state, run[0].asked) == subprocess_begun(root, forks)
    &&& run[0].store == start
    &&& run[0].child is None
    &&& forall|k: int| 0 < k < run.len() ==> via_moves(root, run[k - 1], #[trigger] run[k])
}

/// Every dictionary of the store is ready to be loaded.
pub open spec fn all_ready(store: Store) -> bool {
    forall|j: int| 0 <= j < DICT_COUNT ==> ready(#[trigger] store[j])
}

/// What holds at each point of a call.
spec fn via_invariant(p: ViaPoint) -> bool {
    &&& p.store.len() == DICT_COUNT
    &&& 0 <= p.state.dict < DICT_COUNT
    &&& match p.state.stage {
        SubprocessStage::Probe => {
            &&& p.asked == SubprocessActionText::Probe { dict: p.state.dict }
            &&& forall|j: int| 0 <= j < p.state.dict ==> ready(#[trigger] p.store[j])
        },
        SubprocessStage::CreateRoot => p.asked is CreateRoot,
        SubprocessStage::Fork => p.asked is Fork,
        SubprocessStage::Child => p.asked is RunAndExit,
        SubprocessStage::Wait => p.child is Some && p.asked == SubprocessActionText::Wait {
            pid: p.child->Some_0,
        },
        SubprocessStage::InProcess => p.asked is RunInProcess,
        SubprocessStage::Finished => p.asked is Finished && all_ready(p.store),
        SubprocessStage::Failed => p.asked is Failed,
    }
}

/// A run over the store that finishes leaves every dictionary ready.
proof fn lemma_leads_to_ready(
    run: Seq<EnsurePoint>,
    root: Seq<char>,
    before: Store,
    after: Store,
)
    requires
        leads(run, root, before, after),
    ensures
        after.len() == DICT_COUNT,
        run.last().asked is Finished ==> all_ready(after),
{
    lemma_store_len(run, root, before, run.len() - 1);
    if run.last().asked is Finished {
        assert forall|j: int| 0 <= j < DICT_COUNT implies ready(#[trigger] after[j]) by {
            law_finished_is_ready(run, root, before, run.len() - 1, j);
        }
    }
}

/// The invariant holds at each point of a call.
proof fn lemma_via_run(
    run: Seq<ViaPoint>,
    root: Seq<char>,
    forks: bool,
    start: Store,
    k: int,
)
    requires
        is_via_run(run, root, forks, start),
        0 <= k < run.len(),
    ensures
        via_invariant(run[k]),
    decreases k,
{
    if k > 0 {
        lemma_via_run(run, root, forks, start, k - 1);
        let a = run[k - 1];
        let b = run[k];
        assert(via_moves(root, a, b));
        let event = choose|event: SubprocessEventText|
            {
                &&& a.state.awaits(event)
                &&& via_effect(root, a.asked, a.store, a.child, event, b.store)
                &&& b.child == child_after(a.child, event)
                &&& (b.state, b.asked) == #[trigger] a.state.next(event)
            };
        if a.asked is Wait {
            let child = choose|child: Seq<EnsurePoint>| #[trigger]
                leads(child, root, a.store, b.store) && (event matches SubprocessEventText::Waited {
                    waited,
                    status,
                    os_error,
                } && (waited >= 0 ==> a.child == Some(a.asked->pid) && status_of(child, status)));
            lemma_leads_to_ready(child, root, a.store, b.store);
        } else if a.asked is RunInProcess {
            let inner = choose|inner: Seq<EnsurePoint>| #[trigger]
                leads(inner, root, a.store, b.store) && (event matches SubprocessEventText::Ran(
                    failure,
                ) && (failure is None <==> inner.last().asked is Finished));
            lemma_leads_to_ready(inner, root, a.store, b.store);
        }
    }
}

/// A call that succeeds leaves every dictionary ready to be loaded: what the subprocess has done is
/// what its parent learns.
pub proof fn law_success_means_ready(
    run: Seq<ViaPoint>,
    root: Seq<char>,
    forks: bool,
    start: Store,
    k: int,
)
    requires
        is_via_run(run, root, forks, start),
        0 <= k < run.len(),
        run[k].asked is Finished,
    ensures
        all_ready(run[k].store),
{
    lemma_via_run(run, root, forks, start, k);
}

/// A call whose subprocess exits, once it has been waited for, succeeds exactly if the run of the
/// subprocess has finished.
pub proof fn law_parent_learns_the_outcome(
    state: SubprocessState,
    child: Seq<EnsurePoint>,
    waited: i32,
    status: i32,
    os_error: Seq<char>,
)
    requires
        waited >= 0,
        status_signal(status) == 0,
        status_of(child, status),
    ensures
        state.next(SubprocessEventText::Waited { waited, status, os_error }).1 is Finished
            <==> child.last().asked is Finished,
{
}

/// What a call on a store whose dictionaries are all ready asks for at its point `k`, where the
/// system has subprocesses to split off.
pub open spec fn only_looks(k: int) -> SubprocessActionText {
    if k < DICT_COUNT {
        SubprocessActionText::Probe { dict: k }
    } else {
        SubprocessActionText::Finished
    }
}

/// A call on a store whose dictionaries are all ready changes nothing. Where the system has
/// subprocesses to split off, it splits off none: it looks at each dictionary and succeeds.
pub proof fn law_ready_store_is_only_looked_at(
    run: Seq<ViaPoint>,
    root: Seq<char>,
    forks: bool,
    start: Store,
    k: int,
)
    requires
        is_via_run(run, root, forks, start),
        all_ready(start),
        0 <= k < run.len(),
    ensures
        run[k].store == start,
        forks ==> run[k].asked == only_looks(k) && k <= DICT_COUNT,
        !forks ==> k <= 1 && (k == 0 ==> run[k].asked is RunInProcess),
    decreases k,
{
    lemma_via_run(run, root, forks, start, k);
    if k > 0 {
        law_ready_store_is_only_looked_at(run, root, forks, start, k - 1);
        lemma_via_run(run, root, forks, start, k - 1);
        let a = run[k - 1];
        let b = run[k];
        assert(via_moves(root, a, b));
        let event = choose|event: SubprocessEventText|
            {
                &&& a.state.awaits(event)
                &&& via_effect(root, a.asked, a.store, a.child, event, b.store)
                &&& b.child == child_after(a.child, event)
                &&& (b.state, b.asked) == #[trigger] a.state.next(event)
            };
        if forks {
            assert(ready(a.store[a.state.dict]));
        } else {
            let inner = choose|inner: Seq<EnsurePoint>| #[trigger]
                leads(inner, root, a.store, b.store) && (event matches SubprocessEventText::Ran(
                    failure,
                ) && (failure is None <==> inner.last().asked is Finished));
            law_ready_store_is_left(inner, root, a.store, inner.len() - 1);
        }
    }
}

/// A second call finds nothing to do. After a call that has succeeded, with nothing else at work on
/// the store, another one changes no file; where the system has subprocesses to split off, it looks
/// at each dictionary and succeeds, and splits off none.
pub proof fn law_second_call_finds_nothing_to_do(
    first: Seq<ViaPoint>,
    second: Seq<ViaPoint>,
    root: Seq<char>,
    forks: bool,
    start: Store,
    k1: int,
    k2: int,
)
    requires
        is_via_run(first, root, forks, start),
        0 <= k1 < first.len(),
        first[k1].asked is Finished,
        is_via_run(second, root, forks, first[k1].store),
        0 <= k2 < second.len(),
    ensures
        all_ready(first[k1].store),
        second[k2].store == first[k1].store,
        forks ==> second[k2].asked == only_looks(k2) && k2 <= DICT_COUNT,
{
    law_success_means_ready(first, root, forks, start, k1);
    law_ready_store_is_only_looked_at(second, root, forks, first[k1].store, k2);
}

/// The parent waits for its child. At each point of a call that asks for a wait, a subprocess was
/// split off, and the wait is for that one; and where a split gives a number, the next point asks
/// to wait for it.
pub proof fn law_parent_waits_for_its_child(
    run: Seq<ViaPoint>,
    root: Seq<char>,
    forks: bool,
    start: Store,
    k: int,
)
    requires
        is_via_run(run, root, forks, start),
        0 <= k < run.len(),
    ensures
        run[k].asked matches SubprocessActionText::Wait { pid } ==> run[k].child == Some(pid),
        run[k].asked is Fork && k + 1 < run.len() ==> (run[k + 1].child matches Some(pid)
            ==> run[k + 1].asked == SubprocessActionText::Wait { pid }),
{
    lemma_via_run(run, root, forks, start, k);
    if run[k].asked is Fork && k + 1 < run.len() {
        lemma_via_run(run, root, forks, start, k + 1);
        assert(via_moves(root, run[k], run[k + 1]));
    }
}

/// A call takes whatever comes of what it asks for.
pub proof fn law_call_takes_outcomes(
    run: Seq<ViaPoint>,
    root: Seq<char>,
    forks: bool,
    start: Store,
    k: int,
    event: SubprocessEventText,
)
    requires
        is_via_run(run, root, forks, start),
        0 <= k < run.len(),
    ensures
        run[k].asked is Probe && event is Probed ==> run[k].state.awaits(event),
        run[k].asked is CreateRoot && (event is Done || event is Refused) ==> run[k].state.awaits(
            event,
        ),
        run[k].asked is Fork && event is Forked ==> run[k].state.awaits(event),
        run[k].asked is Wait && event is Waited ==> run[k].state.awaits(event),
        run[k].asked is RunInProcess && event is Ran ==> run[k].state.awaits(event),
{
    lemma_via_run(run, root, forks, start, k);
}

} // verus!
