//! What holds of the store while a run over it is carried out, and after.
//!
//! The store is taken as the sequence of the dictionaries' directories. They are directories of
//! their own: the names under the root differ, and none leads out of it.

use vstd::prelude::*;

use crate::dictionary::is_load_refusal;
use crate::ensure::{ensure_begun, EnsureActionText, EnsureEventText, EnsureStage, EnsureState};
use crate::laws::materialize::{
    dict_complete, dict_effect, dict_refusal, dict_waits_for, is_blocked, is_encodable,
    lemma_complete_is_ready, lemma_dict_refusal_reported, lemma_encodable_is_not_blocked,
    lemma_materialize_step, lemma_performed_goes_on, lemma_waits_on, marked, materialize_invariant,
    materialize_rank, presence_of, ready,
};
use crate::laws::write::Dir;
use crate::layout::{
    dict_name, dict_uri, is_file_name, lemma_final_dot, path_text, Presence, DICT_COUNT,
};
use crate::materialize::{MaterializeActionText, MaterializeState};

verus! {

/// Each dictionary has a directory of its own under the root.
pub proof fn law_dict_names(i: int, j: int)
    requires
        0 <= i < DICT_COUNT,
        0 <= j < DICT_COUNT,
    ensures
        is_file_name(dict_name(i)),
        i != j ==> dict_name(i) != dict_name(j),
{
    reveal_strlit("cc-cedict");
    reveal_strlit("ipadic");
    reveal_strlit("ko-dic");
    reveal_strlit(".");
    reveal_strlit("..");
    assert(i != j ==> dict_name(i)[0] != dict_name(j)[0]);
    assert(dict_name(0) =~= seq!['c', 'c', '-', 'c', 'e', 'd', 'i', 'c', 't']);
    assert(dict_name(1) =~= seq!['i', 'p', 'a', 'd', 'i', 'c']);
    assert(dict_name(2) =~= seq!['k', 'o', '-', 'd', 'i', 'c']);
    assert(i == 0 || i == 1 || i == 2);
    lemma_final_dot(dict_name(i));
    assert(dict_name(i)[1] != '.');
}

/// The directories of the dictionaries.
pub type Store = Seq<Dir>;

/// A point of a run over the store.
pub struct EnsurePoint {
    pub state: EnsureState,
    pub asked: EnsureActionText,
    pub store: Store,
}

/// The event is what comes of the action, and `after` what the action makes of the store.
pub open spec fn store_effect(
    asked: EnsureActionText,
    before: Store,
    event: EnsureEventText,
    after: Store,
) -> bool {
    match asked {
        EnsureActionText::Probe { dict } => {
            &&& event == EnsureEventText::Probed(presence_of(before[dict]))
            &&& after == before
        },
        EnsureActionText::InDict { dict, op } => {
            &&& dict_effect(op, before[dict], event is Refused, after[dict])
            &&& after == before.update(dict, after[dict])
        },
        EnsureActionText::CreateRoot | EnsureActionText::TrimHeap => after == before,
        _ => false,
    }
}

/// The run goes from one point to the next.
pub open spec fn ensure_moves(a: EnsurePoint, b: EnsurePoint) -> bool {
    exists|event: EnsureEventText|
        {
            &&& a.state.awaits(event)
            &&& store_effect(a.asked, a.store, event, b.store)
            &&& #[trigger] a.state.follows(event, b.state, b.asked)
        }
}

/// The points are those of a run over the store that starts from `start`.
pub open spec fn is_ensure_run(run: Seq<EnsurePoint>, root: Seq<char>, start: Store) -> bool {
    &&& run.len() > 0
    &&& start.len() == DICT_COUNT
    &&& run[0].state == ensure_begun(root)
    &&& run[0].asked == EnsureActionText::CreateRoot
    &&& run[0].store == start
    &&& forall|k: int| 0 < k < run.len() ==> ensure_moves(run[k - 1], #[trigger] run[k])
}

/// Some dictionary before `n` was not ready.
pub open spec fn some_unready(start: Store, n: int) -> bool {
    exists|j: int| 0 <= j < n && !ready(#[trigger] start[j])
}

/// A dictionary that the run has passed: it was ready and is as it was, or it has been
/// materialized.
pub open spec fn passed(store: Store, start: Store, j: int) -> bool {
    if ready(start[j]) {
        store[j] == start[j]
    } else {
        dict_complete(store[j], j)
    }
}

/// What holds at each point of a run over the store that started from `start`.
pub open spec fn ensure_invariant(
    state: EnsureState,
    asked: EnsureActionText,
    store: Store,
    start: Store,
) -> bool {
    let at = state.dict;
    &&& store.len() == DICT_COUNT
    &&& 0 <= at <= DICT_COUNT
    &&& state.materialized_any == some_unready(start, at)
    &&& forall|j: int| 0 <= j < at ==> #[trigger] passed(store, start, j) && ready(store[j])
    &&& forall|j: int| at < j < DICT_COUNT ==> #[trigger] store[j] == start[j]
    &&& match state.stage {
        EnsureStage::CreateRoot => {
            &&& at == 0
            &&& asked == EnsureActionText::CreateRoot
            &&& store[at] == start[at]
        },
        EnsureStage::Probe => {
            &&& at < DICT_COUNT
            &&& asked == EnsureActionText::Probe { dict: at }
            &&& store[at] == start[at]
        },
        EnsureStage::Materialize => {
            &&& at < DICT_COUNT
            &&& !ready(start[at])
            &&& state.one matches Some(one)
            &&& asked matches EnsureActionText::InDict { dict, op }
            &&& dict == at
            &&& materialize_invariant(
                one,
                MaterializeActionText::Perform(op),
                store[at],
                at,
                start[at],
            )
        },
        EnsureStage::Trim => {
            &&& at == DICT_COUNT
            &&& state.materialized_any
            &&& asked == EnsureActionText::TrimHeap
        },
        EnsureStage::Finished => at == DICT_COUNT && asked == EnsureActionText::Finished,
        EnsureStage::Failed => {
            &&& (asked is Failed || asked is TooLarge)
            &&& at < DICT_COUNT
            &&& store[at] == start[at] || (!ready(start[at]) && !marked(store[at]))
        },
    }
}

/// The invariant of a run is kept where the materialization under way goes on.
proof fn lemma_ensure_materializes(
    a: EnsurePoint,
    b: EnsurePoint,
    event: EnsureEventText,
    start: Store,
)
    requires
        start.len() == DICT_COUNT,
        ensure_invariant(a.state, a.asked, a.store, start),
        a.state.stage == EnsureStage::Materialize,
        store_effect(a.asked, a.store, event, b.store),
        a.state.follows(event, b.state, b.asked),
    ensures
        ensure_invariant(b.state, b.asked, b.store, start),
{
    let at = a.state.dict;
    let one = a.state.one->Some_0;
    let op = a.asked->op;
    let (one2, asked2) = choose|one2: MaterializeState, asked2: MaterializeActionText|
        #![trigger one.follows(event.refused(), one2, asked2)]
        {
            &&& one.follows(event.refused(), one2, asked2)
            &&& a.state.carries(one2, asked2, b.state, b.asked)
        };
    lemma_materialize_step(
        one,
        MaterializeActionText::Perform(op),
        a.store[at],
        event.refused(),
        one2,
        asked2,
        b.store[at],
        at,
        start[at],
    );
    assert forall|j: int| 0 <= j < at implies #[trigger] passed(b.store, start, j) && ready(
        b.store[j],
    ) by {
        assert(passed(a.store, start, j));
    }
    match asked2 {
        MaterializeActionText::Finished => {
            lemma_complete_is_ready(b.store[at], at);
            assert(passed(b.store, start, at));
            assert(!ready(start[at]));
            assert(some_unready(start, at + 1));
        },
        _ => {},
    }
}

/// The invariant of a run is kept where a dictionary has been looked at.
proof fn lemma_ensure_probes(
    a: EnsurePoint,
    b: EnsurePoint,
    event: EnsureEventText,
    start: Store,
)
    requires
        start.len() == DICT_COUNT,
        ensure_invariant(a.state, a.asked, a.store, start),
        a.state.stage == EnsureStage::Probe,
        store_effect(a.asked, a.store, event, b.store),
        a.state.follows(event, b.state, b.asked),
    ensures
        ensure_invariant(b.state, b.asked, b.store, start),
{
    let at = a.state.dict;
    assert(b.store == a.store);
    if ready(start[at]) {
        assert(passed(b.store, start, at));
        assert(some_unready(start, at + 1) == some_unready(start, at));
    }
    let next = b.state.dict;
    assert(next < DICT_COUNT ==> b.store[next] == start[next]);
    assert forall|j: int| 0 <= j < next implies #[trigger] passed(b.store, start, j) && ready(
        b.store[j],
    ) by {
        assert(j < at ==> passed(a.store, start, j));
    }
}

/// The invariant of a run is kept where the root has been created or memory handed back.
proof fn lemma_ensure_edges(
    a: EnsurePoint,
    b: EnsurePoint,
    event: EnsureEventText,
    start: Store,
)
    requires
        start.len() == DICT_COUNT,
        ensure_invariant(a.state, a.asked, a.store, start),
        a.state.stage != EnsureStage::Probe,
        a.state.stage != EnsureStage::Materialize,
        a.state.awaits(event),
        store_effect(a.asked, a.store, event, b.store),
        a.state.follows(event, b.state, b.asked),
    ensures
        ensure_invariant(b.state, b.asked, b.store, start),
{
}

/// The invariant holds at each point of a run.
proof fn lemma_ensure_run(run: Seq<EnsurePoint>, root: Seq<char>, start: Store, k: int)
    requires
        is_ensure_run(run, root, start),
        0 <= k < run.len(),
    ensures
        ensure_invariant(run[k].state, run[k].asked, run[k].store, start),
    decreases k,
{
    if k > 0 {
        lemma_ensure_run(run, root, start, k - 1);
        let a = run[k - 1];
        let b = run[k];
        assert(ensure_moves(a, b));
        let event = choose|event: EnsureEventText|
            {
                &&& a.state.awaits(event)
                &&& store_effect(a.asked, a.store, event, b.store)
                &&& #[trigger] a.state.follows(event, b.state, b.asked)
            };
        if a.state.stage == EnsureStage::Materialize {
            lemma_ensure_materializes(a, b, event, start);
        } else if a.state.stage == EnsureStage::Probe {
            lemma_ensure_probes(a, b, event, start);
        } else {
            lemma_ensure_edges(a, b, event, start);
        }
    }
}

/// A run keeps the number of directories.
pub proof fn lemma_store_len(run: Seq<EnsurePoint>, root: Seq<char>, start: Store, k: int)
    requires
        is_ensure_run(run, root, start),
        0 <= k < run.len(),
    ensures
        run[k].store.len() == DICT_COUNT,
{
    lemma_ensure_run(run, root, start, k);
}

/// What is taken for complete is complete, or was taken for it before and is as it was. At every
/// point of a run over the store, from whatever it starts, whatever is refused and wherever the run
/// is cut short: a dictionary whose directory is ready was ready when the run began and has not
/// been touched, or holds every file of the dictionary, each with all of its contents.
pub proof fn law_ready_is_kept_or_complete(
    run: Seq<EnsurePoint>,
    root: Seq<char>,
    start: Store,
    k: int,
    j: int,
)
    requires
        is_ensure_run(run, root, start),
        0 <= k < run.len(),
        0 <= j < DICT_COUNT,
    ensures
        ready(run[k].store[j]) ==> (ready(start[j]) && run[k].store[j] == start[j])
            || dict_complete(run[k].store[j], j),
{
    lemma_ensure_run(run, root, start, k);
    if j < run[k].state.dict {
        assert(passed(run[k].store, start, j));
    }
}

/// Every dictionary of the store that is taken for complete is complete.
pub open spec fn sound(store: Store) -> bool {
    forall|j: int| 0 <= j < DICT_COUNT && ready(store[j]) ==> #[trigger] dict_complete(store[j], j)
}

/// A store in which what is taken for complete is complete stays one at every point of a run over
/// it. So does a store that is empty at first under all the runs over it, one after another, those
/// that fail or are cut short among them.
pub proof fn law_sound_store_stays_sound(
    run: Seq<EnsurePoint>,
    root: Seq<char>,
    start: Store,
    k: int,
)
    requires
        is_ensure_run(run, root, start),
        sound(start),
        0 <= k < run.len(),
    ensures
        sound(run[k].store),
{
    assert forall|j: int| 0 <= j < DICT_COUNT && ready(run[k].store[j]) implies #[trigger]
        dict_complete(run[k].store[j], j) by {
        law_ready_is_kept_or_complete(run, root, start, k, j);
        assert(ready(start[j]) ==> dict_complete(start[j], j));
    }
}

/// A dictionary that is ready when a run over the store begins is never touched.
pub proof fn law_ready_is_kept(
    run: Seq<EnsurePoint>,
    root: Seq<char>,
    start: Store,
    k: int,
    j: int,
)
    requires
        is_ensure_run(run, root, start),
        0 <= k < run.len(),
        0 <= j < DICT_COUNT,
        ready(start[j]),
    ensures
        run[k].store[j] == start[j],
        run[k].asked matches EnsureActionText::InDict { dict, op } ==> dict != j,
{
    lemma_ensure_run(run, root, start, k);
    if j < run[k].state.dict {
        assert(passed(run[k].store, start, j));
    }
}

/// A run over the store that finishes leaves every dictionary ready to be loaded: those that were
/// not ready are complete, and those that were are as they were.
pub proof fn law_finished_is_ready(
    run: Seq<EnsurePoint>,
    root: Seq<char>,
    start: Store,
    k: int,
    j: int,
)
    requires
        is_ensure_run(run, root, start),
        0 <= k < run.len(),
        run[k].asked is Finished,
        0 <= j < DICT_COUNT,
    ensures
        presence_of(run[k].store[j]).complete(),
        if ready(start[j]) {
            run[k].store[j] == start[j]
        } else {
            dict_complete(run[k].store[j], j)
        },
{
    lemma_ensure_run(run, root, start, k);
    assert(passed(run[k].store, start, j));
}

/// What the run over a store whose dictionaries are all ready asks for at its point `k`.
pub open spec fn looks_only(k: int) -> EnsureActionText {
    if k == 0 {
        EnsureActionText::CreateRoot
    } else if k <= DICT_COUNT {
        EnsureActionText::Probe { dict: k - 1 }
    } else {
        EnsureActionText::Finished
    }
}

/// A run over a store whose dictionaries are all ready changes nothing: it looks at each of them
/// and finishes, unless the root directory is refused. It asks for no operation on a dictionary's
/// directory and hands no memory back.
pub proof fn law_ready_store_is_left(
    run: Seq<EnsurePoint>,
    root: Seq<char>,
    start: Store,
    k: int,
)
    requires
        is_ensure_run(run, root, start),
        forall|j: int| 0 <= j < DICT_COUNT ==> ready(#[trigger] start[j]),
        0 <= k < run.len(),
    ensures
        run[k].store == start,
        run[k].asked == looks_only(k) || (k == 1 && run[k].asked is Failed),
        k <= DICT_COUNT + 1,
    decreases k,
{
    lemma_ensure_run(run, root, start, k);
    assert forall|j: int| 0 <= j < DICT_COUNT implies run[k].store[j] == start[j] by {
        law_ready_is_kept(run, root, start, k, j);
    }
    assert(run[k].store =~= start);
    assert(!some_unready(start, run[k].state.dict));
    if k > 0 {
        law_ready_store_is_left(run, root, start, k - 1);
        lemma_ensure_run(run, root, start, k - 1);
        assert(ensure_moves(run[k - 1], run[k]));
        assert(!some_unready(start, run[k - 1].state.dict));
    }
}

/// To run over the store again is to change nothing: a run that starts from what a finished run has
/// left leaves it as it is.
pub proof fn law_second_run_changes_nothing(
    first: Seq<EnsurePoint>,
    second: Seq<EnsurePoint>,
    root: Seq<char>,
    start: Store,
    k1: int,
    k2: int,
)
    requires
        is_ensure_run(first, root, start),
        0 <= k1 < first.len(),
        first[k1].asked is Finished,
        is_ensure_run(second, root, first[k1].store),
        0 <= k2 < second.len(),
    ensures
        second[k2].store == first[k1].store,
        second[k2].asked == looks_only(k2) || (k2 == 1 && second[k2].asked is Failed),
{
    assert forall|j: int| 0 <= j < DICT_COUNT implies ready(#[trigger] first[k1].store[j]) by {
        law_finished_is_ready(first, root, start, k1, j);
    }
    law_ready_store_is_left(second, root, first[k1].store, k2);
}

/// Memory is handed back once, at the end, and only by a run that has materialized a dictionary: a
/// run that finishes has handed memory back just before exactly if it found a dictionary that was
/// not ready, and behind the point that asks for it the run finishes and ends.
pub proof fn law_trim_follows_work(run: Seq<EnsurePoint>, root: Seq<char>, start: Store, k: int)
    requires
        is_ensure_run(run, root, start),
        0 < k < run.len(),
    ensures
        run[k].asked is Finished ==> (run[k - 1].asked is TrimHeap <==> some_unready(
            start,
            DICT_COUNT as int,
        )),
        run[k].asked is TrimHeap ==> some_unready(start, DICT_COUNT as int),
        run[k].asked is TrimHeap ==> run.len() <= k + 2,
        run[k].asked is TrimHeap && k + 1 < run.len() ==> run[k + 1].asked is Finished,
{
    lemma_ensure_run(run, root, start, k);
    lemma_ensure_run(run, root, start, k - 1);
    assert(ensure_moves(run[k - 1], run[k]));
    if run[k].asked is TrimHeap && k + 1 < run.len() {
        assert(ensure_moves(run[k], run[k + 1]));
        if k + 2 < run.len() {
            law_run_ends(run, root, start, k + 1);
        }
    }
}

/// A run that has finished or failed goes no further.
pub proof fn law_run_ends(run: Seq<EnsurePoint>, root: Seq<char>, start: Store, k: int)
    requires
        is_ensure_run(run, root, start),
        0 <= k < run.len(),
        run[k].asked is Finished || run[k].asked is Failed || run[k].asked is TooLarge,
    ensures
        run.len() == k + 1,
{
    if k + 1 < run.len() {
        assert(ensure_moves(run[k], run[k + 1]));
    }
}

/// A run that fails leaves the dictionaries before the one that it was at ready, those behind it as
/// they were, and that one as it was or without a marker.
pub proof fn law_failed_run_leaves(run: Seq<EnsurePoint>, root: Seq<char>, start: Store, k: int)
    requires
        is_ensure_run(run, root, start),
        0 <= k < run.len(),
        run[k].asked is Failed || run[k].asked is TooLarge,
    ensures
        0 <= run[k].state.dict < DICT_COUNT,
        forall|j: int|
            0 <= j < run[k].state.dict ==> ready(#[trigger] run[k].store[j]) && (if ready(
                start[j],
            ) {
                run[k].store[j] == start[j]
            } else {
                dict_complete(run[k].store[j], j)
            }),
        forall|j: int|
            run[k].state.dict < j < DICT_COUNT ==> #[trigger] run[k].store[j] == start[j],
        run[k].store[run[k].state.dict] == start[run[k].state.dict] || !marked(
            run[k].store[run[k].state.dict],
        ),
{
    lemma_ensure_run(run, root, start, k);
    let p = run[k];
    assert forall|j: int| 0 <= j < p.state.dict implies ready(#[trigger] p.store[j]) && (if ready(
        start[j],
    ) {
        p.store[j] == start[j]
    } else {
        dict_complete(p.store[j], j)
    }) by {
        assert(passed(p.store, start, j));
    }
}

/// The run goes from one point to the next without a refusal of the system.
pub open spec fn unrefused_moves(a: EnsurePoint, b: EnsurePoint) -> bool {
    exists|event: EnsureEventText|
        {
            &&& !(event is Refused)
            &&& a.state.awaits(event)
            &&& store_effect(a.asked, a.store, event, b.store)
            &&& #[trigger] a.state.follows(event, b.state, b.asked)
        }
}

/// The system refuses no action of the run.
pub open spec fn nothing_refused(run: Seq<EnsurePoint>) -> bool {
    forall|k: int| 0 < k < run.len() ==> unrefused_moves(run[k - 1], #[trigger] run[k])
}

/// Success is owed. A run of which the system refuses nothing fails only where the load of an
/// embedded copy is refused, or where a file of the loaded copy has no contents.
pub proof fn law_unrefused_run_goes_on(
    run: Seq<EnsurePoint>,
    root: Seq<char>,
    start: Store,
    k: int,
)
    requires
        is_ensure_run(run, root, start),
        nothing_refused(run),
        0 <= k < run.len(),
        run[k].asked is Failed || run[k].asked is TooLarge,
    ensures
        k > 0,
        run[k - 1].state.one matches Some(one) && is_blocked(
            one,
            if run[k].asked is TooLarge {
                MaterializeActionText::TooLarge
            } else {
                MaterializeActionText::Failed(run[k].asked->Failed_0)
            },
        ),
{
    let a = run[k - 1];
    let b = run[k];
    lemma_ensure_run(run, root, start, k - 1);
    assert(unrefused_moves(a, b));
    let event = choose|event: EnsureEventText|
        {
            &&& !(event is Refused)
            &&& a.state.awaits(event)
            &&& store_effect(a.asked, a.store, event, b.store)
            &&& #[trigger] a.state.follows(event, b.state, b.asked)
        };
    let one = a.state.one->Some_0;
    let at = a.state.dict;
    assert(a.state.stage == EnsureStage::Materialize);
    let (one2, asked2) = choose|one2: MaterializeState, asked2: MaterializeActionText|
        #![trigger one.follows(event.refused(), one2, asked2)]
        {
            &&& one.follows(event.refused(), one2, asked2)
            &&& a.state.carries(one2, asked2, b.state, b.asked)
        };
    lemma_performed_goes_on(
        one,
        MaterializeActionText::Perform(a.asked->op),
        a.store[at],
        at,
        start[at],
        one2,
        asked2,
    );
}

/// How many actions of a run are left, at most, with the one that was asked for last.
pub open spec fn ensure_rank(state: EnsureState) -> int {
    let left = DICT_COUNT - state.dict;
    match state.stage {
        EnsureStage::CreateRoot => 2 + DICT_COUNT * MOST_PER_DICT,
        EnsureStage::Probe => 1 + left * MOST_PER_DICT,
        EnsureStage::Materialize => 1 + (left - 1) * MOST_PER_DICT + materialize_rank(
            state.one->Some_0,
        ),
        EnsureStage::Trim => 1,
        _ => 0,
    }
}

/// The most actions that one dictionary takes: a look, the directory, the marker's removal, and
/// four for each file.
pub const MOST_PER_DICT: usize = 39;

/// Each point of a materialization leaves fewer operations than the one before.
proof fn lemma_materialize_shortens(
    state: MaterializeState,
    asked: MaterializeActionText,
    dir: Dir,
    dict: int,
    start: Dir,
    refused: Option<Seq<char>>,
    state2: MaterializeState,
    asked2: MaterializeActionText,
)
    requires
        materialize_invariant(state, asked, dir, dict, start),
        asked is Perform,
        state.follows(refused, state2, asked2),
    ensures
        materialize_rank(state2) < materialize_rank(state),
        0 < materialize_rank(state) <= MOST_PER_DICT - 1,
{
}

/// A run over the store comes to an end, whatever is refused: it asks for no more actions than a
/// look at each dictionary, the creation of its directory, the removal of its marker and the four
/// steps of each of its files make up, with the root's creation before them and the return of
/// memory behind.
pub proof fn law_run_is_bounded(run: Seq<EnsurePoint>, root: Seq<char>, start: Store, k: int)
    requires
        is_ensure_run(run, root, start),
        0 <= k < run.len(),
    ensures
        0 <= ensure_rank(run[k].state),
        k + ensure_rank(run[k].state) <= 2 + DICT_COUNT * MOST_PER_DICT,
    decreases k,
{
    lemma_ensure_run(run, root, start, k);
    if k > 0 {
        law_run_is_bounded(run, root, start, k - 1);
        lemma_ensure_run(run, root, start, k - 1);
        let a = run[k - 1];
        let b = run[k];
        assert(ensure_moves(a, b));
        let event = choose|event: EnsureEventText|
            {
                &&& a.state.awaits(event)
                &&& store_effect(a.asked, a.store, event, b.store)
                &&& #[trigger] a.state.follows(event, b.state, b.asked)
            };
        if a.state.stage == EnsureStage::Materialize {
            let one = a.state.one->Some_0;
            let (one2, asked2) = choose|one2: MaterializeState, asked2: MaterializeActionText|
                #![trigger one.follows(event.refused(), one2, asked2)]
                {
                    &&& one.follows(event.refused(), one2, asked2)
                    &&& a.state.carries(one2, asked2, b.state, b.asked)
                };
            lemma_materialize_shortens(
                one,
                MaterializeActionText::Perform(a.asked->op),
                a.store[a.state.dict],
                a.state.dict,
                start[a.state.dict],
                event.refused(),
                one2,
                asked2,
            );
        }
    }
}

/// What a run asks for is what it waits for, in the directory of the dictionary that it is at,
/// under its root.
pub open spec fn ensure_waits(state: EnsureState, asked: EnsureActionText, root: Seq<char>) -> bool {
    &&& state.root == root
    &&& match state.stage {
        EnsureStage::CreateRoot => asked is CreateRoot,
        EnsureStage::Probe => asked is Probe,
        EnsureStage::Materialize => {
            &&& state.one matches Some(one)
            &&& asked matches EnsureActionText::InDict { dict, op }
            &&& dict == state.dict
            &&& dict_waits_for(one, op, path_text(root, dict_name(dict)))
        },
        EnsureStage::Trim => asked is TrimHeap,
        EnsureStage::Finished => asked is Finished,
        EnsureStage::Failed => asked is Failed || asked is TooLarge,
    }
}

/// What a run asks for is what it waits for, at each of its points.
proof fn lemma_ensure_waits(run: Seq<EnsurePoint>, root: Seq<char>, start: Store, k: int)
    requires
        is_ensure_run(run, root, start),
        0 <= k < run.len(),
    ensures
        ensure_waits(run[k].state, run[k].asked, root),
    decreases k,
{
    if k > 0 {
        lemma_ensure_waits(run, root, start, k - 1);
        let a = run[k - 1];
        let b = run[k];
        assert(ensure_moves(a, b));
        let event = choose|event: EnsureEventText|
            {
                &&& a.state.awaits(event)
                &&& store_effect(a.asked, a.store, event, b.store)
                &&& #[trigger] a.state.follows(event, b.state, b.asked)
            };
        if a.state.stage == EnsureStage::Materialize {
            let one = a.state.one->Some_0;
            let (one2, asked2) = choose|one2: MaterializeState, asked2: MaterializeActionText|
                #![trigger one.follows(event.refused(), one2, asked2)]
                {
                    &&& one.follows(event.refused(), one2, asked2)
                    &&& a.state.carries(one2, asked2, b.state, b.asked)
                };
            lemma_waits_on(
                one,
                a.asked->op,
                path_text(root, dict_name(a.state.dict)),
                event.refused(),
                one2,
                asked2,
            );
        }
    }
}

/// A run reports what was refused: the refusal of the root directory, or of an operation on a
/// dictionary's directory, ends it with a failure that names the operation and its path under the
/// root, and carries the system's text. The request to carry a file to the medium, and that to hand
/// memory back, may be refused.
pub proof fn law_refusals_are_reported(
    run: Seq<EnsurePoint>,
    root: Seq<char>,
    start: Store,
    k: int,
    text: Seq<char>,
    after: EnsureState,
    asked: EnsureActionText,
)
    requires
        is_ensure_run(run, root, start),
        0 <= k < run.len(),
        run[k].state.follows(EnsureEventText::Refused(text), after, asked),
    ensures
        run[k].asked is CreateRoot ==> (asked matches EnsureActionText::Failed(f) && f.context
            == "mkdir "@ + root && f.cause == Some(text)),
        run[k].asked matches EnsureActionText::InDict { dict, op } ==> match dict_refusal(
            op,
            path_text(root, dict_name(dict)),
        ) {
            Some(context) => asked matches EnsureActionText::Failed(f) && f.context == context
                && f.cause == Some(text),
            None => asked is InDict,
        },
        run[k].asked is TrimHeap ==> asked is Finished,
{
    lemma_ensure_waits(run, root, start, k);
    if run[k].state.stage == EnsureStage::Materialize {
        let one = run[k].state.one->Some_0;
        let event = EnsureEventText::Refused(text);
        let (one2, asked2) = choose|one2: MaterializeState, asked2: MaterializeActionText|
            #![trigger one.follows(event.refused(), one2, asked2)]
            {
                &&& one.follows(event.refused(), one2, asked2)
                &&& run[k].state.carries(one2, asked2, after, asked)
            };
        lemma_dict_refusal_reported(
            one,
            run[k].asked->op,
            path_text(root, dict_name(run[k].state.dict)),
            text,
            one2,
            asked2,
        );
    }
}

/// Success is owed. A run of which neither the system nor a loader refuses anything, and of whose
/// loaded dictionaries each component fits an archive and is encoded, does not fail. With
/// [`law_run_is_bounded`] it finishes.
pub proof fn law_run_over_encodable_dictionaries_succeeds(
    run: Seq<EnsurePoint>,
    root: Seq<char>,
    start: Store,
    k: int,
)
    requires
        is_ensure_run(run, root, start),
        nothing_refused(run),
        0 <= k < run.len(),
        k > 0 ==> (run[k - 1].state.one matches Some(one) ==> (one.dictionary matches Some(d)
            ==> is_encodable(d))),
        k > 0 ==> (run[k].asked matches EnsureActionText::Failed(f) ==> !is_load_refusal(
            dict_uri(run[k - 1].state.dict),
            f,
        )),
    ensures
        !(run[k].asked is Failed),
        !(run[k].asked is TooLarge),
{
    if run[k].asked is Failed || run[k].asked is TooLarge {
        law_unrefused_run_goes_on(run, root, start, k);
        let a = run[k - 1];
        let b = run[k];
        lemma_ensure_run(run, root, start, k - 1);
        assert(unrefused_moves(a, b));
        let event = choose|event: EnsureEventText|
            {
                &&& !(event is Refused)
                &&& a.state.awaits(event)
                &&& store_effect(a.asked, a.store, event, b.store)
                &&& #[trigger] a.state.follows(event, b.state, b.asked)
            };
        let one = a.state.one->Some_0;
        let at = a.state.dict;
        let (one2, asked2) = choose|one2: MaterializeState, asked2: MaterializeActionText|
            #![trigger one.follows(event.refused(), one2, asked2)]
            {
                &&& one.follows(event.refused(), one2, asked2)
                &&& a.state.carries(one2, asked2, b.state, b.asked)
            };
        lemma_encodable_is_not_blocked(
            one,
            MaterializeActionText::Perform(a.asked->op),
            a.store[at],
            at,
            start[at],
            one2,
            asked2,
        );
    }
}

/// A run takes whatever comes of what it asks for: any finding where it looks, and elsewhere that
/// the action was performed, or any refusal.
pub proof fn law_run_takes_outcomes(
    run: Seq<EnsurePoint>,
    root: Seq<char>,
    start: Store,
    k: int,
    present: Presence,
    text: Seq<char>,
)
    requires
        is_ensure_run(run, root, start),
        0 <= k < run.len(),
    ensures
        run[k].asked is Probe ==> run[k].state.awaits(EnsureEventText::Probed(present)),
        run[k].asked is CreateRoot || run[k].asked is InDict || run[k].asked is TrimHeap
            ==> run[k].state.awaits(EnsureEventText::Done) && run[k].state.awaits(
            EnsureEventText::Refused(text),
        ),
{
    lemma_ensure_waits(run, root, start, k);
}

} // verus!
