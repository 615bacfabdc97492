//! What holds of a dictionary's directory while the dictionary is materialized, and after.

use vstd::prelude::*;

use lindera_dictionary::dictionary::Dictionary;

use crate::atomic::{FileOpText, WriteActionText, WriteStage};
use crate::dictionary::{
    component, image, is_load_refusal, loaded_from, metadata_json, metadata_of, reads_back, Image,
};
use crate::envelope::raw_envelope;
use crate::laws::write::{
    agree, file_effect, file_refusal, holds, lemma_write_step, waits_for, write_invariant,
    write_rank, Dir,
};
use crate::layout::{
    dict_uri, file_name, law_file_names, path_text, temp_text, Presence, DA_FILE, FILE_COUNT, METADATA_FILE,
    READY_MARKER,
};
use crate::materialize::{
    materialize_begun, DictOpText, MaterializeActionText, MaterializeStage, MaterializeState,
};

verus! {

/// What an operation makes of a dictionary's directory. The creation of the directory leaves the
/// files in it as they are; one that was not there had none. The removal of the marker, where it is
/// refused or cut short, has removed it or has not.
pub open spec fn dict_effect(op: DictOpText, before: Dir, refused: bool, after: Dir) -> bool {
    match op {
        DictOpText::CreateDir => after == before,
        DictOpText::RemoveMarker => {
            ||| after == before.remove(READY_MARKER@)
            ||| refused && after == before
        },
        DictOpText::File(op) => file_effect(op, before, refused, after),
    }
}

/// A point of the materialization of a dictionary.
pub struct MaterializePoint {
    pub state: MaterializeState,
    pub asked: MaterializeActionText,
    pub dir: Dir,
}

/// The materialization goes from one point to the next.
pub open spec fn materialize_moves(a: MaterializePoint, b: MaterializePoint) -> bool {
    &&& a.asked is Perform
    &&& exists|refused: Option<Seq<char>>|
        {
            &&& dict_effect(a.asked->Perform_0, a.dir, refused is Some, b.dir)
            &&& #[trigger] a.state.follows(refused, b.state, b.asked)
        }
}

/// The points are those of a materialization of dictionary `dict` that starts from the directory
/// `start`.
pub open spec fn is_materialize_run(
    run: Seq<MaterializePoint>,
    dict: int,
    path: Seq<char>,
    start: Dir,
) -> bool {
    &&& run.len() > 0
    &&& run[0].state == materialize_begun(dict, path)
    &&& run[0].asked == MaterializeActionText::Perform(DictOpText::CreateDir)
    &&& run[0].dir == start
    &&& forall|k: int| 0 < k < run.len() ==> materialize_moves(run[k - 1], #[trigger] run[k])
}

/// What a look at a directory finds.
pub open spec fn presence_of(dir: Dir) -> Presence {
    Presence {
        marker: dir.dom().contains(READY_MARKER@),
        da: dir.dom().contains(DA_FILE@),
        metadata: dir.dom().contains(METADATA_FILE@),
    }
}

/// The dictionary in the directory is taken for complete.
pub open spec fn ready(dir: Dir) -> bool {
    presence_of(dir).complete()
}

/// The marker is there.
pub open spec fn marked(dir: Dir) -> bool {
    presence_of(dir).marker
}

/// File `j` is there with the contents that it has for the dictionary `d`, which read back as the
/// component that they are made of.
pub open spec fn file_complete(dir: Dir, d: Dictionary, j: int) -> bool {
    &&& image(d, j) matches Image::Bytes(bytes)
    &&& holds(dir, file_name(j), bytes)
    &&& reads_back(d, j, bytes)
}

/// The first `n` files are complete for the dictionary `d`.
pub open spec fn files_complete(dir: Dir, d: Dictionary, n: int) -> bool {
    forall|j: int| 0 <= j < n ==> #[trigger] file_complete(dir, d, j)
}

/// No file in which contents are prepared is left.
pub open spec fn no_temps(dir: Dir) -> bool {
    forall|j: int|
        0 <= j < FILE_COUNT ==> !dir.dom().contains(temp_text(#[trigger] file_name(j)))
}

/// The directory holds all the files of the dictionary `d`, and none in which contents are
/// prepared.
pub open spec fn holds_dict(dir: Dir, d: Dictionary) -> bool {
    files_complete(dir, d, FILE_COUNT as int) && no_temps(dir)
}

/// The directory holds all the files of a dictionary that a load of the embedded copy gave, and
/// none in which contents are prepared.
pub open spec fn dict_complete(dir: Dir, dict: int) -> bool {
    exists|d: Dictionary|
        #![trigger loaded_from(dict_uri(dict), d)]
        loaded_from(dict_uri(dict), d) && holds_dict(dir, d)
}

/// Of the files in which the contents of the first `i` files were prepared none is left, but for
/// the one that serves file `i` too.
pub open spec fn temps_cleared(dir: Dir, i: int) -> bool {
    forall|j: int|
        0 <= j < i && temp_text(file_name(j)) != temp_text(file_name(i)) ==> !dir.dom().contains(
            temp_text(#[trigger] file_name(j)),
        )
}

/// What holds at each point of a materialization that started from `start`.
pub open spec fn materialize_invariant(
    state: MaterializeState,
    asked: MaterializeActionText,
    dir: Dir,
    dict: int,
    start: Dir,
) -> bool {
    &&& state.dict == dict
    &&& match state.stage {
        MaterializeStage::CreateDir => {
            &&& state.dictionary is None
            &&& asked == MaterializeActionText::Perform(DictOpText::CreateDir)
            &&& dir == start
        },
        MaterializeStage::RemoveMarker => {
            &&& state.dictionary matches Some(d)
            &&& loaded_from(dict_uri(dict), d)
            &&& asked == MaterializeActionText::Perform(DictOpText::RemoveMarker)
            &&& dir == start
        },
        MaterializeStage::Write => {
            let i = state.index;
            &&& state.dictionary matches Some(d)
            &&& state.write matches Some(w)
            &&& loaded_from(dict_uri(dict), d)
            &&& 0 <= i < FILE_COUNT
            &&& image(d, i) matches Image::Bytes(bytes)
            &&& reads_back(d, i, bytes)
            &&& files_complete(dir, d, i)
            &&& temps_cleared(dir, i)
            &&& !marked(dir)
            &&& w.waiting()
            &&& asked matches MaterializeActionText::Perform(DictOpText::File(op))
            &&& write_invariant(w, WriteActionText::Perform(op), dir, file_name(i), bytes, dir)
        },
        MaterializeStage::Finished => {
            &&& state.dictionary is None
            &&& asked == MaterializeActionText::Finished
            &&& dict_complete(dir, dict)
        },
        MaterializeStage::Failed => {
            &&& state.dictionary is None
            &&& (asked is Failed || asked is TooLarge)
            &&& dir == start || !marked(dir)
        },
    }
}

/// Files that are complete stay so where the directory agrees on them.
proof fn lemma_files_kept(before: Dir, after: Dir, d: Dictionary, n: int)
    requires
        files_complete(before, d, n),
        forall|j: int| 0 <= j < n ==> #[trigger] agree(after, before, file_name(j)),
    ensures
        files_complete(after, d, n),
{
    assert forall|j: int| 0 <= j < n implies #[trigger] file_complete(after, d, j) by {
        assert(file_complete(before, d, j));
        assert(agree(after, before, file_name(j)));
    }
}

/// The invariant of a materialization is kept from one point to the next.
pub proof fn lemma_materialize_step(
    state: MaterializeState,
    asked: MaterializeActionText,
    dir: Dir,
    refused: Option<Seq<char>>,
    state2: MaterializeState,
    asked2: MaterializeActionText,
    dir2: Dir,
    dict: int,
    start: Dir,
)
    requires
        materialize_invariant(state, asked, dir, dict, start),
        asked is Perform,
        dict_effect(asked->Perform_0, dir, refused is Some, dir2),
        state.follows(refused, state2, asked2),
    ensures
        materialize_invariant(state2, asked2, dir2, dict, start),
        state.dictionary matches Some(d) ==> {
            &&& state2.dictionary is Some ==> state2.dictionary == Some(d)
            &&& asked2 is Finished ==> holds_dict(dir2, d)
        },
{
    if state.stage == MaterializeStage::CreateDir {
    } else if state.stage == MaterializeStage::RemoveMarker {
        let d = state.dictionary->Some_0;
        assert(files_complete(dir2, d, 0));
        assert(temps_cleared(dir2, 0));
    } else {
        let i = state.index;
        let d = state.dictionary->Some_0;
        let w = state.write->Some_0;
        let op = asked->Perform_0->File_0;
        let bytes = image(d, i)->Bytes_0;
        let file = file_name(i);
        law_file_names(i, i);
        lemma_write_step(w, WriteActionText::Perform(op), dir, refused, dir2, file, bytes, dir);
        let (w2, a2) = w.next(refused);
        assert forall|j: int| 0 <= j < FILE_COUNT && j != i implies #[trigger] agree(
            dir2,
            dir,
            file_name(j),
        ) by {
            law_file_names(j, i);
        }
        lemma_files_kept(dir, dir2, d, i);
        assert forall|j: int|
            0 <= j < i && temp_text(file_name(j)) != temp_text(file) implies !dir2.dom().contains(
            temp_text(#[trigger] file_name(j)),
        ) by {
            law_file_names(i, j);
            assert(agree(dir2, dir, temp_text(file_name(j))));
        }
        assert(READY_MARKER@ == file_name(8));
        if i != 8 {
            assert(agree(dir2, dir, file_name(8)));
        }
        match a2 {
            WriteActionText::Perform(_) => {},
            WriteActionText::Failed(_) => {
                assert(agree(dir2, dir, file));
            },
            WriteActionText::Finished => {
                assert(file_complete(dir2, d, i));
                assert(files_complete(dir2, d, i + 1));
                if i + 1 == FILE_COUNT {
                    assert(no_temps(dir2));
                    assert(holds_dict(dir2, d));
                } else {
                    assert(temps_cleared(dir2, i + 1));
                }
            },
        }
    }
}

/// The invariant holds at each point of a materialization.
proof fn lemma_materialize_run(
    run: Seq<MaterializePoint>,
    dict: int,
    path: Seq<char>,
    start: Dir,
    k: int,
)
    requires
        is_materialize_run(run, dict, path, start),
        0 <= k < run.len(),
    ensures
        materialize_invariant(run[k].state, run[k].asked, run[k].dir, dict, start),
    decreases k,
{
    if k > 0 {
        lemma_materialize_run(run, dict, path, start, k - 1);
        let a = run[k - 1];
        let b = run[k];
        assert(materialize_moves(a, b));
        let refused = choose|refused: Option<Seq<char>>|
            {
                &&& dict_effect(a.asked->Perform_0, a.dir, refused is Some, b.dir)
                &&& #[trigger] a.state.follows(refused, b.state, b.asked)
            };
        lemma_materialize_step(
            a.state,
            a.asked,
            a.dir,
            refused,
            b.state,
            b.asked,
            b.dir,
            dict,
            start,
        );
    }
}

/// A complete dictionary is found ready.
pub proof fn lemma_complete_is_ready(dir: Dir, dict: int)
    requires
        dict_complete(dir, dict),
    ensures
        marked(dir),
        ready(dir),
{
    let d = choose|d: Dictionary|
        #![trigger loaded_from(dict_uri(dict), d)]
        loaded_from(dict_uri(dict), d) && holds_dict(dir, d);
    assert(file_complete(dir, d, 0));
    assert(file_complete(dir, d, 7));
    assert(file_complete(dir, d, 8));
    assert(file_name(0) == DA_FILE@);
    assert(file_name(7) == METADATA_FILE@);
    assert(file_name(8) == READY_MARKER@);
}

/// The marker stands for a dictionary that is complete. At every point of a materialization, from
/// whatever directory it starts, whatever is refused and wherever the run is cut short: where the
/// marker is there, the run has not touched the directory yet, or it has finished and the directory
/// holds every file of the dictionary, each with all of its contents, which read back as what they
/// were made of.
pub proof fn law_marker_means_complete(
    run: Seq<MaterializePoint>,
    dict: int,
    path: Seq<char>,
    start: Dir,
    k: int,
)
    requires
        is_materialize_run(run, dict, path, start),
        0 <= k < run.len(),
    ensures
        marked(run[k].dir) ==> run[k].dir == start || (run[k].asked is Finished && dict_complete(
            run[k].dir,
            dict,
        )),
{
    lemma_materialize_run(run, dict, path, start, k);
}

/// What is taken for complete is complete. A directory that is not ready becomes so exactly when
/// the materialization of its dictionary finishes, with every file of the dictionary in place.
/// Until then, and where the run fails or is cut short, it is not ready.
pub proof fn law_ready_means_complete(
    run: Seq<MaterializePoint>,
    dict: int,
    path: Seq<char>,
    start: Dir,
    k: int,
)
    requires
        is_materialize_run(run, dict, path, start),
        !ready(start),
        0 <= k < run.len(),
    ensures
        ready(run[k].dir) <==> run[k].asked is Finished,
        ready(run[k].dir) ==> dict_complete(run[k].dir, dict),
{
    lemma_materialize_run(run, dict, path, start, k);
    if run[k].asked is Finished {
        lemma_complete_is_ready(run[k].dir, dict);
    }
}

/// A materialization that finishes, from whatever directory it starts, has put every file of the
/// dictionary in place, left no file in which contents are prepared, and leaves the directory
/// ready.
pub proof fn law_finished_is_complete(
    run: Seq<MaterializePoint>,
    dict: int,
    path: Seq<char>,
    start: Dir,
    k: int,
)
    requires
        is_materialize_run(run, dict, path, start),
        0 <= k < run.len(),
        run[k].asked is Finished,
    ensures
        dict_complete(run[k].dir, dict),
        no_temps(run[k].dir),
        ready(run[k].dir),
{
    lemma_materialize_run(run, dict, path, start, k);
    lemma_complete_is_ready(run[k].dir, dict);
}

/// A materialization that has loaded the dictionary `d` and finishes has put the files of `d` in
/// place.
pub proof fn law_finished_holds_what_was_loaded(
    run: Seq<MaterializePoint>,
    dict: int,
    path: Seq<char>,
    start: Dir,
    d: Dictionary,
    i: int,
    k: int,
)
    requires
        is_materialize_run(run, dict, path, start),
        0 <= i <= k < run.len(),
        run[i].state.dictionary == Some(d),
    ensures
        run[k].asked is Finished ==> holds_dict(run[k].dir, d),
        run[k].asked is Perform ==> run[k].state.dictionary == Some(d),
    decreases k - i,
{
    lemma_materialize_run(run, dict, path, start, k);
    if i < k {
        law_finished_holds_what_was_loaded(run, dict, path, start, d, i, k - 1);
        lemma_materialize_run(run, dict, path, start, k - 1);
        let a = run[k - 1];
        let b = run[k];
        assert(materialize_moves(a, b));
        let refused = choose|refused: Option<Seq<char>>|
            {
                &&& dict_effect(a.asked->Perform_0, a.dir, refused is Some, b.dir)
                &&& #[trigger] a.state.follows(refused, b.state, b.asked)
            };
        lemma_materialize_step(
            a.state,
            a.asked,
            a.dir,
            refused,
            b.state,
            b.asked,
            b.dir,
            dict,
            start,
        );
    }
}

/// What a materialization leaves does not depend on what it found. Two of them that have loaded the
/// same dictionary and finish leave the same nine files, whatever their directories held before.
pub proof fn law_outcome_is_the_dictionary(
    first: Seq<MaterializePoint>,
    second: Seq<MaterializePoint>,
    dict: int,
    first_path: Seq<char>,
    second_path: Seq<char>,
    first_start: Dir,
    second_start: Dir,
    d: Dictionary,
    i1: int,
    i2: int,
    k1: int,
    k2: int,
    j: int,
)
    requires
        is_materialize_run(first, dict, first_path, first_start),
        is_materialize_run(second, dict, second_path, second_start),
        0 <= i1 <= k1 < first.len(),
        0 <= i2 <= k2 < second.len(),
        first[i1].state.dictionary == Some(d),
        second[i2].state.dictionary == Some(d),
        first[k1].asked is Finished,
        second[k2].asked is Finished,
        0 <= j < FILE_COUNT,
    ensures
        first[k1].dir.dom().contains(file_name(j)),
        agree(first[k1].dir, second[k2].dir, file_name(j)),
{
    law_finished_holds_what_was_loaded(first, dict, first_path, first_start, d, i1, k1);
    law_finished_holds_what_was_loaded(second, dict, second_path, second_start, d, i2, k2);
    assert(file_complete(first[k1].dir, d, j));
    assert(file_complete(second[k2].dir, d, j));
}

/// The materialization cannot go on though nothing was refused on disk: the load of the embedded
/// copy was refused, or the next file of the loaded copy has no contents, since an encoder refuses
/// them or they are past what an archive can hold.
pub open spec fn is_blocked(state: MaterializeState, asked: MaterializeActionText) -> bool {
    match state.stage {
        MaterializeStage::CreateDir => {
            &&& asked matches MaterializeActionText::Failed(f)
            &&& is_load_refusal(dict_uri(state.dict), f)
        },
        MaterializeStage::RemoveMarker => !(image(state.dictionary->Some_0, 0) is Bytes),
        MaterializeStage::Write => {
            &&& state.write->Some_0.stage == WriteStage::Rename
            &&& state.index + 1 < FILE_COUNT
            &&& !(image(state.dictionary->Some_0, state.index + 1) is Bytes)
        },
        _ => false,
    }
}

/// Success is owed. Where an operation of a materialization has been performed, the materialization
/// goes on or finishes, unless the load of the embedded copy was refused or the next file has no
/// contents.
pub proof fn law_performed_goes_on(
    run: Seq<MaterializePoint>,
    dict: int,
    path: Seq<char>,
    start: Dir,
    k: int,
    after: MaterializeState,
    asked: MaterializeActionText,
)
    requires
        is_materialize_run(run, dict, path, start),
        0 <= k < run.len(),
        run[k].asked is Perform,
        run[k].state.follows(None, after, asked),
    ensures
        asked is Perform || asked is Finished || is_blocked(run[k].state, asked),
{
    lemma_materialize_run(run, dict, path, start, k);
    lemma_performed_goes_on(run[k].state, run[k].asked, run[k].dir, dict, start, after, asked);
}

/// As [`law_performed_goes_on`], of a state of which the invariant holds.
pub proof fn lemma_performed_goes_on(
    state: MaterializeState,
    asked: MaterializeActionText,
    dir: Dir,
    dict: int,
    start: Dir,
    after: MaterializeState,
    asked2: MaterializeActionText,
)
    requires
        materialize_invariant(state, asked, dir, dict, start),
        asked is Perform,
        state.follows(None, after, asked2),
    ensures
        asked2 is Perform || asked2 is Finished || is_blocked(state, asked2),
{
}

/// How many operations of a materialization are left, at most, with the one that was asked for
/// last.
pub open spec fn materialize_rank(state: MaterializeState) -> int {
    match state.stage {
        MaterializeStage::CreateDir => 2 + 4 * FILE_COUNT,
        MaterializeStage::RemoveMarker => 1 + 4 * FILE_COUNT,
        MaterializeStage::Write => 4 * (FILE_COUNT - 1 - state.index) + write_rank(
            state.write->Some_0.stage,
        ),
        _ => 0,
    }
}

/// The name is that of a file of a dictionary, or of one in which such a file's contents are
/// prepared.
pub open spec fn is_dict_file(name: Seq<char>) -> bool {
    exists|i: int|
        0 <= i < FILE_COUNT && (name == #[trigger] file_name(i) || name == temp_text(
            file_name(i),
        ))
}

/// The operation that is asked for touches the files of the dictionary only, and so does the write
/// that is under way.
pub open spec fn keeps_to_dict(state: MaterializeState, asked: MaterializeActionText) -> bool {
    match state.stage {
        MaterializeStage::CreateDir => asked == MaterializeActionText::Perform(
            DictOpText::CreateDir,
        ),
        MaterializeStage::RemoveMarker => asked == MaterializeActionText::Perform(
            DictOpText::RemoveMarker,
        ),
        MaterializeStage::Write => {
            &&& 0 <= state.index < FILE_COUNT
            &&& state.write matches Some(w)
            &&& w.waiting()
            &&& w.file == file_name(state.index)
            &&& asked matches MaterializeActionText::Perform(DictOpText::File(op))
            &&& (op matches FileOpText::Create { temp } ==> temp == temp_text(w.file))
            &&& (op matches FileOpText::Write { temp, bytes } ==> temp == temp_text(w.file))
            &&& (op matches FileOpText::Rename { temp, file } ==> {
                &&& temp == temp_text(w.file)
                &&& file == w.file
            })
        },
        _ => !(asked is Perform),
    }
}

/// The operations of a materialization touch the files of the dictionary only.
proof fn lemma_keeps_to_dict(
    run: Seq<MaterializePoint>,
    dict: int,
    path: Seq<char>,
    start: Dir,
    k: int,
)
    requires
        is_materialize_run(run, dict, path, start),
        0 <= k < run.len(),
    ensures
        keeps_to_dict(run[k].state, run[k].asked),
    decreases k,
{
    if k > 0 {
        lemma_keeps_to_dict(run, dict, path, start, k - 1);
        assert(materialize_moves(run[k - 1], run[k]));
    }
}

/// Nothing else in the directory is touched. At every point of a materialization, from whatever
/// directory it starts, a file that is neither one of the dictionary's nor one in which such a
/// file's contents are prepared is as it was.
pub proof fn law_other_files_kept(
    run: Seq<MaterializePoint>,
    dict: int,
    path: Seq<char>,
    start: Dir,
    k: int,
    name: Seq<char>,
)
    requires
        is_materialize_run(run, dict, path, start),
        0 <= k < run.len(),
        !is_dict_file(name),
    ensures
        agree(run[k].dir, start, name),
    decreases k,
{
    if k > 0 {
        law_other_files_kept(run, dict, path, start, k - 1, name);
        lemma_keeps_to_dict(run, dict, path, start, k - 1);
        let a = run[k - 1];
        let b = run[k];
        assert(materialize_moves(a, b));
        if a.state.stage == MaterializeStage::RemoveMarker {
            assert(READY_MARKER@ == file_name(8));
        } else if a.state.stage == MaterializeStage::Write {
            let file = file_name(a.state.index);
            assert(name != file && name != temp_text(file));
            assert(agree(a.dir, b.dir, name));
        }
    }
}

/// What the refusal of an operation on the directory with the path `path` is called; `None` of the
/// one that may be refused.
pub open spec fn dict_refusal(op: DictOpText, path: Seq<char>) -> Option<Seq<char>> {
    match op {
        DictOpText::CreateDir => Some("mkdir "@ + path),
        DictOpText::RemoveMarker => Some("remove "@ + path_text(path, ".materialized"@)),
        DictOpText::File(op) => file_refusal(op, path),
    }
}

/// The operation is the one that the state of a materialization in the directory with the path
/// `path` waits for.
pub open spec fn dict_waits_for(state: MaterializeState, op: DictOpText, path: Seq<char>) -> bool {
    &&& state.dir == path
    &&& match state.stage {
        MaterializeStage::CreateDir => op == DictOpText::CreateDir,
        MaterializeStage::RemoveMarker => op == DictOpText::RemoveMarker,
        MaterializeStage::Write => {
            &&& state.write matches Some(w)
            &&& w.dir == path
            &&& op matches DictOpText::File(op)
            &&& waits_for(w, op)
        },
        _ => false,
    }
}

/// What a materialization asks for is what it waits for, and it stays with its directory.
pub proof fn lemma_waits_on(
    state: MaterializeState,
    op: DictOpText,
    path: Seq<char>,
    refused: Option<Seq<char>>,
    after: MaterializeState,
    asked: MaterializeActionText,
)
    requires
        dict_waits_for(state, op, path),
        state.follows(refused, after, asked),
    ensures
        asked matches MaterializeActionText::Perform(next) ==> dict_waits_for(after, next, path),
{
}

/// A refused operation ends the materialization, with a failure that says what was refused, at
/// which path, and carries the system's text; but for the request to carry a file to the medium.
pub proof fn lemma_dict_refusal_reported(
    state: MaterializeState,
    op: DictOpText,
    path: Seq<char>,
    text: Seq<char>,
    after: MaterializeState,
    asked: MaterializeActionText,
)
    requires
        dict_waits_for(state, op, path),
        state.follows(Some(text), after, asked),
    ensures
        match dict_refusal(op, path) {
            Some(context) => asked matches MaterializeActionText::Failed(f) && f.context == context
                && f.cause == Some(text),
            None => asked is Perform,
        },
{
}

/// What a materialization asks for is what it waits for, at each of its points.
proof fn lemma_run_waits(
    run: Seq<MaterializePoint>,
    dict: int,
    path: Seq<char>,
    start: Dir,
    k: int,
)
    requires
        is_materialize_run(run, dict, path, start),
        0 <= k < run.len(),
        run[k].asked is Perform,
    ensures
        dict_waits_for(run[k].state, run[k].asked->Perform_0, path),
    decreases k,
{
    if k > 0 {
        assert(materialize_moves(run[k - 1], run[k]));
        lemma_run_waits(run, dict, path, start, k - 1);
        let a = run[k - 1];
        let b = run[k];
        let refused = choose|refused: Option<Seq<char>>|
            {
                &&& dict_effect(a.asked->Perform_0, a.dir, refused is Some, b.dir)
                &&& #[trigger] a.state.follows(refused, b.state, b.asked)
            };
        lemma_waits_on(a.state, a.asked->Perform_0, path, refused, b.state, b.asked);
    }
}

/// A materialization reports what was refused: whatever operation it asks for, its refusal ends the
/// run with a failure that names the operation and its path in the dictionary's directory, and
/// carries the system's text; but for the request to carry a file to the medium.
pub proof fn law_dict_refusals_are_reported(
    run: Seq<MaterializePoint>,
    dict: int,
    path: Seq<char>,
    start: Dir,
    k: int,
    text: Seq<char>,
    after: MaterializeState,
    asked: MaterializeActionText,
)
    requires
        is_materialize_run(run, dict, path, start),
        0 <= k < run.len(),
        run[k].asked is Perform,
        run[k].state.follows(Some(text), after, asked),
    ensures
        match dict_refusal(run[k].asked->Perform_0, path) {
            Some(context) => asked matches MaterializeActionText::Failed(f) && f.context == context
                && f.cause == Some(text),
            None => asked is Perform,
        },
{
    lemma_run_waits(run, dict, path, start, k);
    lemma_dict_refusal_reported(
        run[k].state,
        run[k].asked->Perform_0,
        path,
        text,
        after,
        asked,
    );
}

/// Every file of the dictionary has contents: the archives and the JSON are made, and each
/// component is within what a 32-bit offset and the address space reach.
pub open spec fn is_encodable(d: Dictionary) -> bool {
    &&& forall|i: int|
        0 <= i < 7 ==> (#[trigger] component(d, i) matches Ok(payload) && payload.len()
            <= 0x7fff_fffc && payload.len() + 32 <= isize::MAX && raw_envelope(payload) is Ok)
    &&& metadata_json(metadata_of(d)) is Ok
}

/// Only a load that was refused, or a dictionary that cannot be encoded, keeps a materialization of
/// which nothing was refused from going on.
pub proof fn lemma_encodable_is_not_blocked(
    state: MaterializeState,
    asked: MaterializeActionText,
    dir: Dir,
    dict: int,
    start: Dir,
    after: MaterializeState,
    asked2: MaterializeActionText,
)
    requires
        materialize_invariant(state, asked, dir, dict, start),
        asked is Perform,
        state.follows(None, after, asked2),
    ensures
        ({
            ||| asked2 is Perform
            ||| asked2 is Finished
            ||| state.dictionary is None && (asked2 matches MaterializeActionText::Failed(f)
                && is_load_refusal(dict_uri(dict), f))
            ||| state.dictionary matches Some(d) && !is_encodable(d)
        }),
{
    lemma_performed_goes_on(state, asked, dir, dict, start, after, asked2);
    if state.dictionary is Some && is_encodable(state.dictionary->Some_0) {
        let d = state.dictionary->Some_0;
        if state.stage == MaterializeStage::RemoveMarker {
            assert(component(d, 0) is Ok);
        } else if state.stage == MaterializeStage::Write && state.index + 1 < 7 {
            assert(component(d, state.index + 1) is Ok);
        }
    }
}

/// Success is owed. A materialization whose operations are performed, whose embedded copy is
/// loaded, and each of whose components fits an archive and is encoded, goes on until it finishes:
/// no smaller bound on a component stops it.
pub proof fn law_encodable_dictionaries_are_materialized(
    run: Seq<MaterializePoint>,
    dict: int,
    path: Seq<char>,
    start: Dir,
    k: int,
    after: MaterializeState,
    asked: MaterializeActionText,
)
    requires
        is_materialize_run(run, dict, path, start),
        0 <= k < run.len(),
        run[k].asked is Perform,
        run[k].state.follows(None, after, asked),
        run[k].state.dictionary matches Some(d) ==> is_encodable(d),
    ensures
        ({
            ||| asked is Perform
            ||| asked is Finished
            ||| run[k].state.dictionary is None && (asked matches MaterializeActionText::Failed(f)
                && is_load_refusal(dict_uri(dict), f))
        }),
{
    lemma_materialize_run(run, dict, path, start, k);
    lemma_encodable_is_not_blocked(
        run[k].state,
        run[k].asked,
        run[k].dir,
        dict,
        start,
        after,
        asked,
    );
}

/// A materialization that asks for an operation takes its outcome, whatever it is.
pub proof fn law_materialization_takes_outcomes(
    run: Seq<MaterializePoint>,
    dict: int,
    path: Seq<char>,
    start: Dir,
    k: int,
)
    requires
        is_materialize_run(run, dict, path, start),
        0 <= k < run.len(),
    ensures
        run[k].asked is Perform ==> run[k].state.waiting(),
{
    lemma_materialize_run(run, dict, path, start, k);
}

} // verus!
