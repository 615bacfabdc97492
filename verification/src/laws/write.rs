//! What holds of the files of a directory while a write is carried out, and after.
//!
//! A directory is taken as a map from the names of its files to their contents. A run is a
//! sequence of points: the state of the run, what it asks for, and the files on disk. From one
//! point to the next the operation asked for is performed or refused. An operation that is refused,
//! or cut short, may have done a part of its work on the file in which contents are prepared; the
//! step that gives a file its name is done or is not.

use vstd::prelude::*;

use crate::atomic::{write_begun, FileOpText, WriteActionText, WriteStage, WriteState};
use crate::layout::{path_text, temp_text};

verus! {

/// The files of a directory.
pub type Dir = Map<Seq<char>, Seq<u8>>;

/// The two directories agree on the file `name`: it is in both with the same contents, or in
/// neither.
pub open spec fn agree(a: Dir, b: Dir, name: Seq<char>) -> bool {
    &&& a.dom().contains(name) == b.dom().contains(name)
    &&& a.dom().contains(name) ==> a[name] == b[name]
}

/// The two directories agree on every file but `name`.
pub open spec fn agree_but(a: Dir, b: Dir, name: Seq<char>) -> bool {
    forall|other: Seq<char>| other != name ==> #[trigger] agree(a, b, other)
}

/// The file `name` is there with the contents `bytes`.
pub open spec fn holds(dir: Dir, name: Seq<char>, bytes: Seq<u8>) -> bool {
    dir.dom().contains(name) && dir[name] == bytes
}

/// What an operation on a file makes of a directory.
pub open spec fn file_effect(op: FileOpText, before: Dir, refused: bool, after: Dir) -> bool {
    match op {
        FileOpText::Create { temp } => if refused {
            agree_but(before, after, temp)
        } else {
            after == before.insert(temp, Seq::empty())
        },
        FileOpText::Write { temp, bytes } => if refused {
            agree_but(before, after, temp)
        } else {
            after == before.insert(temp, bytes)
        },
        FileOpText::Sync { temp } => after == before,
        FileOpText::Rename { temp, file } => if refused {
            after == before
        } else {
            after == before.remove(temp).insert(file, before[temp])
        },
    }
}

/// A point of an atomic write.
pub struct WritePoint {
    pub state: WriteState,
    pub asked: WriteActionText,
    pub dir: Dir,
}

/// The write goes from one point to the next.
pub open spec fn write_moves(a: WritePoint, b: WritePoint) -> bool {
    &&& a.asked is Perform
    &&& exists|refused: Option<Seq<char>>|
        {
            &&& file_effect(a.asked->Perform_0, a.dir, refused is Some, b.dir)
            &&& (b.state, b.asked) == #[trigger] a.state.next(refused)
        }
}

/// The points are those of a write of `bytes` to `file` that starts from the directory `start`.
pub open spec fn is_write_run(
    run: Seq<WritePoint>,
    path: Seq<char>,
    file: Seq<char>,
    bytes: Seq<u8>,
    start: Dir,
) -> bool {
    &&& run.len() > 0
    &&& run[0].state == write_begun(path, file, bytes)
    &&& run[0].asked == WriteActionText::Perform(FileOpText::Create { temp: temp_text(file) })
    &&& run[0].dir == start
    &&& forall|k: int| 0 < k < run.len() ==> write_moves(run[k - 1], #[trigger] run[k])
}

/// What holds at each point of a write of `bytes` to `file` that started from `start`.
pub open spec fn write_invariant(
    state: WriteState,
    asked: WriteActionText,
    dir: Dir,
    file: Seq<char>,
    bytes: Seq<u8>,
    start: Dir,
) -> bool {
    let temp = temp_text(file);
    &&& state.file == file
    &&& forall|name: Seq<char>| name != file && name != temp ==> #[trigger] agree(dir, start, name)
    &&& match state.stage {
        WriteStage::Create => {
            &&& state.pending == bytes
            &&& asked == WriteActionText::Perform(FileOpText::Create { temp })
            &&& agree(dir, start, file)
        },
        WriteStage::Write => {
            &&& asked == WriteActionText::Perform(FileOpText::Write { temp, bytes })
            &&& agree(dir, start, file)
        },
        WriteStage::Sync => {
            &&& asked == WriteActionText::Perform(FileOpText::Sync { temp })
            &&& agree(dir, start, file)
            &&& holds(dir, temp, bytes)
        },
        WriteStage::Rename => {
            &&& asked == WriteActionText::Perform(FileOpText::Rename { temp, file })
            &&& agree(dir, start, file)
            &&& holds(dir, temp, bytes)
        },
        WriteStage::Finished => {
            &&& asked == WriteActionText::Finished
            &&& holds(dir, file, bytes)
            &&& !dir.dom().contains(temp)
        },
        WriteStage::Failed => {
            &&& asked is Failed
            &&& agree(dir, start, file)
        },
    }
}

/// The invariant of a write is kept from one point to the next.
pub proof fn lemma_write_step(
    state: WriteState,
    asked: WriteActionText,
    dir: Dir,
    refused: Option<Seq<char>>,
    dir2: Dir,
    file: Seq<char>,
    bytes: Seq<u8>,
    start: Dir,
)
    requires
        file != temp_text(file),
        write_invariant(state, asked, dir, file, bytes, start),
        asked is Perform,
        file_effect(asked->Perform_0, dir, refused is Some, dir2),
    ensures
        write_invariant(
            state.next(refused).0,
            state.next(refused).1,
            dir2,
            file,
            bytes,
            start,
        ),
{
    let temp = temp_text(file);
    assert forall|name: Seq<char>| name != file && name != temp implies #[trigger] agree(
        dir2,
        start,
        name,
    ) by {
        assert(agree(dir, start, name));
        if refused is Some {
            assert(agree_but(dir, dir2, temp) || dir2 == dir);
            assert(agree(dir, dir2, name));
        }
    }
    assert(agree(dir, start, file));
    if refused is Some {
        assert(agree_but(dir, dir2, temp) || dir2 == dir);
        assert(agree(dir, dir2, file));
    }
}

/// How many operations of a write are left, at most, with the one that was asked for last.
pub open spec fn write_rank(stage: WriteStage) -> int {
    match stage {
        WriteStage::Create => 4,
        WriteStage::Write => 3,
        WriteStage::Sync => 2,
        WriteStage::Rename => 1,
        _ => 0,
    }
}

/// The invariant holds at each point of a write.
proof fn lemma_write_run(
    run: Seq<WritePoint>,
    path: Seq<char>,
    file: Seq<char>,
    bytes: Seq<u8>,
    start: Dir,
    k: int,
)
    requires
        file != temp_text(file),
        is_write_run(run, path, file, bytes, start),
        0 <= k < run.len(),
    ensures
        write_invariant(run[k].state, run[k].asked, run[k].dir, file, bytes, start),
    decreases k,
{
    if k > 0 {
        lemma_write_run(run, path, file, bytes, start, k - 1);
        let a = run[k - 1];
        let b = run[k];
        assert(write_moves(a, b));
        let refused = choose|refused: Option<Seq<char>>|
            {
                &&& file_effect(a.asked->Perform_0, a.dir, refused is Some, b.dir)
                &&& (b.state, b.asked) == #[trigger] a.state.next(refused)
            };
        lemma_write_step(a.state, a.asked, a.dir, refused, b.dir, file, bytes, start);
    }
}

/// A write is atomic. At every point of it, whatever is refused and wherever it is cut short, the
/// file has all of the new contents or is as it was, and no file but it and the one in which the
/// contents are prepared has changed. A write that finishes has put the new contents in place and
/// left nothing behind; one that fails has not touched the file. A file that bears the name of the
/// one in which its contents are prepared is left out.
pub proof fn law_write_is_atomic(
    run: Seq<WritePoint>,
    path: Seq<char>,
    file: Seq<char>,
    bytes: Seq<u8>,
    start: Dir,
    k: int,
)
    requires
        file != temp_text(file),
        is_write_run(run, path, file, bytes, start),
        0 <= k < run.len(),
    ensures
        holds(run[k].dir, file, bytes) || agree(run[k].dir, start, file),
        forall|name: Seq<char>|
            name != file && name != temp_text(file) ==> #[trigger] agree(run[k].dir, start, name),
        run[k].asked is Finished ==> holds(run[k].dir, file, bytes) && !run[k].dir.dom().contains(
            temp_text(file),
        ),
        run[k].asked is Failed ==> agree(run[k].dir, start, file),
{
    lemma_write_run(run, path, file, bytes, start, k);
}

/// A write of which nothing is refused takes four steps: a file of another name is created, all of
/// the contents are written to it, the system is asked to carry them to the medium, and the file
/// takes its name. Then it is finished.
pub proof fn law_write_takes_four_steps(path: Seq<char>, file: Seq<char>, bytes: Seq<u8>)
    ensures
        ({
            let temp = temp_text(file);
            let (s1, a1) = write_begun(path, file, bytes).next(None);
            let (s2, a2) = s1.next(None);
            let (s3, a3) = s2.next(None);
            let (s4, a4) = s3.next(None);
            &&& a1 == WriteActionText::Perform(FileOpText::Write { temp, bytes })
            &&& a2 == WriteActionText::Perform(FileOpText::Sync { temp })
            &&& a3 == WriteActionText::Perform(FileOpText::Rename { temp, file })
            &&& a4 is Finished
        }),
{
}

/// A write never fails where nothing was refused.
pub proof fn law_write_fails_for_a_reason(state: WriteState)
    ensures
        !(state.next(None).1 is Failed),
{
}

/// What the refusal of an operation in the directory with the path `path` is called; `None` of the
/// one that may be refused.
pub open spec fn file_refusal(op: FileOpText, path: Seq<char>) -> Option<Seq<char>> {
    match op {
        FileOpText::Create { temp } => Some("create "@ + path_text(path, temp)),
        FileOpText::Write { temp, .. } => Some("write "@ + path_text(path, temp)),
        FileOpText::Sync { .. } => None,
        FileOpText::Rename { temp, file } => Some(
            "rename "@ + path_text(path, temp) + " -> "@ + path_text(path, file),
        ),
    }
}

/// The operation is the one that the state waits for.
pub open spec fn waits_for(state: WriteState, op: FileOpText) -> bool {
    match state.stage {
        WriteStage::Create => op == FileOpText::Create { temp: temp_text(state.file) },
        WriteStage::Write => op matches FileOpText::Write { temp, .. } && temp == temp_text(
            state.file,
        ),
        WriteStage::Sync => op == FileOpText::Sync { temp: temp_text(state.file) },
        WriteStage::Rename => op == FileOpText::Rename {
            temp: temp_text(state.file),
            file: state.file,
        },
        _ => false,
    }
}

/// A refused operation ends the write, with a failure that says what was refused, at which path,
/// and carries the system's text. A medium that cannot be reached does not: the file takes its name
/// all the same.
pub proof fn law_write_refusals_are_reported(state: WriteState, op: FileOpText, text: Seq<char>)
    requires
        waits_for(state, op),
    ensures
        match file_refusal(op, state.dir) {
            Some(context) => state.next(Some(text)).1 matches WriteActionText::Failed(f)
                && f.context == context && f.cause == Some(text),
            None => state.next(Some(text)).1 == WriteActionText::Perform(
                FileOpText::Rename { temp: temp_text(state.file), file: state.file },
            ),
        },
{
}

/// A write that asks for an operation takes its outcome, whatever it is.
pub proof fn law_write_takes_outcomes(
    run: Seq<WritePoint>,
    path: Seq<char>,
    file: Seq<char>,
    bytes: Seq<u8>,
    start: Dir,
    k: int,
)
    requires
        file != temp_text(file),
        is_write_run(run, path, file, bytes, start),
        0 <= k < run.len(),
    ensures
        run[k].asked is Perform ==> run[k].state.waiting(),
{
    lemma_write_run(run, path, file, bytes, start, k);
}

} // verus!
