use vstd::prelude::*;

use crate::failure::{caused_failure, Failure, FailureText};
use crate::layout::{is_file_name, path_join, path_text, temp_name, temp_text};
use crate::text::joined;

verus! {

/// One operation on the files of a directory.
pub enum FileOp {
    /// Create the file `temp`, or empty it where it is there.
    Create { temp: String },
    /// Write all of `bytes` to the file `temp` that was created.
    Write { temp: String, bytes: Vec<u8> },
    /// Ask the system to carry the contents of `temp` to the medium, then close it. Whether the
    /// system does so is not asked.
    Sync { temp: String },
    /// Give the file `temp` the name `file`, in place of what bears that name.
    Rename { temp: String, file: String },
}

/// A [`FileOp`] over texts and byte sequences.
#[verifier::ext_equal]
pub enum FileOpText {
    Create { temp: Seq<char> },
    Write { temp: Seq<char>, bytes: Seq<u8> },
    Sync { temp: Seq<char> },
    Rename { temp: Seq<char>, file: Seq<char> },
}

impl View for FileOp {
    type V = FileOpText;

    open spec fn view(&self) -> FileOpText {
        match *self {
            FileOp::Create { temp } => FileOpText::Create { temp: temp@ },
            FileOp::Write { temp, bytes } => FileOpText::Write { temp: temp@, bytes: bytes@ },
            FileOp::Sync { temp } => FileOpText::Sync { temp: temp@ },
            FileOp::Rename { temp, file } => FileOpText::Rename { temp: temp@, file: file@ },
        }
    }
}

/// The operation of an atomic write that was asked for last.
#[derive(Clone, Copy, PartialEq, Eq, Structural, Debug)]
pub enum WriteStage {
    Create,
    Write,
    Sync,
    Rename,
    /// The file bears its name.
    Finished,
    /// An operation was refused.
    Failed,
}

/// A write that is under way: contents are prepared in a file of another name and take the name
/// of `file` in one step.
pub struct AtomicWrite {
    /// The text of the directory's path, for messages.
    pub dir: String,
    pub file: String,
    /// The contents, until they are handed out.
    pub bytes: Vec<u8>,
    pub stage: WriteStage,
}

/// An [`AtomicWrite`] over texts and byte sequences. `pending` holds the contents until they are
/// handed out.
#[verifier::ext_equal]
pub struct WriteState {
    pub dir: Seq<char>,
    pub file: Seq<char>,
    pub pending: Seq<u8>,
    pub stage: WriteStage,
}

/// What an atomic write asks for next.
pub enum WriteAction {
    Perform(FileOp),
    Finished,
    Failed(Failure),
}

/// A [`WriteAction`] over texts and byte sequences.
#[verifier::ext_equal]
pub enum WriteActionText {
    Perform(FileOpText),
    Finished,
    Failed(FailureText),
}

impl View for WriteAction {
    type V = WriteActionText;

    open spec fn view(&self) -> WriteActionText {
        match *self {
            WriteAction::Perform(op) => WriteActionText::Perform(op@),
            WriteAction::Finished => WriteActionText::Finished,
            WriteAction::Failed(f) => WriteActionText::Failed(f@),
        }
    }
}

impl View for AtomicWrite {
    type V = WriteState;

    open spec fn view(&self) -> WriteState {
        WriteState {
            dir: self.dir@,
            file: self.file@,
            pending: self.bytes@,
            stage: self.stage,
        }
    }
}

impl WriteState {
    /// An operation was asked for whose outcome is not known yet.
    pub open spec fn waiting(self) -> bool {
        self.stage != WriteStage::Finished && self.stage != WriteStage::Failed
    }

    /// The path of the file in which the contents are prepared.
    pub open spec fn temp_path(self) -> Seq<char> {
        path_text(self.dir, temp_text(self.file))
    }

    /// What the refusal of the operation asked for last is called. A medium that cannot be
    /// reached is no failure.
    pub open spec fn refusal(self) -> Seq<char> {
        match self.stage {
            WriteStage::Create => "create "@ + self.temp_path(),
            WriteStage::Write => "write "@ + self.temp_path(),
            _ => "rename "@ + self.temp_path() + " -> "@ + path_text(self.dir, self.file),
        }
    }

    /// The state and the action that follow once the operation asked for last has been
    /// performed, or refused with the text `refused`.
    pub open spec fn next(self, refused: Option<Seq<char>>) -> (WriteState, WriteActionText) {
        let temp = temp_text(self.file);
        match (self.stage, refused) {
            (WriteStage::Create, None) => (
                WriteState { pending: Seq::empty(), stage: WriteStage::Write, ..self },
                WriteActionText::Perform(FileOpText::Write { temp, bytes: self.pending }),
            ),
            (WriteStage::Write, None) => (
                WriteState { stage: WriteStage::Sync, ..self },
                WriteActionText::Perform(FileOpText::Sync { temp }),
            ),
            (WriteStage::Sync, _) => (
                WriteState { stage: WriteStage::Rename, ..self },
                WriteActionText::Perform(FileOpText::Rename { temp, file: self.file }),
            ),
            (WriteStage::Rename, None) => (
                WriteState { stage: WriteStage::Finished, ..self },
                WriteActionText::Finished,
            ),
            (_, Some(text)) => (
                WriteState { stage: WriteStage::Failed, ..self },
                WriteActionText::Failed(caused_failure(self.refusal(), text)),
            ),
            (_, None) => (self, WriteActionText::Finished),
        }
    }
}

/// The state in which the write of `bytes` to `file` begins; the operation that goes with it is
/// the creation of the file in which the contents are prepared.
pub open spec fn write_begun(dir: Seq<char>, file: Seq<char>, bytes: Seq<u8>) -> WriteState {
    WriteState { dir, file, pending: bytes, stage: WriteStage::Create }
}

/// Begins to write `bytes` to the file `file` of the directory with the path `dir`.
pub fn write_atomic(dir: &str, file: &str, bytes: Vec<u8>) -> (r: (AtomicWrite, FileOp))
    requires
        is_file_name(file@),
    ensures
        r.0.wf(),
        r.0@ == write_begun(dir@, file@, bytes@),
        r.1@ == (FileOpText::Create { temp: temp_text(file@) }),
{
    let write = AtomicWrite {
        dir: dir.to_owned(),
        file: file.to_owned(),
        bytes,
        stage: WriteStage::Create,
    };
    (write, FileOp::Create { temp: temp_name(file) })
}

impl AtomicWrite {
    /// The file has a name from which that of the file beside it can be made.
    pub open spec fn wf(self) -> bool {
        is_file_name(self.file@)
    }

    /// Takes the outcome of the operation asked for last, `Err` with the system's text where it
    /// was refused, and says what is to be done next.
    pub fn step(&mut self, outcome: Result<(), String>) -> (action: WriteAction)
        requires
            old(self).wf(),
            old(self)@.waiting(),
        ensures
            final(self).wf(),
            (final(self)@, action@) == old(self)@.next(
                match outcome {
                    Ok(_) => None,
                    Err(text) => Some(text@),
                },
            ),
    {
        let temp = temp_name(self.file.as_str());
        match outcome {
            Err(text) => {
                if self.stage == WriteStage::Sync {
                    self.stage = WriteStage::Rename;
                    let file = self.file.clone();
                    return WriteAction::Perform(FileOp::Rename { temp, file });
                }
                let temp_path = path_join(self.dir.as_str(), temp.as_str());
                let context = if self.stage == WriteStage::Create {
                    joined("create ", temp_path.as_str())
                } else if self.stage == WriteStage::Write {
                    joined("write ", temp_path.as_str())
                } else {
                    let path = path_join(self.dir.as_str(), self.file.as_str());
                    let mut context = joined("rename ", temp_path.as_str());
                    context.append(" -> ");
                    context.append(path.as_str());
                    context
                };
                self.stage = WriteStage::Failed;
                WriteAction::Failed(Failure::caused(context, text))
            },
            Ok(_) => {
                if self.stage == WriteStage::Create {
                    let mut bytes: Vec<u8> = Vec::new();
                    std::mem::swap(&mut bytes, &mut self.bytes);
                    self.stage = WriteStage::Write;
                    assert(self.bytes@ =~= Seq::empty());
                    WriteAction::Perform(FileOp::Write { temp, bytes })
                } else if self.stage == WriteStage::Write {
                    self.stage = WriteStage::Sync;
                    WriteAction::Perform(FileOp::Sync { temp })
                } else if self.stage == WriteStage::Sync {
                    self.stage = WriteStage::Rename;
                    let file = self.file.clone();
                    WriteAction::Perform(FileOp::Rename { temp, file })
                } else {
                    self.stage = WriteStage::Finished;
                    WriteAction::Finished
                }
            },
        }
    }
}

} // verus!
