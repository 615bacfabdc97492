use vstd::prelude::*;

use lindera_dictionary::dictionary::Dictionary;

use crate::atomic::{
    write_atomic, write_begun, AtomicWrite, FileOp, FileOpText, WriteAction, WriteActionText,
    WriteState,
};
use crate::dictionary::{
    archivable, file_contents, image, is_load_refusal, load_embedded, loaded_from, reads_back,
    Contents, Image,
};
use crate::failure::{caused_failure, Failure, FailureText};
use crate::layout::{
    dict_uri, file_name, law_file_names, path_join, path_text, temp_text, DICT_COUNT, FILES,
    FILE_COUNT, READY_MARKER,
};
use crate::text::joined;

verus! {

/// One operation on a dictionary's directory.
pub enum DictOp {
    /// Create the directory, and those above it, where they are not there.
    CreateDir,
    /// Remove the marker. Where there is none, that is done.
    RemoveMarker,
    /// An operation on a file in it.
    File(FileOp),
}

/// A [`DictOp`] over texts and byte sequences.
#[verifier::ext_equal]
pub enum DictOpText {
    CreateDir,
    RemoveMarker,
    File(FileOpText),
}

impl View for DictOp {
    type V = DictOpText;

    open spec fn view(&self) -> DictOpText {
        match *self {
            DictOp::CreateDir => DictOpText::CreateDir,
            DictOp::RemoveMarker => DictOpText::RemoveMarker,
            DictOp::File(op) => DictOpText::File(op@),
        }
    }
}

/// What the materialization of a dictionary asks for next.
pub enum MaterializeAction {
    Perform(DictOp),
    Finished,
    Failed(Failure),
    /// A component is past what an archive can hold.
    TooLarge,
}

/// A [`MaterializeAction`] over texts and byte sequences.
#[verifier::ext_equal]
pub enum MaterializeActionText {
    Perform(DictOpText),
    Finished,
    Failed(FailureText),
    TooLarge,
}

impl View for MaterializeAction {
    type V = MaterializeActionText;

    open spec fn view(&self) -> MaterializeActionText {
        match *self {
            MaterializeAction::Perform(op) => MaterializeActionText::Perform(op@),
            MaterializeAction::Finished => MaterializeActionText::Finished,
            MaterializeAction::Failed(f) => MaterializeActionText::Failed(f@),
            MaterializeAction::TooLarge => MaterializeActionText::TooLarge,
        }
    }
}

/// What a materialization is at.
#[derive(Clone, Copy, PartialEq, Eq, Structural, Debug)]
pub enum MaterializeStage {
    /// The creation of the directory was asked for.
    CreateDir,
    /// The removal of the marker was asked for.
    RemoveMarker,
    /// A file is being written.
    Write,
    Finished,
    Failed,
}

/// The materialization of one dictionary, under way: its directory is created, the embedded copy
/// is loaded, a marker that an earlier run has left is removed, and the files are written one by
/// one, the marker last.
pub struct MaterializeOne {
    pub dict: usize,
    /// The text of the directory's path, for messages.
    pub dir: String,
    pub stage: MaterializeStage,
    /// The loaded copy, held until the last file is written.
    pub dictionary: Option<Dictionary>,
    /// The file that is being written.
    pub index: usize,
    pub write: Option<AtomicWrite>,
}

/// A [`MaterializeOne`] over texts and byte sequences.
#[verifier::ext_equal]
pub struct MaterializeState {
    pub dict: int,
    pub dir: Seq<char>,
    pub stage: MaterializeStage,
    pub dictionary: Option<Dictionary>,
    pub index: int,
    pub write: Option<WriteState>,
}

impl View for MaterializeOne {
    type V = MaterializeState;

    open spec fn view(&self) -> MaterializeState {
        MaterializeState {
            dict: self.dict as int,
            dir: self.dir@,
            stage: self.stage,
            dictionary: self.dictionary,
            index: self.index as int,
            write: match self.write {
                Some(w) => Some(w@),
                None => None,
            },
        }
    }
}

/// The state in which a materialization begins; the operation that goes with it is the creation
/// of the directory.
pub open spec fn materialize_begun(dict: int, dir: Seq<char>) -> MaterializeState {
    MaterializeState {
        dict,
        dir,
        stage: MaterializeStage::CreateDir,
        dictionary: None,
        index: 0,
        write: None,
    }
}

impl MaterializeState {
    /// An operation was asked for whose outcome is not known yet.
    pub open spec fn waiting(self) -> bool {
        ||| self.stage == MaterializeStage::CreateDir
        ||| self.stage == MaterializeStage::RemoveMarker
        ||| self.stage == MaterializeStage::Write
    }

    /// The state in which the materialization has come to an end. Nothing of the loaded copy is
    /// held any longer.
    pub open spec fn ended(self, stage: MaterializeStage) -> MaterializeState {
        MaterializeState { stage, dictionary: None, index: 0, write: None, ..self }
    }

    /// The state in which the copy `d` is loaded and the marker is being removed.
    pub open spec fn unmarking(self, d: Dictionary) -> MaterializeState {
        MaterializeState {
            stage: MaterializeStage::RemoveMarker,
            dictionary: Some(d),
            index: 0,
            write: None,
            ..self
        }
    }

    /// The state in which file `i` is being written, with the contents `bytes`.
    pub open spec fn writing(self, d: Dictionary, i: int, bytes: Seq<u8>) -> MaterializeState {
        MaterializeState {
            stage: MaterializeStage::Write,
            dictionary: Some(d),
            index: i,
            write: Some(write_begun(self.dir, file_name(i), bytes)),
            ..self
        }
    }

    /// `after` and `action` are what follows when file `i` of the dictionary `d` is taken up. What
    /// is written to a file reads back as the component that it is made of.
    pub open spec fn opens(
        self,
        d: Dictionary,
        i: int,
        after: MaterializeState,
        action: MaterializeActionText,
    ) -> bool {
        match image(d, i) {
            Image::Bytes(bytes) => {
                &&& reads_back(d, i, bytes)
                &&& after == self.writing(d, i, bytes)
                &&& action == MaterializeActionText::Perform(
                    DictOpText::File(FileOpText::Create { temp: temp_text(file_name(i)) }),
                )
            },
            Image::TooLarge => {
                &&& after == self.ended(MaterializeStage::Failed)
                &&& action == MaterializeActionText::TooLarge
            },
            refusal => {
                &&& after == self.ended(MaterializeStage::Failed)
                &&& action matches MaterializeActionText::Failed(f)
                &&& refusal.refused_as(f)
            },
        }
    }

    /// `after` and `action` are what follows once the directory is there and the load of the
    /// embedded copy has come back.
    pub open spec fn loads(
        self,
        after: MaterializeState,
        action: MaterializeActionText,
    ) -> bool {
        ||| {
            &&& after == self.ended(MaterializeStage::Failed)
            &&& action matches MaterializeActionText::Failed(f)
            &&& is_load_refusal(dict_uri(self.dict), f)
        }
        ||| {
            &&& after.dictionary matches Some(d)
            &&& loaded_from(dict_uri(self.dict), d)
            &&& after == self.unmarking(d)
            &&& action == MaterializeActionText::Perform(DictOpText::RemoveMarker)
        }
    }

    /// `after` and `action` are what follows once the operation asked for last has been
    /// performed, or refused with the text `refused`.
    pub open spec fn follows(
        self,
        refused: Option<Seq<char>>,
        after: MaterializeState,
        action: MaterializeActionText,
    ) -> bool {
        if self.stage == MaterializeStage::CreateDir {
            match refused {
                Some(text) => {
                    &&& after == self.ended(MaterializeStage::Failed)
                    &&& action == MaterializeActionText::Failed(
                        caused_failure("mkdir "@ + self.dir, text),
                    )
                },
                None => self.loads(after, action),
            }
        } else if self.stage == MaterializeStage::RemoveMarker {
            match refused {
                Some(text) => {
                    &&& after == self.ended(MaterializeStage::Failed)
                    &&& action == MaterializeActionText::Failed(
                        caused_failure("remove "@ + path_text(self.dir, READY_MARKER@), text),
                    )
                },
                None => self.opens(self.dictionary->Some_0, 0, after, action),
            }
        } else {
            let (write, asked) = self.write->Some_0.next(refused);
            match asked {
                WriteActionText::Perform(op) => {
                    &&& after == MaterializeState { write: Some(write), ..self }
                    &&& action == MaterializeActionText::Perform(DictOpText::File(op))
                },
                WriteActionText::Failed(f) => {
                    &&& after == self.ended(MaterializeStage::Failed)
                    &&& action == MaterializeActionText::Failed(f)
                },
                WriteActionText::Finished => if self.index + 1 == FILE_COUNT {
                    &&& after == self.ended(MaterializeStage::Finished)
                    &&& action == MaterializeActionText::Finished
                } else {
                    self.opens(self.dictionary->Some_0, self.index + 1, after, action)
                },
            }
        }
    }
}

/// Begins to materialize dictionary `dict` of the store in the directory with the path `dir`.
pub fn materialize_one(dict: usize, dir: &str) -> (r: (MaterializeOne, DictOp))
    requires
        dict < DICT_COUNT,
    ensures
        r.0.wf(),
        r.0@ == materialize_begun(dict as int, dir@),
        r.1@ == DictOpText::CreateDir,
{
    let one = MaterializeOne {
        dict,
        dir: dir.to_owned(),
        stage: MaterializeStage::CreateDir,
        dictionary: None,
        index: 0,
        write: None,
    };
    (one, DictOp::CreateDir)
}

impl MaterializeOne {
    /// A loaded copy is held while the marker is removed and files are written, and a write while
    /// files are written: it is that of the file at `index` and waits for an outcome.
    pub open spec fn wf(self) -> bool {
        &&& self.dict < DICT_COUNT
        &&& if self.stage == MaterializeStage::Write {
            &&& self.index < FILE_COUNT
            &&& self.dictionary matches Some(d)
            &&& archivable(d)
            &&& self.write matches Some(w)
            &&& w.wf()
            &&& w@.waiting()
            &&& w@.dir == self.dir@
            &&& w@.file == file_name(self.index as int)
        } else if self.stage == MaterializeStage::RemoveMarker {
            &&& self.dictionary matches Some(d)
            &&& archivable(d)
            &&& self.write is None
            &&& self.index == 0
        } else {
            self.dictionary is None && self.write is None && self.index == 0
        }
    }

    /// Ends the materialization and lets go of the loaded copy.
    fn end(&mut self, stage: MaterializeStage)
        requires
            old(self).dict < DICT_COUNT,
            stage == MaterializeStage::Finished || stage == MaterializeStage::Failed,
        ensures
            final(self).wf(),
            final(self)@ == old(self)@.ended(stage),
    {
        self.stage = stage;
        self.dictionary = None;
        self.index = 0;
        self.write = None;
    }

    /// Takes up file `i` of the dictionary `d`.
    fn open(&mut self, d: Dictionary, i: usize) -> (action: MaterializeAction)
        requires
            old(self).dict < DICT_COUNT,
            archivable(d),
            i < FILE_COUNT,
        ensures
            final(self).wf(),
            old(self)@.opens(d, i as int, final(self)@, action@),
    {
        match file_contents(&d, i) {
            Contents::Bytes(bytes) => {
                proof {
                    law_file_names(i as int, i as int);
                }
                let (write, op) = write_atomic(self.dir.as_str(), FILES[i], bytes);
                self.stage = MaterializeStage::Write;
                self.dictionary = Some(d);
                self.index = i;
                self.write = Some(write);
                MaterializeAction::Perform(DictOp::File(op))
            },
            Contents::Refused(f) => {
                self.end(MaterializeStage::Failed);
                MaterializeAction::Failed(f)
            },
            Contents::TooLarge => {
                self.end(MaterializeStage::Failed);
                MaterializeAction::TooLarge
            },
        }
    }

    /// Takes what the load of the embedded copy gave, once the directory is there.
    pub fn take_loaded(&mut self, loaded: Result<Dictionary, Failure>) -> (action:
        MaterializeAction)
        requires
            old(self).wf(),
            old(self)@.stage == MaterializeStage::CreateDir,
            loaded matches Ok(d) ==> archivable(d),
        ensures
            final(self).wf(),
            match loaded {
                Ok(d) => {
                    &&& final(self)@ == old(self)@.unmarking(d)
                    &&& action@ == MaterializeActionText::Perform(DictOpText::RemoveMarker)
                },
                Err(f) => {
                    &&& final(self)@ == old(self)@.ended(MaterializeStage::Failed)
                    &&& action@ == MaterializeActionText::Failed(f@)
                },
            },
    {
        match loaded {
            Ok(d) => {
                self.stage = MaterializeStage::RemoveMarker;
                self.dictionary = Some(d);
                MaterializeAction::Perform(DictOp::RemoveMarker)
            },
            Err(f) => {
                self.end(MaterializeStage::Failed);
                MaterializeAction::Failed(f)
            },
        }
    }

    /// Takes the outcome of the operation asked for last, `Err` with the system's text where it
    /// was refused, and says what is to be done next.
    pub fn step(&mut self, outcome: Result<(), String>) -> (action: MaterializeAction)
        requires
            old(self).wf(),
            old(self)@.waiting(),
        ensures
            final(self).wf(),
            old(self)@.follows(
                match outcome {
                    Ok(_) => None,
                    Err(text) => Some(text@),
                },
                final(self)@,
                action@,
            ),
    {
        if self.stage == MaterializeStage::CreateDir {
            match outcome {
                Ok(_) => {
                    let loaded = load_embedded(self.dict);
                    self.take_loaded(loaded)
                },
                Err(text) => {
                    let context = joined("mkdir ", self.dir.as_str());
                    self.end(MaterializeStage::Failed);
                    MaterializeAction::Failed(Failure::caused(context, text))
                },
            }
        } else if self.stage == MaterializeStage::RemoveMarker {
            match outcome {
                Ok(_) => {
                    let mut copy: Option<Dictionary> = None;
                    std::mem::swap(&mut copy, &mut self.dictionary);
                    self.open(copy.unwrap(), 0)
                },
                Err(text) => {
                    let path = path_join(self.dir.as_str(), READY_MARKER);
                    let context = joined("remove ", path.as_str());
                    self.end(MaterializeStage::Failed);
                    MaterializeAction::Failed(Failure::caused(context, text))
                },
            }
        } else {
            let mut held: Option<AtomicWrite> = None;
            std::mem::swap(&mut held, &mut self.write);
            let mut write = held.unwrap();
            match write.step(outcome) {
                WriteAction::Perform(op) => {
                    self.write = Some(write);
                    MaterializeAction::Perform(DictOp::File(op))
                },
                WriteAction::Failed(f) => {
                    self.end(MaterializeStage::Failed);
                    MaterializeAction::Failed(f)
                },
                WriteAction::Finished => {
                    let next: usize = self.index + 1;
                    if next == FILE_COUNT {
                        self.end(MaterializeStage::Finished);
                        MaterializeAction::Finished
                    } else {
                        let mut copy: Option<Dictionary> = None;
                        std::mem::swap(&mut copy, &mut self.dictionary);
                        self.open(copy.unwrap(), next)
                    }
                },
            }
        }
    }
}

} // verus!
