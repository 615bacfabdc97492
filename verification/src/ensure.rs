use vstd::prelude::*;

use crate::failure::{caused_failure, Failure, FailureText};
use crate::layout::{
    dict_is_ready, dict_name, path_join, path_text, Presence, DICTS, DICT_COUNT,
};
use crate::materialize::{
    materialize_begun, materialize_one, DictOp, DictOpText, MaterializeAction,
    MaterializeActionText, MaterializeOne, MaterializeState,
};
use crate::text::joined;

verus! {

/// What a run over the store asks for next.
pub enum EnsureAction {
    /// Create the root directory, and those above it, where they are not there.
    CreateRoot,
    /// Look which of the files that tell whether a dictionary is complete are present.
    Probe { dict: usize },
    /// An operation on the directory of a dictionary.
    InDict { dict: usize, op: DictOp },
    /// Hand the memory that was freed back to the system.
    TrimHeap,
    Finished,
    Failed(Failure),
    /// A component is past what an archive can hold.
    TooLarge,
}

/// An [`EnsureAction`] over texts and byte sequences.
#[verifier::ext_equal]
pub enum EnsureActionText {
    CreateRoot,
    Probe { dict: int },
    InDict { dict: int, op: DictOpText },
    TrimHeap,
    Finished,
    Failed(FailureText),
    TooLarge,
}

impl View for EnsureAction {
    type V = EnsureActionText;

    open spec fn view(&self) -> EnsureActionText {
        match *self {
            EnsureAction::CreateRoot => EnsureActionText::CreateRoot,
            EnsureAction::Probe { dict } => EnsureActionText::Probe { dict: dict as int },
            EnsureAction::InDict { dict, op } => EnsureActionText::InDict {
                dict: dict as int,
                op: op@,
            },
            EnsureAction::TrimHeap => EnsureActionText::TrimHeap,
            EnsureAction::Finished => EnsureActionText::Finished,
            EnsureAction::Failed(f) => EnsureActionText::Failed(f@),
            EnsureAction::TooLarge => EnsureActionText::TooLarge,
        }
    }
}

/// What came of an action.
pub enum EnsureEvent {
    /// It was performed.
    Done,
    /// The system refused it, with this text.
    Refused(String),
    /// These files are present.
    Probed(Presence),
}

/// An [`EnsureEvent`] over texts.
#[verifier::ext_equal]
pub enum EnsureEventText {
    Done,
    Refused(Seq<char>),
    Probed(Presence),
}

impl View for EnsureEvent {
    type V = EnsureEventText;

    open spec fn view(&self) -> EnsureEventText {
        match *self {
            EnsureEvent::Done => EnsureEventText::Done,
            EnsureEvent::Refused(text) => EnsureEventText::Refused(text@),
            EnsureEvent::Probed(present) => EnsureEventText::Probed(present),
        }
    }
}

impl EnsureEventText {
    /// The text of the refusal, where it is one.
    pub open spec fn refused(self) -> Option<Seq<char>> {
        match self {
            EnsureEventText::Refused(text) => Some(text),
            _ => None,
        }
    }
}

/// What a run over the store is at.
#[derive(Clone, Copy, PartialEq, Eq, Structural, Debug)]
pub enum EnsureStage {
    CreateRoot,
    Probe,
    Materialize,
    Trim,
    Finished,
    Failed,
}

/// A run over the store, under way: each dictionary that is not complete on disk is materialized,
/// in the order of the store.
pub struct EnsureMaterialized {
    /// The text of the root's path, for messages.
    pub root: String,
    pub stage: EnsureStage,
    /// The dictionary that the run is at.
    pub dict: usize,
    /// Whether the run has materialized a dictionary.
    pub materialized_any: bool,
    pub one: Option<MaterializeOne>,
}

/// An [`EnsureMaterialized`] over texts and byte sequences.
#[verifier::ext_equal]
pub struct EnsureState {
    pub root: Seq<char>,
    pub stage: EnsureStage,
    pub dict: int,
    pub materialized_any: bool,
    pub one: Option<MaterializeState>,
}

impl View for EnsureMaterialized {
    type V = EnsureState;

    open spec fn view(&self) -> EnsureState {
        EnsureState {
            root: self.root@,
            stage: self.stage,
            dict: self.dict as int,
            materialized_any: self.materialized_any,
            one: match self.one {
                Some(one) => Some(one@),
                None => None,
            },
        }
    }
}

/// The state in which a run over the store begins; the action that goes with it is the creation
/// of the root directory.
pub open spec fn ensure_begun(root: Seq<char>) -> EnsureState {
    EnsureState {
        root,
        stage: EnsureStage::CreateRoot,
        dict: 0,
        materialized_any: false,
        one: None,
    }
}

impl EnsureState {
    /// The state waits for this kind of event.
    pub open spec fn awaits(self, event: EnsureEventText) -> bool {
        match self.stage {
            EnsureStage::CreateRoot | EnsureStage::Materialize | EnsureStage::Trim => !(
            event is Probed),
            EnsureStage::Probe => event is Probed,
            _ => false,
        }
    }

    /// The path of the directory of the dictionary that the run is at.
    pub open spec fn dict_path(self) -> Seq<char> {
        path_text(self.root, dict_name(self.dict))
    }

    /// What follows once the dictionaries before `dict` are complete: a look at this one or, where
    /// there is none left, the end, with the freed memory handed back if any was materialized.
    pub open spec fn moved_to(self, dict: int) -> (EnsureState, EnsureActionText) {
        if dict < DICT_COUNT {
            (
                EnsureState { stage: EnsureStage::Probe, dict, one: None, ..self },
                EnsureActionText::Probe { dict },
            )
        } else if self.materialized_any {
            (
                EnsureState { stage: EnsureStage::Trim, dict, one: None, ..self },
                EnsureActionText::TrimHeap,
            )
        } else {
            (
                EnsureState { stage: EnsureStage::Finished, dict, one: None, ..self },
                EnsureActionText::Finished,
            )
        }
    }

    /// The state in which the run has failed.
    pub open spec fn failed(self) -> EnsureState {
        EnsureState { stage: EnsureStage::Failed, one: None, ..self }
    }

    /// `after` and `action` are what follows when the materialization under way has come to the
    /// state `one` and asks for `asked`.
    pub open spec fn carries(
        self,
        one: MaterializeState,
        asked: MaterializeActionText,
        after: EnsureState,
        action: EnsureActionText,
    ) -> bool {
        match asked {
            MaterializeActionText::Perform(op) => {
                &&& after == EnsureState { one: Some(one), ..self }
                &&& action == EnsureActionText::InDict { dict: self.dict, op }
            },
            MaterializeActionText::Finished => (after, action) == (EnsureState {
                materialized_any: true,
                ..self
            }).moved_to(self.dict + 1),
            MaterializeActionText::Failed(f) => {
                &&& after == self.failed()
                &&& action == EnsureActionText::Failed(f)
            },
            MaterializeActionText::TooLarge => {
                &&& after == self.failed()
                &&& action == EnsureActionText::TooLarge
            },
        }
    }

    /// `after` and `action` are what follows the event.
    pub open spec fn follows(
        self,
        event: EnsureEventText,
        after: EnsureState,
        action: EnsureActionText,
    ) -> bool {
        match self.stage {
            EnsureStage::CreateRoot => match event {
                EnsureEventText::Refused(text) => {
                    &&& after == self.failed()
                    &&& action == EnsureActionText::Failed(
                        caused_failure("mkdir "@ + self.root, text),
                    )
                },
                _ => (after, action) == self.moved_to(0),
            },
            EnsureStage::Probe => if event->Probed_0.complete() {
                (after, action) == self.moved_to(self.dict + 1)
            } else {
                &&& after == EnsureState {
                    stage: EnsureStage::Materialize,
                    one: Some(materialize_begun(self.dict, self.dict_path())),
                    ..self
                }
                &&& action == EnsureActionText::InDict {
                    dict: self.dict,
                    op: DictOpText::CreateDir,
                }
            },
            EnsureStage::Materialize => exists|one: MaterializeState, asked: MaterializeActionText|
                #![trigger self.one->Some_0.follows(event.refused(), one, asked)]
                {
                    &&& self.one->Some_0.follows(event.refused(), one, asked)
                    &&& self.carries(one, asked, after, action)
                },
            _ => {
                &&& after == EnsureState { stage: EnsureStage::Finished, ..self }
                &&& action == EnsureActionText::Finished
            },
        }
    }
}

/// Begins a run over the store under the root with the path `root`.
pub fn ensure_materialized(root: &str) -> (r: (EnsureMaterialized, EnsureAction))
    ensures
        r.0.wf(),
        r.0@ == ensure_begun(root@),
        r.1@ == EnsureActionText::CreateRoot,
{
    let run = EnsureMaterialized {
        root: root.to_owned(),
        stage: EnsureStage::CreateRoot,
        dict: 0,
        materialized_any: false,
        one: None,
    };
    (run, EnsureAction::CreateRoot)
}

impl EnsureMaterialized {
    /// A materialization is held exactly while one is under way, and is that of the dictionary
    /// that the run is at.
    pub open spec fn wf(self) -> bool {
        &&& self.dict <= DICT_COUNT
        &&& self.stage == EnsureStage::Probe ==> self.dict < DICT_COUNT
        &&& if self.stage == EnsureStage::Materialize {
            &&& self.dict < DICT_COUNT
            &&& self.one matches Some(one)
            &&& one.wf()
            &&& one@.waiting()
            &&& one@.dict == self.dict
            &&& one@.dir == self@.dict_path()
        } else {
            self.one is None
        }
    }

    /// Goes on to the dictionary `dict`, or to the end.
    fn move_to(&mut self, dict: usize) -> (action: EnsureAction)
        requires
            dict <= DICT_COUNT,
        ensures
            final(self).wf(),
            (final(self)@, action@) == old(self)@.moved_to(dict as int),
    {
        self.dict = dict;
        self.one = None;
        if dict < DICT_COUNT {
            self.stage = EnsureStage::Probe;
            EnsureAction::Probe { dict }
        } else if self.materialized_any {
            self.stage = EnsureStage::Trim;
            EnsureAction::TrimHeap
        } else {
            self.stage = EnsureStage::Finished;
            EnsureAction::Finished
        }
    }

    /// Takes what came of the action asked for last and says what is to be done next.
    pub fn step(&mut self, event: EnsureEvent) -> (action: EnsureAction)
        requires
            old(self).wf(),
            old(self)@.awaits(event@),
        ensures
            final(self).wf(),
            old(self)@.follows(event@, final(self)@, action@),
    {
        match self.stage {
            EnsureStage::CreateRoot => match event {
                EnsureEvent::Refused(text) => {
                    let context = joined("mkdir ", self.root.as_str());
                    self.stage = EnsureStage::Failed;
                    EnsureAction::Failed(Failure::caused(context, text))
                },
                _ => self.move_to(0),
            },
            EnsureStage::Probe => {
                let ready = match event {
                    EnsureEvent::Probed(present) => dict_is_ready(present),
                    _ => false,
                };
                if ready {
                    let next: usize = self.dict + 1;
                    self.move_to(next)
                } else {
                    let dir = path_join(self.root.as_str(), DICTS[self.dict].0);
                    let (one, op) = materialize_one(self.dict, dir.as_str());
                    self.stage = EnsureStage::Materialize;
                    self.one = Some(one);
                    EnsureAction::InDict { dict: self.dict, op }
                }
            },
            EnsureStage::Materialize => {
                let outcome = match event {
                    EnsureEvent::Refused(text) => Err(text),
                    _ => Ok(()),
                };
                let mut held: Option<MaterializeOne> = None;
                std::mem::swap(&mut held, &mut self.one);
                let mut one = held.unwrap();
                let asked = one.step(outcome);
                assert(old(self)@.one->Some_0.follows(event@.refused(), one@, asked@));
                match asked {
                    MaterializeAction::Perform(op) => {
                        assert(one@.waiting());
                        self.one = Some(one);
                        EnsureAction::InDict { dict: self.dict, op }
                    },
                    MaterializeAction::Finished => {
                        self.materialized_any = true;
                        let next: usize = self.dict + 1;
                        self.move_to(next)
                    },
                    MaterializeAction::Failed(f) => {
                        self.stage = EnsureStage::Failed;
                        EnsureAction::Failed(f)
                    },
                    MaterializeAction::TooLarge => {
                        self.stage = EnsureStage::Failed;
                        EnsureAction::TooLarge
                    },
                }
            },
            _ => {
                self.stage = EnsureStage::Finished;
                EnsureAction::Finished
            },
        }
    }
}

} // verus!
