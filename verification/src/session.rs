//! The run of a command from beginning to end: what is changed about this process before the
//! command is started, and what is put back after it, whatever happens in between.

use vstd::prelude::*;

use crate::error::{self, Error, ErrorModel};
use crate::launch::{self, finish_restore};

verus! {

/// What is to be done next.
#[derive(Clone, Copy, Debug, PartialEq, Eq, Structural)]
pub enum Stage {
    /// Block signals, to read them.
    Signals,
    /// Take care of children that end.
    Reaping,
    /// Get everything ready for the command.
    Preparing,
    /// Become the parent of orphans.
    Parent,
    /// Start the command.
    Spawning,
    /// Supervise the command.
    Supervising,
    /// Take the terminal back.
    Terminal,
    /// Put back whether this process is the parent of orphans.
    UndoParent,
    /// Put back how children that end are taken care of.
    UndoReaping,
    /// Put back which signals are blocked.
    UndoSignals,
    /// Nothing is left to be done.
    Over,
}

/// What came of the last stage.
#[derive(Debug)]
pub enum StageEvent {
    Worked,
    Failed(Error),
    /// The subreaper was asked for. It is known what to put back, or not.
    Asked { restorable: bool },
    /// The supervision came to an end.
    Ended(Result<i32, Error>),
}

/// The run of a command, as far as it is.
#[derive(Debug)]
pub struct Session {
    pub stage: Stage,
    /// Whether this process has to become the parent of orphans.
    pub subreaper: bool,
    /// Whether that has to be put back.
    pub parent_changed: bool,
    /// Whether the supervision came to an end.
    pub supervised: bool,
    pub result: Result<i32, Error>,
}

/// What a [`Session`] is.
pub struct SessionModel {
    pub stage: Stage,
    pub subreaper: bool,
    pub parent_changed: bool,
    pub supervised: bool,
    pub result: Result<int, ErrorModel>,
}

impl View for Session {
    type V = SessionModel;

    open spec fn view(&self) -> SessionModel {
        SessionModel {
            stage: self.stage,
            subreaper: self.subreaper,
            parent_changed: self.parent_changed,
            supervised: self.supervised,
            result: launch::exit_result(self.result),
        }
    }
}

/// Whether an event can come of a stage.
pub open spec fn answers(stage: Stage, event: StageEvent) -> bool {
    match stage {
        Stage::Parent => event is Asked || event is Failed,
        Stage::Supervising => event is Ended,
        Stage::Terminal => event is Worked,
        Stage::Over => false,
        _ => event is Worked || event is Failed,
    }
}

/// What is said of something that could not be put back before the supervision began.
pub open spec fn undo_label(stage: Stage) -> Seq<char> {
    match stage {
        Stage::UndoParent => "restore child subreaper state failed: "@,
        Stage::UndoReaping => "restore SIGCHLD disposition failed: "@,
        _ => "restore signal mask failed: "@,
    }
}

/// Where the putting back begins, once the command was started or could not be.
pub open spec fn first_undo(parent_changed: bool) -> Stage {
    if parent_changed {
        Stage::UndoParent
    } else {
        Stage::UndoReaping
    }
}

/// What follows an attempt to put something back. After the supervision an error counts where
/// there is none yet. Before it, there is one that counts already.
pub open spec fn undone(s: SessionModel, event: StageEvent, next: Stage) -> (
    SessionModel,
    Option<Seq<char>>,
) {
    let kept = SessionModel {
        stage: next,
        parent_changed: s.parent_changed && s.stage !is UndoParent,
        ..s
    };
    match event {
        StageEvent::Failed(e) => if !s.supervised {
            (kept, Some(undo_label(s.stage) + e@.messages[0]))
        } else {
            (
                SessionModel { result: launch::after_restore(s.result, Some(e@)), ..kept },
                if s.result is Err {
                    Some("restore process state failed: "@ + error::report_text(e@.messages))
                } else {
                    None
                },
            )
        },
        _ => (kept, None),
    }
}

/// What follows a stage, and what is said.
pub open spec fn moved(s: SessionModel, event: StageEvent) -> (SessionModel, Option<Seq<char>>) {
    match (s.stage, event) {
        (Stage::UndoParent, _) => undone(s, event, Stage::UndoReaping),
        (Stage::UndoReaping, _) => undone(s, event, Stage::UndoSignals),
        (Stage::UndoSignals, _) => undone(s, event, Stage::Over),
        (_, StageEvent::Failed(e)) => (
            SessionModel {
                stage: match s.stage {
                    Stage::Signals => Stage::Over,
                    Stage::Reaping => Stage::UndoSignals,
                    _ => first_undo(s.parent_changed),
                },
                result: Err(e@),
                ..s
            },
            None,
        ),
        (_, StageEvent::Ended(r)) => (
            SessionModel {
                stage: Stage::Terminal,
                supervised: true,
                result: launch::exit_result(r),
                ..s
            },
            None,
        ),
        (_, StageEvent::Asked { restorable }) => (
            SessionModel { stage: Stage::Spawning, parent_changed: restorable, ..s },
            None,
        ),
        (stage, StageEvent::Worked) => (
            SessionModel {
                stage: match stage {
                    Stage::Signals => Stage::Reaping,
                    Stage::Reaping => Stage::Preparing,
                    Stage::Preparing => if s.subreaper {
                        Stage::Parent
                    } else {
                        Stage::Spawning
                    },
                    Stage::Spawning => Stage::Supervising,
                    Stage::Terminal => first_undo(s.parent_changed),
                    _ => stage,
                },
                ..s
            },
            None,
        ),
    }
}

fn undo_text(stage: Stage) -> (r: String)
    ensures
        r@ == undo_label(stage),
{
    match stage {
        Stage::UndoParent => "restore child subreaper state failed: ".to_owned(),
        Stage::UndoReaping => "restore SIGCHLD disposition failed: ".to_owned(),
        _ => "restore signal mask failed: ".to_owned(),
    }
}

fn begin_undo(parent_changed: bool) -> (r: Stage)
    ensures
        r == first_undo(parent_changed),
{
    if parent_changed {
        Stage::UndoParent
    } else {
        Stage::UndoReaping
    }
}

impl Session {
    /// A run that is yet to begin.
    pub fn new(subreaper: bool) -> (r: Self)
        ensures
            r@ == (SessionModel {
                stage: Stage::Signals,
                subreaper,
                parent_changed: false,
                supervised: false,
                result: Ok(0),
            }),
            r.wf(),
    {
        Session {
            stage: Stage::Signals,
            subreaper,
            parent_changed: false,
            supervised: false,
            result: Ok(0),
        }
    }

    /// See [`sound`].
    pub open spec fn wf(self) -> bool {
        sound(self@)
    }

    fn undo(self, event: StageEvent, next: Stage) -> (r: (Session, Option<String>))
        ensures
            r.0@ == undone(self@, event, next).0,
            match r.1 {
                Some(s) => undone(self@, event, next).1 == Some(s@),
                None => undone(self@, event, next).1 is None,
            },
    {
        let parent_changed = match self.stage {
            Stage::UndoParent => false,
            _ => self.parent_changed,
        };
        let subreaper = self.subreaper;
        let supervised = self.supervised;
        match event {
            StageEvent::Failed(e) => {
                if !supervised {
                    let mut said = undo_text(self.stage);
                    said.append(e.message());
                    let result = self.result;
                    (
                        Session { stage: next, subreaper, parent_changed, supervised, result },
                        Some(said),
                    )
                } else {
                    let (result, said) = finish_restore(self.result, Err(e));
                    (Session { stage: next, subreaper, parent_changed, supervised, result }, said)
                }
            },
            _ => {
                let result = self.result;
                (Session { stage: next, subreaper, parent_changed, supervised, result }, None)
            },
        }
    }

    /// Takes in what came of the last stage. Gives what has to be said, if anything.
    pub fn run_impl(self, event: StageEvent) -> (r: (Session, Option<String>))
        requires
            self.wf(),
            answers(self.stage, event),
        ensures
            r.0@ == moved(self@, event).0,
            match r.1 {
                Some(s) => moved(self@, event).1 == Some(s@),
                None => moved(self@, event).1 is None,
            },
            r.0.wf(),
    {
        match self.stage {
            Stage::UndoParent => return self.undo(event, Stage::UndoReaping),
            Stage::UndoReaping => return self.undo(event, Stage::UndoSignals),
            Stage::UndoSignals => return self.undo(event, Stage::Over),
            _ => {},
        }
        let subreaper = self.subreaper;
        let parent_changed = self.parent_changed;
        let supervised = self.supervised;
        match event {
            StageEvent::Failed(e) => {
                let stage = match self.stage {
                    Stage::Signals => Stage::Over,
                    Stage::Reaping => Stage::UndoSignals,
                    _ => begin_undo(parent_changed),
                };
                (Session { stage, subreaper, parent_changed, supervised, result: Err(e) }, None)
            },
            StageEvent::Ended(result) => (
                Session {
                    stage: Stage::Terminal,
                    subreaper,
                    parent_changed,
                    supervised: true,
                    result,
                },
                None,
            ),
            StageEvent::Asked { restorable } => {
                let result = self.result;
                (
                    Session {
                        stage: Stage::Spawning,
                        subreaper,
                        parent_changed: restorable,
                        supervised,
                        result,
                    },
                    None,
                )
            },
            StageEvent::Worked => {
                let stage = match self.stage {
                    Stage::Signals => Stage::Reaping,
                    Stage::Reaping => Stage::Preparing,
                    Stage::Preparing => if subreaper {
                        Stage::Parent
                    } else {
                        Stage::Spawning
                    },
                    Stage::Spawning => Stage::Supervising,
                    Stage::Terminal => begin_undo(parent_changed),
                    other => other,
                };
                let result = self.result;
                (Session { stage, subreaper, parent_changed, supervised, result }, None)
            },
        }
    }
}

/// Whether a stage puts something back.
pub open spec fn undoing(stage: Stage) -> bool {
    stage is UndoParent || stage is UndoReaping || stage is UndoSignals
}

/// What holds all along: there is something to put back about the parent of orphans only from
/// when it was asked for until it was put back, the supervision has ended only once something is
/// put back, and without it something has failed by then.
pub open spec fn sound(s: SessionModel) -> bool {
    &&& s.parent_changed ==> s.stage is Spawning || s.stage is Supervising || s.stage is Terminal
        || s.stage is UndoParent
    &&& s.stage is UndoParent ==> s.parent_changed
    &&& s.supervised ==> s.stage is Terminal || undoing(s.stage) || s.stage is Over
    &&& s.stage is Terminal ==> s.supervised
    &&& (undoing(s.stage) || s.stage is Over) && !s.supervised ==> s.result is Err
}

// ---------------------------------------------------------------------------
// Laws
// ---------------------------------------------------------------------------

/// Everything that was changed is put back, in reverse order, whatever failed. The run is over
/// only after the signals were put back, or if they were never touched. Before that comes the
/// reaping, unless it was never touched, and before that the parent of orphans, where there is
/// something to put back.
pub proof fn law_everything_is_put_back(s: SessionModel, event: StageEvent)
    requires
        sound(s),
        answers(s.stage, event),
    ensures
        moved(s, event).0.stage is Over ==> s.stage is UndoSignals || (s.stage is Signals && event
            is Failed),
        moved(s, event).0.stage is UndoSignals ==> s.stage is UndoReaping || (s.stage is Reaping
            && event is Failed),
        moved(s, event).0.stage is UndoReaping ==> !moved(s, event).0.parent_changed && (
        s.parent_changed ==> s.stage is UndoParent),
        undoing(s.stage) ==> undoing(moved(s, event).0.stage) || moved(s, event).0.stage is Over,
{
}

/// An error is never lost, and never replaced by a later one.
pub proof fn law_error_of_a_run_is_kept(s: SessionModel, event: StageEvent)
    requires
        sound(s),
        answers(s.stage, event),
        undoing(s.stage) || s.stage is Terminal,
        s.result is Err,
    ensures
        moved(s, event).0.result == s.result,
{
}

/// The exit code of the command is the result of the run, unless something could not be put back.
pub proof fn law_exit_code_of_a_run_is_kept(s: SessionModel, event: StageEvent)
    requires
        sound(s),
        answers(s.stage, event),
        undoing(s.stage) || s.stage is Terminal,
        s.result is Ok,
        event is Worked,
    ensures
        moved(s, event).0.result == s.result,
{
}

/// Where the stages stand on the way to the end.
pub open spec fn stages_left(stage: Stage) -> nat {
    match stage {
        Stage::Signals => 10,
        Stage::Reaping => 9,
        Stage::Preparing => 8,
        Stage::Parent => 7,
        Stage::Spawning => 6,
        Stage::Supervising => 5,
        Stage::Terminal => 4,
        Stage::UndoParent => 3,
        Stage::UndoReaping => 2,
        Stage::UndoSignals => 1,
        Stage::Over => 0,
    }
}

/// A run comes to an end: each stage comes at most once.
pub proof fn law_run_comes_to_an_end(s: SessionModel, event: StageEvent)
    requires
        answers(s.stage, event),
    ensures
        stages_left(moved(s, event).0.stage) < stages_left(s.stage),
{
}

} // verus!
