//! Replacing the configuration file: a new file is written beside it, and takes its place only
//! once it is complete.

use vstd::prelude::*;

use crate::error::{self, Error, ErrorModel};
use crate::facts::io_error;
use crate::report::Failure;
use crate::text::{self, decimal_text};

verus! {

/// How many names are tried for the new file.
pub const MAX_TEMP_ATTEMPTS: u32 = 100;

/// The mode of a configuration file that was not there before.
pub const NEW_FILE_MODE: u32 = 420;

/// The part of a mode that is kept.
pub const MODE_MASK: u32 = 511;

/// The file that is replaced.
#[derive(Debug)]
pub struct Target {
    /// The directory that it is in.
    pub parent: String,
    pub name: String,
    /// The process that replaces it.
    pub process: u32,
}

/// The path of the file.
pub open spec fn target_path(t: Target) -> Seq<char> {
    t.parent@ + "/"@ + t.name@
}

/// The path of the new file, for one of the names that are tried.
pub open spec fn temp_path(t: Target, attempt: u32) -> Seq<char> {
    t.parent@ + "/"@ + temp_name(t.name@, t.process, attempt)
}

/// A name for the new file.
pub open spec fn temp_name(name: Seq<char>, process: u32, attempt: u32) -> Seq<char> {
    "."@ + name + ".tmp."@ + text::decimal(process as nat) + "."@ + text::decimal(attempt as nat)
}

impl Target {
    /// The path of the file.
    pub fn path(&self) -> (r: String)
        ensures
            r@ == target_path(*self),
    {
        let mut out = self.parent.clone();
        out.append("/");
        out.append(self.name.as_str());
        out
    }

    /// The path of the new file, for one of the names that are tried.
    pub fn temp_path_for_attempt(&self, attempt: u32) -> (r: String)
        ensures
            r@ == temp_path(*self, attempt),
    {
        let mut name = ".".to_owned();
        name.append(self.name.as_str());
        name.append(".tmp.");
        name.append(decimal_text(self.process as u64).as_str());
        name.append(".");
        name.append(decimal_text(attempt as u64).as_str());
        let mut out = self.parent.clone();
        out.append("/");
        out.append(name.as_str());
        out
    }
}

/// What is at the path of the file.
#[derive(Debug)]
pub enum Present {
    Symlink,
    /// A file, with its mode.
    Regular(u32),
    Other,
    NotFound,
    Failed(Failure),
}

/// The mode of the new file. Only a file is replaced, never a link or anything else.
pub open spec fn final_mode(t: Target, present: Present) -> Result<u32, ErrorModel> {
    match present {
        Present::Symlink => Err(
            error::failure("refusing to replace symlink config path "@ + target_path(t)),
        ),
        Present::Other => Err(
            error::failure("config path "@ + target_path(t) + " is not a regular file"@),
        ),
        Present::Regular(mode) => Ok(mode & MODE_MASK),
        Present::NotFound => Ok(NEW_FILE_MODE),
        Present::Failed(f) => Err(
            error::caused("inspect "@ + target_path(t), error::failure(f.text@)),
        ),
    }
}

/// The mode of the new file.
pub fn final_config_permissions(t: &Target, present: &Present) -> (r: Result<u32, Error>)
    ensures
        match r {
            Ok(mode) => final_mode(*t, *present) == Ok::<u32, ErrorModel>(mode),
            Err(e) => final_mode(*t, *present) == Err::<u32, ErrorModel>(e@),
        },
{
    match present {
        Present::Symlink => {
            let mut message = "refusing to replace symlink config path ".to_owned();
            message.append(t.path().as_str());
            Err(Error::msg(message))
        },
        Present::Other => {
            let mut message = "config path ".to_owned();
            message.append(t.path().as_str());
            message.append(" is not a regular file");
            Err(Error::msg(message))
        },
        Present::Regular(mode) => Ok(*mode & MODE_MASK),
        Present::NotFound => Ok(NEW_FILE_MODE),
        Present::Failed(f) => {
            let mut message = "inspect ".to_owned();
            message.append(t.path().as_str());
            Err(io_error(message, f))
        },
    }
}

/// A step of the replacement.
#[derive(Debug)]
pub enum WriteStep {
    /// Make the directory.
    MakeParent,
    /// Look at what is there.
    Inspect,
    /// Make the new file, by one of its names.
    Create { mode: u32, attempt: u32 },
    /// Write the new file.
    Write { mode: u32, attempt: u32 },
    /// Set its mode.
    SetMode { mode: u32, attempt: u32 },
    /// Have it stored.
    Sync { attempt: u32 },
    /// Let it take the place of the old one.
    Rename { attempt: u32 },
    /// Open the directory.
    OpenParent,
    /// Have that stored.
    SyncParent,
    /// It is done.
    Done,
    /// It failed. The new file has to go, where there is one.
    Failed { error: Error, remove: Option<u32> },
}

/// What a [`WriteStep`] is.
pub enum WriteStepModel {
    MakeParent,
    Inspect,
    Create { mode: u32, attempt: u32 },
    Write { mode: u32, attempt: u32 },
    SetMode { mode: u32, attempt: u32 },
    Sync { attempt: u32 },
    Rename { attempt: u32 },
    OpenParent,
    SyncParent,
    Done,
    Failed { error: ErrorModel, remove: Option<u32> },
}

impl View for WriteStep {
    type V = WriteStepModel;

    open spec fn view(&self) -> WriteStepModel {
        match *self {
            WriteStep::MakeParent => WriteStepModel::MakeParent,
            WriteStep::Inspect => WriteStepModel::Inspect,
            WriteStep::Create { mode, attempt } => WriteStepModel::Create { mode, attempt },
            WriteStep::Write { mode, attempt } => WriteStepModel::Write { mode, attempt },
            WriteStep::SetMode { mode, attempt } => WriteStepModel::SetMode { mode, attempt },
            WriteStep::Sync { attempt } => WriteStepModel::Sync { attempt },
            WriteStep::Rename { attempt } => WriteStepModel::Rename { attempt },
            WriteStep::OpenParent => WriteStepModel::OpenParent,
            WriteStep::SyncParent => WriteStepModel::SyncParent,
            WriteStep::Done => WriteStepModel::Done,
            WriteStep::Failed { error, remove } => WriteStepModel::Failed {
                error: error@,
                remove,
            },
        }
    }
}

/// What came of a step.
#[derive(Debug)]
pub enum WriteEvent {
    Worked,
    /// There is a file of that name.
    Exists,
    Failed(Failure),
    Found(Present),
}

/// What failed, with its cause.
pub open spec fn failed_step(message: Seq<char>, text: Seq<char>, remove: Option<u32>) -> WriteStepModel {
    WriteStepModel::Failed { error: error::caused(message, error::failure(text)), remove }
}

/// What follows a step.
pub open spec fn write_move(t: Target, step: WriteStepModel, event: WriteEvent) -> WriteStepModel {
    match (step, event) {
        (WriteStepModel::MakeParent, WriteEvent::Failed(f)) => failed_step(
            "create "@ + t.parent@,
            f.text@,
            None,
        ),
        (WriteStepModel::MakeParent, _) => WriteStepModel::Inspect,
        (WriteStepModel::Inspect, WriteEvent::Found(present)) => match final_mode(t, present) {
            Err(e) => WriteStepModel::Failed { error: e, remove: None },
            Ok(mode) => WriteStepModel::Create { mode, attempt: 0 },
        },
        (WriteStepModel::Create { mode, attempt }, WriteEvent::Worked) => WriteStepModel::Write {
            mode,
            attempt,
        },
        (WriteStepModel::Create { mode, attempt }, WriteEvent::Exists) => if attempt + 1
            < MAX_TEMP_ATTEMPTS {
            WriteStepModel::Create { mode, attempt: (attempt + 1) as u32 }
        } else {
            WriteStepModel::Failed {
                error: error::failure(
                    "create temporary config file for "@ + target_path(t) + " after "@
                        + text::decimal(MAX_TEMP_ATTEMPTS as nat) + " attempts"@,
                ),
                remove: None,
            }
        },
        (WriteStepModel::Create { mode, attempt }, WriteEvent::Failed(f)) => failed_step(
            "create "@ + temp_path(t, attempt),
            f.text@,
            None,
        ),
        (WriteStepModel::Write { mode, attempt }, WriteEvent::Worked) => WriteStepModel::SetMode {
            mode,
            attempt,
        },
        (WriteStepModel::Write { mode, attempt }, WriteEvent::Failed(f)) => failed_step(
            "write "@ + temp_path(t, attempt),
            f.text@,
            Some(attempt),
        ),
        (WriteStepModel::SetMode { mode, attempt }, WriteEvent::Worked) => WriteStepModel::Sync {
            attempt,
        },
        (WriteStepModel::SetMode { mode, attempt }, WriteEvent::Failed(f)) => failed_step(
            "set permissions on "@ + temp_path(t, attempt),
            f.text@,
            Some(attempt),
        ),
        (WriteStepModel::Sync { attempt }, WriteEvent::Worked) => WriteStepModel::Rename { attempt },
        (WriteStepModel::Sync { attempt }, WriteEvent::Failed(f)) => failed_step(
            "sync "@ + temp_path(t, attempt),
            f.text@,
            Some(attempt),
        ),
        (WriteStepModel::Rename { attempt }, WriteEvent::Worked) => WriteStepModel::OpenParent,
        (WriteStepModel::Rename { attempt }, WriteEvent::Failed(f)) => failed_step(
            "rename "@ + temp_path(t, attempt) + " to "@ + target_path(t),
            f.text@,
            Some(attempt),
        ),
        (WriteStepModel::OpenParent, WriteEvent::Worked) => WriteStepModel::SyncParent,
        (WriteStepModel::OpenParent, WriteEvent::Failed(f)) => failed_step(
            "open "@ + t.parent@,
            f.text@,
            None,
        ),
        (WriteStepModel::SyncParent, WriteEvent::Worked) => WriteStepModel::Done,
        (WriteStepModel::SyncParent, WriteEvent::Failed(f)) => failed_step(
            "sync "@ + t.parent@,
            f.text@,
            None,
        ),
        _ => step,
    }
}

fn fail(verb: &str, path: &str, failure: &Failure, remove: Option<u32>) -> (r: WriteStep)
    ensures
        r@ == failed_step(verb@ + path@, failure.text@, remove),
{
    let mut message = verb.to_owned();
    message.append(path);
    WriteStep::Failed { error: io_error(message, failure), remove }
}

/// What follows a step of the replacement.
pub fn write_next(t: &Target, step: WriteStep, event: &WriteEvent) -> (r: WriteStep)
    ensures
        r@ == write_move(*t, step@, *event),
{
    match step {
        WriteStep::MakeParent => match event {
            WriteEvent::Failed(f) => fail("create ", t.parent.as_str(), f, None),
            _ => WriteStep::Inspect,
        },
        WriteStep::Inspect => match event {
            WriteEvent::Found(present) => match final_config_permissions(t, present) {
                Err(error) => WriteStep::Failed { error, remove: None },
                Ok(mode) => WriteStep::Create { mode, attempt: 0 },
            },
            _ => WriteStep::Inspect,
        },
        WriteStep::Create { mode, attempt } => match event {
            WriteEvent::Worked => WriteStep::Write { mode, attempt },
            WriteEvent::Exists => {
                if attempt < MAX_TEMP_ATTEMPTS - 1 {
                    return WriteStep::Create { mode, attempt: attempt + 1 };
                }
                let mut message = "create temporary config file for ".to_owned();
                message.append(t.path().as_str());
                message.append(" after ");
                message.append(decimal_text(MAX_TEMP_ATTEMPTS as u64).as_str());
                message.append(" attempts");
                WriteStep::Failed { error: Error::msg(message), remove: None }
            },
            WriteEvent::Failed(f) => fail(
                "create ",
                t.temp_path_for_attempt(attempt).as_str(),
                f,
                None,
            ),
            WriteEvent::Found(_) => WriteStep::Create { mode, attempt },
        },
        WriteStep::Write { mode, attempt } => match event {
            WriteEvent::Worked => WriteStep::SetMode { mode, attempt },
            WriteEvent::Failed(f) => fail(
                "write ",
                t.temp_path_for_attempt(attempt).as_str(),
                f,
                Some(attempt),
            ),
            _ => WriteStep::Write { mode, attempt },
        },
        WriteStep::SetMode { mode, attempt } => match event {
            WriteEvent::Worked => WriteStep::Sync { attempt },
            WriteEvent::Failed(f) => fail(
                "set permissions on ",
                t.temp_path_for_attempt(attempt).as_str(),
                f,
                Some(attempt),
            ),
            _ => WriteStep::SetMode { mode, attempt },
        },
        WriteStep::Sync { attempt } => match event {
            WriteEvent::Worked => WriteStep::Rename { attempt },
            WriteEvent::Failed(f) => fail(
                "sync ",
                t.temp_path_for_attempt(attempt).as_str(),
                f,
                Some(attempt),
            ),
            _ => WriteStep::Sync { attempt },
        },
        WriteStep::Rename { attempt } => match event {
            WriteEvent::Worked => WriteStep::OpenParent,
            WriteEvent::Failed(f) => {
                let mut message = "rename ".to_owned();
                message.append(t.temp_path_for_attempt(attempt).as_str());
                message.append(" to ");
                message.append(t.path().as_str());
                WriteStep::Failed { error: io_error(message, f), remove: Some(attempt) }
            },
            _ => WriteStep::Rename { attempt },
        },
        WriteStep::OpenParent => match event {
            WriteEvent::Worked => WriteStep::SyncParent,
            WriteEvent::Failed(f) => fail("open ", t.parent.as_str(), f, None),
            _ => WriteStep::OpenParent,
        },
        WriteStep::SyncParent => match event {
            WriteEvent::Worked => WriteStep::Done,
            WriteEvent::Failed(f) => fail("sync ", t.parent.as_str(), f, None),
            _ => WriteStep::SyncParent,
        },
        WriteStep::Done => WriteStep::Done,
        WriteStep::Failed { error, remove } => WriteStep::Failed { error, remove },
    }
}

// ---------------------------------------------------------------------------
// Laws
// ---------------------------------------------------------------------------

/// The new file takes the place of the old one only once it was written, given its mode, and
/// stored.
pub proof fn law_only_a_complete_file_replaces(t: Target, step: WriteStepModel, event: WriteEvent)
    requires
        write_move(t, step, event) is Rename,
    ensures
        step is Rename || (step is Sync && event is Worked),
{
}

/// Where something fails between the making of the new file and its taking over, the new file is
/// removed.
pub proof fn law_no_file_is_left_behind(t: Target, step: WriteStepModel, event: WriteEvent)
    requires
        write_move(t, step, event) is Failed,
        step is Write || step is SetMode || step is Sync || step is Rename,
    ensures
        write_move(t, step, event)->remove is Some,
{
}

/// A link is never replaced, nor followed.
pub proof fn law_links_are_refused(t: Target)
    ensures
        write_move(t, WriteStepModel::Inspect, WriteEvent::Found(Present::Symlink)) is Failed,
        write_move(t, WriteStepModel::Inspect, WriteEvent::Found(Present::Other)) is Failed,
{
}

/// The mode of a file that was there is kept, without the bits that are no permissions.
pub proof fn law_mode_is_kept(t: Target, mode: u32, other: u32)
    requires
        mode < 512,
        other & MODE_MASK == 0,
    ensures
        final_mode(t, Present::Regular(mode | other)) == Ok::<u32, ErrorModel>(mode),
{
    assert((mode | other) & 511 == mode) by (bit_vector)
        requires
            mode < 512,
            other & 511 == 0,
    ;
}

} // verus!
