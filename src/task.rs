//! One identifier's pipeline as a state machine: resolve, fetch, check the
//! status, read the body, fill the template, write. Each step takes an event
//! and names the next action for the caller to carry out. Any stage may end
//! in failure without touching other tasks.

use vstd::prelude::*;

use crate::resolve::{
    identifier_path, parse_file_name, resolved_url, ResolveError, REMOTE_BASE,
};
use crate::template::{content_token, parent_of, path_token, plan_write, Context, WritePlan};
use crate::text::replace_all;

verus! {

/// Why one identifier's task failed.
#[derive(Debug, Clone, PartialEq, Eq)]
pub enum TaskError {
    /// The identifier does not make a URL.
    Resolve(ResolveError),
    /// The request could not be made, or its body not read.
    Transport(String),
    /// The server answered with a status outside 200 to 299.
    Status(u16),
    /// The directory could not be created or the file not written.
    Filesystem(String),
}

/// Where a task stands.
#[derive(Debug, Clone)]
pub enum Stage {
    /// Not begun.
    Start,
    /// Resolved; the request is out.
    Requested,
    /// A success status came back; the body is being read.
    Reading,
    /// The content is filled in; the file is being written.
    Writing,
    /// The file is written.
    Done,
    /// The task stopped at this error.
    Failed(TaskError),
}

/// What came of the last action.
#[derive(Debug, Clone)]
pub enum TaskEvent {
    /// The task is launched.
    Begin,
    /// The server answered with this status.
    Response { status: u16 },
    /// The whole body, read as text.
    Body { text: String },
    /// The request or the reading of its body failed.
    TransportFailed { message: String },
    /// The directory and the file are written.
    Written,
    /// Creating the directory or writing the file failed.
    WriteFailed { message: String },
}

/// What the caller does next.
#[derive(Debug, Clone)]
pub enum TaskAction {
    /// Send a GET request to this URL.
    Get { url: String },
    /// Read the response body as text.
    ReadBody,
    /// Create the plan's directory if it is missing, then write the file.
    Write(WritePlan),
    /// The task is done.
    Finish,
    /// The task failed: report its error, tagged with its identifier.
    Report,
    /// The event does not fit the stage; nothing to do.
    Idle,
}

/// The pipeline of one identifier.
pub struct FetchTask {
    pub identifier: String,
    /// The local path, known once the identifier is resolved.
    pub file_path: String,
    pub stage: Stage,
}

/// The status of a successful answer.
pub open spec fn is_success(status: u16) -> bool {
    200 <= status <= 299
}

/// Whether `event` in `stage` ends the task in failure.
pub open spec fn fails_on(stage: Stage, identifier: Seq<char>, event: TaskEvent) -> bool {
    match (stage, event) {
        (Stage::Start, TaskEvent::Begin) => resolved_url(REMOTE_BASE@, identifier) is None,
        (Stage::Requested, TaskEvent::Response { status }) => !is_success(status),
        (Stage::Requested, TaskEvent::TransportFailed { .. }) => true,
        (Stage::Reading, TaskEvent::TransportFailed { .. }) => true,
        (Stage::Writing, TaskEvent::WriteFailed { .. }) => true,
        _ => false,
    }
}

/// Whether `event` fits `stage` at all.
pub open spec fn fits(stage: Stage, event: TaskEvent) -> bool {
    match (stage, event) {
        (Stage::Start, TaskEvent::Begin) => true,
        (Stage::Requested, TaskEvent::Response { .. }) => true,
        (Stage::Requested, TaskEvent::TransportFailed { .. }) => true,
        (Stage::Reading, TaskEvent::Body { .. }) => true,
        (Stage::Reading, TaskEvent::TransportFailed { .. }) => true,
        (Stage::Writing, TaskEvent::Written) => true,
        (Stage::Writing, TaskEvent::WriteFailed { .. }) => true,
        _ => false,
    }
}

impl FetchTask {
    /// A task for `identifier`, not begun.
    pub fn new(identifier: String) -> (r: FetchTask)
        ensures
            r.identifier@ == identifier@,
            r.file_path@ == Seq::<char>::empty(),
            r.stage is Start,
    {
        FetchTask { identifier, file_path: String::new(), stage: Stage::Start }
    }

    /// Advances the task by one event and says what to do next.
    pub fn step(&mut self, ctx: &Context, event: TaskEvent) -> (a: TaskAction)
        ensures
            final(self).identifier@ == old(self).identifier@,
            !(old(self).stage is Start && event is Begin) ==> final(self).file_path@ == old(
                self,
            ).file_path@,
            !fits(old(self).stage, event) ==> a is Idle && final(self).stage == old(self).stage
                && final(self).file_path@ == old(self).file_path@,
            fits(old(self).stage, event) && fails_on(old(self).stage, old(self).identifier@, event)
                ==> a is Report && final(self).stage is Failed,
            a is Report ==> fits(old(self).stage, event) && fails_on(
                old(self).stage,
                old(self).identifier@,
                event,
            ),
            old(self).stage is Start && event is Begin ==> match resolved_url(
                REMOTE_BASE@,
                old(self).identifier@,
            ) {
                Some(u) => final(self).stage is Requested && final(self).file_path@
                    == identifier_path(old(self).identifier@) && (a matches TaskAction::Get { url }
                    && url@ == u),
                None => final(self).stage == Stage::Failed(TaskError::Resolve(
                    ResolveError::InvalidUrl,
                )),
            },
            event matches TaskEvent::Response { status } ==> (old(self).stage is Requested ==> if is_success(
                status,
            ) {
                final(self).stage is Reading && a is ReadBody
            } else {
                final(self).stage == Stage::Failed(TaskError::Status(status))
            }),
            event matches TaskEvent::TransportFailed { message } ==> ((old(self).stage is Requested
                || old(self).stage is Reading) ==> final(self).stage == Stage::Failed(
                TaskError::Transport(message),
            )),
            event matches TaskEvent::Body { text } ==> (old(self).stage is Reading ==> final(self).stage is Writing
                && final(self).file_path@ == old(self).file_path@ && (a matches TaskAction::Write(plan)
                && plan.path@ == replace_all(old(self).file_path@, path_token(), ctx.name@)
                && plan.content@ == replace_all(text@, content_token(), ctx.name@) && match plan.dir {
                Some(d) => parent_of(old(self).file_path@) == Some(d@),
                None => parent_of(old(self).file_path@) is None,
            })),
            old(self).stage is Writing && event is Written ==> final(self).stage is Done && a is Finish,
            event matches TaskEvent::WriteFailed { message } ==> (old(self).stage is Writing
                ==> final(self).stage == Stage::Failed(TaskError::Filesystem(message))),
    {
        match (&self.stage, event) {
            (Stage::Start, TaskEvent::Begin) => match parse_file_name(self.identifier.as_str()) {
                Ok(target) => {
                    self.file_path = target.file_path;
                    self.stage = Stage::Requested;
                    TaskAction::Get { url: target.url }
                },
                Err(e) => {
                    self.stage = Stage::Failed(TaskError::Resolve(e));
                    TaskAction::Report
                },
            },
            (Stage::Requested, TaskEvent::Response { status }) => {
                if 200 <= status && status <= 299 {
                    self.stage = Stage::Reading;
                    TaskAction::ReadBody
                } else {
                    self.stage = Stage::Failed(TaskError::Status(status));
                    TaskAction::Report
                }
            },
            (Stage::Requested, TaskEvent::TransportFailed { message })
            | (Stage::Reading, TaskEvent::TransportFailed { message }) => {
                self.stage = Stage::Failed(TaskError::Transport(message));
                TaskAction::Report
            },
            (Stage::Reading, TaskEvent::Body { text }) => {
                let plan = plan_write(ctx, self.file_path.as_str(), text.as_str());
                self.stage = Stage::Writing;
                TaskAction::Write(plan)
            },
            (Stage::Writing, TaskEvent::Written) => {
                self.stage = Stage::Done;
                TaskAction::Finish
            },
            (Stage::Writing, TaskEvent::WriteFailed { message }) => {
                self.stage = Stage::Failed(TaskError::Filesystem(message));
                TaskAction::Report
            },
            _ => TaskAction::Idle,
        }
    }
}

/// A task reports at most once: once failed, every later event is ignored
/// and the task stays failed.
pub proof fn law_failed_task_stays_failed(error: TaskError, identifier: Seq<char>, event: TaskEvent)
    ensures
        !fits(Stage::Failed(error), event),
        !fails_on(Stage::Failed(error), identifier, event),
{
}

} // verus!
