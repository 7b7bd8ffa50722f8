//! Opening a project for ingestion: the project of a name is looked up, and
//! created where it is missing. A creation that meets a conflict is followed by
//! one more lookup, since the project may have been created in between.

use vstd::prelude::*;
use crate::backend::{Action, FailureKind, Response};
use crate::clock::timestamp_in_range;
use crate::encoder::sanitized;
use crate::engine::{create_project_request, created_project, reports};
use crate::error::{Error, ErrorKind};
use crate::project::Project;
use crate::text::owned;

verus! {

/// What the opener is waiting for.
#[derive(Debug, Clone, Copy, PartialEq, Eq, Structural)]
pub enum Stage {
    /// The first lookup of the project.
    Finding,
    /// The creation of the project.
    Creating,
    /// A second lookup, after the creation met a conflict.
    Refinding,
}

/// The state of one opening.
#[derive(Debug)]
pub struct Opener {
    /// The logical name of the project.
    pub name: String,
    /// The creation time of the project, if it is created.
    pub now: i64,
    /// What the opener is waiting for.
    pub stage: Stage,
}

/// What the opener wants next.
#[derive(Debug)]
pub enum Opening {
    /// Ask the backend this, and resume the opener with the answer.
    Ask(Opener, Action),
    /// The opening is over: the project, or the failure.
    Done(Result<Project, Error>),
}

/// What the opener does with an answer.
pub open spec fn opened(pre: Opener, response: Response, step: Opening) -> bool {
    let name = pre.name@;
    match (pre.stage, response) {
        (Stage::Finding, Response::Project(None)) => if sanitized(name).len() == 0 {
            step matches Opening::Done(Err(e)) && e.is(ErrorKind::EmptyIdentifier, name)
        } else if !timestamp_in_range(pre.now) {
            step matches Opening::Done(Err(e)) && e.is(ErrorKind::CorruptMetadata, name)
        } else {
            &&& step matches Opening::Ask(next, action)
            &&& next.name@ == name
            &&& next.now == pre.now
            &&& next.stage == Stage::Creating
            &&& action.creates_project(name, sanitized(name), pre.now)
        },
        (Stage::Refinding, Response::Project(None)) => step matches Opening::Done(Err(e)) && e.is(
            ErrorKind::SchemaConflict,
            name,
        ),
        (_, Response::Project(Some(raw))) => if timestamp_in_range(raw.created_at) {
            step matches Opening::Done(Ok(p)) && p.decodes(raw@)
        } else {
            step matches Opening::Done(Err(e)) && e.is(ErrorKind::CorruptMetadata, name)
        },
        (Stage::Creating, Response::Failed(f)) => if f.kind == FailureKind::Conflict {
            &&& step matches Opening::Ask(next, action)
            &&& next.name@ == name
            &&& next.now == pre.now
            &&& next.stage == Stage::Refinding
            &&& action matches Action::FindProject { name: asked }
            &&& asked@ == name
        } else {
            step matches Opening::Done(Err(e)) && reports(e, f, name)
        },
        (_, Response::Failed(f)) => step matches Opening::Done(Err(e)) && reports(e, f, name),
        _ => step matches Opening::Done(Err(e)) && e.is(ErrorKind::ConnectionFailure, name),
    }
}

impl Opener {
    /// A bound on the requests that the opener may still make.
    pub open spec fn fuel(&self) -> nat {
        match self.stage {
            Stage::Finding => 3,
            Stage::Creating => 2,
            Stage::Refinding => 1,
        }
    }

    /// Begins to open the project `name`: the first thing to ask is the lookup.
    pub fn start(name: &str, now: i64) -> (r: (Opener, Action))
        ensures
            r.0.name@ == name@,
            r.0.now == now,
            r.0.stage == Stage::Finding,
            r.1 matches Action::FindProject { name: asked } && asked@ == name@,
    {
        (
            Opener { name: owned(name), now, stage: Stage::Finding },
            Action::FindProject { name: owned(name) },
        )
    }

    /// Takes the answer to what was asked last, and says what to ask next or
    /// what came out.
    pub fn resume(self, response: Response) -> (step: Opening)
        ensures
            opened(self, response, step),
            step matches Opening::Ask(next, _) ==> next.fuel() < self.fuel(),
    {
        match response {
            Response::Project(None) => match self.stage {
                Stage::Finding => match create_project_request(self.name.as_str(), self.now) {
                    Ok(action) => Opening::Ask(
                        Opener { name: self.name, now: self.now, stage: Stage::Creating },
                        action,
                    ),
                    Err(e) => Opening::Done(Err(e)),
                },
                Stage::Refinding => Opening::Done(
                    Err(
                        Error::new(
                            ErrorKind::SchemaConflict,
                            self.name.as_str(),
                            "the table exists under another project",
                        ),
                    ),
                ),
                Stage::Creating => Opening::Done(
                    created_project(self.name.as_str(), Response::Project(None)),
                ),
            },
            Response::Failed(f) => {
                if self.stage == Stage::Creating && f.kind == FailureKind::Conflict {
                    let action = Action::FindProject { name: self.name.clone() };
                    Opening::Ask(
                        Opener { name: self.name, now: self.now, stage: Stage::Refinding },
                        action,
                    )
                } else {
                    Opening::Done(created_project(self.name.as_str(), Response::Failed(f)))
                }
            },
            other => Opening::Done(created_project(self.name.as_str(), other)),
        }
    }
}

} // verus!
