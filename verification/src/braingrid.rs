//! Options of the Braingrid commands: task and requirement statuses as
//! typed on the command line, which project is meant, and the messages of
//! failed Braingrid calls.
use vstd::prelude::*;
use crate::text;
use crate::text::{push_str, str_to_uppercase, string_from_chars};

verus! {

/// The status of a Braingrid task.
#[derive(Debug, Clone, Copy, PartialEq, Eq)]
pub enum TaskStatus {
    Planned,
    InProgress,
    Completed,
    Cancelled,
}

/// Why a status was refused.
#[derive(Debug, Clone, PartialEq, Eq)]
pub enum StatusError {
    /// The text names no task status.
    InvalidTaskStatus(String),
    /// The text names no requirement status.
    InvalidRequirementStatus(String),
}

/// The task status named by `s` once upper-cased.
pub open spec fn task_status_named(s: Seq<char>) -> Option<TaskStatus> {
    task_status_of_upper(text::uppercase(s))
}

/// The task status named by an already upper-cased text.
pub open spec fn task_status_of_upper(u: Seq<char>) -> Option<TaskStatus> {
    if u == "PLANNED"@ {
        Some(TaskStatus::Planned)
    } else if u == "IN_PROGRESS"@ || u == "INPROGRESS"@ {
        Some(TaskStatus::InProgress)
    } else if u == "COMPLETED"@ {
        Some(TaskStatus::Completed)
    } else if u == "CANCELLED"@ || u == "CANCELED"@ {
        Some(TaskStatus::Cancelled)
    } else {
        None
    }
}

/// A task status as typed, in any case: `PLANNED`, `IN_PROGRESS` (or
/// `INPROGRESS`), `COMPLETED`, `CANCELLED` (or `CANCELED`).
pub fn parse_task_status(status_str: &str) -> (r: Result<TaskStatus, StatusError>)
    ensures
        match task_status_named(status_str@) {
            Some(t) => r == Ok::<TaskStatus, StatusError>(t),
            None => r matches Err(StatusError::InvalidTaskStatus(s)) && s@ == status_str@,
        },
{
    let u = str_to_uppercase(status_str);
    match task_status_from_upper(&u) {
        Some(t) => Ok(t),
        None => Err(StatusError::InvalidTaskStatus(String::from_str(status_str))),
    }
}

/// The task status an already upper-cased text names, if any.
pub fn task_status_from_upper(u: &String) -> (r: Option<TaskStatus>)
    ensures
        r == task_status_of_upper(u@),
{
    if *u == String::from_str("PLANNED") {
        Some(TaskStatus::Planned)
    } else if *u == String::from_str("IN_PROGRESS") || *u == String::from_str("INPROGRESS") {
        Some(TaskStatus::InProgress)
    } else if *u == String::from_str("COMPLETED") {
        Some(TaskStatus::Completed)
    } else if *u == String::from_str("CANCELLED") || *u == String::from_str("CANCELED") {
        Some(TaskStatus::Cancelled)
    } else {
        None
    }
}

/// The status of a Braingrid requirement.
#[derive(Debug, Clone, Copy, PartialEq, Eq)]
pub enum RequirementStatus {
    Idea,
    Planned,
    InProgress,
    Review,
    Completed,
    Cancelled,
}

/// The requirement status named by `s` once upper-cased.
pub open spec fn requirement_status_named(s: Seq<char>) -> Option<RequirementStatus> {
    requirement_status_of_upper(text::uppercase(s))
}

/// The requirement status named by an already upper-cased text.
pub open spec fn requirement_status_of_upper(u: Seq<char>) -> Option<RequirementStatus> {
    if u == "IDEA"@ {
        Some(RequirementStatus::Idea)
    } else if u == "PLANNED"@ {
        Some(RequirementStatus::Planned)
    } else if u == "IN_PROGRESS"@ || u == "INPROGRESS"@ {
        Some(RequirementStatus::InProgress)
    } else if u == "REVIEW"@ {
        Some(RequirementStatus::Review)
    } else if u == "COMPLETED"@ {
        Some(RequirementStatus::Completed)
    } else if u == "CANCELLED"@ || u == "CANCELED"@ {
        Some(RequirementStatus::Cancelled)
    } else {
        None
    }
}

/// A requirement status as typed, in any case: `IDEA`, `PLANNED`,
/// `IN_PROGRESS` (or `INPROGRESS`), `REVIEW`, `COMPLETED`, `CANCELLED` (or
/// `CANCELED`).
pub fn parse_requirement_status(status_str: &str) -> (r: Result<RequirementStatus, StatusError>)
    ensures
        match requirement_status_named(status_str@) {
            Some(t) => r == Ok::<RequirementStatus, StatusError>(t),
            None => r matches Err(StatusError::InvalidRequirementStatus(s)) && s@ == status_str@,
        },
{
    let u = str_to_uppercase(status_str);
    match requirement_status_from_upper(&u) {
        Some(t) => Ok(t),
        None => Err(StatusError::InvalidRequirementStatus(String::from_str(status_str))),
    }
}

/// The requirement status an already upper-cased text names, if any.
pub fn requirement_status_from_upper(u: &String) -> (r: Option<RequirementStatus>)
    ensures
        r == requirement_status_of_upper(u@),
{
    if *u == String::from_str("IDEA") {
        Some(RequirementStatus::Idea)
    } else if *u == String::from_str("PLANNED") {
        Some(RequirementStatus::Planned)
    } else if *u == String::from_str("IN_PROGRESS") || *u == String::from_str("INPROGRESS") {
        Some(RequirementStatus::InProgress)
    } else if *u == String::from_str("REVIEW") {
        Some(RequirementStatus::Review)
    } else if *u == String::from_str("COMPLETED") {
        Some(RequirementStatus::Completed)
    } else if *u == String::from_str("CANCELLED") || *u == String::from_str("CANCELED") {
        Some(RequirementStatus::Cancelled)
    } else {
        None
    }
}

/// The project meant by a command: the one given, else the one in the
/// `BRAINGRID_PROJECT_ID` environment variable (`env_project`), else
/// `PROJ-14`; the flag tells whether that default was taken.
pub fn get_project_id(project_id: Option<String>, env_project: Option<String>) -> (r: (
    String,
    bool,
))
    ensures
        match project_id {
            Some(p) => r.0 == p && !r.1,
            None => match env_project {
                Some(e) => r.0 == e && !r.1,
                None => r.0@ == "PROJ-14"@ && r.1,
            },
        },
{
    match project_id {
        Some(p) => (p, false),
        None => match env_project {
            Some(e) => (e, false),
            None => (String::from_str("PROJ-14"), true),
        },
    }
}

/// How a call of the Braingrid CLI failed, with the details it gave.
#[derive(Debug, Clone, PartialEq, Eq)]
pub enum BraingridFailure {
    /// The CLI is not at the given path.
    CliNotFound(String),
    /// The credentials were refused.
    AuthenticationFailed(String),
    /// The resource does not exist.
    NotFound(String),
    /// The status change is not allowed.
    InvalidStatus(String),
    /// Breaking a requirement down failed.
    BreakdownFailed(String),
    /// Braingrid could not be reached.
    NetworkError(String),
    /// Braingrid's answer could not be read.
    ParseError(String),
    /// The command ran out of time; the duration as shown.
    Timeout(String),
    /// The command failed.
    CommandFailed(String),
    /// Reading or writing failed; the error as shown.
    IoError(String),
}

/// The message shown for a failed Braingrid call about `resource_id`.
pub open spec fn failure_text(e: BraingridFailure, resource_id: Seq<char>) -> Seq<char> {
    match e {
        BraingridFailure::CliNotFound(path) => "Braingrid CLI not found at '"@ + path@
            + "'. Please ensure braingrid is installed and in PATH, or set BRAINGRID_CLI_PATH environment variable."@,
        BraingridFailure::AuthenticationFailed(m) => "Braingrid authentication failed: "@ + m@
            + ". Please check your credentials."@,
        BraingridFailure::NotFound(m) => "Resource not found: "@ + resource_id + " ("@ + m@ + ")"@,
        BraingridFailure::InvalidStatus(m) => "Invalid status transition: "@ + m@,
        BraingridFailure::BreakdownFailed(m) => "Failed to breakdown requirement: "@ + m@,
        BraingridFailure::NetworkError(m) => "Network error connecting to Braingrid: "@ + m@,
        BraingridFailure::ParseError(m) => "Failed to parse Braingrid response: "@ + m@,
        BraingridFailure::Timeout(d) => "Braingrid command timed out after "@ + d@,
        BraingridFailure::CommandFailed(m) => "Braingrid command failed: "@ + m@,
        BraingridFailure::IoError(m) => "IO error: "@ + m@,
    }
}

/// The message shown for a failed Braingrid call about `resource_id`.
pub fn braingrid_error_message(e: &BraingridFailure, resource_id: &str) -> (r: String)
    ensures
        r@ == failure_text(*e, resource_id@),
{
    let mut out: Vec<char> = Vec::new();
    match e {
        BraingridFailure::CliNotFound(path) => {
            push_str(&mut out, "Braingrid CLI not found at '");
            push_str(&mut out, path.as_str());
            push_str(
                &mut out,
                "'. Please ensure braingrid is installed and in PATH, or set BRAINGRID_CLI_PATH environment variable.",
            );
        },
        BraingridFailure::AuthenticationFailed(m) => {
            push_str(&mut out, "Braingrid authentication failed: ");
            push_str(&mut out, m.as_str());
            push_str(&mut out, ". Please check your credentials.");
        },
        BraingridFailure::NotFound(m) => {
            push_str(&mut out, "Resource not found: ");
            push_str(&mut out, resource_id);
            push_str(&mut out, " (");
            push_str(&mut out, m.as_str());
            push_str(&mut out, ")");
        },
        BraingridFailure::InvalidStatus(m) => {
            push_str(&mut out, "Invalid status transition: ");
            push_str(&mut out, m.as_str());
        },
        BraingridFailure::BreakdownFailed(m) => {
            push_str(&mut out, "Failed to breakdown requirement: ");
            push_str(&mut out, m.as_str());
        },
        BraingridFailure::NetworkError(m) => {
            push_str(&mut out, "Network error connecting to Braingrid: ");
            push_str(&mut out, m.as_str());
        },
        BraingridFailure::ParseError(m) => {
            push_str(&mut out, "Failed to parse Braingrid response: ");
            push_str(&mut out, m.as_str());
        },
        BraingridFailure::Timeout(d) => {
            push_str(&mut out, "Braingrid command timed out after ");
            push_str(&mut out, d.as_str());
        },
        BraingridFailure::CommandFailed(m) => {
            push_str(&mut out, "Braingrid command failed: ");
            push_str(&mut out, m.as_str());
        },
        BraingridFailure::IoError(m) => {
            push_str(&mut out, "IO error: ");
            push_str(&mut out, m.as_str());
        },
    }
    assert(out@ =~= failure_text(*e, resource_id@));
    string_from_chars(&out)
}

impl StatusError {
    /// The message shown for the error, with the values accepted.
    pub fn message(&self) -> (r: String)
        ensures
            r@ == match self {
                StatusError::InvalidTaskStatus(s) => "Invalid task status: "@ + s@
                    + ". Valid values: PLANNED, IN_PROGRESS, COMPLETED, CANCELLED"@,
                StatusError::InvalidRequirementStatus(s) => "Invalid requirement status: "@ + s@
                    + ". Valid values: IDEA, PLANNED, IN_PROGRESS, REVIEW, COMPLETED, CANCELLED"@,
            },
    {
        let mut out: Vec<char> = Vec::new();
        match self {
            StatusError::InvalidTaskStatus(s) => {
                push_str(&mut out, "Invalid task status: ");
                push_str(&mut out, s.as_str());
                push_str(&mut out, ". Valid values: PLANNED, IN_PROGRESS, COMPLETED, CANCELLED");
            },
            StatusError::InvalidRequirementStatus(s) => {
                push_str(&mut out, "Invalid requirement status: ");
                push_str(&mut out, s.as_str());
                push_str(
                    &mut out,
                    ". Valid values: IDEA, PLANNED, IN_PROGRESS, REVIEW, COMPLETED, CANCELLED",
                );
            },
        }
        string_from_chars(&out)
    }
}

} // verus!
