//! The tools that act on a chat session's state: questions to the user, the
//! work queue, and the workflows and choreographies an agent walks through.
//! The session state itself lives with the chat; these are the decisions and
//! answers of the tools.
use vstd::prelude::*;

use crate::error::{Error, ErrorKind};
use crate::text::{decimal, spec_decimal, spec_join, str_eq, strings_view};
use crate::tools::run_command::join_strings;

verus! {

broadcast use vstd::string::group_string_axioms;

/// The option that lets the user answer in the chat instead.
pub const ANSWER_BY_CHAT: &'static str = "Answer by Chat..";

/// The arguments of `ask_question`.
#[derive(Debug)]
pub struct AskQuestionArgs {
    pub question: String,
    pub options: Vec<String>,
}

/// The user's answer: the chosen or typed text, or `None` when dismissed.
#[derive(Debug)]
pub struct QuestionResult {
    pub response: Option<String>,
}

/// The `ask_question` tool.
#[derive(Debug)]
pub struct AskQuestion;

/// A task for the work queue.
#[derive(Debug)]
pub struct TaskItem {
    pub title: String,
    pub details: String,
}

/// The arguments of `push_tasks`.
#[derive(Debug)]
pub struct PushTasksArgs {
    pub group: String,
    pub tasks: Vec<TaskItem>,
}

/// The `push_tasks` tool.
#[derive(Debug)]
pub struct PushTasks;

/// The arguments of `pop_task`.
#[derive(Debug)]
pub struct PopTaskArgs {
    pub group: String,
}

/// The `pop_task` tool.
#[derive(Debug)]
pub struct PopTask;

/// The arguments of `start_workflow`.
#[derive(Debug)]
pub struct StartWorkflowArgs {
    pub workflow_id: String,
}

/// The `start_workflow` tool.
#[derive(Debug)]
pub struct StartWorkflow;

/// The arguments of `use_choreo`.
#[derive(Debug)]
pub struct UseChoreoArgs {
    pub choreo_id: String,
}

/// The `use_choreo` tool.
#[derive(Debug)]
pub struct UseChoreo;

/// The arguments of `end_workflow`.
#[derive(Debug)]
pub struct EndWorkflowArgs {
    pub step_artifact: Option<String>,
}

/// The `end_workflow` tool.
#[derive(Debug)]
pub struct EndWorkflow;

/// The arguments of `end_choreo`.
#[derive(Debug)]
pub struct EndChoreoArgs {
    pub move_artifact: Option<String>,
}

/// The `end_choreo` tool.
#[derive(Debug)]
pub struct EndChoreo;

/// The arguments of `navigate_workflow`.
#[derive(Debug)]
pub struct NavigateWorkflowArgs {
    pub step: usize,
    pub step_artifact: Option<String>,
}

/// The `navigate_workflow` tool.
#[derive(Debug)]
pub struct NavigateWorkflow;

/// The arguments of `navigate_choreo` (the move to go to, and the current
/// move's artifact).
#[derive(Debug)]
pub struct NavigateChoreoArgs {
    pub move_number: usize,
    pub move_artifact: Option<String>,
}

/// The `navigate_choreo` tool.
#[derive(Debug)]
pub struct NavigateChoreo;

/// The answer when the user dismissed the question.
pub open spec fn dismissed() -> Seq<char> {
    "User dismissed the question"@
}

/// The answer when the user chose to reply in the chat.
pub open spec fn answer_in_chat() -> Seq<char> {
    "<context>The user chose to answer via chat instead of selecting an option. Stop your response with \"I am listening\" and wait for the user's message. Do not call ask_question again.</context>"@
}

/// What `ask_question` answers, given what came back from the user (`None`
/// when nothing did).
pub open spec fn spec_answer(result: Option<Option<Seq<char>>>) -> Seq<char> {
    match result {
        Some(Some(t)) => if t == "Answer by Chat.."@ {
            answer_in_chat()
        } else {
            t
        },
        _ => dismissed(),
    }
}

impl AskQuestion {
    /// The tool's answer for what came back from the user.
    pub fn answer(result: Option<QuestionResult>) -> (r: String)
        ensures
            r@ == spec_answer(
                match result {
                    Some(q) => Some(
                        match q.response {
                            Some(t) => Some(t@),
                            None => None,
                        },
                    ),
                    None => None,
                },
            ),
    {
        match result {
            Some(q) => match q.response {
                Some(text) => {
                    if str_eq(text.as_str(), ANSWER_BY_CHAT) {
                        "<context>The user chose to answer via chat instead of selecting an option. Stop your response with \"I am listening\" and wait for the user's message. Do not call ask_question again.</context>".to_string()
                    } else {
                        text
                    }
                },
                None => "User dismissed the question".to_string(),
            },
            None => "User dismissed the question".to_string(),
        }
    }
}

impl PushTasks {
    /// The tool's answer after queueing `count` tasks under `group`.
    pub fn queued_message(count: usize, group: &str) -> (r: String)
        ensures
            r@ == spec_decimal(count as nat) + " task(s) queued under group '"@ + group@
                + "'. They will be worked when the current task is done or the user asks."@,
    {
        let mut s = decimal(count);
        s.append(" task(s) queued under group '");
        s.append(group);
        s.append("'. They will be worked when the current task is done or the user asks.");
        s
    }
}

impl PopTask {
    /// The tool's answer when `group` has no queued task.
    pub fn empty_message(group: &str) -> (r: String)
        ensures
            r@ == "No queued tasks in group '"@ + group@ + "'."@,
    {
        let mut s = "No queued tasks in group '".to_string();
        s.append(group);
        s.append("'.");
        s
    }
}

/// A navigation from `current` to `target` among `total` steps is allowed
/// when the target exists and is at most one step ahead.
pub open spec fn navigation_allowed(current: int, target: int, total: int) -> bool {
    0 < target && target <= current + 1 && target <= total
}

/// Whether the navigation is allowed.
fn allowed(current: usize, target: usize, total: usize) -> (r: bool)
    ensures
        r == navigation_allowed(current as int, target as int, total as int),
{
    target > 0 && target - 1 <= current && target <= total
}

impl NavigateWorkflow {
    /// Checks a move from step `current` to step `target` of `total`; an
    /// `InvalidInput` error when it is not allowed.
    pub fn check(current: usize, target: usize, total: usize) -> (r: Result<(), Error>)
        ensures
            navigation_allowed(current as int, target as int, total as int) ==> r is Ok,
            !navigation_allowed(current as int, target as int, total as int) ==> (r matches Err(e)
                && e.kind == ErrorKind::InvalidInput && e.message@ == "Invalid navigation from step "@
                + spec_decimal(current as nat) + " to step "@ + spec_decimal(target as nat)),
    {
        if allowed(current, target, total) {
            Ok(())
        } else {
            let mut m = "Invalid navigation from step ".to_string();
            m.append(decimal(current).as_str());
            m.append(" to step ");
            m.append(decimal(target).as_str());
            Err(Error { kind: ErrorKind::InvalidInput, message: m })
        }
    }
}

impl NavigateChoreo {
    /// Checks a move from move `current` to move `target` of `total`; an
    /// `InvalidInput` error when it is not allowed.
    pub fn check(current: usize, target: usize, total: usize) -> (r: Result<(), Error>)
        ensures
            navigation_allowed(current as int, target as int, total as int) ==> r is Ok,
            !navigation_allowed(current as int, target as int, total as int) ==> (r matches Err(e)
                && e.kind == ErrorKind::InvalidInput && e.message@ == "Invalid navigation from move "@
                + spec_decimal(current as nat) + " to move "@ + spec_decimal(target as nat)),
    {
        if allowed(current, target, total) {
            Ok(())
        } else {
            let mut m = "Invalid navigation from move ".to_string();
            m.append(decimal(current).as_str());
            m.append(" to move ");
            m.append(decimal(target).as_str());
            Err(Error { kind: ErrorKind::InvalidInput, message: m })
        }
    }
}

/// The first of `ids` equal to `id`.
pub open spec fn first_id(ids: Seq<Seq<char>>, id: Seq<char>) -> Option<int> {
    if exists|i: int| 0 <= i < ids.len() && ids[i] == id {
        Some(choose|i: int| 0 <= i < ids.len() && ids[i] == id && forall|j: int| 0 <= j < i ==> ids[j] != id)
    } else {
        None
    }
}

/// Finds `id` among `ids`.
fn find_id(ids: &Vec<String>, id: &str) -> (r: Option<usize>)
    ensures
        match first_id(strings_view(ids@), id@) {
            Some(i) => r == Some(i as usize),
            None => r is None,
        },
{
    let ghost v = strings_view(ids@);
    let mut i: usize = 0;
    while i < ids.len()
        invariant
            v == strings_view(ids@),
            i <= ids@.len(),
            forall|j: int| 0 <= j < i ==> v[j] != id@,
        decreases ids@.len() - i,
    {
        if str_eq(ids[i].as_str(), id) {
            proof {
                assert(v[i as int] == id@);
                let k = choose|k: int| 0 <= k < v.len() && v[k] == id@ && forall|j: int| 0 <= j < k ==> v[j] != id@;
                assert(k == i) by {
                    if k < i {
                    } else if k > i {
                        assert(v[i as int] != id@);
                    }
                }
            }
            return Some(i);
        }
        i += 1;
    }
    None
}

impl StartWorkflow {
    /// The index of the workflow `id` among the agent's workflows `ids`; an
    /// `InvalidInput` error that lists them when it is not one of them.
    pub fn select(ids: &Vec<String>, id: &str) -> (r: Result<usize, Error>)
        ensures
            match first_id(strings_view(ids@), id@) {
                Some(i) => r == Ok::<usize, Error>(i as usize),
                None => r matches Err(e) && e.kind == ErrorKind::InvalidInput && e.message@
                    == "Workflow '"@ + id@ + "' is not available for this agent. Available workflows: "@
                    + spec_join(strings_view(ids@), ", "@),
            },
    {
        match find_id(ids, id) {
            Some(i) => Ok(i),
            None => {
                let mut m = "Workflow '".to_string();
                m.append(id);
                m.append("' is not available for this agent. Available workflows: ");
                m.append(join_strings(ids.as_slice(), ", ").as_str());
                Err(Error { kind: ErrorKind::InvalidInput, message: m })
            },
        }
    }

    /// The tool's answer once the workflow started at its first step.
    pub fn started_message(id: &str, title: &str, first_step: &str) -> (r: String)
        ensures
            r@ == "Workflow '"@ + id@ + "' ("@ + title@ + "): "@ + first_step@ + "."@,
    {
        let mut s = "Workflow '".to_string();
        s.append(id);
        s.append("' (");
        s.append(title);
        s.append("): ");
        s.append(first_step);
        s.append(".");
        s
    }
}

impl UseChoreo {
    /// The index of the choreography `id` among the agent's `ids`; an
    /// `InvalidInput` error that lists them when it is not one of them.
    pub fn select(ids: &Vec<String>, id: &str) -> (r: Result<usize, Error>)
        ensures
            match first_id(strings_view(ids@), id@) {
                Some(i) => r == Ok::<usize, Error>(i as usize),
                None => r matches Err(e) && e.kind == ErrorKind::InvalidInput && e.message@
                    == "Choreo '"@ + id@ + "' is not available for this agent. Available choreos: "@
                    + spec_join(strings_view(ids@), ", "@),
            },
    {
        match find_id(ids, id) {
            Some(i) => Ok(i),
            None => {
                let mut m = "Choreo '".to_string();
                m.append(id);
                m.append("' is not available for this agent. Available choreos: ");
                m.append(join_strings(ids.as_slice(), ", ").as_str());
                Err(Error { kind: ErrorKind::InvalidInput, message: m })
            },
        }
    }

    /// The tool's answer once the choreography started at its first move.
    pub fn started_message(id: &str, title: &str, first_move: &str) -> (r: String)
        ensures
            r@ == "Choreo '"@ + id@ + "' ("@ + title@ + "): "@ + first_move@ + "."@,
    {
        let mut s = "Choreo '".to_string();
        s.append(id);
        s.append("' (");
        s.append(title);
        s.append("): ");
        s.append(first_move);
        s.append(".");
        s
    }
}

/// The artifact, or nothing.
pub open spec fn artifact_text(a: Option<String>) -> Seq<char> {
    match a {
        Some(t) => t@,
        None => seq![],
    }
}

impl EndWorkflow {
    /// The tool's answer: an `InvalidInput` error when no workflow is
    /// active, else the completion with the last step's artifact.
    pub fn finish(active: bool, args: &EndWorkflowArgs) -> (r: Result<String, Error>)
        ensures
            !active ==> (r matches Err(e) && e.kind == ErrorKind::InvalidInput && e.message@
                == "No active workflow"@),
            active ==> (r matches Ok(s) && s@ == "workflow completed. output: "@ + artifact_text(
                args.step_artifact,
            )),
    {
        if !active {
            return Err(Error { kind: ErrorKind::InvalidInput, message: "No active workflow".to_string() });
        }
        let mut s = "workflow completed. output: ".to_string();
        match &args.step_artifact {
            Some(a) => s.append(a.as_str()),
            None => {},
        }
        Ok(s)
    }
}

impl EndChoreo {
    /// The tool's answer: an `InvalidInput` error when no choreography is
    /// active, else the completion with the last move's artifact.
    pub fn finish(active: bool, args: &EndChoreoArgs) -> (r: Result<String, Error>)
        ensures
            !active ==> (r matches Err(e) && e.kind == ErrorKind::InvalidInput && e.message@
                == "No active choreo"@),
            active ==> (r matches Ok(s) && s@ == "choreo completed. artifact: "@ + artifact_text(
                args.move_artifact,
            )),
    {
        if !active {
            return Err(Error { kind: ErrorKind::InvalidInput, message: "No active choreo".to_string() });
        }
        let mut s = "choreo completed. artifact: ".to_string();
        match &args.move_artifact {
            Some(a) => s.append(a.as_str()),
            None => {},
        }
        Ok(s)
    }
}

} // verus!
