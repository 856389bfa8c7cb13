//! What the chat composer does with a message aimed at Unity, what comes of
//! a Unity plan that the agent wrote, and how a task's status follows the
//! agent's events.

use vstd::prelude::*;
use crate::build::events::AgentEvent;
use crate::build::task::{PermissionMode, TaskState, TaskStatus};
use crate::build::unity::{
    chat_command_for, compile_unity_scene_command, is_help_request, normalized,
    accept_generated_plan_unrestricted, parse_unity_chat_command, parsed_view, plan_outcome,
    scene_command, wants_unity_help, ChatCmdSpec, UnityChatCmd,
};
use crate::text::{
    ascii_lower_seq, ascii_lowercase, chars_of, dec, decimal, eq_str, push_chars, push_str,
    string_of, sviews,
};

verus! {

/// Where a composed message goes.
pub enum UnityChatRoute {
    /// Not a Unity message: it goes to the agent as usual.
    NotForUnity,
    /// The help text answers it.
    Help,
    /// Unity is running something else.
    Busy,
    /// The task may not change anything.
    ReadOnly,
    /// A scene edit that waits for the user's approval.
    AwaitApproval { summary: String, csharp: String },
    /// A scene edit to run as an Eval now.
    RunEval { label: String, csharp: String },
    /// A free-form request, but the agent is not there to plan it.
    NeedsAgent,
    /// A free-form request for the agent to turn into a plan.
    Planner { prompt: String },
    /// One of the chat commands.
    Command(UnityChatCmd),
}

pub enum RouteView {
    NotForUnity,
    Help,
    Busy,
    ReadOnly,
    AwaitApproval { summary: Seq<char>, csharp: Seq<char> },
    RunEval { label: Seq<char>, csharp: Seq<char> },
    NeedsAgent,
    Planner { prompt: Seq<char> },
    Command(ChatCmdSpec),
}

impl View for UnityChatRoute {
    type V = RouteView;

    open spec fn view(&self) -> RouteView {
        match self {
            UnityChatRoute::NotForUnity => RouteView::NotForUnity,
            UnityChatRoute::Help => RouteView::Help,
            UnityChatRoute::Busy => RouteView::Busy,
            UnityChatRoute::ReadOnly => RouteView::ReadOnly,
            UnityChatRoute::AwaitApproval { summary, csharp } => RouteView::AwaitApproval {
                summary: summary@,
                csharp: csharp@,
            },
            UnityChatRoute::RunEval { label, csharp } => RouteView::RunEval {
                label: label@,
                csharp: csharp@,
            },
            UnityChatRoute::NeedsAgent => RouteView::NeedsAgent,
            UnityChatRoute::Planner { prompt } => RouteView::Planner { prompt: prompt@ },
            UnityChatRoute::Command(c) => RouteView::Command(c@),
        }
    }
}

pub const PLANNER_PROMPT: &'static str = "You are a Unity Editor action compiler. Convert the user's request below into one Unity C# Eval body. Do not call tools. Output ONLY one JSON object with string fields `summary` and `csharp`, without markdown. The C# runs inside the open Unity Editor and must use UnityEngine/UnityEditor APIs, support Undo for mutations, mark changed scenes/assets dirty, and end with a return value. Never use filesystem, network, processes, environment variables, native interop, reflection, or shell APIs. User request: ";

/// Where a message goes: the help text, a scene edit (held back while Unity
/// is busy, refused in a read-only task, waiting for approval in an asking
/// task), a chat command, or (in Unity chat mode) the agent's planner.
/// `busy` tells whether Unity runs something or the guided loop is under
/// way; `agent_ready` whether the agent is connected and signed in.
pub open spec fn unity_route(
    text: Seq<char>,
    has_attachments: bool,
    busy: bool,
    mode: PermissionMode,
    chat_mode: bool,
    agent_ready: bool,
) -> RouteView {
    let n = normalized(text);
    if text.len() == 0 || has_attachments {
        RouteView::NotForUnity
    } else if is_help_request(n) {
        RouteView::Help
    } else if scene_command(n) is Some {
        let (label, csharp) = scene_command(n)->0;
        if busy {
            RouteView::Busy
        } else if mode == PermissionMode::ReadOnly {
            RouteView::ReadOnly
        } else if mode == PermissionMode::Ask {
            RouteView::AwaitApproval { summary: label, csharp }
        } else {
            RouteView::RunEval { label, csharp }
        }
    } else {
        match chat_command_for(n) {
            Some(c) => RouteView::Command(c),
            None => if !chat_mode {
                RouteView::NotForUnity
            } else if !agent_ready {
                RouteView::NeedsAgent
            } else {
                RouteView::Planner { prompt: PLANNER_PROMPT@ + text }
            },
        }
    }
}

pub fn route_unity_chat(
    text: &str,
    has_attachments: bool,
    busy: bool,
    mode: PermissionMode,
    chat_mode: bool,
    agent_ready: bool,
) -> (r: UnityChatRoute)
    ensures
        r@ == unity_route(text@, has_attachments, busy, mode, chat_mode, agent_ready),
{
    if text.is_empty() || has_attachments {
        return UnityChatRoute::NotForUnity;
    }
    if wants_unity_help(text) {
        return UnityChatRoute::Help;
    }
    if let Some((label, csharp)) = compile_unity_scene_command(text) {
        if busy {
            return UnityChatRoute::Busy;
        }
        if mode == PermissionMode::ReadOnly {
            return UnityChatRoute::ReadOnly;
        }
        if mode == PermissionMode::Ask {
            return UnityChatRoute::AwaitApproval { summary: label, csharp };
        }
        return UnityChatRoute::RunEval { label, csharp };
    }
    match parse_unity_chat_command(text) {
        Some(c) => UnityChatRoute::Command(c),
        None => {
            if !chat_mode {
                UnityChatRoute::NotForUnity
            } else if !agent_ready {
                UnityChatRoute::NeedsAgent
            } else {
                let mut p = chars_of(PLANNER_PROMPT);
                push_str(&mut p, text);
                UnityChatRoute::Planner { prompt: string_of(&p) }
            }
        },
    }
}

/// What comes of the agent's Unity plan.
pub enum PlanDecision {
    /// The plan is shown but not run: the task is read-only.
    Shown { message: String },
    /// The plan waits for the user's approval.
    AwaitApproval { message: String, summary: String, csharp: String, risks: Vec<String> },
    /// The plan runs now.
    Execute { message: String, summary: String, csharp: String },
    /// No plan could be read; nothing runs.
    Rejected { message: String },
}

pub enum DecisionView {
    Shown { message: Seq<char> },
    AwaitApproval {
        message: Seq<char>,
        summary: Seq<char>,
        csharp: Seq<char>,
        risks: Seq<Seq<char>>,
    },
    Execute { message: Seq<char>, summary: Seq<char>, csharp: Seq<char> },
    Rejected { message: Seq<char> },
}

impl View for PlanDecision {
    type V = DecisionView;

    open spec fn view(&self) -> DecisionView {
        match self {
            PlanDecision::Shown { message } => DecisionView::Shown { message: message@ },
            PlanDecision::AwaitApproval { message, summary, csharp, risks } =>
                DecisionView::AwaitApproval {
                message: message@,
                summary: summary@,
                csharp: csharp@,
                risks: sviews(risks@),
            },
            PlanDecision::Execute { message, summary, csharp } => DecisionView::Execute {
                message: message@,
                summary: summary@,
                csharp: csharp@,
            },
            PlanDecision::Rejected { message } => DecisionView::Rejected { message: message@ },
        }
    }
}

/// What comes of the agent's reply to the planner, given the parse of its
/// plan JSON (`parsed`), in a task with permission `mode`: a read plan is
/// shown in a read-only task, waits for approval in an asking task or when
/// it has risks, and runs otherwise; a reply that holds no valid plan is
/// rejected with the reason.
pub open spec fn plan_decision(
    parsed: Result<(Seq<char>, Seq<char>), Seq<char>>,
    mode: PermissionMode,
) -> DecisionView {
    match plan_outcome(parsed) {
        Ok((summary, csharp, risks)) => if mode == PermissionMode::ReadOnly {
            DecisionView::Shown {
                message: "Unity 计划已生成："@ + summary + "\n\n当前任务是只读模式，没有执行修改。"@,
            }
        } else if mode == PermissionMode::Ask || risks.len() > 0 {
            DecisionView::AwaitApproval {
                message: "Unity 计划等待批准："@ + summary,
                summary,
                csharp,
                risks,
            }
        } else {
            DecisionView::Execute {
                message: "Unity 计划已批准："@ + summary + "\n\n正在执行…"@,
                summary,
                csharp,
            }
        },
        Err(e) => DecisionView::Rejected {
            message: "无法生成可执行的 Unity 计划："@ + e + "\n\n没有执行任何编辑器操作。"@,
        },
    }
}

pub fn decide_unity_plan(parsed: Result<(String, String), String>, mode: PermissionMode) -> (r:
    PlanDecision)
    ensures
        r@ == plan_decision(parsed_view(parsed), mode),
{
    match accept_generated_plan_unrestricted(parsed) {
        Ok((summary, csharp, risks)) => {
            if mode == PermissionMode::ReadOnly {
                let mut m = chars_of("Unity 计划已生成：");
                push_str(&mut m, summary.as_str());
                push_str(&mut m, "\n\n当前任务是只读模式，没有执行修改。");
                PlanDecision::Shown { message: string_of(&m) }
            } else if mode == PermissionMode::Ask || risks.len() > 0 {
                let mut m = chars_of("Unity 计划等待批准：");
                push_str(&mut m, summary.as_str());
                PlanDecision::AwaitApproval { message: string_of(&m), summary, csharp, risks }
            } else {
                let mut m = chars_of("Unity 计划已批准：");
                push_str(&mut m, summary.as_str());
                push_str(&mut m, "\n\n正在执行…");
                PlanDecision::Execute { message: string_of(&m), summary, csharp }
            }
        },
        Err(e) => {
            let mut m = chars_of("无法生成可执行的 Unity 计划：");
            push_str(&mut m, e.as_str());
            push_str(&mut m, "\n\n没有执行任何编辑器操作。");
            PlanDecision::Rejected { message: string_of(&m) }
        },
    }
}

/// The status a task takes on an agent event: a fresh session makes it a
/// draft, a permission request makes it wait, a finished turn completes
/// it and an error fails it; other events leave it.
pub open spec fn status_after(e: AgentEvent) -> Option<TaskStatus> {
    match e {
        AgentEvent::Connected { .. } => Some(TaskStatus::Draft),
        AgentEvent::PermissionRequest { .. } => Some(TaskStatus::WaitingApproval),
        AgentEvent::TurnDone { .. } => Some(TaskStatus::Completed),
        AgentEvent::Error(_) => Some(TaskStatus::Failed),
        _ => None,
    }
}

/// Follows an agent event on the active task at time `now`: the status of
/// `status_after`, the session and model of a new session, and the update
/// time. True when the task changed and is to be saved.
pub fn follow_event(task: &mut TaskState, event: &AgentEvent, now: i64) -> (changed: bool)
    ensures
        changed == (status_after(*event) is Some),
        changed ==> final(task).status == status_after(*event)->0 && final(task).updated_at
            == now,
        !changed ==> *final(task) == *old(task),
        match event {
            AgentEvent::Connected { session_id, current_model_id, .. } =>
                final(task).session_id matches Some(s) && s@ == session_id@
                && final(task).model_id@ == current_model_id@,
            _ => final(task).session_id == old(task).session_id && final(task).model_id
                == old(task).model_id,
        },
        final(task).id == old(task).id && final(task).title == old(task).title
            && final(task).project_path == old(task).project_path && final(task).worktree_path
            == old(task).worktree_path && final(task).branch == old(task).branch,
{
    match event {
        AgentEvent::Connected { session_id, current_model_id, .. } => {
            task.session_id = Some(session_id.clone());
            task.model_id = current_model_id.clone();
            task.status = TaskStatus::Draft;
        },
        AgentEvent::PermissionRequest { .. } => {
            task.status = TaskStatus::WaitingApproval;
        },
        AgentEvent::TurnDone { .. } => {
            task.status = TaskStatus::Completed;
        },
        AgentEvent::Error(_) => {
            task.status = TaskStatus::Failed;
        },
        _ => {
            return false;
        },
    }
    task.updated_at = now;
    true
}

/// Whether the composer may send: something to send, and an agent that is
/// connected, signed in and idle.
pub fn can_send_prompt(text: &str, attachments: usize, busy: bool, needs_login: bool, connected: bool) -> (r: bool)
    ensures
        r == (!(text@.len() == 0 && attachments == 0) && !busy && !needs_login && connected),
{
    !(text.is_empty() && attachments == 0) && !busy && !needs_login && connected
}

/// The title a task takes when a prompt is sent: the first 42 characters of
/// the prompt while the task still has its first title.
pub open spec fn title_after(title: Seq<char>, text: Seq<char>) -> Seq<char> {
    if title == "新任务"@ && text.len() > 0 {
        if text.len() > 42 {
            text.take(42)
        } else {
            text
        }
    } else {
        title
    }
}

pub fn task_title_after(title: &str, text: &str) -> (r: String)
    ensures
        r@ == title_after(title@, text@),
{
    let t = chars_of(text);
    if eq_str(&chars_of(title), "新任务") && t.len() > 0 {
        if t.len() > 42 {
            let mut out: Vec<char> = Vec::new();
            let mut i: usize = 0;
            while i < 42
                invariant
                    i <= 42,
                    42 < t@.len(),
                    out@ == t@.take(i as int),
                decreases 42 - i,
            {
                out.push(t[i]);
                i = i + 1;
                assert(out@ =~= t@.take(i as int));
            }
            string_of(&out)
        } else {
            string_of(&t)
        }
    } else {
        title.to_owned()
    }
}

/// The user's bubble for a sent prompt: its text, or the number of files
/// when it has none.
pub open spec fn prompt_bubble(text: Seq<char>, attachments: nat) -> Seq<char> {
    if text.len() == 0 {
        "已附加 "@ + dec(attachments) + " 个文件"@
    } else {
        text
    }
}

pub fn bubble_text(text: &str, attachments: usize) -> (r: String)
    ensures
        r@ == prompt_bubble(text@, attachments as nat),
{
    if text.is_empty() {
        let mut out = chars_of("已附加 ");
        let d = decimal(attachments as u64);
        push_chars(&mut out, &d);
        push_str(&mut out, " 个文件");
        string_of(&out)
    } else {
        text.to_owned()
    }
}

/// The largest file the composer attaches, in bytes.
pub const ATTACHMENT_LIMIT: u64 = 10 * 1024 * 1024;

/// The MIME type of an attachment by its extension (any case): the image
/// types, plain text for common text and source files, none for the rest.
pub open spec fn mime_of(ext: Seq<char>) -> Option<Seq<char>> {
    let e = ascii_lower_seq(ext);
    if e == "png"@ {
        Some("image/png"@)
    } else if e == "jpg"@ || e == "jpeg"@ {
        Some("image/jpeg"@)
    } else if e == "gif"@ {
        Some("image/gif"@)
    } else if e == "webp"@ {
        Some("image/webp"@)
    } else if e == "txt"@ || e == "md"@ || e == "rs"@ || e == "toml"@ || e == "json"@ || e
        == "yaml"@ || e == "yml"@ || e == "js"@ || e == "ts"@ || e == "tsx"@ || e == "jsx"@ || e
        == "py"@ || e == "go"@ || e == "java"@ || e == "c"@ || e == "cpp"@ || e == "h"@ {
        Some("text/plain"@)
    } else {
        None
    }
}

pub fn attachment_mime(ext: &str) -> (r: Option<&'static str>)
    ensures
        match r {
            Some(m) => mime_of(ext@) == Some(m@),
            None => mime_of(ext@) is None,
        },
{
    let e = ascii_lowercase(&chars_of(ext));
    if eq_str(&e, "png") {
        Some("image/png")
    } else if eq_str(&e, "jpg") || eq_str(&e, "jpeg") {
        Some("image/jpeg")
    } else if eq_str(&e, "gif") {
        Some("image/gif")
    } else if eq_str(&e, "webp") {
        Some("image/webp")
    } else if eq_str(&e, "txt") || eq_str(&e, "md") || eq_str(&e, "rs") || eq_str(&e, "toml")
        || eq_str(&e, "json") || eq_str(&e, "yaml") || eq_str(&e, "yml") || eq_str(&e, "js")
        || eq_str(&e, "ts") || eq_str(&e, "tsx") || eq_str(&e, "jsx") || eq_str(&e, "py")
        || eq_str(&e, "go") || eq_str(&e, "java") || eq_str(&e, "c") || eq_str(&e, "cpp")
        || eq_str(&e, "h") {
        Some("text/plain")
    } else {
        None
    }
}

} // verus!
