//! Task metadata: its status, permission and agent modes, and a new draft.
//! The conversation itself lives with the agent.

use vstd::prelude::*;
use crate::clock::now_unix;
use crate::text::{chars_of, eq_str};

verus! {

/// Where a task stands.
#[derive(Debug, Clone, Copy, PartialEq, Eq, Structural)]
pub enum TaskStatus {
    Draft,
    Running,
    WaitingApproval,
    Completed,
    Failed,
    Archived,
}

pub open spec fn status_str(s: TaskStatus) -> Seq<char> {
    match s {
        TaskStatus::Draft => "draft"@,
        TaskStatus::Running => "running"@,
        TaskStatus::WaitingApproval => "waiting_approval"@,
        TaskStatus::Completed => "completed"@,
        TaskStatus::Failed => "failed"@,
        TaskStatus::Archived => "archived"@,
    }
}

/// The status a stored name stands for; an unknown name is a draft.
pub open spec fn status_named(v: Seq<char>) -> TaskStatus {
    if v == "running"@ {
        TaskStatus::Running
    } else if v == "waiting_approval"@ {
        TaskStatus::WaitingApproval
    } else if v == "completed"@ {
        TaskStatus::Completed
    } else if v == "failed"@ {
        TaskStatus::Failed
    } else if v == "archived"@ {
        TaskStatus::Archived
    } else {
        TaskStatus::Draft
    }
}

impl TaskStatus {
    /// The name the status is stored under.
    pub fn as_str(self) -> (r: &'static str)
        ensures
            r@ == status_str(self),
    {
        match self {
            TaskStatus::Draft => "draft",
            TaskStatus::Running => "running",
            TaskStatus::WaitingApproval => "waiting_approval",
            TaskStatus::Completed => "completed",
            TaskStatus::Failed => "failed",
            TaskStatus::Archived => "archived",
        }
    }

    /// The status of a stored name (`status_named`).
    pub fn parse(value: &str) -> (r: Self)
        ensures
            r == status_named(value@),
    {
        let v = chars_of(value);
        if eq_str(&v, "running") {
            TaskStatus::Running
        } else if eq_str(&v, "waiting_approval") {
            TaskStatus::WaitingApproval
        } else if eq_str(&v, "completed") {
            TaskStatus::Completed
        } else if eq_str(&v, "failed") {
            TaskStatus::Failed
        } else if eq_str(&v, "archived") {
            TaskStatus::Archived
        } else {
            TaskStatus::Draft
        }
    }

    /// The label shown for the status.
    pub fn label(self) -> (r: &'static str)
        ensures
            r@ == match self {
                TaskStatus::Draft => "草稿"@,
                TaskStatus::Running => "运行中"@,
                TaskStatus::WaitingApproval => "等待审批"@,
                TaskStatus::Completed => "已完成"@,
                TaskStatus::Failed => "失败"@,
                TaskStatus::Archived => "已归档"@,
            },
    {
        match self {
            TaskStatus::Draft => "草稿",
            TaskStatus::Running => "运行中",
            TaskStatus::WaitingApproval => "等待审批",
            TaskStatus::Completed => "已完成",
            TaskStatus::Failed => "失败",
            TaskStatus::Archived => "已归档",
        }
    }
}

/// What the agent may do without asking.
#[derive(Debug, Clone, Copy, PartialEq, Eq, Structural)]
pub enum PermissionMode {
    ReadOnly,
    Ask,
    AllowEdits,
    FullControl,
}

pub open spec fn permission_str(m: PermissionMode) -> Seq<char> {
    match m {
        PermissionMode::ReadOnly => "read_only"@,
        PermissionMode::Ask => "ask"@,
        PermissionMode::AllowEdits => "allow_edits"@,
        PermissionMode::FullControl => "full_control"@,
    }
}

/// The mode a stored name stands for; an unknown name asks.
pub open spec fn permission_named(v: Seq<char>) -> PermissionMode {
    if v == "read_only"@ {
        PermissionMode::ReadOnly
    } else if v == "allow_edits"@ {
        PermissionMode::AllowEdits
    } else if v == "full_control"@ {
        PermissionMode::FullControl
    } else {
        PermissionMode::Ask
    }
}

impl PermissionMode {
    /// The name the mode is stored under.
    pub fn as_str(self) -> (r: &'static str)
        ensures
            r@ == permission_str(self),
    {
        match self {
            PermissionMode::ReadOnly => "read_only",
            PermissionMode::Ask => "ask",
            PermissionMode::AllowEdits => "allow_edits",
            PermissionMode::FullControl => "full_control",
        }
    }

    /// The mode of a stored name (`permission_named`).
    pub fn parse(value: &str) -> (r: Self)
        ensures
            r == permission_named(value@),
    {
        let v = chars_of(value);
        if eq_str(&v, "read_only") {
            PermissionMode::ReadOnly
        } else if eq_str(&v, "allow_edits") {
            PermissionMode::AllowEdits
        } else if eq_str(&v, "full_control") {
            PermissionMode::FullControl
        } else {
            PermissionMode::Ask
        }
    }
}

/// Whether the agent plans or executes.
#[derive(Debug, Clone, Copy, PartialEq, Eq, Structural)]
pub enum AgentMode {
    Plan,
    Execute,
}

pub open spec fn agent_mode_str(m: AgentMode) -> Seq<char> {
    match m {
        AgentMode::Plan => "plan"@,
        AgentMode::Execute => "execute"@,
    }
}

impl AgentMode {
    /// The name the mode is stored under.
    pub fn as_str(self) -> (r: &'static str)
        ensures
            r@ == agent_mode_str(self),
    {
        match self {
            AgentMode::Plan => "plan",
            AgentMode::Execute => "execute",
        }
    }

    /// `plan` plans; any other name executes.
    pub fn parse(value: &str) -> (r: Self)
        ensures
            r == (if value@ == "plan"@ {
                AgentMode::Plan
            } else {
                AgentMode::Execute
            }),
    {
        if eq_str(&chars_of(value), "plan") {
            AgentMode::Plan
        } else {
            AgentMode::Execute
        }
    }
}

/// A task: where it works, its agent session, its modes and status, and
/// its times (seconds since the Unix epoch).
#[derive(Debug, Clone)]
pub struct TaskState {
    pub id: String,
    pub title: String,
    pub project_path: String,
    pub worktree_path: String,
    pub branch: Option<String>,
    pub session_id: Option<String>,
    pub model_id: String,
    pub permission_mode: PermissionMode,
    pub agent_mode: AgentMode,
    pub status: TaskStatus,
    pub isolated: bool,
    pub created_at: i64,
    pub updated_at: i64,
}

pub open spec fn is_lower_hex(c: char) -> bool {
    ('0' <= c && c <= '9') || ('a' <= c && c <= 'f')
}

/// A random version-4 UUID in its hyphenated lowercase form, like
/// `67e55044-10b1-426f-9247-bb680e5fe0c8`.
pub open spec fn uuid_v4_text(s: Seq<char>) -> bool {
    &&& s.len() == 36
    &&& forall|i: int|
        0 <= i < 36 ==> if i == 8 || i == 13 || i == 18 || i == 23 {
            #[trigger] s[i] == '-'
        } else {
            is_lower_hex(s[i])
        }
    &&& s[14] == '4'
}

/// `uuid::Uuid::new_v4().to_string()`: a random UUID of version 4, which
/// the crate formats hyphenated in lowercase hex. Which UUID comes out is
/// left open.
#[verifier::external_body]
fn new_uuid() -> (r: String)
    ensures
        uuid_v4_text(r@),
{
    uuid::Uuid::new_v4().to_string()
}

/// A clock reading in seconds as a stored timestamp: the reading itself,
/// or `i64::MAX` for one beyond it.
pub fn clamp_seconds(s: u64) -> (r: i64)
    ensures
        r == (if s > i64::MAX {
            i64::MAX as int
        } else {
            s as int
        }),
{
    if s > 0x7fff_ffff_ffff_ffff {
        0x7fff_ffff_ffff_ffff
    } else {
        s as i64
    }
}

/// Seconds since the Unix epoch (`clamp_seconds` of the clock's reading,
/// which depends on the machine's clock and so is not stated).
pub fn unix_time() -> (r: i64)
    ensures
        r >= 0,
{
    clamp_seconds(now_unix())
}

impl TaskState {
    /// A new draft task in `project_path`: a fresh id, the title 新任务,
    /// working in the project itself, asking before acting, executing.
    pub fn draft(project_path: String, model_id: String) -> (r: Self)
        ensures
            uuid_v4_text(r.id@),
            r.title@ == "新任务"@,
            r.project_path@ == project_path@,
            r.worktree_path@ == project_path@,
            r.branch is None,
            r.session_id is None,
            r.model_id@ == model_id@,
            r.permission_mode == PermissionMode::Ask,
            r.agent_mode == AgentMode::Execute,
            r.status == TaskStatus::Draft,
            !r.isolated,
            r.created_at == r.updated_at,
            r.created_at >= 0,
    {
        let now = unix_time();
        TaskState {
            id: new_uuid(),
            title: "新任务".to_owned(),
            worktree_path: project_path.clone(),
            project_path,
            branch: None,
            session_id: None,
            model_id,
            permission_mode: PermissionMode::Ask,
            agent_mode: AgentMode::Execute,
            status: TaskStatus::Draft,
            isolated: false,
            created_at: now,
            updated_at: now,
        }
    }
}

/// A store of tasks.
pub trait TaskRepository {
    fn list(&self, include_archived: bool) -> Result<Vec<TaskState>, String>;

    fn get(&self, id: &str) -> Result<Option<TaskState>, String>;

    fn save(&self, task: &TaskState) -> Result<(), String>;

    fn delete(&self, id: &str) -> Result<(), String>;
}

/// A stored status name reads back as the status.
pub proof fn lemma_status_round_trip(s: TaskStatus)
    ensures
        status_named(status_str(s)) == s,
{
    reveal_strlit("draft");
    reveal_strlit("running");
    reveal_strlit("waiting_approval");
    reveal_strlit("completed");
    reveal_strlit("failed");
    reveal_strlit("archived");
    assert("draft"@.len() == 5 && "running"@.len() == 7 && "waiting_approval"@.len() == 16);
    assert("completed"@.len() == 9 && "failed"@.len() == 6 && "archived"@.len() == 8);
}

/// A stored permission mode name reads back as the mode.
pub proof fn lemma_permission_round_trip(m: PermissionMode)
    ensures
        permission_named(permission_str(m)) == m,
{
    reveal_strlit("read_only");
    reveal_strlit("ask");
    reveal_strlit("allow_edits");
    reveal_strlit("full_control");
    assert("read_only"@.len() == 9 && "ask"@.len() == 3 && "allow_edits"@.len() == 11);
    assert("full_control"@.len() == 12);
}

/// A stored agent mode name reads back as the mode.
pub proof fn lemma_agent_mode_round_trip(m: AgentMode)
    ensures
        (if agent_mode_str(m) == "plan"@ {
            AgentMode::Plan
        } else {
            AgentMode::Execute
        }) == m,
{
    reveal_strlit("plan");
    reveal_strlit("execute");
    assert("plan"@.len() == 4 && "execute"@.len() == 7);
}

} // verus!
