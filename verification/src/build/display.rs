//! Small text and filter rules of the desktop client's views.

use vstd::prelude::*;
use crate::build::task::TaskStatus;
use crate::text::{
    chars_of, contains, contains_str, has_sub, lowercase, string_of, trim, trimmed, unicode_lowercase,
};

verus! {

/// The task-list filters of the sidebar.
#[derive(Debug, Clone, Copy, PartialEq, Eq, Structural)]
pub enum TaskListFilter {
    All,
    Active,
    WaitingApproval,
    Completed,
    Failed,
}

impl TaskListFilter {
    pub fn label(self) -> (r: &'static str)
        ensures
            r@ == (match self {
                TaskListFilter::All => "全部"@,
                TaskListFilter::Active => "进行中"@,
                TaskListFilter::WaitingApproval => "待审批"@,
                TaskListFilter::Completed => "已完成"@,
                TaskListFilter::Failed => "失败"@,
            }),
    {
        match self {
            TaskListFilter::All => "全部",
            TaskListFilter::Active => "进行中",
            TaskListFilter::WaitingApproval => "待审批",
            TaskListFilter::Completed => "已完成",
            TaskListFilter::Failed => "失败",
        }
    }

    /// Whether a task in `status` is listed under the filter.
    pub fn matches(self, status: TaskStatus) -> (r: bool)
        ensures
            r == (match self {
                TaskListFilter::All => true,
                TaskListFilter::Active => status == TaskStatus::Draft || status
                    == TaskStatus::Running,
                TaskListFilter::WaitingApproval => status == TaskStatus::WaitingApproval,
                TaskListFilter::Completed => status == TaskStatus::Completed,
                TaskListFilter::Failed => status == TaskStatus::Failed,
            }),
    {
        match self {
            TaskListFilter::All => true,
            TaskListFilter::Active => status == TaskStatus::Draft || status == TaskStatus::Running,
            TaskListFilter::WaitingApproval => status == TaskStatus::WaitingApproval,
            TaskListFilter::Completed => status == TaskStatus::Completed,
            TaskListFilter::Failed => status == TaskStatus::Failed,
        }
    }
}

/// The first `max` characters of `s`, with `'…'` added when some were cut.
pub open spec fn truncated(s: Seq<char>, max: nat) -> Seq<char> {
    if s.len() > max {
        s.take(max as int).push('…')
    } else {
        s
    }
}

pub fn truncate_chars(s: &str, max: usize) -> (r: String)
    ensures
        r@ == truncated(s@, max as nat),
{
    let cs = chars_of(s);
    let mut out: Vec<char> = Vec::new();
    let mut i: usize = 0;
    while i < cs.len()
        invariant
            i <= cs.len(),
            i <= max,
            cs@ == s@,
            out@ == cs@.take(i as int),
        decreases cs.len() - i,
    {
        if i >= max {
            out.push('…');
            assert(out@ == cs@.take(max as int).push('…'));
            return string_of(&out);
        }
        out.push(cs[i]);
        i = i + 1;
        assert(out@ =~= cs@.take(i as int));
    }
    assert(cs@.take(cs.len() as int) =~= cs@);
    string_of(&out)
}

/// The short label of a tool call's status text.
pub open spec fn status_short(s: Seq<char>) -> Seq<char> {
    if has_sub(s, "Completed"@) || has_sub(s, "completed"@) {
        "完成"@
    } else if has_sub(s, "InProgress"@) || has_sub(s, "started"@) {
        "运行中"@
    } else if has_sub(s, "Failed"@) || has_sub(s, "Error"@) {
        "失败"@
    } else {
        s
    }
}

pub fn short_status(status: &str) -> (r: String)
    ensures
        r@ == status_short(status@),
{
    let cs = chars_of(status);
    if contains_str(&cs, "Completed") || contains_str(&cs, "completed") {
        "完成".to_owned()
    } else if contains_str(&cs, "InProgress") || contains_str(&cs, "started") {
        "运行中".to_owned()
    } else if contains_str(&cs, "Failed") || contains_str(&cs, "Error") {
        "失败".to_owned()
    } else {
        status.to_owned()
    }
}

/// The statuses listed under each filter.
pub open spec fn filter_matches(filter: TaskListFilter, status: TaskStatus) -> bool {
    match filter {
        TaskListFilter::All => true,
        TaskListFilter::Active => status == TaskStatus::Draft || status == TaskStatus::Running,
        TaskListFilter::WaitingApproval => status == TaskStatus::WaitingApproval,
        TaskListFilter::Completed => status == TaskStatus::Completed,
        TaskListFilter::Failed => status == TaskStatus::Failed,
    }
}

/// A task is listed under the filter when its status matches and, for a
/// non-empty search text, its title holds the text, both lowercased (the
/// search text trimmed first).
pub open spec fn task_listed(
    filter: TaskListFilter,
    status: TaskStatus,
    title: Seq<char>,
    query: Seq<char>,
) -> bool {
    let q = unicode_lowercase(trim(query));
    filter_matches(filter, status) && (q.len() == 0 || has_sub(unicode_lowercase(title), q))
}

/// Whether a task with `status` and `title` is listed under `filter` for
/// the search text `query` (`task_listed`).
pub fn is_task_listed(filter: TaskListFilter, status: TaskStatus, title: &str, query: &str) -> (r:
    bool)
    ensures
        r == task_listed(filter, status, title@, query@),
{
    if !filter.matches(status) {
        return false;
    }
    let q = lowercase(&trimmed(&chars_of(query)));
    if q.len() == 0 {
        return true;
    }
    let t = lowercase(&chars_of(title));
    contains(&t, &q)
}

} // verus!
