//! Rows the handlers reply with. Identifiers are UUIDs held as their 128-bit
//! values; times are microseconds since the Unix epoch, in UTC.

use vstd::prelude::*;

verus! {

/// A row of `project_members`.
pub struct ProjectMember {
    pub project_id: u128,
    pub user_id: u128,
    pub joined_at: i64,
}

/// A row of `task_comments`.
pub struct TaskComment {
    pub id: u128,
    pub task_id: u128,
    pub author_id: u128,
    pub message: String,
    pub created_at: i64,
    pub updated_at: i64,
}

/// A row of `task_comment_reactions`.
pub struct TaskCommentReaction {
    pub id: u128,
    pub comment_id: u128,
    pub user_id: u128,
    pub emoji: String,
    pub created_at: i64,
}

/// A row of `remote_projects`; the visibility is its name.
pub struct RemoteProject {
    pub id: u128,
    pub organization_id: u128,
    pub name: String,
    pub color: String,
    pub visibility: String,
    pub sprints_enabled: bool,
    pub sprint_duration_weeks: Option<i32>,
    pub created_at: i64,
    pub updated_at: i64,
}

/// A row of `sprints`; dates are days from the first day of the common era,
/// the status is its name.
pub struct Sprint {
    pub id: u128,
    pub project_id: u128,
    pub label: String,
    pub sequence_number: i32,
    pub start_date: i32,
    pub end_date: i32,
    pub status: String,
    pub created_at: i64,
}

} // verus!
