//! Enumerations stored in database columns.

use vstd::prelude::*;

verus! {

/// Priority of a task, stored as `task_priority` (`urgent`, `high`, `medium`,
/// `low`).
#[derive(Debug, Clone, Copy, PartialEq, Eq)]
pub enum TaskPriority {
    Urgent,
    High,
    Medium,
    Low,
}

/// State of a workspace's pull request, stored as `workspace_pr_status`
/// (`open`, `merged`, `closed`).
#[derive(Debug, Clone, Copy, PartialEq, Eq)]
pub enum WorkspacePrStatus {
    Open,
    Merged,
    Closed,
}

} // verus!
