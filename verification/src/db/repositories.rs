//! The repositories whose queries the application runs against PostgreSQL.
//! Each is a namespace for the queries on one table.

use vstd::prelude::*;

verus! {

/// Queries on `project_members`.
pub struct ProjectMemberRepository;

/// Queries on `project_notification_preferences`.
pub struct ProjectNotificationPreferenceRepository;

/// Queries on `project_task_notification_preferences`.
pub struct ProjectTaskNotificationPreferenceRepository;

/// Queries on `tasks`.
pub struct ProjectTaskRepository;

/// Queries on `remote_projects`.
pub struct RemoteProjectRepository;

/// Queries on `sprints`.
pub struct SprintRepository;

/// Queries on `tags`.
pub struct TagRepository;

/// Queries on `task_assignees`.
pub struct TaskAssigneeRepository;

/// Queries on `task_comment_reactions`.
pub struct TaskCommentReactionRepository;

/// Queries on `task_comments`.
pub struct TaskCommentRepository;

/// Queries on `task_dependencies`.
pub struct TaskDependencyRepository;

/// Queries on `task_followers`.
pub struct TaskFollowerRepository;

/// Queries on `task_tags`.
pub struct TaskTagRepository;

} // verus!
