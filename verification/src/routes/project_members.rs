//! Handlers of `/projects/{project_id}/members`.

use vstd::prelude::*;

use super::{Access, Handler, Message, Operation, Reply, Request, Stage};
use crate::db::records::ProjectMember;

verus! {

/// Body of a request adding a member to a project.
pub struct AddMemberRequest {
    pub user_id: u128,
}

/// `GET /projects/{project_id}/members`: once the user may act on the project, list its members.
pub fn list_members(project_id: u128, user_id: u128) -> (r: (Handler, Request))
    ensures
        r.0.consistent(r.1),
        r == (
            Handler {
                user_id,
                operation: Some(Operation::ListProjectMembers { project_id }),
                failure: Message::FailedToListProjectMembers,
                success: Reply::Json,
                target: None,
                stage: Stage::Check(Access::AwaitProject { project_id, user_id }),
            },
            Request::LoadProject { project_id },
        ),
{
    (
        Handler {
            user_id,
            operation: Some(Operation::ListProjectMembers { project_id }),
            failure: Message::FailedToListProjectMembers,
            success: Reply::Json,
            target: None,
            stage: Stage::Check(Access::AwaitProject { project_id, user_id }),
        },
        Request::LoadProject { project_id },
    )
}

/// `POST /projects/{project_id}/members`: once the user may act on the project and the new member `target_id` belongs to its organization too, add the new member.
pub fn add_member(project_id: u128, user_id: u128, target_id: u128) -> (r: (Handler, Request))
    ensures
        r.0.consistent(r.1),
        r == (
            Handler {
                user_id,
                operation: Some(Operation::AddProjectMember { project_id, user_id: target_id }),
                failure: Message::InternalServerError,
                success: Reply::Json,
                target: Some(target_id),
                stage: Stage::Check(Access::AwaitProject { project_id, user_id }),
            },
            Request::LoadProject { project_id },
        ),
{
    (
        Handler {
            user_id,
            operation: Some(Operation::AddProjectMember { project_id, user_id: target_id }),
            failure: Message::InternalServerError,
            success: Reply::Json,
            target: Some(target_id),
            stage: Stage::Check(Access::AwaitProject { project_id, user_id }),
        },
        Request::LoadProject { project_id },
    )
}

/// `DELETE /projects/{project_id}/members/{member_id}`: once the user may act on the project, remove the member.
pub fn remove_member(project_id: u128, user_id: u128, member_id: u128) -> (r: (Handler, Request))
    ensures
        r.0.consistent(r.1),
        r == (
            Handler {
                user_id,
                operation: Some(Operation::RemoveProjectMember { project_id, user_id: member_id }),
                failure: Message::InternalServerError,
                success: Reply::NoContent,
                target: None,
                stage: Stage::Check(Access::AwaitProject { project_id, user_id }),
            },
            Request::LoadProject { project_id },
        ),
{
    (
        Handler {
            user_id,
            operation: Some(Operation::RemoveProjectMember { project_id, user_id: member_id }),
            failure: Message::InternalServerError,
            success: Reply::NoContent,
            target: None,
            stage: Stage::Check(Access::AwaitProject { project_id, user_id }),
        },
        Request::LoadProject { project_id },
    )
}

/// A project member as the handlers reply with it.
pub struct ProjectMemberResponse {
    pub project_id: u128,
    pub user_id: u128,
    pub joined_at: i64,
}

/// The reply listing a project's members.
pub struct ListMembersResponse {
    pub members: Vec<ProjectMemberResponse>,
}

/// The reply for a project member: the same fields.
pub fn to_member_response(member: ProjectMember) -> (r: ProjectMemberResponse)
    ensures
        r.project_id == member.project_id,
        r.user_id == member.user_id,
        r.joined_at == member.joined_at,
{
    ProjectMemberResponse {
        project_id: member.project_id,
        user_id: member.user_id,
        joined_at: member.joined_at,
    }
}

} // verus!
