//! Handlers of `/projects`.

use vstd::prelude::*;

use super::{Access, Handler, Message, Operation, Reply, Request, Stage};
use crate::db::records::RemoteProject;

verus! {

/// Body of a request creating a project; the visibility is its name.
pub struct CreateProjectRequest {
    pub organization_id: u128,
    pub name: String,
    pub color: String,
    pub visibility: String,
    pub sprints_enabled: bool,
    pub sprint_duration_weeks: Option<i32>,
}

/// Body of a request updating a project, in the same form.
pub struct UpdateProjectRequest {
    pub name: String,
    pub color: String,
    pub visibility: String,
    pub sprints_enabled: bool,
    pub sprint_duration_weeks: Option<i32>,
}

/// `GET /projects?organization_id=...`: once the user is a member of the organization, list its projects.
pub fn list_projects(organization_id: u128, user_id: u128) -> (r: (Handler, Request))
    ensures
        r.0.consistent(r.1),
        r == (
            Handler {
                user_id,
                operation: Some(Operation::ListProjects { organization_id }),
                failure: Message::FailedToListProjects,
                success: Reply::Json,
                target: None,
                stage: Stage::Check(Access::AwaitMembership { organization_id, user_id }),
            },
            Request::CheckMembership { organization_id, user_id },
        ),
{
    (
        Handler {
            user_id,
            operation: Some(Operation::ListProjects { organization_id }),
            failure: Message::FailedToListProjects,
            success: Reply::Json,
            target: None,
            stage: Stage::Check(Access::AwaitMembership { organization_id, user_id }),
        },
        Request::CheckMembership { organization_id, user_id },
    )
}

/// `GET /projects/{project_id}`: load the project and reply with it once the user is a member of its organization.
pub fn get_project(project_id: u128, user_id: u128) -> (r: (Handler, Request))
    ensures
        r.0.consistent(r.1),
        r == (
            Handler {
                user_id,
                operation: None,
                failure: Message::InternalServerError,
                success: Reply::Json,
                target: None,
                stage: Stage::Check(Access::AwaitProject { project_id, user_id }),
            },
            Request::LoadProject { project_id },
        ),
{
    (
        Handler {
            user_id,
            operation: None,
            failure: Message::InternalServerError,
            success: Reply::Json,
            target: None,
            stage: Stage::Check(Access::AwaitProject { project_id, user_id }),
        },
        Request::LoadProject { project_id },
    )
}

/// `POST /projects`: once the user is a member of the organization, create the project in it.
pub fn create_project(user_id: u128, payload: CreateProjectRequest) -> (r: (Handler, Request))
    ensures
        r.0.consistent(r.1),
        r == (
            Handler {
                user_id,
                operation: Some(Operation::CreateProject {
                organization_id: payload.organization_id,
                name: payload.name,
                color: payload.color,
                visibility: payload.visibility,
                sprints_enabled: payload.sprints_enabled,
                sprint_duration_weeks: payload.sprint_duration_weeks,
            }),
                failure: Message::InternalServerError,
                success: Reply::Json,
                target: None,
                stage: Stage::Check(Access::AwaitMembership { organization_id: payload.organization_id, user_id }),
            },
            Request::CheckMembership { organization_id: payload.organization_id, user_id },
        ),
{
    (
        Handler {
            user_id,
            operation: Some(Operation::CreateProject {
                organization_id: payload.organization_id,
                name: payload.name,
                color: payload.color,
                visibility: payload.visibility,
                sprints_enabled: payload.sprints_enabled,
                sprint_duration_weeks: payload.sprint_duration_weeks,
            }),
            failure: Message::InternalServerError,
            success: Reply::Json,
            target: None,
            stage: Stage::Check(Access::AwaitMembership { organization_id: payload.organization_id, user_id }),
        },
        Request::CheckMembership { organization_id: payload.organization_id, user_id },
    )
}

/// `PATCH /projects/{project_id}`: once the user may act on the project, update it.
pub fn update_project(project_id: u128, user_id: u128, payload: UpdateProjectRequest) -> (r: (Handler, Request))
    ensures
        r.0.consistent(r.1),
        r == (
            Handler {
                user_id,
                operation: Some(Operation::UpdateProject {
                project_id,
                name: payload.name,
                color: payload.color,
                visibility: payload.visibility,
                sprints_enabled: payload.sprints_enabled,
                sprint_duration_weeks: payload.sprint_duration_weeks,
            }),
                failure: Message::InternalServerError,
                success: Reply::Json,
                target: None,
                stage: Stage::Check(Access::AwaitProject { project_id, user_id }),
            },
            Request::LoadProject { project_id },
        ),
{
    (
        Handler {
            user_id,
            operation: Some(Operation::UpdateProject {
                project_id,
                name: payload.name,
                color: payload.color,
                visibility: payload.visibility,
                sprints_enabled: payload.sprints_enabled,
                sprint_duration_weeks: payload.sprint_duration_weeks,
            }),
            failure: Message::InternalServerError,
            success: Reply::Json,
            target: None,
            stage: Stage::Check(Access::AwaitProject { project_id, user_id }),
        },
        Request::LoadProject { project_id },
    )
}

/// `DELETE /projects/{project_id}`: once the user may act on the project, delete it.
pub fn delete_project(project_id: u128, user_id: u128) -> (r: (Handler, Request))
    ensures
        r.0.consistent(r.1),
        r == (
            Handler {
                user_id,
                operation: Some(Operation::DeleteProject { project_id }),
                failure: Message::InternalServerError,
                success: Reply::NoContent,
                target: None,
                stage: Stage::Check(Access::AwaitProject { project_id, user_id }),
            },
            Request::LoadProject { project_id },
        ),
{
    (
        Handler {
            user_id,
            operation: Some(Operation::DeleteProject { project_id }),
            failure: Message::InternalServerError,
            success: Reply::NoContent,
            target: None,
            stage: Stage::Check(Access::AwaitProject { project_id, user_id }),
        },
        Request::LoadProject { project_id },
    )
}

/// The reply for a project.
pub struct RemoteProjectResponse {
    pub id: u128,
    pub organization_id: u128,
    pub name: String,
    pub color: String,
    pub visibility: String,
    pub sprints_enabled: bool,
    pub sprint_duration_weeks: Option<i32>,
    pub created_at: i64,
    pub updated_at: i64,
}

/// The reply listing an organization's projects.
pub struct ListProjectsResponse {
    pub projects: Vec<RemoteProjectResponse>,
}

/// The reply for a project: the same fields.
pub fn to_remote_project_response(project: RemoteProject) -> (r: RemoteProjectResponse)
    ensures
        r.id == project.id,
        r.organization_id == project.organization_id,
        r.name@ == project.name@,
        r.color@ == project.color@,
        r.visibility@ == project.visibility@,
        r.sprints_enabled == project.sprints_enabled,
        r.sprint_duration_weeks == project.sprint_duration_weeks,
        r.created_at == project.created_at,
        r.updated_at == project.updated_at,
{
    RemoteProjectResponse {
        id: project.id,
        organization_id: project.organization_id,
        name: project.name,
        color: project.color,
        visibility: project.visibility,
        sprints_enabled: project.sprints_enabled,
        sprint_duration_weeks: project.sprint_duration_weeks,
        created_at: project.created_at,
        updated_at: project.updated_at,
    }
}

} // verus!
