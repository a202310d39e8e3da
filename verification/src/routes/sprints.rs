//! Handlers of `/projects/{project_id}/sprints` and `/sprints/{sprint_id}`.

use vstd::prelude::*;

use super::{Access, Handler, Message, Operation, Reply, Request, Stage};
use crate::db::records::Sprint;

verus! {

/// Body of a request creating a sprint; dates are days from the first day of
/// the common era, the status is its name.
pub struct CreateSprintRequest {
    pub label: String,
    pub sequence_number: i32,
    pub start_date: i32,
    pub end_date: i32,
    pub status: String,
}

/// Body of a request updating a sprint, in the same form.
pub struct UpdateSprintRequest {
    pub label: String,
    pub sequence_number: i32,
    pub start_date: i32,
    pub end_date: i32,
    pub status: String,
}

/// `GET /projects/{project_id}/sprints`: once the user may act on the project, list its sprints.
pub fn list_sprints(project_id: u128, user_id: u128) -> (r: (Handler, Request))
    ensures
        r.0.consistent(r.1),
        r == (
            Handler {
                user_id,
                operation: Some(Operation::ListSprints { project_id }),
                failure: Message::FailedToListSprints,
                success: Reply::Json,
                target: None,
                stage: Stage::Check(Access::AwaitProject { project_id, user_id }),
            },
            Request::LoadProject { project_id },
        ),
{
    (
        Handler {
            user_id,
            operation: Some(Operation::ListSprints { project_id }),
            failure: Message::FailedToListSprints,
            success: Reply::Json,
            target: None,
            stage: Stage::Check(Access::AwaitProject { project_id, user_id }),
        },
        Request::LoadProject { project_id },
    )
}

/// `POST /projects/{project_id}/sprints`: once the user may act on the project, create the sprint in it.
pub fn create_sprint(project_id: u128, user_id: u128, payload: CreateSprintRequest) -> (r: (Handler, Request))
    ensures
        r.0.consistent(r.1),
        r == (
            Handler {
                user_id,
                operation: Some(Operation::CreateSprint {
                project_id,
                label: payload.label,
                sequence_number: payload.sequence_number,
                start_date: payload.start_date,
                end_date: payload.end_date,
                status: payload.status,
            }),
                failure: Message::InternalServerError,
                success: Reply::Json,
                target: None,
                stage: Stage::Check(Access::AwaitProject { project_id, user_id }),
            },
            Request::LoadProject { project_id },
        ),
{
    (
        Handler {
            user_id,
            operation: Some(Operation::CreateSprint {
                project_id,
                label: payload.label,
                sequence_number: payload.sequence_number,
                start_date: payload.start_date,
                end_date: payload.end_date,
                status: payload.status,
            }),
            failure: Message::InternalServerError,
            success: Reply::Json,
            target: None,
            stage: Stage::Check(Access::AwaitProject { project_id, user_id }),
        },
        Request::LoadProject { project_id },
    )
}

/// `PATCH /sprints/{sprint_id}`: load the sprint and, once the user may act on its project, update it.
pub fn update_sprint(sprint_id: u128, user_id: u128, payload: UpdateSprintRequest) -> (r: (Handler, Request))
    ensures
        r.0.consistent(r.1),
        r == (
            Handler {
                user_id,
                operation: Some(Operation::UpdateSprint {
                sprint_id,
                label: payload.label,
                sequence_number: payload.sequence_number,
                start_date: payload.start_date,
                end_date: payload.end_date,
                status: payload.status,
            }),
                failure: Message::InternalServerError,
                success: Reply::Json,
                target: None,
                stage: Stage::LoadSprint { sprint_id },
            },
            Request::LoadSprint { sprint_id },
        ),
{
    (
        Handler {
            user_id,
            operation: Some(Operation::UpdateSprint {
                sprint_id,
                label: payload.label,
                sequence_number: payload.sequence_number,
                start_date: payload.start_date,
                end_date: payload.end_date,
                status: payload.status,
            }),
            failure: Message::InternalServerError,
            success: Reply::Json,
            target: None,
            stage: Stage::LoadSprint { sprint_id },
        },
        Request::LoadSprint { sprint_id },
    )
}

/// `DELETE /sprints/{sprint_id}`: load the sprint and, once the user may act on its project, delete it.
pub fn delete_sprint(sprint_id: u128, user_id: u128) -> (r: (Handler, Request))
    ensures
        r.0.consistent(r.1),
        r == (
            Handler {
                user_id,
                operation: Some(Operation::DeleteSprint { sprint_id }),
                failure: Message::InternalServerError,
                success: Reply::NoContent,
                target: None,
                stage: Stage::LoadSprint { sprint_id },
            },
            Request::LoadSprint { sprint_id },
        ),
{
    (
        Handler {
            user_id,
            operation: Some(Operation::DeleteSprint { sprint_id }),
            failure: Message::InternalServerError,
            success: Reply::NoContent,
            target: None,
            stage: Stage::LoadSprint { sprint_id },
        },
        Request::LoadSprint { sprint_id },
    )
}

/// The reply for a sprint.
pub struct SprintResponse {
    pub id: u128,
    pub project_id: u128,
    pub label: String,
    pub sequence_number: i32,
    pub start_date: i32,
    pub end_date: i32,
    pub status: String,
    pub created_at: i64,
}

/// The reply listing a project's sprints.
pub struct ListSprintsResponse {
    pub sprints: Vec<SprintResponse>,
}

/// The reply for a sprint: the same fields.
pub fn to_sprint_response(sprint: Sprint) -> (r: SprintResponse)
    ensures
        r.id == sprint.id,
        r.project_id == sprint.project_id,
        r.label@ == sprint.label@,
        r.sequence_number == sprint.sequence_number,
        r.start_date == sprint.start_date,
        r.end_date == sprint.end_date,
        r.status@ == sprint.status@,
        r.created_at == sprint.created_at,
{
    SprintResponse {
        id: sprint.id,
        project_id: sprint.project_id,
        label: sprint.label,
        sequence_number: sprint.sequence_number,
        start_date: sprint.start_date,
        end_date: sprint.end_date,
        status: sprint.status,
        created_at: sprint.created_at,
    }
}

} // verus!
