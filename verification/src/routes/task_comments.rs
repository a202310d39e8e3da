//! Handlers of `/tasks/{task_id}/comments` and `/comments/{comment_id}`.

use vstd::prelude::*;

use super::{Access, Handler, Message, Operation, Reply, Request, Stage};
use crate::db::records::TaskComment;

verus! {

/// Body of a request creating a comment.
pub struct CreateCommentRequest {
    pub message: String,
}

/// Body of a request editing a comment.
pub struct UpdateCommentRequest {
    pub message: String,
}

/// `GET /tasks/{task_id}/comments`: once the user may act on the task, list its comments.
pub fn list_comments(task_id: u128, user_id: u128) -> (r: (Handler, Request))
    ensures
        r.0.consistent(r.1),
        r == (
            Handler {
                user_id,
                operation: Some(Operation::ListComments { task_id }),
                failure: Message::FailedToListTaskComments,
                success: Reply::Json,
                target: None,
                stage: Stage::Check(Access::AwaitTaskOrganization { task_id, user_id }),
            },
            Request::LoadTaskOrganization { task_id },
        ),
{
    (
        Handler {
            user_id,
            operation: Some(Operation::ListComments { task_id }),
            failure: Message::FailedToListTaskComments,
            success: Reply::Json,
            target: None,
            stage: Stage::Check(Access::AwaitTaskOrganization { task_id, user_id }),
        },
        Request::LoadTaskOrganization { task_id },
    )
}

/// `POST /tasks/{task_id}/comments`: once the user may act on the task, add a comment by the user to it.
pub fn create_comment(task_id: u128, user_id: u128, payload: CreateCommentRequest) -> (r: (Handler, Request))
    ensures
        r.0.consistent(r.1),
        r == (
            Handler {
                user_id,
                operation: Some(Operation::CreateComment { task_id, author_id: user_id, message: payload.message }),
                failure: Message::InternalServerError,
                success: Reply::Json,
                target: None,
                stage: Stage::Check(Access::AwaitTaskOrganization { task_id, user_id }),
            },
            Request::LoadTaskOrganization { task_id },
        ),
{
    (
        Handler {
            user_id,
            operation: Some(Operation::CreateComment { task_id, author_id: user_id, message: payload.message }),
            failure: Message::InternalServerError,
            success: Reply::Json,
            target: None,
            stage: Stage::Check(Access::AwaitTaskOrganization { task_id, user_id }),
        },
        Request::LoadTaskOrganization { task_id },
    )
}

/// `PATCH /comments/{comment_id}`: load the comment; once the user is its author and may act on its task, edit it.
pub fn update_comment(comment_id: u128, user_id: u128, payload: UpdateCommentRequest) -> (r: (Handler, Request))
    ensures
        r.0.consistent(r.1),
        r == (
            Handler {
                user_id,
                operation: Some(Operation::UpdateComment { comment_id, message: payload.message }),
                failure: Message::InternalServerError,
                success: Reply::Json,
                target: None,
                stage: Stage::LoadComment { comment_id, author_only: true,
                failure: Message::FailedToLoadTaskComment },
            },
            Request::LoadComment { comment_id },
        ),
{
    (
        Handler {
            user_id,
            operation: Some(Operation::UpdateComment { comment_id, message: payload.message }),
            failure: Message::InternalServerError,
            success: Reply::Json,
            target: None,
            stage: Stage::LoadComment { comment_id, author_only: true,
            failure: Message::FailedToLoadTaskComment },
        },
        Request::LoadComment { comment_id },
    )
}

/// `DELETE /comments/{comment_id}`: load the comment; once the user is its author and may act on its task, delete it.
pub fn delete_comment(comment_id: u128, user_id: u128) -> (r: (Handler, Request))
    ensures
        r.0.consistent(r.1),
        r == (
            Handler {
                user_id,
                operation: Some(Operation::DeleteComment { comment_id }),
                failure: Message::InternalServerError,
                success: Reply::NoContent,
                target: None,
                stage: Stage::LoadComment { comment_id, author_only: true,
                failure: Message::FailedToLoadTaskComment },
            },
            Request::LoadComment { comment_id },
        ),
{
    (
        Handler {
            user_id,
            operation: Some(Operation::DeleteComment { comment_id }),
            failure: Message::InternalServerError,
            success: Reply::NoContent,
            target: None,
            stage: Stage::LoadComment { comment_id, author_only: true,
            failure: Message::FailedToLoadTaskComment },
        },
        Request::LoadComment { comment_id },
    )
}

/// A comment as the handlers reply with it.
pub struct TaskCommentResponse {
    pub id: u128,
    pub task_id: u128,
    pub author_id: u128,
    pub message: String,
    pub created_at: i64,
    pub updated_at: i64,
}

/// The reply listing a task's comments.
pub struct ListCommentsResponse {
    pub comments: Vec<TaskCommentResponse>,
}

/// The reply for a comment: the same fields.
pub fn to_comment_response(comment: TaskComment) -> (r: TaskCommentResponse)
    ensures
        r.id == comment.id,
        r.task_id == comment.task_id,
        r.author_id == comment.author_id,
        r.message@ == comment.message@,
        r.created_at == comment.created_at,
        r.updated_at == comment.updated_at,
{
    TaskCommentResponse {
        id: comment.id,
        task_id: comment.task_id,
        author_id: comment.author_id,
        message: comment.message,
        created_at: comment.created_at,
        updated_at: comment.updated_at,
    }
}

} // verus!
