//! Handlers of `/comments/{comment_id}/reactions` and `/reactions/{reaction_id}`.

use vstd::prelude::*;

use super::{Access, Handler, Message, Operation, Reply, Request, Stage};
use crate::db::records::TaskCommentReaction;

verus! {

/// Body of a request reacting to a comment.
pub struct CreateReactionRequest {
    pub emoji: String,
}

/// `GET /comments/{comment_id}/reactions`: load the comment; once the user may act on its task, list its reactions.
pub fn list_reactions(comment_id: u128, user_id: u128) -> (r: (Handler, Request))
    ensures
        r.0.consistent(r.1),
        r == (
            Handler {
                user_id,
                operation: Some(Operation::ListReactions { comment_id }),
                failure: Message::FailedToListReactions,
                success: Reply::Json,
                target: None,
                stage: Stage::LoadComment { comment_id, author_only: false,
                failure: Message::FailedToLoadComment },
            },
            Request::LoadComment { comment_id },
        ),
{
    (
        Handler {
            user_id,
            operation: Some(Operation::ListReactions { comment_id }),
            failure: Message::FailedToListReactions,
            success: Reply::Json,
            target: None,
            stage: Stage::LoadComment { comment_id, author_only: false,
            failure: Message::FailedToLoadComment },
        },
        Request::LoadComment { comment_id },
    )
}

/// `POST /comments/{comment_id}/reactions`: load the comment; once the user may act on its task, add the user's reaction to it.
pub fn create_reaction(comment_id: u128, user_id: u128, payload: CreateReactionRequest) -> (r: (Handler, Request))
    ensures
        r.0.consistent(r.1),
        r == (
            Handler {
                user_id,
                operation: Some(Operation::CreateReaction { comment_id, user_id, emoji: payload.emoji }),
                failure: Message::InternalServerError,
                success: Reply::Json,
                target: None,
                stage: Stage::LoadComment { comment_id, author_only: false,
                failure: Message::FailedToLoadComment },
            },
            Request::LoadComment { comment_id },
        ),
{
    (
        Handler {
            user_id,
            operation: Some(Operation::CreateReaction { comment_id, user_id, emoji: payload.emoji }),
            failure: Message::InternalServerError,
            success: Reply::Json,
            target: None,
            stage: Stage::LoadComment { comment_id, author_only: false,
            failure: Message::FailedToLoadComment },
        },
        Request::LoadComment { comment_id },
    )
}

/// `DELETE /reactions/{reaction_id}`: load the reaction, which the user must have made, then its comment; once the user may act on the comment's task, delete the reaction.
pub fn delete_reaction(reaction_id: u128, user_id: u128) -> (r: (Handler, Request))
    ensures
        r.0.consistent(r.1),
        r == (
            Handler {
                user_id,
                operation: Some(Operation::DeleteReaction { reaction_id }),
                failure: Message::InternalServerError,
                success: Reply::NoContent,
                target: None,
                stage: Stage::LoadReaction { reaction_id },
            },
            Request::LoadReaction { reaction_id },
        ),
{
    (
        Handler {
            user_id,
            operation: Some(Operation::DeleteReaction { reaction_id }),
            failure: Message::InternalServerError,
            success: Reply::NoContent,
            target: None,
            stage: Stage::LoadReaction { reaction_id },
        },
        Request::LoadReaction { reaction_id },
    )
}

/// A reaction as the handlers reply with it.
pub struct TaskCommentReactionResponse {
    pub id: u128,
    pub comment_id: u128,
    pub user_id: u128,
    pub emoji: String,
    pub created_at: i64,
}

/// The reply listing a comment's reactions.
pub struct ListReactionsResponse {
    pub reactions: Vec<TaskCommentReactionResponse>,
}

/// The reply for a reaction: the same fields.
pub fn to_reaction_response(reaction: TaskCommentReaction) -> (r: TaskCommentReactionResponse)
    ensures
        r.id == reaction.id,
        r.comment_id == reaction.comment_id,
        r.user_id == reaction.user_id,
        r.emoji@ == reaction.emoji@,
        r.created_at == reaction.created_at,
{
    TaskCommentReactionResponse {
        id: reaction.id,
        comment_id: reaction.comment_id,
        user_id: reaction.user_id,
        emoji: reaction.emoji,
        created_at: reaction.created_at,
    }
}

} // verus!
