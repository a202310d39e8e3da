//! The decisions of the HTTP handlers. Each handler alternates database calls
//! and decisions; here each is a state machine whose step takes the answer to
//! the handler's last request and gives the next state and the next request.
//! The application performs the requests and feeds the answers back.
//!
//! Identifiers are UUIDs, held as their 128-bit values.

pub mod project_members;
pub mod projects;
pub mod sprints;
pub mod task_comment_reactions;
pub mod task_comments;

use vstd::prelude::*;

verus! {

/// HTTP status of an error reply.
#[derive(Debug, Clone, Copy, PartialEq, Eq)]
pub enum Status {
    NotFound,
    Forbidden,
    InternalServerError,
}

impl Status {
    /// The numeric HTTP status code.
    pub fn code(&self) -> (c: u16)
        ensures
            c == match self {
                Status::NotFound => 404u16,
                Status::Forbidden => 403u16,
                Status::InternalServerError => 500u16,
            },
    {
        match self {
            Status::NotFound => 404,
            Status::Forbidden => 403,
            Status::InternalServerError => 500,
        }
    }
}

/// The message of an error reply.
#[derive(Debug, Clone, Copy, PartialEq, Eq)]
pub enum Message {
    FailedToLoadProject,
    ProjectNotFound,
    FailedToLoadTask,
    TaskNotFound,
    FailedToLoadSprint,
    SprintNotFound,
    FailedToLoadComment,
    FailedToLoadTaskComment,
    CommentNotFound,
    FailedToLoadReaction,
    ReactionNotFound,
    NotCommentAuthor,
    NotReactionAuthor,
    FailedToListProjectMembers,
    FailedToListProjects,
    FailedToListSprints,
    FailedToListTaskComments,
    FailedToListReactions,
    InternalServerError,
}

/// The text of each message.
pub open spec fn message_text(m: Message) -> Seq<char> {
    match m {
        Message::FailedToLoadProject => "failed to load project"@,
        Message::ProjectNotFound => "project not found"@,
        Message::FailedToLoadTask => "failed to load task"@,
        Message::TaskNotFound => "task not found"@,
        Message::FailedToLoadSprint => "failed to load sprint"@,
        Message::SprintNotFound => "sprint not found"@,
        Message::FailedToLoadComment => "failed to load comment"@,
        Message::FailedToLoadTaskComment => "failed to load task comment"@,
        Message::CommentNotFound => "comment not found"@,
        Message::FailedToLoadReaction => "failed to load reaction"@,
        Message::ReactionNotFound => "reaction not found"@,
        Message::NotCommentAuthor => "you are not the author of this comment"@,
        Message::NotReactionAuthor => "you are not the author of this reaction"@,
        Message::FailedToListProjectMembers => "failed to list project members"@,
        Message::FailedToListProjects => "failed to list projects"@,
        Message::FailedToListSprints => "failed to list sprints"@,
        Message::FailedToListTaskComments => "failed to list task comments"@,
        Message::FailedToListReactions => "failed to list reactions"@,
        Message::InternalServerError => "internal server error"@,
    }
}

impl Message {
    /// The text of the message.
    pub fn text(&self) -> (s: &'static str)
        ensures
            s@ == message_text(*self),
    {
        match self {
            Message::FailedToLoadProject => "failed to load project",
            Message::ProjectNotFound => "project not found",
            Message::FailedToLoadTask => "failed to load task",
            Message::TaskNotFound => "task not found",
            Message::FailedToLoadSprint => "failed to load sprint",
            Message::SprintNotFound => "sprint not found",
            Message::FailedToLoadComment => "failed to load comment",
            Message::FailedToLoadTaskComment => "failed to load task comment",
            Message::CommentNotFound => "comment not found",
            Message::FailedToLoadReaction => "failed to load reaction",
            Message::ReactionNotFound => "reaction not found",
            Message::NotCommentAuthor => "you are not the author of this comment",
            Message::NotReactionAuthor => "you are not the author of this reaction",
            Message::FailedToListProjectMembers => "failed to list project members",
            Message::FailedToListProjects => "failed to list projects",
            Message::FailedToListSprints => "failed to list sprints",
            Message::FailedToListTaskComments => "failed to list task comments",
            Message::FailedToListReactions => "failed to list reactions",
            Message::InternalServerError => "internal server error",
        }
    }
}

/// How a handler replies.
#[derive(Debug, Clone, Copy, PartialEq, Eq)]
pub enum Reply {
    /// An error reply with a status and a message.
    Error(Status, Message),
    /// The error that the organization membership check gave, unchanged.
    MembershipError,
    /// `200 OK` with the result of the handler's operation as JSON.
    Json,
    /// `204 No Content`.
    NoContent,
}

/// The database operation that a handler exists to perform, with what the
/// request's body hands to it. Dates are days from the first day of the
/// common era; a visibility or a sprint status is its name.
#[derive(Debug, Clone, PartialEq, Eq)]
pub enum Operation {
    ListProjectMembers { project_id: u128 },
    AddProjectMember { project_id: u128, user_id: u128 },
    RemoveProjectMember { project_id: u128, user_id: u128 },
    ListProjects { organization_id: u128 },
    CreateProject {
        organization_id: u128,
        name: String,
        color: String,
        visibility: String,
        sprints_enabled: bool,
        sprint_duration_weeks: Option<i32>,
    },
    UpdateProject {
        project_id: u128,
        name: String,
        color: String,
        visibility: String,
        sprints_enabled: bool,
        sprint_duration_weeks: Option<i32>,
    },
    DeleteProject { project_id: u128 },
    ListSprints { project_id: u128 },
    CreateSprint {
        project_id: u128,
        label: String,
        sequence_number: i32,
        start_date: i32,
        end_date: i32,
        status: String,
    },
    UpdateSprint {
        sprint_id: u128,
        label: String,
        sequence_number: i32,
        start_date: i32,
        end_date: i32,
        status: String,
    },
    DeleteSprint { sprint_id: u128 },
    ListComments { task_id: u128 },
    CreateComment { task_id: u128, author_id: u128, message: String },
    UpdateComment { comment_id: u128, message: String },
    DeleteComment { comment_id: u128 },
    ListReactions { comment_id: u128 },
    CreateReaction { comment_id: u128, user_id: u128, emoji: String },
    DeleteReaction { reaction_id: u128 },
}

impl Operation {
    /// A copy of the operation.
    pub fn duplicate(&self) -> (r: Operation)
        ensures
            r == *self,
    {
        match self {
            Operation::ListProjectMembers { project_id } => Operation::ListProjectMembers {
                project_id: *project_id,
            },
            Operation::AddProjectMember { project_id, user_id } => Operation::AddProjectMember {
                project_id: *project_id,
                user_id: *user_id,
            },
            Operation::RemoveProjectMember { project_id, user_id } => Operation::RemoveProjectMember {
                project_id: *project_id,
                user_id: *user_id,
            },
            Operation::ListProjects { organization_id } => Operation::ListProjects {
                organization_id: *organization_id,
            },
            Operation::CreateProject {
                organization_id,
                name,
                color,
                visibility,
                sprints_enabled,
                sprint_duration_weeks,
            } => Operation::CreateProject {
                organization_id: *organization_id,
                name: name.clone(),
                color: color.clone(),
                visibility: visibility.clone(),
                sprints_enabled: *sprints_enabled,
                sprint_duration_weeks: *sprint_duration_weeks,
            },
            Operation::UpdateProject {
                project_id,
                name,
                color,
                visibility,
                sprints_enabled,
                sprint_duration_weeks,
            } => Operation::UpdateProject {
                project_id: *project_id,
                name: name.clone(),
                color: color.clone(),
                visibility: visibility.clone(),
                sprints_enabled: *sprints_enabled,
                sprint_duration_weeks: *sprint_duration_weeks,
            },
            Operation::DeleteProject { project_id } => Operation::DeleteProject {
                project_id: *project_id,
            },
            Operation::ListSprints { project_id } => Operation::ListSprints {
                project_id: *project_id,
            },
            Operation::CreateSprint {
                project_id,
                label,
                sequence_number,
                start_date,
                end_date,
                status,
            } => Operation::CreateSprint {
                project_id: *project_id,
                label: label.clone(),
                sequence_number: *sequence_number,
                start_date: *start_date,
                end_date: *end_date,
                status: status.clone(),
            },
            Operation::UpdateSprint {
                sprint_id,
                label,
                sequence_number,
                start_date,
                end_date,
                status,
            } => Operation::UpdateSprint {
                sprint_id: *sprint_id,
                label: label.clone(),
                sequence_number: *sequence_number,
                start_date: *start_date,
                end_date: *end_date,
                status: status.clone(),
            },
            Operation::DeleteSprint { sprint_id } => Operation::DeleteSprint {
                sprint_id: *sprint_id,
            },
            Operation::ListComments { task_id } => Operation::ListComments { task_id: *task_id },
            Operation::CreateComment { task_id, author_id, message } => Operation::CreateComment {
                task_id: *task_id,
                author_id: *author_id,
                message: message.clone(),
            },
            Operation::UpdateComment { comment_id, message } => Operation::UpdateComment {
                comment_id: *comment_id,
                message: message.clone(),
            },
            Operation::DeleteComment { comment_id } => Operation::DeleteComment {
                comment_id: *comment_id,
            },
            Operation::ListReactions { comment_id } => Operation::ListReactions {
                comment_id: *comment_id,
            },
            Operation::CreateReaction { comment_id, user_id, emoji } => Operation::CreateReaction {
                comment_id: *comment_id,
                user_id: *user_id,
                emoji: emoji.clone(),
            },
            Operation::DeleteReaction { reaction_id } => Operation::DeleteReaction {
                reaction_id: *reaction_id,
            },
        }
    }
}

/// What a handler asks the application to do next.
#[derive(Debug, Clone, PartialEq, Eq)]
pub enum Request {
    LoadProject { project_id: u128 },
    LoadSprint { sprint_id: u128 },
    LoadComment { comment_id: u128 },
    LoadReaction { reaction_id: u128 },
    LoadTaskOrganization { task_id: u128 },
    CheckMembership { organization_id: u128, user_id: u128 },
    Perform(Operation),
    /// Stop, replying so.
    Finish(Reply),
}

/// The answer to a handler's last request.
#[derive(Debug, Clone, Copy, PartialEq, Eq)]
pub enum Answer {
    /// The database call failed.
    Failed,
    /// The looked-up row does not exist.
    Missing,
    Project { organization_id: u128 },
    Sprint { project_id: u128 },
    Comment { task_id: u128, author_id: u128 },
    Reaction { comment_id: u128, user_id: u128 },
    TaskOrganization { organization_id: u128 },
    /// The user is a member of the organization.
    Member,
    /// The membership check refused the user.
    NotMember,
    /// The operation succeeded.
    Done,
}

/// Checking that a user may act on a project or a task: the project's or the
/// task's organization is looked up, then the user's membership in it.
#[derive(Debug, Clone, Copy, PartialEq, Eq)]
pub enum Access {
    AwaitProject { project_id: u128, user_id: u128 },
    AwaitTaskOrganization { task_id: u128, user_id: u128 },
    AwaitMembership { organization_id: u128, user_id: u128 },
}

/// Where an access check stands after an answer.
#[derive(Debug, Clone, PartialEq, Eq)]
pub enum AccessStep {
    /// Still checking: the next state and request.
    Pending(Access, Request),
    /// The user may act; the organization is the one checked.
    Granted { organization_id: u128 },
    /// The user may not act; the handler replies so.
    Refused(Reply),
}

impl Access {
    /// The answers that the check's last request can give.
    pub open spec fn expects(self, answer: Answer) -> bool {
        match self {
            Access::AwaitProject { .. } => answer is Failed || answer is Missing
                || answer is Project,
            Access::AwaitTaskOrganization { .. } => answer is Failed || answer is Missing
                || answer is TaskOrganization,
            Access::AwaitMembership { .. } => answer is Member || answer is NotMember,
        }
    }

    /// The check's transitions.
    pub open spec fn after(self, answer: Answer) -> AccessStep {
        match self {
            Access::AwaitProject { user_id, .. } => match answer {
                Answer::Failed => AccessStep::Refused(
                    Reply::Error(Status::InternalServerError, Message::FailedToLoadProject),
                ),
                Answer::Project { organization_id } => AccessStep::Pending(
                    Access::AwaitMembership { organization_id, user_id },
                    Request::CheckMembership { organization_id, user_id },
                ),
                _ => AccessStep::Refused(Reply::Error(Status::NotFound, Message::ProjectNotFound)),
            },
            Access::AwaitTaskOrganization { user_id, .. } => match answer {
                Answer::Failed => AccessStep::Refused(
                    Reply::Error(Status::InternalServerError, Message::FailedToLoadTask),
                ),
                Answer::TaskOrganization { organization_id } => AccessStep::Pending(
                    Access::AwaitMembership { organization_id, user_id },
                    Request::CheckMembership { organization_id, user_id },
                ),
                _ => AccessStep::Refused(Reply::Error(Status::NotFound, Message::TaskNotFound)),
            },
            Access::AwaitMembership { organization_id, .. } => if answer is Member {
                AccessStep::Granted { organization_id }
            } else {
                AccessStep::Refused(Reply::MembershipError)
            },
        }
    }

    /// Take the answer to the check's last request.
    pub fn step(self, answer: Answer) -> (r: AccessStep)
        requires
            self.expects(answer),
        ensures
            r == self.after(answer),
    {
        match self {
            Access::AwaitProject { user_id, .. } => match answer {
                Answer::Failed => AccessStep::Refused(
                    Reply::Error(Status::InternalServerError, Message::FailedToLoadProject),
                ),
                Answer::Project { organization_id } => AccessStep::Pending(
                    Access::AwaitMembership { organization_id, user_id },
                    Request::CheckMembership { organization_id, user_id },
                ),
                _ => AccessStep::Refused(Reply::Error(Status::NotFound, Message::ProjectNotFound)),
            },
            Access::AwaitTaskOrganization { user_id, .. } => match answer {
                Answer::Failed => AccessStep::Refused(
                    Reply::Error(Status::InternalServerError, Message::FailedToLoadTask),
                ),
                Answer::TaskOrganization { organization_id } => AccessStep::Pending(
                    Access::AwaitMembership { organization_id, user_id },
                    Request::CheckMembership { organization_id, user_id },
                ),
                _ => AccessStep::Refused(Reply::Error(Status::NotFound, Message::TaskNotFound)),
            },
            Access::AwaitMembership { organization_id, .. } => match answer {
                Answer::Member => AccessStep::Granted { organization_id },
                _ => AccessStep::Refused(Reply::MembershipError),
            },
        }
    }

    /// Whether `answer` is one the check's last request can give.
    pub fn accepts(&self, answer: Answer) -> (b: bool)
        ensures
            b == self.expects(answer),
    {
        match self {
            Access::AwaitProject { .. } => match answer {
                Answer::Failed | Answer::Missing | Answer::Project { .. } => true,
                _ => false,
            },
            Access::AwaitTaskOrganization { .. } => match answer {
                Answer::Failed | Answer::Missing | Answer::TaskOrganization { .. } => true,
                _ => false,
            },
            Access::AwaitMembership { .. } => match answer {
                Answer::Member | Answer::NotMember => true,
                _ => false,
            },
        }
    }
}


/// Where a handler stands.
#[derive(Debug, Clone, Copy, PartialEq, Eq)]
pub enum Stage {
    /// Loading a sprint, to check access to its project.
    LoadSprint { sprint_id: u128 },
    /// Loading a comment, to check access to its task; `author_only` says
    /// whether the user must be its author, `failure` is the message when the
    /// load fails.
    LoadComment { comment_id: u128, author_only: bool, failure: Message },
    /// Loading a reaction, which the user must have made, to load its comment.
    LoadReaction { reaction_id: u128 },
    /// Checking the user's access.
    Check(Access),
    /// Checking that `target_id`, too, is a member of the organization.
    CheckTarget { organization_id: u128, target_id: u128 },
    /// Performing the operation.
    Perform,
    /// Replied; nothing more happens.
    Finished,
}

/// An HTTP handler in progress on behalf of the user `user_id`: the
/// operation it performs once every check passed (none when it only reads
/// what the checks loaded), the message when that operation fails, the reply
/// when it succeeds, the user whose membership is checked too once the user's
/// own access is granted, and the stage it is at.
#[derive(Debug, Clone, PartialEq, Eq)]
pub struct Handler {
    pub user_id: u128,
    pub operation: Option<Operation>,
    pub failure: Message,
    pub success: Reply,
    pub target: Option<u128>,
    pub stage: Stage,
}

impl Handler {
    /// The answers that the handler's last request can give.
    pub open spec fn expects(self, answer: Answer) -> bool {
        match self.stage {
            Stage::LoadSprint { .. } => answer is Failed || answer is Missing || answer is Sprint,
            Stage::LoadComment { .. } => answer is Failed || answer is Missing || answer is Comment,
            Stage::LoadReaction { .. } => answer is Failed || answer is Missing
                || answer is Reaction,
            Stage::Check(access) => access.expects(answer),
            Stage::CheckTarget { .. } => answer is Member || answer is NotMember,
            Stage::Perform => answer is Failed || answer is Done,
            Stage::Finished => false,
        }
    }

    /// The stage agrees with `last`, the request the handler made last: the
    /// handler awaits the answer to that very request.
    pub open spec fn consistent(self, last: Request) -> bool {
        match self.stage {
            Stage::LoadSprint { sprint_id } => last == Request::LoadSprint { sprint_id },
            Stage::LoadComment { comment_id, .. } => last == Request::LoadComment { comment_id },
            Stage::LoadReaction { reaction_id } => last == Request::LoadReaction { reaction_id },
            Stage::Check(Access::AwaitProject { project_id, user_id }) => user_id == self.user_id
                && last == Request::LoadProject { project_id },
            Stage::Check(Access::AwaitTaskOrganization { task_id, user_id }) => user_id
                == self.user_id && last == Request::LoadTaskOrganization { task_id },
            Stage::Check(Access::AwaitMembership { organization_id, user_id }) => user_id
                == self.user_id && last == Request::CheckMembership { organization_id, user_id },
            Stage::CheckTarget { organization_id, target_id } => self.target == Some(target_id)
                && last == Request::CheckMembership { organization_id, user_id: target_id },
            Stage::Perform => self.operation is Some && last == Request::Perform(
                self.operation->0,
            ),
            Stage::Finished => last is Finish,
        }
    }

    /// The requests the handler makes when its requests are answered by
    /// `answers` in turn.
    pub open spec fn requests(self, answers: Seq<Answer>) -> Seq<Request>
        decreases answers.len(),
    {
        if answers.len() == 0 {
            Seq::<Request>::empty()
        } else {
            let (next, request) = self.after(answers[0]);
            seq![request] + next.requests(answers.drop_first())
        }
    }

    /// Each of `answers` is one the handler's request at that point can give.
    pub open spec fn fits(self, answers: Seq<Answer>) -> bool
        decreases answers.len(),
    {
        answers.len() == 0 || (self.expects(answers[0]) && self.after(answers[0]).0.fits(
            answers.drop_first(),
        ))
    }

    /// The handler with stage `stage`.
    pub open spec fn at(self, stage: Stage) -> Handler {
        Handler { stage, ..self }
    }

    /// Replying `reply` and stopping.
    pub open spec fn finish(self, reply: Reply) -> (Handler, Request) {
        (self.at(Stage::Finished), Request::Finish(reply))
    }

    /// Once every check passed: the operation, or the success reply when there
    /// is none.
    pub open spec fn proceed(self) -> (Handler, Request) {
        match self.operation {
            Some(op) => (self.at(Stage::Perform), Request::Perform(op)),
            None => self.finish(self.success),
        }
    }

    /// The handler's transitions: the next handler and request after `answer`.
    pub open spec fn after(self, answer: Answer) -> (Handler, Request) {
        match self.stage {
            Stage::LoadSprint { .. } => match answer {
                Answer::Failed => self.finish(
                    Reply::Error(Status::InternalServerError, Message::FailedToLoadSprint),
                ),
                Answer::Sprint { project_id } => (
                    self.at(Stage::Check(Access::AwaitProject { project_id, user_id: self.user_id })),
                    Request::LoadProject { project_id },
                ),
                _ => self.finish(Reply::Error(Status::NotFound, Message::SprintNotFound)),
            },
            Stage::LoadComment { author_only, failure, .. } => match answer {
                Answer::Failed => self.finish(Reply::Error(Status::InternalServerError, failure)),
                Answer::Comment { task_id, author_id } => if author_only && author_id
                    != self.user_id {
                    self.finish(Reply::Error(Status::Forbidden, Message::NotCommentAuthor))
                } else {
                    (
                        self.at(
                            Stage::Check(
                                Access::AwaitTaskOrganization { task_id, user_id: self.user_id },
                            ),
                        ),
                        Request::LoadTaskOrganization { task_id },
                    )
                },
                _ => self.finish(Reply::Error(Status::NotFound, Message::CommentNotFound)),
            },
            Stage::LoadReaction { .. } => match answer {
                Answer::Failed => self.finish(
                    Reply::Error(Status::InternalServerError, Message::FailedToLoadReaction),
                ),
                Answer::Reaction { comment_id, user_id } => if user_id != self.user_id {
                    self.finish(Reply::Error(Status::Forbidden, Message::NotReactionAuthor))
                } else {
                    (
                        self.at(
                            Stage::LoadComment {
                                comment_id,
                                author_only: false,
                                failure: Message::FailedToLoadComment,
                            },
                        ),
                        Request::LoadComment { comment_id },
                    )
                },
                _ => self.finish(Reply::Error(Status::NotFound, Message::ReactionNotFound)),
            },
            Stage::Check(access) => match access.after(answer) {
                AccessStep::Pending(next, request) => (self.at(Stage::Check(next)), request),
                AccessStep::Refused(reply) => self.finish(reply),
                AccessStep::Granted { organization_id } => match self.target {
                    Some(target_id) => (
                        self.at(Stage::CheckTarget { organization_id, target_id }),
                        Request::CheckMembership { organization_id, user_id: target_id },
                    ),
                    None => self.proceed(),
                },
            },
            Stage::CheckTarget { .. } => if answer is Member {
                self.proceed()
            } else {
                self.finish(Reply::MembershipError)
            },
            Stage::Perform => if answer is Failed {
                self.finish(Reply::Error(Status::InternalServerError, self.failure))
            } else {
                self.finish(self.success)
            },
            Stage::Finished => self.finish(self.success),
        }
    }

    /// The handler with stage `stage`.
    fn with_stage(self, stage: Stage) -> (r: Handler)
        ensures
            r == self.at(stage),
    {
        Handler { stage, ..self }
    }

    /// Reply `reply` and stop.
    fn finish_with(self, reply: Reply) -> (r: (Handler, Request))
        ensures
            r == self.finish(reply),
    {
        (self.with_stage(Stage::Finished), Request::Finish(reply))
    }

    /// Go on once every check passed.
    fn proceed_exec(self) -> (r: (Handler, Request))
        ensures
            r == self.proceed(),
    {
        let success = self.success;
        match &self.operation {
            Some(op) => {
                let request = Request::Perform(op.duplicate());
                (self.with_stage(Stage::Perform), request)
            },
            None => self.finish_with(success),
        }
    }

    /// Take the answer to the handler's last request.
    pub fn step(self, answer: Answer) -> (r: (Handler, Request))
        requires
            self.expects(answer),
        ensures
            r == self.after(answer),
    {
        let me = self.user_id;
        let failure_message = self.failure;
        let success = self.success;
        match self.stage {
            Stage::LoadSprint { .. } => match answer {
                Answer::Failed => self.finish_with(
                    Reply::Error(Status::InternalServerError, Message::FailedToLoadSprint),
                ),
                Answer::Sprint { project_id } => (
                    self.with_stage(
                        Stage::Check(Access::AwaitProject { project_id, user_id: me }),
                    ),
                    Request::LoadProject { project_id },
                ),
                _ => self.finish_with(Reply::Error(Status::NotFound, Message::SprintNotFound)),
            },
            Stage::LoadComment { author_only, failure, .. } => match answer {
                Answer::Failed => self.finish_with(
                    Reply::Error(Status::InternalServerError, failure),
                ),
                Answer::Comment { task_id, author_id } => {
                    if author_only && author_id != me {
                        self.finish_with(Reply::Error(Status::Forbidden, Message::NotCommentAuthor))
                    } else {
                        (
                            self.with_stage(
                                Stage::Check(
                                    Access::AwaitTaskOrganization {
                                        task_id,
                                        user_id: me,
                                    },
                                ),
                            ),
                            Request::LoadTaskOrganization { task_id },
                        )
                    }
                },
                _ => self.finish_with(Reply::Error(Status::NotFound, Message::CommentNotFound)),
            },
            Stage::LoadReaction { .. } => match answer {
                Answer::Failed => self.finish_with(
                    Reply::Error(Status::InternalServerError, Message::FailedToLoadReaction),
                ),
                Answer::Reaction { comment_id, user_id } => {
                    if user_id != me {
                        self.finish_with(
                            Reply::Error(Status::Forbidden, Message::NotReactionAuthor),
                        )
                    } else {
                        (
                            self.with_stage(
                                Stage::LoadComment {
                                    comment_id,
                                    author_only: false,
                                    failure: Message::FailedToLoadComment,
                                },
                            ),
                            Request::LoadComment { comment_id },
                        )
                    }
                },
                _ => self.finish_with(Reply::Error(Status::NotFound, Message::ReactionNotFound)),
            },
            Stage::Check(access) => match access.step(answer) {
                AccessStep::Pending(next, request) => (
                    self.with_stage(Stage::Check(next)),
                    request,
                ),
                AccessStep::Refused(reply) => self.finish_with(reply),
                AccessStep::Granted { organization_id } => match self.target {
                    Some(target_id) => (
                        self.with_stage(Stage::CheckTarget { organization_id, target_id }),
                        Request::CheckMembership { organization_id, user_id: target_id },
                    ),
                    None => self.proceed_exec(),
                },
            },
            Stage::CheckTarget { .. } => match answer {
                Answer::Member => self.proceed_exec(),
                _ => self.finish_with(Reply::MembershipError),
            },
            Stage::Perform => match answer {
                Answer::Failed => self.finish_with(
                    Reply::Error(Status::InternalServerError, failure_message),
                ),
                _ => self.finish_with(success),
            },
            Stage::Finished => self.finish_with(success),
        }
    }

    /// Whether `answer` is one the handler's last request can give.
    pub fn accepts(&self, answer: Answer) -> (b: bool)
        ensures
            b == self.expects(answer),
    {
        match self.stage {
            Stage::LoadSprint { .. } => match answer {
                Answer::Failed | Answer::Missing | Answer::Sprint { .. } => true,
                _ => false,
            },
            Stage::LoadComment { .. } => match answer {
                Answer::Failed | Answer::Missing | Answer::Comment { .. } => true,
                _ => false,
            },
            Stage::LoadReaction { .. } => match answer {
                Answer::Failed | Answer::Missing | Answer::Reaction { .. } => true,
                _ => false,
            },
            Stage::Check(access) => access.accepts(answer),
            Stage::CheckTarget { .. } => match answer {
                Answer::Member | Answer::NotMember => true,
                _ => false,
            },
            Stage::Perform => match answer {
                Answer::Failed | Answer::Done => true,
                _ => false,
            },
            Stage::Finished => false,
        }
    }
}


/// A step keeps the handler's user, operation, messages and target, and its
/// stage agrees with the request it makes.
pub proof fn lemma_step_keeps_consistency(h: Handler, last: Request, answer: Answer)
    requires
        h.consistent(last),
        h.expects(answer),
    ensures
        ({
            let (next, request) = h.after(answer);
            &&& next.consistent(request)
            &&& next.user_id == h.user_id
            &&& next.operation == h.operation
            &&& next.failure == h.failure
            &&& next.success == h.success
            &&& next.target == h.target
        }),
{
}

/// A handler asks for its operation only right after a membership check was
/// answered yes: that of the requesting user, or of the new member when a
/// member is added. The operation asked for is the handler's own.
pub proof fn lemma_operation_only_after_membership(h: Handler, last: Request, answer: Answer)
    requires
        h.consistent(last),
        h.expects(answer),
        h.after(answer).1 is Perform,
    ensures
        answer is Member,
        h.operation is Some,
        h.after(answer).1 == Request::Perform(h.operation->0),
        last matches Request::CheckMembership { user_id, .. } && (user_id == h.user_id
            || h.target == Some(user_id)),
{
}

/// The new member's membership is checked only once the requesting user's was
/// answered yes.
pub proof fn lemma_target_checked_after_user(h: Handler, last: Request, answer: Answer)
    requires
        h.consistent(last),
        h.expects(answer),
        h.after(answer).0.stage is CheckTarget,
    ensures
        answer is Member,
        last matches Request::CheckMembership { user_id, .. } && user_id == h.user_id,
{
}

/// A membership check asks about the organization that owns what was just
/// loaded: the project's organization after the project was loaded, the
/// task's after the task's organization was loaded. The new member's
/// membership is checked in the organization in which the requesting user's
/// was just confirmed.
pub proof fn lemma_membership_checked_in_owning_organization(
    h: Handler,
    last: Request,
    answer: Answer,
)
    requires
        h.consistent(last),
        h.expects(answer),
        h.after(answer).1 is CheckMembership,
    ensures
        h.after(answer).1 matches Request::CheckMembership { organization_id, user_id } && (
        (last is LoadProject && answer == Answer::Project { organization_id } && user_id
            == h.user_id) || (last is LoadTaskOrganization && answer
            == Answer::TaskOrganization { organization_id } && user_id == h.user_id) || (last
            == Request::CheckMembership { organization_id, user_id: h.user_id } && answer
            is Member && h.target == Some(user_id))),
{
}

/// A failed database call ends the handler with an internal server error;
/// a missing row ends it with `404 Not Found`.
pub proof fn lemma_failures_end_the_handler(h: Handler, answer: Answer)
    requires
        h.expects(answer),
        answer is Failed || answer is Missing,
    ensures
        h.after(answer).0.stage is Finished,
        answer is Failed ==> h.after(answer).1 matches Request::Finish(
            Reply::Error(Status::InternalServerError, _),
        ),
        answer is Missing ==> h.after(answer).1 matches Request::Finish(
            Reply::Error(Status::NotFound, _),
        ),
{
}

/// Once finished, a handler takes no answer and makes no request.
pub proof fn lemma_finished_handler_is_silent(h: Handler, answers: Seq<Answer>)
    requires
        h.stage is Finished,
        h.fits(answers),
    ensures
        answers.len() == 0,
        h.requests(answers).len() == 0,
{
}

/// Handlers that act on a comment only for its author (editing, deleting)
/// ask for their operation only after the comment was found written by the
/// requesting user.
pub proof fn lemma_author_checked_before_operation(h: Handler, answers: Seq<Answer>)
    requires
        h.stage matches Stage::LoadComment { author_only, .. } && author_only,
        h.fits(answers),
        exists|i: int| 0 <= i < h.requests(answers).len() && h.requests(answers)[i] is Perform,
    ensures
        exists|i: int|
            0 <= i < answers.len() && (#[trigger] answers[i] matches Answer::Comment { author_id, .. }
                && author_id == h.user_id),
{
    let k = choose|i: int| 0 <= i < h.requests(answers).len() && h.requests(answers)[i] is Perform;
    let (next, request) = h.after(answers[0]);
    let rest = answers.drop_first();
    if !(answers[0] matches Answer::Comment { author_id, .. } && author_id == h.user_id) {
        lemma_finished_handler_is_silent(next, rest);
        assert(h.requests(answers) =~= seq![request]);
    }
}

/// Deleting a reaction is asked for only after the reaction was found made by
/// the requesting user.
pub proof fn lemma_reaction_owner_checked_before_operation(h: Handler, answers: Seq<Answer>)
    requires
        h.stage is LoadReaction,
        h.fits(answers),
        exists|i: int| 0 <= i < h.requests(answers).len() && h.requests(answers)[i] is Perform,
    ensures
        exists|i: int|
            0 <= i < answers.len() && (#[trigger] answers[i] matches Answer::Reaction { user_id, .. }
                && user_id == h.user_id),
{
    let k = choose|i: int| 0 <= i < h.requests(answers).len() && h.requests(answers)[i] is Perform;
    let (next, request) = h.after(answers[0]);
    let rest = answers.drop_first();
    if !(answers[0] matches Answer::Reaction { user_id, .. } && user_id == h.user_id) {
        lemma_finished_handler_is_silent(next, rest);
        assert(h.requests(answers) =~= seq![request]);
    }
}


/// A handler makes one request per answer.
pub proof fn lemma_requests_len(h: Handler, answers: Seq<Answer>)
    ensures
        h.requests(answers).len() == answers.len(),
    decreases answers.len(),
{
    if answers.len() > 0 {
        lemma_requests_len(h.after(answers[0]).0, answers.drop_first());
    }
}

/// `r` is a membership check of `user`.
pub open spec fn checks_membership_of(r: Request, user: u128) -> bool {
    r matches Request::CheckMembership { user_id, .. } && user_id == user
}

/// Every handler asks for its operation only after the requesting user was
/// confirmed a member of the organization checked: in the requests made from
/// a handler that has not yet passed that check, answered by `answers` in
/// turn (the first answering `first`), a request for the operation comes at or
/// after an answer `Member` to a membership check of the requesting user.
pub proof fn lemma_operation_needs_user_membership(
    h: Handler,
    first: Request,
    answers: Seq<Answer>,
    k: int,
)
    requires
        h.consistent(first),
        h.fits(answers),
        !(h.stage is CheckTarget || h.stage is Perform || h.stage is Finished),
        0 <= k < h.requests(answers).len(),
        h.requests(answers)[k] is Perform,
    ensures
        exists|i: int|
            0 <= i <= k && #[trigger] answers[i] == Answer::Member && checks_membership_of(
                (seq![first] + h.requests(answers))[i],
                h.user_id,
            ),
    decreases answers.len(),
{
    let (next, request) = h.after(answers[0]);
    let rest = answers.drop_first();
    let asked = seq![first] + h.requests(answers);
    assert(h.requests(answers) == seq![request] + next.requests(rest));
    lemma_step_keeps_consistency(h, first, answers[0]);
    if next.stage is CheckTarget {
        lemma_target_checked_after_user(h, first, answers[0]);
        assert(asked[0] == first);
    } else if request is Perform {
        lemma_operation_only_after_membership(h, first, answers[0]);
        assert(asked[0] == first);
    } else if next.stage is Finished {
        lemma_finished_handler_is_silent(next, rest);
        assert(h.requests(answers) =~= seq![request]);
    } else {
        assert(next.stage !is Perform);
        assert(k >= 1);
        lemma_requests_len(next, rest);
        assert(next.requests(rest)[k - 1] == h.requests(answers)[k]);
        lemma_operation_needs_user_membership(next, request, rest, k - 1);
        let j = choose|j: int|
            0 <= j <= k - 1 && #[trigger] rest[j] == Answer::Member && checks_membership_of(
                (seq![request] + next.requests(rest))[j],
                next.user_id,
            );
        assert(answers[j + 1] == rest[j]);
        assert(asked[j + 1] == (seq![request] + next.requests(rest))[j]);
    }
}

/// Every handler asks for its operation only after the requesting user was
/// confirmed a member of the organization that owns the project or the task it
/// acts on: in the requests made from a handler that has not yet reached the
/// membership check, answered by `answers` in turn (the first answering
/// `first`), a request for the operation comes after a load of a project or of
/// a task's organization, answered with an organization, directly followed by
/// a membership check of the requesting user in that organization, answered
/// `Member`.
pub proof fn lemma_operation_needs_membership_in_owning_organization(
    h: Handler,
    first: Request,
    answers: Seq<Answer>,
    k: int,
)
    requires
        h.consistent(first),
        h.fits(answers),
        !(h.stage is CheckTarget || h.stage is Perform || h.stage is Finished),
        !(h.stage matches Stage::Check(Access::AwaitMembership { .. })),
        0 <= k < h.requests(answers).len(),
        h.requests(answers)[k] is Perform,
    ensures
        exists|i: int|
            1 <= i <= k && #[trigger] answers[i] == Answer::Member && ((seq![first]
                + h.requests(answers))[i] matches Request::CheckMembership {
                organization_id,
                user_id,
            } && user_id == h.user_id && (((seq![first] + h.requests(answers))[i - 1] is LoadProject
                && answers[i - 1] == Answer::Project { organization_id }) || ((seq![first]
                + h.requests(answers))[i - 1] is LoadTaskOrganization && answers[i - 1]
                == Answer::TaskOrganization { organization_id }))),
    decreases answers.len(),
{
    let (next, request) = h.after(answers[0]);
    let rest = answers.drop_first();
    let asked = seq![first] + h.requests(answers);
    assert(h.requests(answers) == seq![request] + next.requests(rest));
    lemma_step_keeps_consistency(h, first, answers[0]);
    lemma_requests_len(next, rest);
    if next.stage is Finished {
        lemma_finished_handler_is_silent(next, rest);
        assert(h.requests(answers) =~= seq![request]);
    } else if h.stage is Check {
        // the project or the task's organization was found: the user's
        // membership in its organization is checked next
        assert(request is CheckMembership);
        assert(k >= 1);
        assert(rest.len() >= 1);
        assert(next.fits(rest));
        assert(next.expects(rest[0]));
        let (next2, request2) = next.after(rest[0]);
        assert(next.requests(rest) == seq![request2] + next2.requests(rest.drop_first()));
        if !(rest[0] is Member) {
            assert(next2.fits(rest.drop_first()));
            lemma_finished_handler_is_silent(next2, rest.drop_first());
            assert(next.requests(rest) =~= seq![request2]);
            assert(h.requests(answers)[1] == request2);
        }
        assert(answers[1] == rest[0]);
        assert(asked[1] == request);
        assert(asked[0] == first);
    } else {
        assert(k >= 1);
        assert(next.requests(rest)[k - 1] == h.requests(answers)[k]);
        lemma_operation_needs_membership_in_owning_organization(next, request, rest, k - 1);
        let j = choose|j: int|
            1 <= j <= k - 1 && #[trigger] rest[j] == Answer::Member && ((seq![request]
                + next.requests(rest))[j] matches Request::CheckMembership {
                organization_id,
                user_id,
            } && user_id == next.user_id && (((seq![request] + next.requests(rest))[j - 1] is LoadProject
                && rest[j - 1] == Answer::Project { organization_id }) || ((seq![request]
                + next.requests(rest))[j - 1] is LoadTaskOrganization && rest[j - 1]
                == Answer::TaskOrganization { organization_id })));
        assert(answers[j + 1] == rest[j]);
        assert(answers[j] == rest[j - 1]);
        assert(asked[j + 1] == (seq![request] + next.requests(rest))[j]);
        assert(asked[j] == (seq![request] + next.requests(rest))[j - 1]);
    }
}

/// Once the operation was performed, the handler finishes: with its success
/// reply when the operation succeeded, and with an internal server error
/// carrying its failure message when it failed. Nothing else follows an
/// operation.
pub proof fn lemma_operation_outcome_is_the_reply(h: Handler, answer: Answer)
    requires
        h.stage is Perform,
        h.expects(answer),
    ensures
        h.after(answer).0.stage is Finished,
        answer is Done ==> h.after(answer).1 == Request::Finish(h.success),
        answer is Failed ==> h.after(answer).1 == Request::Finish(
            Reply::Error(Status::InternalServerError, h.failure),
        ),
{
}

/// Once the requesting user's membership was confirmed (and the new member's,
/// when one is added), the handler performs its operation, or replies with
/// its success reply when it has none; a refused membership ends the handler
/// with the membership check's own error.
pub proof fn lemma_confirmed_membership_proceeds(h: Handler, answer: Answer)
    requires
        h.expects(answer),
        h.stage matches Stage::Check(Access::AwaitMembership { .. }) || h.stage is CheckTarget,
    ensures
        answer is NotMember ==> h.after(answer) == (
            h.at(Stage::Finished),
            Request::Finish(Reply::MembershipError),
        ),
        answer is Member && (h.stage is CheckTarget || h.target is None) ==> h.after(answer) == (
            match h.operation {
                Some(op) => (h.at(Stage::Perform), Request::Perform(op)),
                None => (h.at(Stage::Finished), Request::Finish(h.success)),
            }
        ),
        answer is Member && h.stage is Check && h.target is Some ==> h.after(answer) == (
            h.at(
                Stage::CheckTarget {
                    organization_id: h.stage->0->AwaitMembership_organization_id,
                    target_id: h.target->0,
                },
            ),
            Request::CheckMembership {
                organization_id: h.stage->0->AwaitMembership_organization_id,
                user_id: h.target->0,
            },
        ),
{
}

/// A row that was found and that the user may act on leads the handler on:
/// a sprint to loading its project, a comment (by the user, where only its
/// author may act) to loading its task's organization, a reaction made by the
/// user to loading its comment, and a project or a task's organization to
/// checking, in that organization, the membership of the user whose access is
/// being checked.
pub proof fn lemma_found_rows_lead_on(h: Handler, answer: Answer)
    requires
        h.expects(answer),
    ensures
        h.stage is LoadSprint && answer is Sprint ==> h.after(answer) == (
            h.at(
                Stage::Check(
                    Access::AwaitProject { project_id: answer->project_id, user_id: h.user_id },
                ),
            ),
            Request::LoadProject { project_id: answer->project_id },
        ),
        h.stage is LoadComment && answer is Comment && (!h.stage->author_only
            || answer->author_id == h.user_id) ==> h.after(answer) == (
            h.at(
                Stage::Check(
                    Access::AwaitTaskOrganization { task_id: answer->task_id, user_id: h.user_id },
                ),
            ),
            Request::LoadTaskOrganization { task_id: answer->task_id },
        ),
        h.stage is LoadReaction && answer is Reaction && answer->Reaction_user_id == h.user_id
            ==> h.after(answer) == (
            h.at(
                Stage::LoadComment {
                    comment_id: answer->Reaction_comment_id,
                    author_only: false,
                    failure: Message::FailedToLoadComment,
                },
            ),
            Request::LoadComment { comment_id: answer->Reaction_comment_id },
        ),
        h.stage is Check && h.stage->0 is AwaitProject && answer is Project ==> h.after(answer) == (
            h.at(
                Stage::Check(
                    Access::AwaitMembership {
                        organization_id: answer->Project_organization_id,
                        user_id: h.stage->0->AwaitProject_user_id,
                    },
                ),
            ),
            Request::CheckMembership {
                organization_id: answer->Project_organization_id,
                user_id: h.stage->0->AwaitProject_user_id,
            },
        ),
        h.stage is Check && h.stage->0 is AwaitTaskOrganization && answer is TaskOrganization
            ==> h.after(answer) == (
            h.at(
                Stage::Check(
                    Access::AwaitMembership {
                        organization_id: answer->TaskOrganization_organization_id,
                        user_id: h.stage->0->AwaitTaskOrganization_user_id,
                    },
                ),
            ),
            Request::CheckMembership {
                organization_id: answer->TaskOrganization_organization_id,
                user_id: h.stage->0->AwaitTaskOrganization_user_id,
            },
        ),
{
}

/// What ends a handler early, and with which reply: a comment by someone else
/// where only its author may act is forbidden, as is a reaction made by
/// someone else; a failed load is an internal server error and a missing row
/// is not found, each with the message of what was being loaded.
pub proof fn lemma_refusals_and_their_replies(h: Handler, answer: Answer)
    requires
        h.expects(answer),
    ensures
        h.stage is LoadComment && answer is Comment && h.stage->author_only && answer->author_id
            != h.user_id ==> h.after(answer) == h.finish(
            Reply::Error(Status::Forbidden, Message::NotCommentAuthor),
        ),
        h.stage is LoadReaction && answer is Reaction && answer->Reaction_user_id != h.user_id
            ==> h.after(answer) == h.finish(
            Reply::Error(Status::Forbidden, Message::NotReactionAuthor),
        ),
        h.stage is LoadSprint && answer is Failed ==> h.after(answer) == h.finish(
            Reply::Error(Status::InternalServerError, Message::FailedToLoadSprint),
        ),
        h.stage is LoadSprint && answer is Missing ==> h.after(answer) == h.finish(
            Reply::Error(Status::NotFound, Message::SprintNotFound),
        ),
        h.stage is LoadComment && answer is Failed ==> h.after(answer) == h.finish(
            Reply::Error(Status::InternalServerError, h.stage->LoadComment_failure),
        ),
        h.stage is LoadComment && answer is Missing ==> h.after(answer) == h.finish(
            Reply::Error(Status::NotFound, Message::CommentNotFound),
        ),
        h.stage is LoadReaction && answer is Failed ==> h.after(answer) == h.finish(
            Reply::Error(Status::InternalServerError, Message::FailedToLoadReaction),
        ),
        h.stage is LoadReaction && answer is Missing ==> h.after(answer) == h.finish(
            Reply::Error(Status::NotFound, Message::ReactionNotFound),
        ),
        h.stage is Check && h.stage->0 is AwaitProject && answer is Failed ==> h.after(answer)
            == h.finish(Reply::Error(Status::InternalServerError, Message::FailedToLoadProject)),
        h.stage is Check && h.stage->0 is AwaitProject && answer is Missing ==> h.after(answer)
            == h.finish(Reply::Error(Status::NotFound, Message::ProjectNotFound)),
        h.stage is Check && h.stage->0 is AwaitTaskOrganization && answer is Failed
            ==> h.after(answer) == h.finish(
            Reply::Error(Status::InternalServerError, Message::FailedToLoadTask),
        ),
        h.stage is Check && h.stage->0 is AwaitTaskOrganization && answer is Missing
            ==> h.after(answer) == h.finish(Reply::Error(Status::NotFound, Message::TaskNotFound)),
{
}

} // verus!
