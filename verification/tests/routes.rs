use remote::db::records::{ProjectMember, RemoteProject, Sprint, TaskComment, TaskCommentReaction};
use remote::routes::project_members::{add_member, list_members, remove_member, to_member_response};
use remote::routes::projects::{
    create_project, delete_project, get_project, list_projects, to_remote_project_response,
    update_project, CreateProjectRequest, UpdateProjectRequest,
};
use remote::routes::sprints::{
    create_sprint, delete_sprint, list_sprints, to_sprint_response, update_sprint,
    CreateSprintRequest, UpdateSprintRequest,
};
use remote::routes::task_comment_reactions::{
    create_reaction, delete_reaction, list_reactions, to_reaction_response, CreateReactionRequest,
};
use remote::routes::task_comments::{
    create_comment, delete_comment, list_comments, to_comment_response, update_comment,
    CreateCommentRequest, UpdateCommentRequest,
};
use remote::routes::{Answer, Handler, Message, Operation, Reply, Request, Stage, Status};

const USER: u128 = 0x11;
const OTHER: u128 = 0x22;
const ORG: u128 = 0x33;
const PROJECT: u128 = 0x44;
const TASK: u128 = 0x55;
const COMMENT: u128 = 0x66;
const REACTION: u128 = 0x77;
const SPRINT: u128 = 0x88;

fn edit(message: &str) -> UpdateCommentRequest {
    UpdateCommentRequest { message: message.to_string() }
}

fn thumbs_up() -> CreateReactionRequest {
    CreateReactionRequest { emoji: "👍".to_string() }
}

fn new_project() -> CreateProjectRequest {
    CreateProjectRequest {
        organization_id: ORG,
        name: "Roadmap".to_string(),
        color: "#ff0000".to_string(),
        visibility: "whole_team".to_string(),
        sprints_enabled: true,
        sprint_duration_weeks: Some(2),
    }
}

fn project_edit() -> UpdateProjectRequest {
    UpdateProjectRequest {
        name: "Renamed".to_string(),
        color: "#00ff00".to_string(),
        visibility: "members_only".to_string(),
        sprints_enabled: false,
        sprint_duration_weeks: None,
    }
}

fn new_sprint() -> CreateSprintRequest {
    CreateSprintRequest {
        label: "Sprint 1".to_string(),
        sequence_number: 1,
        start_date: 739_000,
        end_date: 739_014,
        status: "planned".to_string(),
    }
}

fn sprint_edit() -> UpdateSprintRequest {
    UpdateSprintRequest {
        label: "Sprint 1b".to_string(),
        sequence_number: 2,
        start_date: 739_001,
        end_date: 739_015,
        status: "active".to_string(),
    }
}

/// Feed `answers` in turn; the requests made, the first one included.
fn drive(start: (Handler, Request), answers: &[Answer]) -> Vec<Request> {
    let (mut handler, first) = start;
    let mut requests = vec![first];
    for answer in answers {
        assert!(handler.accepts(*answer), "unexpected answer {:?} at {:?}", answer, handler.stage);
        let (next, request) = handler.clone().step(*answer);
        handler = next;
        requests.push(request);
    }
    requests
}

fn error(status: Status, message: Message) -> Request {
    Request::Finish(Reply::Error(status, message))
}

#[test]
fn delete_comment_by_its_author() {
    let requests = drive(
        delete_comment(COMMENT, USER),
        &[
            Answer::Comment { task_id: TASK, author_id: USER },
            Answer::TaskOrganization { organization_id: ORG },
            Answer::Member,
            Answer::Done,
        ],
    );
    assert_eq!(
        requests,
        vec![
            Request::LoadComment { comment_id: COMMENT },
            Request::LoadTaskOrganization { task_id: TASK },
            Request::CheckMembership { organization_id: ORG, user_id: USER },
            Request::Perform(Operation::DeleteComment { comment_id: COMMENT }),
            Request::Finish(Reply::NoContent),
        ]
    );
}

#[test]
fn delete_comment_by_someone_else_is_forbidden() {
    let requests = drive(
        delete_comment(COMMENT, USER),
        &[Answer::Comment { task_id: TASK, author_id: OTHER }],
    );
    assert_eq!(requests[1], error(Status::Forbidden, Message::NotCommentAuthor));
}

#[test]
fn update_comment_errors() {
    assert_eq!(
        drive(update_comment(COMMENT, USER, edit("fixed")), &[Answer::Failed])[1],
        error(Status::InternalServerError, Message::FailedToLoadTaskComment)
    );
    assert_eq!(
        drive(update_comment(COMMENT, USER, edit("fixed")), &[Answer::Missing])[1],
        error(Status::NotFound, Message::CommentNotFound)
    );
    let r = drive(
        update_comment(COMMENT, USER, edit("fixed")),
        &[Answer::Comment { task_id: TASK, author_id: USER }, Answer::Missing],
    );
    assert_eq!(r[2], error(Status::NotFound, Message::TaskNotFound));
    let r = drive(
        update_comment(COMMENT, USER, edit("fixed")),
        &[Answer::Comment { task_id: TASK, author_id: USER }, Answer::Failed],
    );
    assert_eq!(r[2], error(Status::InternalServerError, Message::FailedToLoadTask));
    let r = drive(
        update_comment(COMMENT, USER, edit("fixed")),
        &[
            Answer::Comment { task_id: TASK, author_id: USER },
            Answer::TaskOrganization { organization_id: ORG },
            Answer::NotMember,
        ],
    );
    assert_eq!(r[3], Request::Finish(Reply::MembershipError));
    let r = drive(
        update_comment(COMMENT, USER, edit("fixed")),
        &[
            Answer::Comment { task_id: TASK, author_id: USER },
            Answer::TaskOrganization { organization_id: ORG },
            Answer::Member,
            Answer::Failed,
        ],
    );
    assert_eq!(r[3], Request::Perform(Operation::UpdateComment { comment_id: COMMENT, message: "fixed".to_string() }));
    assert_eq!(r[4], error(Status::InternalServerError, Message::InternalServerError));
}

#[test]
fn list_and_create_comments() {
    let r = drive(
        list_comments(TASK, USER),
        &[Answer::TaskOrganization { organization_id: ORG }, Answer::Member, Answer::Failed],
    );
    assert_eq!(r[0], Request::LoadTaskOrganization { task_id: TASK });
    assert_eq!(r[2], Request::Perform(Operation::ListComments { task_id: TASK }));
    assert_eq!(r[3], error(Status::InternalServerError, Message::FailedToListTaskComments));
    let r = drive(
        create_comment(TASK, USER, CreateCommentRequest { message: "hi".to_string() }),
        &[Answer::TaskOrganization { organization_id: ORG }, Answer::Member, Answer::Done],
    );
    assert_eq!(
        r[2],
        Request::Perform(Operation::CreateComment {
            task_id: TASK,
            author_id: USER,
            message: "hi".to_string(),
        })
    );
    assert_eq!(r[3], Request::Finish(Reply::Json));
}

#[test]
fn reactions() {
    let r = drive(
        list_reactions(COMMENT, USER),
        &[
            Answer::Comment { task_id: TASK, author_id: OTHER },
            Answer::TaskOrganization { organization_id: ORG },
            Answer::Member,
            Answer::Failed,
        ],
    );
    assert_eq!(r[3], Request::Perform(Operation::ListReactions { comment_id: COMMENT }));
    assert_eq!(r[4], error(Status::InternalServerError, Message::FailedToListReactions));
    assert_eq!(
        drive(create_reaction(COMMENT, USER, thumbs_up()), &[Answer::Failed])[1],
        error(Status::InternalServerError, Message::FailedToLoadComment)
    );
    let r = drive(
        create_reaction(COMMENT, USER, thumbs_up()),
        &[
            Answer::Comment { task_id: TASK, author_id: OTHER },
            Answer::TaskOrganization { organization_id: ORG },
            Answer::Member,
            Answer::Done,
        ],
    );
    assert_eq!(
        r[3],
        Request::Perform(Operation::CreateReaction {
            comment_id: COMMENT,
            user_id: USER,
            emoji: "👍".to_string(),
        })
    );
    assert_eq!(r[4], Request::Finish(Reply::Json));
}

#[test]
fn delete_reaction_flow() {
    let r = drive(
        delete_reaction(REACTION, USER),
        &[
            Answer::Reaction { comment_id: COMMENT, user_id: USER },
            Answer::Comment { task_id: TASK, author_id: OTHER },
            Answer::TaskOrganization { organization_id: ORG },
            Answer::Member,
            Answer::Done,
        ],
    );
    assert_eq!(
        r,
        vec![
            Request::LoadReaction { reaction_id: REACTION },
            Request::LoadComment { comment_id: COMMENT },
            Request::LoadTaskOrganization { task_id: TASK },
            Request::CheckMembership { organization_id: ORG, user_id: USER },
            Request::Perform(Operation::DeleteReaction { reaction_id: REACTION }),
            Request::Finish(Reply::NoContent),
        ]
    );
    assert_eq!(
        drive(
            delete_reaction(REACTION, USER),
            &[Answer::Reaction { comment_id: COMMENT, user_id: OTHER }]
        )[1],
        error(Status::Forbidden, Message::NotReactionAuthor)
    );
    assert_eq!(
        drive(delete_reaction(REACTION, USER), &[Answer::Missing])[1],
        error(Status::NotFound, Message::ReactionNotFound)
    );
    assert_eq!(
        drive(delete_reaction(REACTION, USER), &[Answer::Failed])[1],
        error(Status::InternalServerError, Message::FailedToLoadReaction)
    );
    let r = drive(
        delete_reaction(REACTION, USER),
        &[Answer::Reaction { comment_id: COMMENT, user_id: USER }, Answer::Missing],
    );
    assert_eq!(r[2], error(Status::NotFound, Message::CommentNotFound));
    let r = drive(
        delete_reaction(REACTION, USER),
        &[Answer::Reaction { comment_id: COMMENT, user_id: USER }, Answer::Failed],
    );
    assert_eq!(r[2], error(Status::InternalServerError, Message::FailedToLoadComment));
}

#[test]
fn project_member_handlers() {
    let r = drive(
        list_members(PROJECT, USER),
        &[Answer::Project { organization_id: ORG }, Answer::Member, Answer::Failed],
    );
    assert_eq!(r[0], Request::LoadProject { project_id: PROJECT });
    assert_eq!(r[1], Request::CheckMembership { organization_id: ORG, user_id: USER });
    assert_eq!(r[3], error(Status::InternalServerError, Message::FailedToListProjectMembers));
    let r = drive(
        add_member(PROJECT, USER, OTHER),
        &[Answer::Project { organization_id: ORG }, Answer::Member, Answer::Member, Answer::Done],
    );
    assert_eq!(
        r,
        vec![
            Request::LoadProject { project_id: PROJECT },
            Request::CheckMembership { organization_id: ORG, user_id: USER },
            Request::CheckMembership { organization_id: ORG, user_id: OTHER },
            Request::Perform(Operation::AddProjectMember { project_id: PROJECT, user_id: OTHER }),
            Request::Finish(Reply::Json),
        ]
    );
    let r = drive(
        add_member(PROJECT, USER, OTHER),
        &[Answer::Project { organization_id: ORG }, Answer::Member, Answer::NotMember],
    );
    assert_eq!(r[3], Request::Finish(Reply::MembershipError));
    let r = drive(
        remove_member(PROJECT, USER, OTHER),
        &[Answer::Project { organization_id: ORG }, Answer::Member, Answer::Done],
    );
    assert_eq!(
        r[2],
        Request::Perform(Operation::RemoveProjectMember { project_id: PROJECT, user_id: OTHER })
    );
    assert_eq!(r[3], Request::Finish(Reply::NoContent));
    assert_eq!(
        drive(remove_member(PROJECT, USER, OTHER), &[Answer::Missing])[1],
        error(Status::NotFound, Message::ProjectNotFound)
    );
    assert_eq!(
        drive(remove_member(PROJECT, USER, OTHER), &[Answer::Failed])[1],
        error(Status::InternalServerError, Message::FailedToLoadProject)
    );
}

#[test]
fn project_handlers() {
    let r = drive(list_projects(ORG, USER), &[Answer::Member, Answer::Failed]);
    assert_eq!(r[0], Request::CheckMembership { organization_id: ORG, user_id: USER });
    assert_eq!(r[1], Request::Perform(Operation::ListProjects { organization_id: ORG }));
    assert_eq!(r[2], error(Status::InternalServerError, Message::FailedToListProjects));
    assert_eq!(
        drive(list_projects(ORG, USER), &[Answer::NotMember])[1],
        Request::Finish(Reply::MembershipError)
    );
    let r = drive(get_project(PROJECT, USER), &[Answer::Project { organization_id: ORG }, Answer::Member]);
    assert_eq!(r[2], Request::Finish(Reply::Json));
    let r = drive(create_project(USER, new_project()), &[Answer::Member, Answer::Done]);
    assert_eq!(r[1], Request::Perform(Operation::CreateProject {
            organization_id: ORG,
            name: "Roadmap".to_string(),
            color: "#ff0000".to_string(),
            visibility: "whole_team".to_string(),
            sprints_enabled: true,
            sprint_duration_weeks: Some(2),
        }));
    assert_eq!(r[2], Request::Finish(Reply::Json));
    let r = drive(
        update_project(PROJECT, USER, project_edit()),
        &[Answer::Project { organization_id: ORG }, Answer::Member, Answer::Failed],
    );
    assert_eq!(r[2], Request::Perform(Operation::UpdateProject {
            project_id: PROJECT,
            name: "Renamed".to_string(),
            color: "#00ff00".to_string(),
            visibility: "members_only".to_string(),
            sprints_enabled: false,
            sprint_duration_weeks: None,
        }));
    assert_eq!(r[3], error(Status::InternalServerError, Message::InternalServerError));
    let r = drive(
        delete_project(PROJECT, USER),
        &[Answer::Project { organization_id: ORG }, Answer::Member, Answer::Done],
    );
    assert_eq!(r[2], Request::Perform(Operation::DeleteProject { project_id: PROJECT }));
    assert_eq!(r[3], Request::Finish(Reply::NoContent));
}

#[test]
fn sprint_handlers() {
    let r = drive(
        update_sprint(SPRINT, USER, sprint_edit()),
        &[
            Answer::Sprint { project_id: PROJECT },
            Answer::Project { organization_id: ORG },
            Answer::Member,
            Answer::Done,
        ],
    );
    assert_eq!(
        r,
        vec![
            Request::LoadSprint { sprint_id: SPRINT },
            Request::LoadProject { project_id: PROJECT },
            Request::CheckMembership { organization_id: ORG, user_id: USER },
            Request::Perform(Operation::UpdateSprint {
                sprint_id: SPRINT,
                label: "Sprint 1b".to_string(),
                sequence_number: 2,
                start_date: 739_001,
                end_date: 739_015,
                status: "active".to_string(),
            }),
            Request::Finish(Reply::Json),
        ]
    );
    assert_eq!(
        drive(delete_sprint(SPRINT, USER), &[Answer::Missing])[1],
        error(Status::NotFound, Message::SprintNotFound)
    );
    assert_eq!(
        drive(delete_sprint(SPRINT, USER), &[Answer::Failed])[1],
        error(Status::InternalServerError, Message::FailedToLoadSprint)
    );
    let r = drive(
        list_sprints(PROJECT, USER),
        &[Answer::Project { organization_id: ORG }, Answer::Member, Answer::Failed],
    );
    assert_eq!(r[3], error(Status::InternalServerError, Message::FailedToListSprints));
    let r = drive(
        create_sprint(PROJECT, USER, new_sprint()),
        &[Answer::Project { organization_id: ORG }, Answer::Member, Answer::Done],
    );
    assert_eq!(r[2], Request::Perform(Operation::CreateSprint {
            project_id: PROJECT,
            label: "Sprint 1".to_string(),
            sequence_number: 1,
            start_date: 739_000,
            end_date: 739_014,
            status: "planned".to_string(),
        }));
}

#[test]
fn finished_handlers_accept_nothing() {
    let (h, _) = delete_comment(COMMENT, USER);
    let (h, _) = h.step(Answer::Missing);
    assert_eq!(h.stage, Stage::Finished);
    assert!(!h.accepts(Answer::Done));
    assert!(!h.accepts(Answer::Member));
}

#[test]
fn handlers_refuse_answers_of_another_request() {
    let (h, _) = delete_comment(COMMENT, USER);
    assert!(!h.accepts(Answer::Member));
    assert!(!h.accepts(Answer::Project { organization_id: ORG }));
    assert!(h.accepts(Answer::Comment { task_id: TASK, author_id: USER }));
}

#[test]
fn messages_and_codes() {
    assert_eq!(Message::CommentNotFound.text(), "comment not found");
    assert_eq!(Message::NotCommentAuthor.text(), "you are not the author of this comment");
    assert_eq!(Message::NotReactionAuthor.text(), "you are not the author of this reaction");
    assert_eq!(Message::FailedToListProjectMembers.text(), "failed to list project members");
    assert_eq!(Message::InternalServerError.text(), "internal server error");
    assert_eq!(Status::NotFound.code(), 404);
    assert_eq!(Status::Forbidden.code(), 403);
    assert_eq!(Status::InternalServerError.code(), 500);
}

#[test]
fn responses_copy_the_rows() {
    let m = to_member_response(ProjectMember { project_id: 1, user_id: 2, joined_at: 3 });
    assert_eq!((m.project_id, m.user_id, m.joined_at), (1, 2, 3));
    let c = to_comment_response(TaskComment {
        id: 1,
        task_id: 2,
        author_id: 3,
        message: "hello".to_string(),
        created_at: 4,
        updated_at: 5,
    });
    assert_eq!(
        (c.id, c.task_id, c.author_id, c.message.as_str(), c.created_at, c.updated_at),
        (1, 2, 3, "hello", 4, 5)
    );
    let r = to_reaction_response(TaskCommentReaction {
        id: 1,
        comment_id: 2,
        user_id: 3,
        emoji: "👍".to_string(),
        created_at: 4,
    });
    assert_eq!(
        (r.id, r.comment_id, r.user_id, r.emoji.as_str(), r.created_at),
        (1, 2, 3, "👍", 4)
    );
}

#[test]
fn project_and_sprint_responses_copy_the_rows() {
    let p = to_remote_project_response(RemoteProject {
        id: 1,
        organization_id: 2,
        name: "Roadmap".to_string(),
        color: "#ff0000".to_string(),
        visibility: "whole_team".to_string(),
        sprints_enabled: true,
        sprint_duration_weeks: Some(3),
        created_at: 4,
        updated_at: 5,
    });
    assert_eq!((p.id, p.organization_id, p.name.as_str(), p.color.as_str()), (1, 2, "Roadmap", "#ff0000"));
    assert_eq!(
        (p.visibility.as_str(), p.sprints_enabled, p.sprint_duration_weeks, p.created_at, p.updated_at),
        ("whole_team", true, Some(3), 4, 5)
    );
    let s = to_sprint_response(Sprint {
        id: 1,
        project_id: 2,
        label: "Sprint 7".to_string(),
        sequence_number: 7,
        start_date: 739_000,
        end_date: 739_014,
        status: "completed".to_string(),
        created_at: 9,
    });
    assert_eq!(
        (s.id, s.project_id, s.label.as_str(), s.sequence_number, s.start_date, s.end_date, s.status.as_str(), s.created_at),
        (1, 2, "Sprint 7", 7, 739_000, 739_014, "completed", 9)
    );
}

#[test]
fn operation_copies_are_equal() {
    let op = Operation::CreateComment { task_id: TASK, author_id: USER, message: "hi".to_string() };
    assert_eq!(op.duplicate(), op);
    let op = Operation::UpdateSprint {
        sprint_id: SPRINT,
        label: "x".to_string(),
        sequence_number: 3,
        start_date: 1,
        end_date: 2,
        status: "active".to_string(),
    };
    assert_eq!(op.duplicate(), op);
}

#[test]
fn membership_is_checked_in_the_owning_organization() {
    const OWNER_ORG: u128 = 0x99;
    let r = drive(
        update_sprint(SPRINT, USER, sprint_edit()),
        &[Answer::Sprint { project_id: PROJECT }, Answer::Project { organization_id: OWNER_ORG }],
    );
    assert_eq!(r[2], Request::CheckMembership { organization_id: OWNER_ORG, user_id: USER });
    let r = drive(
        delete_comment(COMMENT, USER),
        &[
            Answer::Comment { task_id: TASK, author_id: USER },
            Answer::TaskOrganization { organization_id: OWNER_ORG },
        ],
    );
    assert_eq!(r[2], Request::CheckMembership { organization_id: OWNER_ORG, user_id: USER });
    let r = drive(
        add_member(PROJECT, USER, OTHER),
        &[Answer::Project { organization_id: OWNER_ORG }, Answer::Member],
    );
    assert_eq!(r[2], Request::CheckMembership { organization_id: OWNER_ORG, user_id: OTHER });
}
