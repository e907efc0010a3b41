//! The requests to the gateway as they are sent: the method of each, and its payload.

use vstd::prelude::*;

use crate::app::command::{Command, CommandView, QueueUpdate, QueueUpdateView};
use crate::app::settings::{SettingsChange, SettingsChangeView};
use crate::app::takeover::{QuestionAnswerItem, QuestionAnswerItemView};
use crate::json::{Json, JsonView};
use crate::text::Duplicate;
use crate::wire::{ApprovalResponseOutcome, SessionId};

verus! {

// ---------------------------------------------------------------------------
// building values
// ---------------------------------------------------------------------------

/// The members of an object.
pub open spec fn member_views(members: Seq<(String, Json)>) -> Seq<(Seq<char>, JsonView)> {
    members.map_values(|m: (String, Json)| (m.0@, m.1@))
}

fn put(members: &mut Vec<(String, Json)>, key: &str, value: Json)
    ensures
        member_views(final(members)@) == member_views(old(members)@).push((key@, value@)),
{
    let member = (key.to_owned(), value);
    members.push(member);
    proof {
        assert(member_views(members@) =~= member_views(old(members)@).push((key@, value@)));
    }
}

fn no_members() -> (r: Vec<(String, Json)>)
    ensures
        member_views(r@) == Seq::<(Seq<char>, JsonView)>::empty(),
{
    let r: Vec<(String, Json)> = Vec::new();
    proof {
        assert(member_views(r@) =~= Seq::<(Seq<char>, JsonView)>::empty());
    }
    r
}

fn object(members: Vec<(String, Json)>) -> (r: Json)
    ensures
        r@ == JsonView::Object(member_views(members@)),
{
    let r = Json::Object(members);
    proof {
        assert(r@->Object_0 =~= member_views(members@));
    }
    r
}

fn array(items: Vec<Json>) -> (r: Json)
    ensures
        r@ == JsonView::Array(crate::text::views(items@)),
{
    let r = Json::Array(items);
    proof {
        assert(r@->Array_0 =~= crate::text::views(items@));
    }
    r
}

fn text(s: &str) -> (r: Json)
    ensures
        r@ == JsonView::Str(s@),
{
    Json::Str(s.to_owned())
}

/// An object with one member.
pub open spec fn only(key: Seq<char>, value: JsonView) -> JsonView {
    JsonView::Object(seq![(key, value)])
}

fn object_of_one(key: &str, value: Json) -> (r: Json)
    ensures
        r@ == only(key@, value@),
{
    let mut members = no_members();
    put(&mut members, key, value);
    proof {
        assert(member_views(members@) =~= seq![(key@, value@)]);
    }
    object(members)
}

/// An object with two members.
pub open spec fn pair(a: Seq<char>, x: JsonView, b: Seq<char>, y: JsonView) -> JsonView {
    JsonView::Object(seq![(a, x), (b, y)])
}

fn object_of_two(a: &str, x: Json, b: &str, y: Json) -> (r: Json)
    ensures
        r@ == pair(a@, x@, b@, y@),
{
    let mut members = no_members();
    put(&mut members, a, x);
    put(&mut members, b, y);
    proof {
        assert(member_views(members@) =~= seq![(a@, x@), (b@, y@)]);
    }
    object(members)
}

/// An object with three members.
pub open spec fn triple(
    a: Seq<char>,
    x: JsonView,
    b: Seq<char>,
    y: JsonView,
    c: Seq<char>,
    z: JsonView,
) -> JsonView {
    JsonView::Object(seq![(a, x), (b, y), (c, z)])
}

fn object_of_three(a: &str, x: Json, b: &str, y: Json, c: &str, z: Json) -> (r: Json)
    ensures
        r@ == triple(a@, x@, b@, y@, c@, z@),
{
    let mut members = no_members();
    put(&mut members, a, x);
    put(&mut members, b, y);
    put(&mut members, c, z);
    proof {
        assert(member_views(members@) =~= seq![(a@, x@), (b@, y@), (c@, z@)]);
    }
    object(members)
}

/// An array with one item.
pub open spec fn single(item: JsonView) -> JsonView {
    JsonView::Array(seq![item])
}

fn array_of_one(item: Json) -> (r: Json)
    ensures
        r@ == single(item@),
{
    let mut items: Vec<Json> = Vec::new();
    items.push(item);
    proof {
        assert(crate::text::views(items@) =~= seq![item@]);
    }
    array(items)
}

// ---------------------------------------------------------------------------
// payloads
// ---------------------------------------------------------------------------

/// The content of a text: one part.
pub open spec fn text_content(text: Seq<char>) -> JsonView {
    single(pair("type"@, JsonView::Str("text"@), "text"@, JsonView::Str(text)))
}

fn content_of(s: &str) -> (r: Json)
    ensures
        r@ == text_content(s@),
{
    array_of_one(object_of_two("type", text("text"), "text", text(s)))
}

/// What is asked of a queue item.
pub open spec fn update_payload(update: QueueUpdateView) -> JsonView {
    match update {
        QueueUpdateView::Remove => only("type"@, JsonView::Str("remove"@)),
        QueueUpdateView::Steer => only("type"@, JsonView::Str("steer"@)),
        QueueUpdateView::Edit { text } => pair(
            "type"@,
            JsonView::Str("edit"@),
            "content"@,
            text_content(text),
        ),
    }
}

fn update_of(update: &QueueUpdate) -> (r: Json)
    ensures
        r@ == update_payload(update@),
{
    match update {
        QueueUpdate::Remove => object_of_one("type", text("remove")),
        QueueUpdate::Steer => object_of_one("type", text("steer")),
        QueueUpdate::Edit { text: s } => object_of_two(
            "type",
            text("edit"),
            "content",
            content_of(s.as_str()),
        ),
    }
}

/// The changed values of some settings.
pub open spec fn patch_payload(patch: Seq<SettingsChangeView>) -> JsonView {
    JsonView::Object(patch.map_values(|c: SettingsChangeView| (c.key, c.value)))
}

fn patch_of(patch: &Vec<SettingsChange>) -> (r: Json)
    ensures
        r@ == patch_payload(crate::text::views(patch@)),
{
    let ghost all = crate::text::views(patch@);
    let ghost named = |c: SettingsChangeView| (c.key, c.value);
    let mut members = no_members();
    let mut i: usize = 0;
    proof {
        assert(all.take(0).map_values(named) =~= member_views(members@));
    }
    while i < patch.len()
        invariant
            i <= patch@.len(),
            all == crate::text::views(patch@),
            named == (|c: SettingsChangeView| (c.key, c.value)),
            member_views(members@) == all.take(i as int).map_values(named),
        decreases patch.len() - i,
    {
        proof {
            assert(all[i as int] == patch@[i as int]@);
            assert(all.take(i + 1).map_values(named) =~= all.take(i as int).map_values(named).push(
                named(all[i as int]),
            ));
        }
        put(&mut members, patch[i].key.as_str(), patch[i].value.duplicate());
        i = i + 1;
    }
    proof {
        assert(all.take(i as int) =~= all);
    }
    object(members)
}

/// Some texts.
pub open spec fn texts_payload(texts: Seq<Seq<char>>) -> JsonView {
    JsonView::Array(texts.map_values(|t: Seq<char>| JsonView::Str(t)))
}

fn texts_of(texts: &Vec<String>) -> (r: Json)
    ensures
        r@ == texts_payload(crate::text::views(texts@)),
{
    let ghost all = crate::text::views(texts@);
    let ghost as_text = |t: Seq<char>| JsonView::Str(t);
    let mut items: Vec<Json> = Vec::new();
    let mut i: usize = 0;
    proof {
        assert(all.take(0).map_values(as_text) =~= crate::text::views(items@));
    }
    while i < texts.len()
        invariant
            i <= texts@.len(),
            all == crate::text::views(texts@),
            as_text == (|t: Seq<char>| JsonView::Str(t)),
            crate::text::views(items@) == all.take(i as int).map_values(as_text),
        decreases texts.len() - i,
    {
        let item = text(texts[i].as_str());
        proof {
            assert(all[i as int] == texts@[i as int]@);
            assert(all.take(i + 1).map_values(as_text) =~= all.take(i as int).map_values(
                as_text,
            ).push(as_text(all[i as int])));
            assert(crate::text::views(items@.push(item)) =~= crate::text::views(items@).push(item@));
        }
        items.push(item);
        i = i + 1;
    }
    proof {
        assert(all.take(i as int) =~= all);
    }
    array(items)
}

/// The answer to one question.
pub open spec fn answer_payload(item: QuestionAnswerItemView) -> JsonView {
    pair("id"@, JsonView::Str(item.id), "selected"@, texts_payload(item.selected))
}

/// The answers to some questions.
pub open spec fn answers_payload(answers: Seq<QuestionAnswerItemView>) -> JsonView {
    only("answers"@, JsonView::Array(answers.map_values(|a: QuestionAnswerItemView| answer_payload(a))))
}

fn answers_of(answers: &Vec<QuestionAnswerItem>) -> (r: Json)
    ensures
        r@ == answers_payload(crate::text::views(answers@)),
{
    let ghost all = crate::text::views(answers@);
    let ghost as_item = |a: QuestionAnswerItemView| answer_payload(a);
    let mut items: Vec<Json> = Vec::new();
    let mut i: usize = 0;
    proof {
        assert(all.take(0).map_values(as_item) =~= crate::text::views(items@));
    }
    while i < answers.len()
        invariant
            i <= answers@.len(),
            all == crate::text::views(answers@),
            as_item == (|a: QuestionAnswerItemView| answer_payload(a)),
            crate::text::views(items@) == all.take(i as int).map_values(as_item),
        decreases answers.len() - i,
    {
        let item = object_of_two(
            "id",
            text(answers[i].id.as_str()),
            "selected",
            texts_of(&answers[i].selected),
        );
        proof {
            assert(all[i as int] == answers@[i as int]@);
            assert(all.take(i + 1).map_values(as_item) =~= all.take(i as int).map_values(
                as_item,
            ).push(as_item(all[i as int])));
            assert(crate::text::views(items@.push(item)) =~= crate::text::views(items@).push(item@));
        }
        items.push(item);
        i = i + 1;
    }
    proof {
        assert(all.take(i as int) =~= all);
    }
    object_of_one("answers", array(items))
}

/// The word for an outcome of an approval.
pub open spec fn outcome_word(outcome: ApprovalResponseOutcome) -> Seq<char> {
    match outcome {
        ApprovalResponseOutcome::AllowedOnce => "allowed-once"@,
        ApprovalResponseOutcome::Rejected => "rejected"@,
    }
}

/// The method of a request.
pub open spec fn method_of(command: CommandView) -> Seq<char> {
    match command {
        CommandView::Prompt { .. } => "session.prompt"@,
        CommandView::RespondApproval { .. } => "respond"@,
        CommandView::RespondQuestion { .. } => "respond"@,
        CommandView::CancelTurn { .. } => "session.cancel"@,
        CommandView::DescribeSettings => "settings.describe"@,
        CommandView::UpdateSettings { .. } => "settings.update"@,
        CommandView::History { .. } => "session.history"@,
        CommandView::Models { .. } => "session.models"@,
        CommandView::UpdateQueue { .. } => "session.updateQueue"@,
        CommandView::ListSkills { .. } => "skill.list"@,
        CommandView::RenameSession { .. } => "session.rename"@,
        CommandView::RenameWorkspace { .. } => "workspace.rename"@,
        CommandView::DeleteWorkspace { .. } => "workspace.delete"@,
        CommandView::CreateWorkspace { .. } => "workspace.create"@,
        CommandView::ForkSession { .. } => "session.fork"@,
        CommandView::ArchiveSession { .. } => "workspace.archiveSession"@,
        CommandView::CreateSession { .. } => "session.create"@,
        CommandView::Search { .. } => "session.search"@,
        CommandView::Attachment { .. } => "session.attachment"@,
    }
}

/// A payload that names a session and nothing else.
pub open spec fn of_session(id: Seq<char>) -> JsonView {
    only("sessionId"@, JsonView::Str(id))
}

/// The payload of a request.
pub open spec fn payload_of(command: CommandView) -> JsonView {
    match command {
        CommandView::Prompt { session_id, text } => triple(
            "sessionId"@,
            JsonView::Str(session_id),
            "mode"@,
            JsonView::Str("queue"@),
            "content"@,
            text_content(text),
        ),
        CommandView::RespondApproval { session_id, approval_id, outcome, .. } => triple(
            "sessionId"@,
            JsonView::Str(session_id),
            "approvalId"@,
            JsonView::Str(approval_id),
            "outcome"@,
            JsonView::Str(outcome_word(outcome)),
        ),
        CommandView::RespondQuestion { session_id, answers, .. } => pair(
            "sessionId"@,
            JsonView::Str(session_id),
            "answer"@,
            answers_payload(answers),
        ),
        CommandView::CancelTurn { session_id } => of_session(session_id),
        CommandView::DescribeSettings => JsonView::Object(Seq::empty()),
        CommandView::UpdateSettings { ns, revision, patch } => triple(
            "ns"@,
            JsonView::Str(ns),
            "patch"@,
            patch_payload(patch),
            "expectedRevision"@,
            JsonView::Int(revision),
        ),
        CommandView::History { session_id, limit } => pair(
            "sessionId"@,
            JsonView::Str(session_id),
            "maxMessages"@,
            JsonView::Int(limit),
        ),
        CommandView::Models { session_id } => of_session(session_id),
        CommandView::UpdateQueue { session_id, item_id, update } => triple(
            "sessionId"@,
            JsonView::Str(session_id),
            "itemId"@,
            JsonView::Str(item_id),
            "action"@,
            update_payload(update),
        ),
        CommandView::ListSkills { session_id } => of_session(session_id),
        CommandView::RenameSession { session_id, title } => pair(
            "sessionId"@,
            JsonView::Str(session_id),
            "title"@,
            JsonView::Str(title),
        ),
        CommandView::RenameWorkspace { workspace_id, title } => pair(
            "workspaceId"@,
            JsonView::Str(workspace_id),
            "title"@,
            JsonView::Str(title),
        ),
        CommandView::DeleteWorkspace { workspace_id } => only(
            "workspaceId"@,
            JsonView::Str(workspace_id),
        ),
        CommandView::CreateWorkspace { path } => only("path"@, JsonView::Str(path)),
        CommandView::ForkSession { session_id } => of_session(session_id),
        CommandView::ArchiveSession { session_id } => of_session(session_id),
        CommandView::CreateSession { workspace_id } => match workspace_id {
            Some(id) => only("workspaceId"@, JsonView::Str(id)),
            None => JsonView::Object(Seq::empty()),
        },
        CommandView::Search { query } => only("query"@, JsonView::Str(query)),
        CommandView::Attachment { session_id, attachment_id } => pair(
            "sessionId"@,
            JsonView::Str(session_id),
            "attachmentId"@,
            JsonView::Str(attachment_id),
        ),
    }
}

/// The method of a request.
pub fn method(command: &Command) -> (r: &'static str)
    ensures
        r@ == method_of(command@),
{
    match command {
        Command::Prompt { .. } => "session.prompt",
        Command::RespondApproval { .. } => "respond",
        Command::RespondQuestion { .. } => "respond",
        Command::CancelTurn { .. } => "session.cancel",
        Command::DescribeSettings => "settings.describe",
        Command::UpdateSettings { .. } => "settings.update",
        Command::History { .. } => "session.history",
        Command::Models { .. } => "session.models",
        Command::UpdateQueue { .. } => "session.updateQueue",
        Command::ListSkills { .. } => "skill.list",
        Command::RenameSession { .. } => "session.rename",
        Command::RenameWorkspace { .. } => "workspace.rename",
        Command::DeleteWorkspace { .. } => "workspace.delete",
        Command::CreateWorkspace { .. } => "workspace.create",
        Command::ForkSession { .. } => "session.fork",
        Command::ArchiveSession { .. } => "workspace.archiveSession",
        Command::CreateSession { .. } => "session.create",
        Command::Search { .. } => "session.search",
        Command::Attachment { .. } => "session.attachment",
    }
}

fn session_only(id: &str) -> (r: Json)
    ensures
        r@ == of_session(id@),
{
    object_of_one("sessionId", text(id))
}

/// The payload of a request.
pub fn payload(command: &Command) -> (r: Json)
    ensures
        r@ == payload_of(command@),
{
    match command {
        Command::Prompt { session_id, text: s } => object_of_three(
            "sessionId",
            text(session_id.0.as_str()),
            "mode",
            text("queue"),
            "content",
            content_of(s.as_str()),
        ),
        Command::RespondApproval { session_id, approval_id, outcome, .. } => object_of_three(
            "sessionId",
            text(session_id.0.as_str()),
            "approvalId",
            text(approval_id.0.as_str()),
            "outcome",
            text(
                match outcome {
                    ApprovalResponseOutcome::AllowedOnce => "allowed-once",
                    ApprovalResponseOutcome::Rejected => "rejected",
                },
            ),
        ),
        Command::RespondQuestion { session_id, answers, .. } => object_of_two(
            "sessionId",
            text(session_id.0.as_str()),
            "answer",
            answers_of(answers),
        ),
        Command::CancelTurn { session_id } => session_only(session_id.0.as_str()),
        Command::DescribeSettings => object(no_members()),
        Command::UpdateSettings { ns, revision, patch } => object_of_three(
            "ns",
            text(ns.as_str()),
            "patch",
            patch_of(patch),
            "expectedRevision",
            Json::Int(*revision),
        ),
        Command::History { session_id, limit } => object_of_two(
            "sessionId",
            text(session_id.0.as_str()),
            "maxMessages",
            Json::Int(*limit),
        ),
        Command::Models { session_id } => session_only(session_id.0.as_str()),
        Command::UpdateQueue { session_id, item_id, update } => object_of_three(
            "sessionId",
            text(session_id.0.as_str()),
            "itemId",
            text(item_id.as_str()),
            "action",
            update_of(update),
        ),
        Command::ListSkills { session_id } => session_only(session_id.0.as_str()),
        Command::RenameSession { session_id, title } => object_of_two(
            "sessionId",
            text(session_id.0.as_str()),
            "title",
            text(title.as_str()),
        ),
        Command::RenameWorkspace { workspace_id, title } => object_of_two(
            "workspaceId",
            text(workspace_id.0.as_str()),
            "title",
            text(title.as_str()),
        ),
        Command::DeleteWorkspace { workspace_id } => object_of_one(
            "workspaceId",
            text(workspace_id.0.as_str()),
        ),
        Command::CreateWorkspace { path } => object_of_one("path", text(path.as_str())),
        Command::ForkSession { session_id } => session_only(session_id.0.as_str()),
        Command::ArchiveSession { session_id } => session_only(session_id.0.as_str()),
        Command::CreateSession { workspace_id } => match workspace_id {
            Some(id) => object_of_one("workspaceId", text(id.0.as_str())),
            None => object(no_members()),
        },
        Command::Search { query } => object_of_one("query", text(query.as_str())),
        Command::Attachment { session_id, attachment_id } => object_of_two(
            "sessionId",
            text(session_id.0.as_str()),
            "attachmentId",
            text(attachment_id.as_str()),
        ),
    }
}

// ---------------------------------------------------------------------------
// requests from outside the loop
// ---------------------------------------------------------------------------

/// The request for the sessions: its method and its payload.
pub fn session_list() -> (r: (&'static str, Json))
    ensures
        r.0@ == "session.list"@,
        r.1@ == JsonView::Object(Seq::empty()),
{
    ("session.list", object(no_members()))
}

/// The request for the workspaces and the archived sessions: its method and its payload.
pub fn workspace_list() -> (r: (&'static str, Json))
    ensures
        r.0@ == "workspace.list"@,
        r.1@ == JsonView::Object(Seq::empty()),
{
    ("workspace.list", object(no_members()))
}

/// The choice of a model for a session. The effort is left out where none is asked for.
pub open spec fn model_choice(
    session_id: Seq<char>,
    provider: Seq<char>,
    model: Seq<char>,
    effort: Option<Seq<char>>,
) -> JsonView {
    let members = seq![
        ("sessionId"@, JsonView::Str(session_id)),
        ("provider"@, JsonView::Str(provider)),
        ("model"@, JsonView::Str(model)),
    ];
    JsonView::Object(
        match effort {
            Some(effort) => members.push(("reasoningEffort"@, JsonView::Str(effort))),
            None => members,
        },
    )
}

/// The request that chooses the model of a session: its method and its payload.
pub fn session_select_model(
    session_id: &SessionId,
    provider: &str,
    model: &str,
    reasoning_effort: Option<&str>,
) -> (r: (&'static str, Json))
    ensures
        r.0@ == "session.selectModel"@,
        r.1@ == model_choice(
            session_id@,
            provider@,
            model@,
            crate::text::opt_view(reasoning_effort),
        ),
{
    let mut members = no_members();
    put(&mut members, "sessionId", text(session_id.0.as_str()));
    put(&mut members, "provider", text(provider));
    put(&mut members, "model", text(model));
    proof {
        assert(member_views(members@) =~= seq![
            ("sessionId"@, JsonView::Str(session_id@)),
            ("provider"@, JsonView::Str(provider@)),
            ("model"@, JsonView::Str(model@)),
        ]);
    }
    match reasoning_effort {
        Some(effort) => put(&mut members, "reasoningEffort", text(effort)),
        None => {},
    }
    ("session.selectModel", object(members))
}

} // verus!
