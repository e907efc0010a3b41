//! What the requests to the gateway carry.

use vstd::prelude::*;

use crate::app::command::{CommandView, QueueUpdateView};
use crate::app::settings::SettingsChangeView;
use crate::app::takeover::QuestionAnswerItemView;
use crate::json::JsonView;
use crate::wire::ApprovalResponseOutcome;

verus! {

proof fn lemma_one(a: Seq<char>, x: JsonView)
    ensures
        JsonView::Object(seq![(a, x)]).get(a) == Some(x),
{
}

proof fn lemma_two(a: Seq<char>, x: JsonView, b: Seq<char>, y: JsonView)
    requires
        a != b,
    ensures
        JsonView::Object(seq![(a, x), (b, y)]).get(a) == Some(x),
        JsonView::Object(seq![(a, x), (b, y)]).get(b) == Some(y),
{
    reveal_with_fuel(crate::json::find_member, 3);
    assert(seq![(a, x), (b, y)].drop_first() =~= seq![(b, y)]);
}

proof fn lemma_three(a: Seq<char>, x: JsonView, b: Seq<char>, y: JsonView, c: Seq<char>, z: JsonView)
    requires
        a != b,
        a != c,
        b != c,
    ensures
        JsonView::Object(seq![(a, x), (b, y), (c, z)]).get(a) == Some(x),
        JsonView::Object(seq![(a, x), (b, y), (c, z)]).get(b) == Some(y),
        JsonView::Object(seq![(a, x), (b, y), (c, z)]).get(c) == Some(z),
{
    reveal_with_fuel(crate::json::find_member, 4);
    assert(seq![(a, x), (b, y), (c, z)].drop_first() =~= seq![(b, y), (c, z)]);
    assert(seq![(b, y), (c, z)].drop_first() =~= seq![(c, z)]);
}

/// The session that a command is for.
pub open spec fn session_of(command: CommandView) -> Option<Seq<char>> {
    match command {
        CommandView::Prompt { session_id, .. } => Some(session_id),
        CommandView::RespondApproval { session_id, .. } => Some(session_id),
        CommandView::RespondQuestion { session_id, .. } => Some(session_id),
        CommandView::CancelTurn { session_id } => Some(session_id),
        CommandView::History { session_id, .. } => Some(session_id),
        CommandView::Models { session_id } => Some(session_id),
        CommandView::UpdateQueue { session_id, .. } => Some(session_id),
        CommandView::ListSkills { session_id } => Some(session_id),
        CommandView::RenameSession { session_id, .. } => Some(session_id),
        CommandView::ForkSession { session_id } => Some(session_id),
        CommandView::ArchiveSession { session_id } => Some(session_id),
        CommandView::Attachment { session_id, .. } => Some(session_id),
        _ => None,
    }
}

/// A command that is for a session names it.
pub proof fn law_session_named(command: CommandView)
    requires
        session_of(command) is Some,
    ensures
        crate::requests::payload_of(command).get_str("sessionId"@) == session_of(command),
{
}

/// A text that is sent is the only content block of what carries it, of kind text.
pub open spec fn carries_text(v: JsonView, text: Seq<char>) -> bool {
    &&& v matches JsonView::Array(blocks)
    &&& blocks.len() == 1
    &&& blocks[0].get_str("type"@) == Some("text"@)
    &&& blocks[0].get_str("text"@) == Some(text)
}

proof fn lemma_text_content(text: Seq<char>)
    ensures
        carries_text(crate::requests::text_content(text), text),
{
    reveal_strlit("type");
    reveal_strlit("text");
    assert("type"@[1] == 'y' && "text"@[1] == 'e');
    lemma_two("type"@, JsonView::Str("text"@), "text"@, JsonView::Str(text));
}

/// A prompt carries its text and is queued.
pub proof fn law_prompt_payload(session_id: Seq<char>, text: Seq<char>)
    ensures
        ({
            let p = crate::requests::payload_of((CommandView::Prompt { session_id, text }));
            &&& p.get_str("sessionId"@) == Some(session_id)
            &&& p.get_str("mode"@) == Some("queue"@)
            &&& p.get("content"@) matches Some(content) && carries_text(content, text)
        }),
{
    reveal_strlit("sessionId");
    reveal_strlit("mode");
    reveal_strlit("content");
    assert("sessionId"@.len() == 9 && "mode"@.len() == 4 && "content"@.len() == 7);
    lemma_text_content(text);
    lemma_three(
        "sessionId"@,
        JsonView::Str(session_id),
        "mode"@,
        JsonView::Str("queue"@),
        "content"@,
        crate::requests::text_content(text),
    );
}

/// An approval is answered with the request it is for and with the decision: allowed once where
/// it was allowed, rejected where it was rejected.
pub proof fn law_approval_payload(command: CommandView)
    requires
        command is RespondApproval,
    ensures
        ({
            let p = crate::requests::payload_of(command);
            &&& p.get_str("sessionId"@) == Some(command->RespondApproval_session_id)
            &&& p.get_str("approvalId"@) == Some(command->RespondApproval_approval_id)
            &&& command->RespondApproval_outcome == ApprovalResponseOutcome::AllowedOnce
                ==> p.get_str("outcome"@) == Some("allowed-once"@)
            &&& command->RespondApproval_outcome == ApprovalResponseOutcome::Rejected ==> p.get_str(
                "outcome"@,
            ) == Some("rejected"@)
        }),
{
    reveal_strlit("sessionId");
    reveal_strlit("approvalId");
    reveal_strlit("outcome");
    assert("sessionId"@.len() == 9 && "approvalId"@.len() == 10 && "outcome"@.len() == 7);
    lemma_three(
        "sessionId"@,
        JsonView::Str(command->RespondApproval_session_id),
        "approvalId"@,
        JsonView::Str(command->RespondApproval_approval_id),
        "outcome"@,
        JsonView::Str(crate::requests::outcome_word(command->RespondApproval_outcome)),
    );
}

/// Questions are answered one by one, in their order, each with its id and all labels that were
/// chosen, in their order.
pub proof fn law_answers_payload(command: CommandView, answers: Seq<QuestionAnswerItemView>)
    requires
        command is RespondQuestion,
        command->RespondQuestion_answers == answers,
    ensures
        ({
            let p = crate::requests::payload_of(command);
            &&& p.get_str("sessionId"@) == Some(command->RespondQuestion_session_id)
            &&& p.get("answer"@) matches Some(answer)
            &&& answer.get("answers"@) matches Some(JsonView::Array(items))
            &&& items.len() == answers.len()
            &&& forall|i: int|
                0 <= i < answers.len() ==> {
                    &&& (#[trigger] items[i]).get_str("id"@) == Some(answers[i].id)
                    &&& items[i].get("selected"@) matches Some(JsonView::Array(labels))
                    &&& labels.len() == answers[i].selected.len()
                    &&& forall|k: int|
                        0 <= k < labels.len() ==> #[trigger] labels[k] == JsonView::Str(
                            answers[i].selected[k],
                        )
                }
        }),
{
    reveal_strlit("sessionId");
    reveal_strlit("answer");
    reveal_strlit("id");
    reveal_strlit("selected");
    assert("sessionId"@.len() == 9 && "answer"@.len() == 6 && "id"@.len() == 2 && "selected"@.len()
        == 8);
    lemma_two(
        "sessionId"@,
        JsonView::Str(command->RespondQuestion_session_id),
        "answer"@,
        crate::requests::answers_payload(answers),
    );
    let items = answers.map_values(
        |a: QuestionAnswerItemView| crate::requests::answer_payload(a),
    );
    assert forall|i: int| 0 <= i < answers.len() implies {
        &&& (#[trigger] items[i]).get_str("id"@) == Some(answers[i].id)
        &&& items[i].get("selected"@) == Some(
            crate::requests::texts_payload(answers[i].selected),
        )
    } by {
        lemma_two(
            "id"@,
            JsonView::Str(answers[i].id),
            "selected"@,
            crate::requests::texts_payload(answers[i].selected),
        );
    }
}

/// A queue item is changed by its id: removed, brought forward, or given another text.
pub proof fn law_queue_payload(session_id: Seq<char>, item_id: Seq<char>, update: QueueUpdateView)
    ensures
        ({
            let p = crate::requests::payload_of(
                (CommandView::UpdateQueue { session_id, item_id, update }),
            );
            &&& p.get_str("sessionId"@) == Some(session_id)
            &&& p.get_str("itemId"@) == Some(item_id)
            &&& p.get("action"@) matches Some(action)
            &&& match update {
                QueueUpdateView::Remove => action.get_str("type"@) == Some("remove"@),
                QueueUpdateView::Steer => action.get_str("type"@) == Some("steer"@),
                QueueUpdateView::Edit { text } => action.get_str("type"@) == Some("edit"@) && (
                action.get("content"@) matches Some(content) && carries_text(content, text)),
            }
        }),
{
    reveal_strlit("sessionId");
    reveal_strlit("itemId");
    reveal_strlit("action");
    reveal_strlit("type");
    reveal_strlit("content");
    assert("sessionId"@.len() == 9 && "itemId"@.len() == 6 && "action"@.len() == 6 && "type"@.len()
        == 4 && "content"@.len() == 7);
    assert("itemId"@[0] == 'i' && "action"@[0] == 'a');
    lemma_three(
        "sessionId"@,
        JsonView::Str(session_id),
        "itemId"@,
        JsonView::Str(item_id),
        "action"@,
        crate::requests::update_payload(update),
    );
    match update {
        QueueUpdateView::Edit { text } => {
            lemma_text_content(text);
            lemma_two(
                "type"@,
                JsonView::Str("edit"@),
                "content"@,
                crate::requests::text_content(text),
            );
        },
        _ => {},
    }
}

/// Settings are changed in their namespace, at the revision they were read at, each changed key
/// with its value and in its order.
pub proof fn law_settings_payload(ns: Seq<char>, revision: i64, patch: Seq<SettingsChangeView>)
    ensures
        ({
            let p = crate::requests::payload_of(
                (CommandView::UpdateSettings { ns, revision, patch }),
            );
            &&& p.get_str("ns"@) == Some(ns)
            &&& p.get_i64("expectedRevision"@) == Some(revision)
            &&& p.get("patch"@) matches Some(JsonView::Object(members))
            &&& members.len() == patch.len()
            &&& forall|i: int|
                0 <= i < patch.len() ==> (#[trigger] members[i]) == (patch[i].key, patch[i].value)
        }),
{
    reveal_strlit("ns");
    reveal_strlit("patch");
    reveal_strlit("expectedRevision");
    assert("ns"@.len() == 2 && "patch"@.len() == 5 && "expectedRevision"@.len() == 16);
    lemma_three(
        "ns"@,
        JsonView::Str(ns),
        "patch"@,
        crate::requests::patch_payload(patch),
        "expectedRevision"@,
        JsonView::Int(revision),
    );
}

/// What a request is about stands in it: the title of a session or a workspace that is renamed,
/// the path of a workspace that is made, the workspace that is renamed, deleted or given a new
/// session, what is searched for, which attachment is asked for, and how much history.
pub proof fn law_plain_payloads(
    session_id: Seq<char>,
    workspace_id: Seq<char>,
    text: Seq<char>,
    limit: i64,
)
    ensures
        crate::requests::payload_of(
            (CommandView::RenameSession { session_id, title: text }),
        ).get_str("title"@) == Some(text),
        ({
            let p = crate::requests::payload_of(
                (CommandView::RenameWorkspace { workspace_id, title: text }),
            );
            p.get_str("workspaceId"@) == Some(workspace_id) && p.get_str("title"@) == Some(text)
        }),
        crate::requests::payload_of((CommandView::DeleteWorkspace { workspace_id })).get_str(
            "workspaceId"@,
        ) == Some(workspace_id),
        crate::requests::payload_of((CommandView::CreateWorkspace { path: text })).get_str("path"@)
            == Some(text),
        crate::requests::payload_of(
            (CommandView::CreateSession { workspace_id: Some(workspace_id) }),
        ).get_str("workspaceId"@) == Some(workspace_id),
        crate::requests::payload_of((CommandView::CreateSession { workspace_id: None })).get(
            "workspaceId"@,
        ) is None,
        crate::requests::payload_of((CommandView::Search { query: text })).get_str("query"@)
            == Some(text),
        crate::requests::payload_of(
            (CommandView::Attachment { session_id, attachment_id: text }),
        ).get_str("attachmentId"@) == Some(text),
        crate::requests::payload_of((CommandView::History { session_id, limit })).get_i64(
            "maxMessages"@,
        ) == Some(limit),
{
    reveal_strlit("sessionId");
    reveal_strlit("workspaceId");
    reveal_strlit("title");
    reveal_strlit("attachmentId");
    reveal_strlit("maxMessages");
    assert("sessionId"@.len() == 9 && "workspaceId"@.len() == 11 && "title"@.len() == 5
        && "attachmentId"@.len() == 12 && "maxMessages"@.len() == 11);
    lemma_two("sessionId"@, JsonView::Str(session_id), "title"@, JsonView::Str(text));
    lemma_two("workspaceId"@, JsonView::Str(workspace_id), "title"@, JsonView::Str(text));
    lemma_two("sessionId"@, JsonView::Str(session_id), "attachmentId"@, JsonView::Str(text));
    lemma_two("sessionId"@, JsonView::Str(session_id), "maxMessages"@, JsonView::Int(limit));
}

/// The choice of a model names the session, the provider and the model, and the effort where
/// there is one.
pub proof fn law_model_choice(
    session_id: Seq<char>,
    provider: Seq<char>,
    model: Seq<char>,
    effort: Option<Seq<char>>,
)
    ensures
        ({
            let p = crate::requests::model_choice(session_id, provider, model, effort);
            &&& p.get_str("sessionId"@) == Some(session_id)
            &&& p.get_str("provider"@) == Some(provider)
            &&& p.get_str("model"@) == Some(model)
            &&& p.get_str("reasoningEffort"@) == effort
        }),
{
    reveal_strlit("sessionId");
    reveal_strlit("provider");
    reveal_strlit("model");
    reveal_strlit("reasoningEffort");
    assert("sessionId"@.len() == 9 && "provider"@.len() == 8 && "model"@.len() == 5
        && "reasoningEffort"@.len() == 15);
    let a = ("sessionId"@, JsonView::Str(session_id));
    let b = ("provider"@, JsonView::Str(provider));
    let c = ("model"@, JsonView::Str(model));
    let base = seq![a, b, c];
    reveal_with_fuel(crate::json::find_member, 5);
    match effort {
        Some(e) => {
            let d = ("reasoningEffort"@, JsonView::Str(e));
            let all = base.push(d);
            assert(all.drop_first() =~= seq![b, c, d]);
            assert(seq![b, c, d].drop_first() =~= seq![c, d]);
            assert(seq![c, d].drop_first() =~= seq![d]);
        },
        None => {
            assert(base.drop_first() =~= seq![b, c]);
            assert(seq![b, c].drop_first() =~= seq![c]);
            assert(seq![c].drop_first() =~= Seq::empty());
        },
    }
}

/// Both kinds of answers go the same way; every other request has a method of its own, which
/// names what the request is about.
pub proof fn law_methods(command: CommandView)
    ensures
        ({
            let method = crate::requests::method_of(command);
            &&& command is RespondApproval || command is RespondQuestion <==> method == "respond"@
            &&& command is Prompt <==> method == "session.prompt"@
            &&& command is CancelTurn <==> method == "session.cancel"@
            &&& command is DescribeSettings <==> method == "settings.describe"@
            &&& command is UpdateSettings <==> method == "settings.update"@
            &&& command is History <==> method == "session.history"@
            &&& command is Models <==> method == "session.models"@
            &&& command is UpdateQueue <==> method == "session.updateQueue"@
            &&& command is ListSkills <==> method == "skill.list"@
            &&& command is RenameSession <==> method == "session.rename"@
            &&& command is RenameWorkspace <==> method == "workspace.rename"@
            &&& command is DeleteWorkspace <==> method == "workspace.delete"@
            &&& command is CreateWorkspace <==> method == "workspace.create"@
            &&& command is ForkSession <==> method == "session.fork"@
            &&& command is ArchiveSession <==> method == "workspace.archiveSession"@
            &&& command is CreateSession <==> method == "session.create"@
            &&& command is Search <==> method == "session.search"@
            &&& command is Attachment <==> method == "session.attachment"@
        }),
{
    reveal_strlit("respond");
    reveal_strlit("session.prompt");
    reveal_strlit("session.cancel");
    reveal_strlit("settings.describe");
    reveal_strlit("settings.update");
    reveal_strlit("session.history");
    reveal_strlit("session.models");
    reveal_strlit("session.updateQueue");
    reveal_strlit("skill.list");
    reveal_strlit("session.rename");
    reveal_strlit("workspace.rename");
    reveal_strlit("workspace.delete");
    reveal_strlit("workspace.create");
    reveal_strlit("session.fork");
    reveal_strlit("workspace.archiveSession");
    reveal_strlit("session.create");
    reveal_strlit("session.search");
    reveal_strlit("session.attachment");
    let p = "session.prompt"@;
    let c = "session.cancel"@;
    let m = "session.models"@;
    let r = "session.rename"@;
    let k = "session.create"@;
    let f = "session.search"@;
    assert(p[8] == 'p' && c[8] == 'c' && m[8] == 'm' && r[8] == 'r' && k[8] == 'c' && f[8] == 's');
    assert(c[9] == 'a' && k[9] == 'r');
    assert("session.history"@[8] == 'h' && "settings.update"@[8] == '.');
    assert("workspace.rename"@[10] == 'r' && "workspace.delete"@[10] == 'd'
        && "workspace.create"@[10] == 'c');
    assert("respond"@.len() == 7 && "skill.list"@.len() == 10 && "session.fork"@.len() == 12);
    assert("settings.describe"@.len() == 17 && "session.updateQueue"@.len() == 19
        && "workspace.archiveSession"@.len() == 24 && "session.attachment"@.len() == 18);
}

} // verus!
