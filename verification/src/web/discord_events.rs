//! The Discord messages that announce what happened to forms, answers,
//! comments and messages. Internal IDs never appear among the fields; they
//! only make up the link to the portal page.

use vstd::prelude::*;

use crate::text::{
    append_str, chars_of, string_of, trim_trailing_slashes, trim_trailing_slashes_exec,
};

verus! {

/// Who did something.
#[derive(Debug, Clone)]
pub struct ApplicationActor {
    pub display_name: String,
    pub account_id: Option<String>,
}

/// Who answered a form: a known actor, or one whose name the form hides.
#[derive(Debug, Clone)]
pub enum AnswerSubmissionActor {
    Identified(ApplicationActor),
    AuthorHidden,
}

/// A named detail of an event.
#[derive(Debug, Clone)]
pub struct EventDetail {
    pub name: String,
    pub value: String,
}

/// Something that happened in the portal.
#[derive(Debug, Clone)]
pub enum ApplicationEvent {
    FormCreated { actor: ApplicationActor, form_id: String, form_title: String, details: Vec<EventDetail> },
    FormUpdated { actor: ApplicationActor, form_id: String, form_title: String, changes: Vec<EventDetail> },
    FormArchived { actor: ApplicationActor, form_id: String, form_title: String },
    FormRestored { actor: ApplicationActor, form_id: String, form_title: String },
    AnswerSubmitted {
        actor: AnswerSubmissionActor,
        form_id: String,
        form_title: String,
        answer_id: String,
        details: Vec<EventDetail>,
    },
    CommentCreated {
        actor: ApplicationActor,
        form_id: String,
        form_title: String,
        answer_id: String,
        comment_id: String,
        content: String,
    },
    CommentUpdated {
        actor: ApplicationActor,
        form_id: String,
        form_title: String,
        answer_id: String,
        comment_id: String,
        content: String,
    },
    CommentDeleted {
        actor: ApplicationActor,
        form_id: String,
        form_title: String,
        answer_id: String,
        comment_id: String,
        content: String,
    },
    MessageCreated {
        actor: ApplicationActor,
        form_id: String,
        form_title: String,
        answer_id: String,
        message_id: String,
        body: String,
    },
    MessageUpdated {
        actor: ApplicationActor,
        form_id: String,
        form_title: String,
        answer_id: String,
        message_id: String,
        body: String,
    },
    MessageDeleted {
        actor: ApplicationActor,
        form_id: String,
        form_title: String,
        answer_id: String,
        message_id: String,
        body: String,
    },
}

/// A field of a Discord embed.
#[derive(Debug, Clone)]
pub struct DiscordWebhookField {
    pub name: String,
    pub value: String,
    pub inline: bool,
}

/// A message to a Discord webhook.
#[derive(Debug, Clone)]
pub struct DiscordWebhookMessage {
    pub discord_webhook_url: String,
    pub title: String,
    pub link_url: String,
    pub fields: Vec<DiscordWebhookField>,
}

pub type FieldView = (Seq<char>, Seq<char>, bool);

pub open spec fn field_view(f: DiscordWebhookField) -> FieldView {
    (f.name@, f.value@, f.inline)
}

pub open spec fn fields_view(fields: Seq<DiscordWebhookField>) -> Seq<FieldView> {
    fields.map_values(|f: DiscordWebhookField| field_view(f))
}

/// The message as texts: webhook URL, title, link and fields.
pub open spec fn message_view(m: DiscordWebhookMessage) -> (
    Seq<char>,
    Seq<char>,
    Seq<char>,
    Seq<FieldView>,
) {
    (m.discord_webhook_url@, m.title@, m.link_url@, fields_view(m.fields@))
}

/// The name under which an event is logged.
pub open spec fn event_operation(event: ApplicationEvent) -> Seq<char> {
    match event {
        ApplicationEvent::FormCreated { .. } => "form_created"@,
        ApplicationEvent::FormUpdated { .. } => "form_updated"@,
        ApplicationEvent::FormArchived { .. } => "form_archived"@,
        ApplicationEvent::FormRestored { .. } => "form_restored"@,
        ApplicationEvent::AnswerSubmitted { .. } => "answer_submitted"@,
        ApplicationEvent::CommentCreated { .. } => "comment_created"@,
        ApplicationEvent::CommentUpdated { .. } => "comment_updated"@,
        ApplicationEvent::CommentDeleted { .. } => "comment_deleted"@,
        ApplicationEvent::MessageCreated { .. } => "message_created"@,
        ApplicationEvent::MessageUpdated { .. } => "message_updated"@,
        ApplicationEvent::MessageDeleted { .. } => "message_deleted"@,
    }
}

pub fn operation_name(event: &ApplicationEvent) -> (r: &'static str)
    ensures
        r@ == event_operation(*event),
{
    match event {
        ApplicationEvent::FormCreated { .. } => "form_created",
        ApplicationEvent::FormUpdated { .. } => "form_updated",
        ApplicationEvent::FormArchived { .. } => "form_archived",
        ApplicationEvent::FormRestored { .. } => "form_restored",
        ApplicationEvent::AnswerSubmitted { .. } => "answer_submitted",
        ApplicationEvent::CommentCreated { .. } => "comment_created",
        ApplicationEvent::CommentUpdated { .. } => "comment_updated",
        ApplicationEvent::CommentDeleted { .. } => "comment_deleted",
        ApplicationEvent::MessageCreated { .. } => "message_created",
        ApplicationEvent::MessageUpdated { .. } => "message_updated",
        ApplicationEvent::MessageDeleted { .. } => "message_deleted",
    }
}

/// What the title says happened, after the form's name.
pub open spec fn event_suffix(event: ApplicationEvent) -> Seq<char> {
    match event {
        ApplicationEvent::FormCreated { .. } => "が作成されました"@,
        ApplicationEvent::FormUpdated { .. } => "が更新されました"@,
        ApplicationEvent::FormArchived { .. } => "がアーカイブされました"@,
        ApplicationEvent::FormRestored { .. } => "が復元されました"@,
        ApplicationEvent::AnswerSubmitted { .. } => "に回答が投稿されました"@,
        ApplicationEvent::CommentCreated { .. } => "にコメントが投稿されました"@,
        ApplicationEvent::CommentUpdated { .. } => "のコメントが更新されました"@,
        ApplicationEvent::CommentDeleted { .. } => "のコメントが削除されました"@,
        ApplicationEvent::MessageCreated { .. } => "にメッセージが投稿されました"@,
        ApplicationEvent::MessageUpdated { .. } => "のメッセージが更新されました"@,
        ApplicationEvent::MessageDeleted { .. } => "のメッセージが削除されました"@,
    }
}

fn operation_display_name(event: &ApplicationEvent) -> (r: &'static str)
    ensures
        r@ == event_suffix(*event),
{
    match event {
        ApplicationEvent::FormCreated { .. } => "が作成されました",
        ApplicationEvent::FormUpdated { .. } => "が更新されました",
        ApplicationEvent::FormArchived { .. } => "がアーカイブされました",
        ApplicationEvent::FormRestored { .. } => "が復元されました",
        ApplicationEvent::AnswerSubmitted { .. } => "に回答が投稿されました",
        ApplicationEvent::CommentCreated { .. } => "にコメントが投稿されました",
        ApplicationEvent::CommentUpdated { .. } => "のコメントが更新されました",
        ApplicationEvent::CommentDeleted { .. } => "のコメントが削除されました",
        ApplicationEvent::MessageCreated { .. } => "にメッセージが投稿されました",
        ApplicationEvent::MessageUpdated { .. } => "のメッセージが更新されました",
        ApplicationEvent::MessageDeleted { .. } => "のメッセージが削除されました",
    }
}

pub open spec fn actor_fields(actor: ApplicationActor) -> Seq<FieldView> {
    seq![("実行者"@, actor.display_name@, true)]
}

pub open spec fn submission_actor_fields(actor: AnswerSubmissionActor) -> Seq<FieldView> {
    match actor {
        AnswerSubmissionActor::Identified(a) => actor_fields(a),
        AnswerSubmissionActor::AuthorHidden => seq![("回答者"@, "回答者は非公開です"@, false)],
    }
}

pub open spec fn detail_fields(details: Seq<EventDetail>) -> Seq<FieldView> {
    details.map_values(|d: EventDetail| (d.name@, d.value@, false))
}

pub open spec fn content_fields(actor: ApplicationActor, content: String) -> Seq<FieldView> {
    actor_fields(actor) + seq![("内容"@, content@, false)]
}

pub open spec fn form_link(frontend: Seq<char>, form_id: String) -> Seq<char> {
    frontend + "/forms/"@ + form_id@
}

pub open spec fn answer_link(frontend: Seq<char>, form_id: String, answer_id: String) -> Seq<char> {
    frontend + "/forms/"@ + form_id@ + "/answers/"@ + answer_id@
}

/// The form title, the link and the fields of an event's message, with the
/// portal's address `frontend` already without its trailing slashes.
pub open spec fn event_parts(event: ApplicationEvent, frontend: Seq<char>) -> (
    Seq<char>,
    Seq<char>,
    Seq<FieldView>,
) {
    match event {
        ApplicationEvent::FormCreated { actor, form_id, form_title, details } => (
            form_title@,
            form_link(frontend, form_id),
            actor_fields(actor) + detail_fields(details@),
        ),
        ApplicationEvent::FormUpdated { actor, form_id, form_title, changes } => (
            form_title@,
            form_link(frontend, form_id),
            actor_fields(actor) + detail_fields(changes@),
        ),
        ApplicationEvent::FormArchived { actor, form_id, form_title } => (
            form_title@,
            form_link(frontend, form_id),
            actor_fields(actor),
        ),
        ApplicationEvent::FormRestored { actor, form_id, form_title } => (
            form_title@,
            form_link(frontend, form_id),
            actor_fields(actor),
        ),
        ApplicationEvent::AnswerSubmitted { actor, form_id, form_title, answer_id, details } => (
            form_title@,
            answer_link(frontend, form_id, answer_id),
            submission_actor_fields(actor) + detail_fields(details@),
        ),
        ApplicationEvent::CommentCreated { actor, form_id, form_title, answer_id, content, .. } => (
            form_title@,
            answer_link(frontend, form_id, answer_id),
            content_fields(actor, content),
        ),
        ApplicationEvent::CommentUpdated { actor, form_id, form_title, answer_id, content, .. } => (
            form_title@,
            answer_link(frontend, form_id, answer_id),
            content_fields(actor, content),
        ),
        ApplicationEvent::CommentDeleted { actor, form_id, form_title, answer_id, content, .. } => (
            form_title@,
            answer_link(frontend, form_id, answer_id),
            content_fields(actor, content),
        ),
        ApplicationEvent::MessageCreated { actor, form_id, form_title, answer_id, body, .. } => (
            form_title@,
            answer_link(frontend, form_id, answer_id) + "/messages"@,
            content_fields(actor, body),
        ),
        ApplicationEvent::MessageUpdated { actor, form_id, form_title, answer_id, body, .. } => (
            form_title@,
            answer_link(frontend, form_id, answer_id) + "/messages"@,
            content_fields(actor, body),
        ),
        ApplicationEvent::MessageDeleted { actor, form_id, form_title, answer_id, body, .. } => (
            form_title@,
            answer_link(frontend, form_id, answer_id) + "/messages"@,
            content_fields(actor, body),
        ),
    }
}

/// The message for an event: titled `「form title」` and what happened,
/// linking to the form, the answer or the answer's messages.
pub open spec fn event_message(
    event: ApplicationEvent,
    discord_webhook_url: Seq<char>,
    frontend_url: Seq<char>,
) -> (Seq<char>, Seq<char>, Seq<char>, Seq<FieldView>) {
    let (form_title, link, fields) = event_parts(event, trim_trailing_slashes(frontend_url));
    (discord_webhook_url, "「"@ + form_title + "」"@ + event_suffix(event), link, fields)
}

fn text_field(name: &str, value: &str, inline: bool) -> (f: DiscordWebhookField)
    ensures
        field_view(f) == (name@, value@, inline),
{
    DiscordWebhookField {
        name: string_of(&chars_of(name)),
        value: string_of(&chars_of(value)),
        inline,
    }
}

fn push_actor_field(fields: &mut Vec<DiscordWebhookField>, actor: &ApplicationActor)
    ensures
        fields_view(final(fields)@) == fields_view(old(fields)@) + actor_fields(*actor),
{
    let ghost before = fields_view(fields@);
    fields.push(text_field("実行者", actor.display_name.as_str(), true));
    assert(fields_view(fields@) =~= before + actor_fields(*actor));
}

fn push_detail_fields(fields: &mut Vec<DiscordWebhookField>, details: &Vec<EventDetail>)
    ensures
        fields_view(final(fields)@) == fields_view(old(fields)@) + detail_fields(details@),
{
    let ghost start = fields_view(fields@);
    let mut i: usize = 0;
    while i < details.len()
        invariant
            i <= details@.len(),
            fields_view(fields@) == start + detail_fields(details@.subrange(0, i as int)),
        decreases details@.len() - i,
    {
        let ghost before = fields_view(fields@);
        fields.push(text_field(details[i].name.as_str(), details[i].value.as_str(), false));
        assert(fields_view(fields@) =~= before + seq![
            (details@[i as int].name@, details@[i as int].value@, false),
        ]);
        i = i + 1;
        assert(detail_fields(details@.subrange(0, i as int)) =~= detail_fields(
            details@.subrange(0, i - 1),
        ) + seq![(details@[i - 1].name@, details@[i - 1].value@, false)]);
        assert(fields_view(fields@) =~= start + detail_fields(details@.subrange(0, i as int)));
    }
    assert(details@.subrange(0, details@.len() as int) =~= details@);
}

fn push_content_fields(
    fields: &mut Vec<DiscordWebhookField>,
    actor: &ApplicationActor,
    content: &String,
)
    ensures
        fields_view(final(fields)@) == fields_view(old(fields)@) + content_fields(*actor, *content),
{
    let ghost before = fields_view(fields@);
    push_actor_field(fields, actor);
    let ghost middle = fields_view(fields@);
    fields.push(text_field("内容", content.as_str(), false));
    assert(fields_view(fields@) =~= middle + seq![("内容"@, content@, false)]);
    assert(fields_view(fields@) =~= before + content_fields(*actor, *content));
}

fn link_to(frontend: &Vec<char>, form_id: &String, answer_id: Option<&String>, messages: bool) -> (r:
    String)
    ensures
        r@ == match answer_id {
            None => frontend@ + "/forms/"@ + form_id@,
            Some(a) => if messages {
                frontend@ + "/forms/"@ + form_id@ + "/answers/"@ + a@ + "/messages"@
            } else {
                frontend@ + "/forms/"@ + form_id@ + "/answers/"@ + a@
            },
        },
{
    let mut link: Vec<char> = frontend.clone();
    append_str(&mut link, "/forms/");
    append_str(&mut link, form_id.as_str());
    if let Some(a) = answer_id {
        append_str(&mut link, "/answers/");
        append_str(&mut link, a.as_str());
        if messages {
            append_str(&mut link, "/messages");
        }
    }
    string_of(&link)
}

/// The message that announces an event on the webhook at
/// `discord_webhook_url`, linking into the portal at `frontend_url`.
pub fn message_from_event(
    event: ApplicationEvent,
    discord_webhook_url: String,
    frontend_url: &str,
) -> (m: DiscordWebhookMessage)
    ensures
        message_view(m) == event_message(event, discord_webhook_url@, frontend_url@),
{
    let frontend = trim_trailing_slashes_exec(frontend_url);
    let suffix = operation_display_name(&event);
    let mut fields: Vec<DiscordWebhookField> = Vec::new();
    assert(fields_view(fields@) =~= Seq::<FieldView>::empty());
    let (form_title, link_url) = match &event {
        ApplicationEvent::FormCreated { actor, form_id, form_title, details } => {
            push_actor_field(&mut fields, actor);
            push_detail_fields(&mut fields, details);
            (form_title, link_to(&frontend, form_id, None, false))
        },
        ApplicationEvent::FormUpdated { actor, form_id, form_title, changes } => {
            push_actor_field(&mut fields, actor);
            push_detail_fields(&mut fields, changes);
            (form_title, link_to(&frontend, form_id, None, false))
        },
        ApplicationEvent::FormArchived { actor, form_id, form_title } => {
            push_actor_field(&mut fields, actor);
            (form_title, link_to(&frontend, form_id, None, false))
        },
        ApplicationEvent::FormRestored { actor, form_id, form_title } => {
            push_actor_field(&mut fields, actor);
            (form_title, link_to(&frontend, form_id, None, false))
        },
        ApplicationEvent::AnswerSubmitted { actor, form_id, form_title, answer_id, details } => {
            match actor {
                AnswerSubmissionActor::Identified(a) => push_actor_field(&mut fields, a),
                AnswerSubmissionActor::AuthorHidden => {
                    fields.push(text_field("回答者", "回答者は非公開です", false));
                    assert(fields_view(fields@) =~= submission_actor_fields(*actor));
                },
            }
            push_detail_fields(&mut fields, details);
            (form_title, link_to(&frontend, form_id, Some(answer_id), false))
        },
        ApplicationEvent::CommentCreated { actor, form_id, form_title, answer_id, content, .. } => {
            push_content_fields(&mut fields, actor, content);
            (form_title, link_to(&frontend, form_id, Some(answer_id), false))
        },
        ApplicationEvent::CommentUpdated { actor, form_id, form_title, answer_id, content, .. } => {
            push_content_fields(&mut fields, actor, content);
            (form_title, link_to(&frontend, form_id, Some(answer_id), false))
        },
        ApplicationEvent::CommentDeleted { actor, form_id, form_title, answer_id, content, .. } => {
            push_content_fields(&mut fields, actor, content);
            (form_title, link_to(&frontend, form_id, Some(answer_id), false))
        },
        ApplicationEvent::MessageCreated { actor, form_id, form_title, answer_id, body, .. } => {
            push_content_fields(&mut fields, actor, body);
            (form_title, link_to(&frontend, form_id, Some(answer_id), true))
        },
        ApplicationEvent::MessageUpdated { actor, form_id, form_title, answer_id, body, .. } => {
            push_content_fields(&mut fields, actor, body);
            (form_title, link_to(&frontend, form_id, Some(answer_id), true))
        },
        ApplicationEvent::MessageDeleted { actor, form_id, form_title, answer_id, body, .. } => {
            push_content_fields(&mut fields, actor, body);
            (form_title, link_to(&frontend, form_id, Some(answer_id), true))
        },
    };
    let mut title: Vec<char> = chars_of("「");
    append_str(&mut title, form_title.as_str());
    append_str(&mut title, "」");
    append_str(&mut title, suffix);
    let title = string_of(&title);
    proof {
        assert(fields_view(fields@) =~= event_parts(event, frontend@).2);
    }
    DiscordWebhookMessage { discord_webhook_url, title, link_url, fields }
}

/// The names under which internal IDs could be listed; no message field
/// carries one of them unless an event detail is so named.
pub open spec fn internal_id_field_names() -> Seq<Seq<char>> {
    seq!["フォームID"@, "実行者ID"@, "回答ID"@, "コメントID"@, "メッセージID"@]
}

/// Every field of an event's message is the actor, the author's hidden
/// name, the content, or one of the event's details.
pub open spec fn field_from_event(event: ApplicationEvent, name: Seq<char>) -> bool {
    ||| name == "実行者"@
    ||| name == "回答者"@
    ||| name == "内容"@
    ||| match event {
        ApplicationEvent::FormCreated { details, .. } => exists|i: int|
            0 <= i < details@.len() && #[trigger] details@[i].name@ == name,
        ApplicationEvent::FormUpdated { changes, .. } => exists|i: int|
            0 <= i < changes@.len() && #[trigger] changes@[i].name@ == name,
        ApplicationEvent::AnswerSubmitted { details, .. } => exists|i: int|
            0 <= i < details@.len() && #[trigger] details@[i].name@ == name,
        _ => false,
    }
}

/// The fields of a message name the actor, the hidden author, the content or
/// the event's details, never an ID of its own.
pub proof fn lemma_message_fields_come_from_the_event(
    event: ApplicationEvent,
    discord_webhook_url: Seq<char>,
    frontend_url: Seq<char>,
)
    ensures
        forall|k: int|
            0 <= k < event_message(event, discord_webhook_url, frontend_url).3.len()
                ==> field_from_event(
                event,
                #[trigger] event_message(event, discord_webhook_url, frontend_url).3[k].0,
            ),
{
    let fields = event_message(event, discord_webhook_url, frontend_url).3;
    assert forall|k: int| 0 <= k < fields.len() implies field_from_event(
        event,
        #[trigger] fields[k].0,
    ) by {
        match event {
            ApplicationEvent::FormCreated { actor, details, .. } => {
                if k >= 1 {
                    assert(details@[k - 1].name@ == fields[k].0);
                }
            },
            ApplicationEvent::FormUpdated { actor, changes, .. } => {
                if k >= 1 {
                    assert(changes@[k - 1].name@ == fields[k].0);
                }
            },
            ApplicationEvent::AnswerSubmitted { actor, details, .. } => {
                if k >= 1 {
                    assert(details@[k - 1].name@ == fields[k].0);
                }
            },
            _ => {},
        }
    }
}

/// The message of an answer whose author is hidden names no actor: its
/// first field says that the author is hidden, and the others are the
/// answer's details.
pub proof fn lemma_hidden_author_is_not_named(
    form_id: String,
    form_title: String,
    answer_id: String,
    details: Vec<EventDetail>,
    discord_webhook_url: Seq<char>,
    frontend_url: Seq<char>,
)
    ensures
        ({
            let event = ApplicationEvent::AnswerSubmitted {
                actor: AnswerSubmissionActor::AuthorHidden,
                form_id,
                form_title,
                answer_id,
                details,
            };
            event_message(event, discord_webhook_url, frontend_url).3 == seq![
                ("回答者"@, "回答者は非公開です"@, false),
            ] + detail_fields(details@)
        }),
{
}

/// Every message links into the portal at `frontend_url` without its
/// trailing slashes: a form event to the form, an answer or comment event to
/// the answer, and a message event (created, updated or deleted) to the
/// answer's messages.
pub proof fn lemma_message_links(
    event: ApplicationEvent,
    discord_webhook_url: Seq<char>,
    frontend_url: Seq<char>,
)
    ensures
        ({
            let base = trim_trailing_slashes(frontend_url);
            let link = event_message(event, discord_webhook_url, frontend_url).2;
            match event {
                ApplicationEvent::FormCreated { form_id, .. } => link == base + "/forms/"@
                    + form_id@,
                ApplicationEvent::FormUpdated { form_id, .. } => link == base + "/forms/"@
                    + form_id@,
                ApplicationEvent::FormArchived { form_id, .. } => link == base + "/forms/"@
                    + form_id@,
                ApplicationEvent::FormRestored { form_id, .. } => link == base + "/forms/"@
                    + form_id@,
                ApplicationEvent::AnswerSubmitted { form_id, answer_id, .. } => link == base
                    + "/forms/"@ + form_id@ + "/answers/"@ + answer_id@,
                ApplicationEvent::CommentCreated { form_id, answer_id, .. } => link == base
                    + "/forms/"@ + form_id@ + "/answers/"@ + answer_id@,
                ApplicationEvent::CommentUpdated { form_id, answer_id, .. } => link == base
                    + "/forms/"@ + form_id@ + "/answers/"@ + answer_id@,
                ApplicationEvent::CommentDeleted { form_id, answer_id, .. } => link == base
                    + "/forms/"@ + form_id@ + "/answers/"@ + answer_id@,
                ApplicationEvent::MessageCreated { form_id, answer_id, .. } => link == base
                    + "/forms/"@ + form_id@ + "/answers/"@ + answer_id@ + "/messages"@,
                ApplicationEvent::MessageUpdated { form_id, answer_id, .. } => link == base
                    + "/forms/"@ + form_id@ + "/answers/"@ + answer_id@ + "/messages"@,
                ApplicationEvent::MessageDeleted { form_id, answer_id, .. } => link == base
                    + "/forms/"@ + form_id@ + "/answers/"@ + answer_id@ + "/messages"@,
            }
        }),
{
}

/// The portal address without its trailing slashes: it does not end with
/// `/`, and the address is it followed by nothing but slashes.
pub proof fn lemma_trailing_slashes_removed(s: Seq<char>)
    ensures
        trim_trailing_slashes(s).len() <= s.len(),
        trim_trailing_slashes(s) == s.subrange(0, trim_trailing_slashes(s).len() as int),
        trim_trailing_slashes(s).len() == 0 || trim_trailing_slashes(s).last() != '/',
        forall|k: int| trim_trailing_slashes(s).len() <= k < s.len() ==> #[trigger] s[k] == '/',
    decreases s.len(),
{
    if s.len() > 0 && s.last() == '/' {
        lemma_trailing_slashes_removed(s.drop_last());
        let t = trim_trailing_slashes(s);
        assert(t == s.drop_last().subrange(0, t.len() as int));
        assert(t =~= s.subrange(0, t.len() as int));
        assert forall|k: int| t.len() <= k < s.len() implies #[trigger] s[k] == '/' by {
            if k < s.len() - 1 {
                assert(s.drop_last()[k] == s[k]);
            }
        }
    } else {
        assert(s =~= s.subrange(0, s.len() as int));
    }
}

/// Every message goes to the given webhook, is titled with the form's name
/// in 「」 followed by what happened, and a comment or message event ends
/// its fields with the comment's or message's text under "内容".
pub proof fn lemma_message_titles(
    event: ApplicationEvent,
    discord_webhook_url: Seq<char>,
    frontend_url: Seq<char>,
)
    ensures
        event_message(event, discord_webhook_url, frontend_url).0 == discord_webhook_url,
        ({
            let title = event_message(event, discord_webhook_url, frontend_url).1;
            match event {
                ApplicationEvent::FormCreated { form_title, .. } => title == "「"@ + form_title@ + "」"@
                    + "が作成されました"@,
                ApplicationEvent::FormUpdated { form_title, .. } => title == "「"@ + form_title@ + "」"@
                    + "が更新されました"@,
                ApplicationEvent::FormArchived { form_title, .. } => title == "「"@ + form_title@ + "」"@
                    + "がアーカイブされました"@,
                ApplicationEvent::FormRestored { form_title, .. } => title == "「"@ + form_title@ + "」"@
                    + "が復元されました"@,
                ApplicationEvent::AnswerSubmitted { form_title, .. } => title == "「"@ + form_title@ + "」"@
                    + "に回答が投稿されました"@,
                ApplicationEvent::CommentCreated { form_title, .. } => title == "「"@ + form_title@ + "」"@
                    + "にコメントが投稿されました"@,
                ApplicationEvent::CommentUpdated { form_title, .. } => title == "「"@ + form_title@ + "」"@
                    + "のコメントが更新されました"@,
                ApplicationEvent::CommentDeleted { form_title, .. } => title == "「"@ + form_title@ + "」"@
                    + "のコメントが削除されました"@,
                ApplicationEvent::MessageCreated { form_title, .. } => title == "「"@ + form_title@ + "」"@
                    + "にメッセージが投稿されました"@,
                ApplicationEvent::MessageUpdated { form_title, .. } => title == "「"@ + form_title@ + "」"@
                    + "のメッセージが更新されました"@,
                ApplicationEvent::MessageDeleted { form_title, .. } => title == "「"@ + form_title@ + "」"@
                    + "のメッセージが削除されました"@,
            }
        }),
        ({
            let fields = event_message(event, discord_webhook_url, frontend_url).3;
            match event {
                ApplicationEvent::CommentCreated { content, .. } => fields.len() > 0 && fields.last()
                    == ("内容"@, content@, false),
                ApplicationEvent::CommentUpdated { content, .. } => fields.len() > 0 && fields.last()
                    == ("内容"@, content@, false),
                ApplicationEvent::CommentDeleted { content, .. } => fields.len() > 0 && fields.last()
                    == ("内容"@, content@, false),
                ApplicationEvent::MessageCreated { body, .. } => fields.len() > 0 && fields.last()
                    == ("内容"@, body@, false),
                ApplicationEvent::MessageUpdated { body, .. } => fields.len() > 0 && fields.last()
                    == ("内容"@, body@, false),
                ApplicationEvent::MessageDeleted { body, .. } => fields.len() > 0 && fields.last()
                    == ("内容"@, body@, false),
                _ => true,
            }
        }),
{
}

} // verus!
