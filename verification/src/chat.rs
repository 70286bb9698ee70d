//! The chat endpoint: which requests it takes, and what it answers.
use crate::json::{json_object1, json_text, Json, JsonView};
use crate::number::{decimal, decimal_text};
use crate::orchestrator::{AgentReply, IncomingMessage, MessageView, ReplyView, TurnError};
use crate::text::{as_opt_str, copy_text, opt_str, opt_text, present, trim, trim_present, trimmed};
use vstd::prelude::*;

verus! {

/// The largest body of a request, in bytes.
pub const MAX_REQUEST_BODY_BYTES: usize = 262_144;

pub const MAX_CHAT_TEXT_CHARS: usize = 16_000;

pub const MAX_CHAT_FIELD_CHARS: usize = 128;

#[derive(Debug)]
pub struct ChatRequest {
    pub text: String,
    pub source: Option<String>,
    pub user: Option<String>,
    pub session: Option<String>,
    pub agent_id: Option<String>,
}

#[derive(Debug)]
pub struct ChatResponse {
    pub run_id: String,
    pub agent_id: String,
    pub session: String,
    pub reply: String,
}

/// A request that is refused: the HTTP status, and what is said of it.
#[derive(Debug)]
pub struct Refusal {
    pub status: u16,
    pub error: String,
}

/// What the gateway says of its health.
#[derive(Debug)]
pub struct HealthResponse {
    pub status: String,
    pub uptime_seconds: u64,
    pub slack_enabled: bool,
}

#[verifier::ext_equal]
pub struct ChatRequestView {
    pub text: Seq<char>,
    pub source: Option<Seq<char>>,
    pub user: Option<Seq<char>>,
    pub session: Option<Seq<char>>,
    pub agent_id: Option<Seq<char>>,
}

#[verifier::ext_equal]
pub struct RefusalView {
    pub status: u16,
    pub error: Seq<char>,
}

impl View for ChatRequest {
    type V = ChatRequestView;

    open spec fn view(&self) -> ChatRequestView {
        ChatRequestView {
            text: self.text@,
            source: opt_text(self.source),
            user: opt_text(self.user),
            session: opt_text(self.session),
            agent_id: opt_text(self.agent_id),
        }
    }
}

impl View for ChatResponse {
    type V = ReplyView;

    open spec fn view(&self) -> ReplyView {
        ReplyView {
            run_id: self.run_id@,
            agent_id: self.agent_id@,
            session: self.session@,
            reply: self.reply@,
        }
    }
}

impl View for Refusal {
    type V = RefusalView;

    open spec fn view(&self) -> RefusalView {
        RefusalView { status: self.status, error: self.error@ }
    }
}

/// Whether a text is longer than `limit` characters.
pub fn exceeds_char_limit(value: &str, limit: usize) -> (r: bool)
    ensures
        r == (value@.len() > limit),
{
    value.unicode_len() > limit
}

/// Whether a text is there and is more than white space.
pub fn is_present(value: Option<&str>) -> (r: bool)
    ensures
        r == (present(opt_str(value)) is Some),
{
    trim_present(value).is_some()
}

/// What is said of a field that is too long.
pub open spec fn limit_text(field: Seq<char>, limit: nat) -> Seq<char> {
    field + " must be <= "@ + decimal(limit) + " chars"@
}

fn render_limit(field: &str, limit: u64) -> (r: String)
    ensures
        r@ == limit_text(field@, limit as nat),
{
    let mut out = copy_text(field);
    out.append(" must be <= ");
    out.append(decimal_text(limit).as_str());
    out.append(" chars");
    out
}

/// The source of a message: the one that is given, or else the API.
pub open spec fn source_of(source: Option<Seq<char>>) -> Seq<char> {
    match present(source) {
        Some(s) => s,
        None => "api"@,
    }
}

/// The source of a message, unless it is too long.
pub fn normalize_source(source: Option<String>) -> (r: Result<String, String>)
    ensures
        match r {
            Ok(s) => s@ == source_of(opt_text(source)) && s@.len() <= MAX_CHAT_FIELD_CHARS,
            Err(e) => source_of(opt_text(source)).len() > MAX_CHAT_FIELD_CHARS && e@ == limit_text(
                "source"@,
                MAX_CHAT_FIELD_CHARS as nat,
            ),
        },
{
    let candidate: &str = match trim_present(as_opt_str(&source)) {
        Some(s) => s,
        None => "api",
    };
    if exceeds_char_limit(candidate, MAX_CHAT_FIELD_CHARS) {
        return Err(render_limit("source", 128));
    }
    Ok(copy_text(candidate))
}

/// Whether a field that may be left out is too long.
pub open spec fn field_too_long(value: Option<Seq<char>>) -> bool {
    match present(value) {
        Some(s) => s.len() > MAX_CHAT_FIELD_CHARS,
        None => false,
    }
}

/// A field that may be left out, unless it is too long.
pub fn normalize_optional_chat_field(value: Option<String>, field_name: &str) -> (r: Result<
    Option<String>,
    String,
>)
    ensures
        match r {
            Ok(v) => opt_text(v) == present(opt_text(value)) && !field_too_long(opt_text(value)),
            Err(e) => field_too_long(opt_text(value)) && e@ == limit_text(
                field_name@,
                MAX_CHAT_FIELD_CHARS as nat,
            ),
        },
{
    match trim_present(as_opt_str(&value)) {
        Some(s) => {
            if exceeds_char_limit(s, MAX_CHAT_FIELD_CHARS) {
                Err(render_limit(field_name, 128))
            } else {
                Ok(Some(copy_text(s)))
            }
        },
        None => Ok(None),
    }
}

/// The message of a chat request, or why it is refused: the text first, then the
/// fields in their order.
pub open spec fn chat_message(req: ChatRequestView) -> Result<MessageView, RefusalView> {
    let text = trimmed(req.text);
    let too_long = |field: Seq<char>|
        Err::<MessageView, RefusalView>(
            RefusalView { status: 400, error: limit_text(field, MAX_CHAT_FIELD_CHARS as nat) },
        );
    if text.len() == 0 {
        Err(RefusalView { status: 400, error: "text must not be empty"@ })
    } else if text.len() > MAX_CHAT_TEXT_CHARS {
        Err(RefusalView { status: 413, error: limit_text("text"@, MAX_CHAT_TEXT_CHARS as nat) })
    } else if source_of(req.source).len() > MAX_CHAT_FIELD_CHARS {
        too_long("source"@)
    } else if field_too_long(req.user) {
        too_long("user"@)
    } else if field_too_long(req.session) {
        too_long("session"@)
    } else if field_too_long(req.agent_id) {
        too_long("agent_id"@)
    } else {
        Ok(
            MessageView {
                source: source_of(req.source),
                user: present(req.user),
                session: present(req.session),
                agent_id: present(req.agent_id),
                text,
            },
        )
    }
}

/// The view of a request that was looked at.
pub open spec fn message_result(r: Result<IncomingMessage, Refusal>) -> Result<
    MessageView,
    RefusalView,
> {
    match r {
        Ok(m) => Ok(m@),
        Err(e) => Err(e@),
    }
}

fn bad_request(error: String) -> (r: Refusal)
    ensures
        r@ == (RefusalView { status: 400, error: error@ }),
{
    Refusal { status: 400, error }
}

/// The message of a chat request, or why it is refused.
pub fn read_chat_request(req: ChatRequest) -> (r: Result<IncomingMessage, Refusal>)
    ensures
        message_result(r) == chat_message(req@),
{
    let text = copy_text(trim(req.text.as_str()));
    if text.as_str().is_empty() {
        return Err(bad_request(copy_text("text must not be empty")));
    }
    if exceeds_char_limit(text.as_str(), MAX_CHAT_TEXT_CHARS) {
        return Err(Refusal { status: 413, error: render_limit("text", 16_000) });
    }
    let source = match normalize_source(req.source) {
        Ok(s) => s,
        Err(e) => return Err(bad_request(e)),
    };
    let user = match normalize_optional_chat_field(req.user, "user") {
        Ok(v) => v,
        Err(e) => return Err(bad_request(e)),
    };
    let session = match normalize_optional_chat_field(req.session, "session") {
        Ok(v) => v,
        Err(e) => return Err(bad_request(e)),
    };
    let agent_id = match normalize_optional_chat_field(req.agent_id, "agent_id") {
        Ok(v) => v,
        Err(e) => return Err(bad_request(e)),
    };
    Ok(IncomingMessage { source, user, session, agent_id, text })
}

/// The body that a refusal goes out with.
pub open spec fn error_body(error: Seq<char>) -> JsonView {
    JsonView::Object(seq![("error"@, JsonView::Text(error))])
}

/// The body that a refusal goes out with.
pub fn refusal_body(refusal: &Refusal) -> (r: Json)
    ensures
        r@ == error_body(refusal@.error),
{
    json_object1("error", json_text(refusal.error.as_str()))
}

/// What is answered to a chat request: the reply, or that there is none. Why
/// there is none is not told.
pub fn chat_response(outcome: Result<AgentReply, TurnError>) -> (r: Result<ChatResponse, Refusal>)
    ensures
        match (outcome, r) {
            (Ok(reply), Ok(response)) => response@ == reply@,
            (Err(_), Err(refusal)) => refusal@ == (RefusalView {
                status: 500,
                error: "internal server error"@,
            }),
            _ => false,
        },
{
    match outcome {
        Ok(reply) => Ok(
            ChatResponse {
                run_id: reply.run_id,
                agent_id: reply.agent_id,
                session: reply.session,
                reply: reply.reply,
            },
        ),
        Err(_) => Err(Refusal { status: 500, error: copy_text("internal server error") }),
    }
}

/// What the gateway says of its health.
pub fn health(uptime_seconds: u64, slack_enabled: bool) -> (r: HealthResponse)
    ensures
        r.status@ == "ok"@,
        r.uptime_seconds == uptime_seconds,
        r.slack_enabled == slack_enabled,
{
    HealthResponse { status: copy_text("ok"), uptime_seconds, slack_enabled }
}

// Laws.
/// A message that is taken is within the limits, and names nothing that is only
/// white space.
pub proof fn law_taken_messages_are_bounded(req: ChatRequestView)
    requires
        chat_message(req) is Ok,
    ensures
        ({
            let m = chat_message(req)->Ok_0;
            &&& 0 < m.text.len() <= MAX_CHAT_TEXT_CHARS
            &&& 0 < m.source.len() <= MAX_CHAT_FIELD_CHARS
            &&& m.user matches Some(s) ==> 0 < s.len() <= MAX_CHAT_FIELD_CHARS
            &&& m.session matches Some(s) ==> 0 < s.len() <= MAX_CHAT_FIELD_CHARS
            &&& m.agent_id matches Some(s) ==> 0 < s.len() <= MAX_CHAT_FIELD_CHARS
        }),
{
    reveal_strlit("api");
}

} // verus!
