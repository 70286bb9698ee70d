//! Slack: what it is set up with, which requests are from it, and which of its
//! events are messages for the orchestrator.
use crate::chat::{error_body, is_present, refusal_body, Refusal, RefusalView};
use crate::config::{SlackConfig, SlackMode, SlackView};
use crate::json::{json_object1, json_text, Json, JsonView};
use crate::number::{parse_i64, signed_value};
use crate::outside::{
    hex_bytes, hex_decode, hmac_sha256, hmac_sha256_verify, is_hex, json_of_bytes,
    json_of_value, text_from_utf8_lossy, utc_now, utf8_lossy, value_of_bytes,
};
use crate::orchestrator::{IncomingMessage, MessageView};
use crate::text::{
    after_prefix, as_opt_str, contains, contains_text, copy_opt, copy_text, has_prefix, opt_str,
    opt_text, present, replace, replaced, same_text, starts_with, strip_prefix, trim, trimmed,
};
use vstd::prelude::*;
use vstd::utf8::encode_utf8;

verus! {

// Setting up.
/// What the gateway knows of Slack.
#[derive(Debug)]
pub struct SlackRuntime {
    pub enabled: bool,
    pub mode: SlackMode,
    pub bot_token: Option<String>,
    pub app_token: Option<String>,
    pub signing_secret: Option<String>,
    pub bot_user_id: Option<String>,
    pub default_channel: Option<String>,
}

impl View for SlackRuntime {
    type V = SlackView;

    open spec fn view(&self) -> SlackView {
        SlackView {
            enabled: self.enabled,
            mode: self.mode,
            bot_token: opt_text(self.bot_token),
            signing_secret: opt_text(self.signing_secret),
            app_token: opt_text(self.app_token),
            default_channel: opt_text(self.default_channel),
            bot_user_id: opt_text(self.bot_user_id),
        }
    }
}

/// What a configuration says of Slack.
pub fn slack_runtime(slack: &SlackConfig) -> (r: SlackRuntime)
    ensures
        r@ == slack@,
{
    SlackRuntime {
        enabled: slack.enabled,
        mode: slack.mode,
        bot_token: copy_opt(&slack.bot_token),
        app_token: copy_opt(&slack.app_token),
        signing_secret: copy_opt(&slack.signing_secret),
        bot_user_id: copy_opt(&slack.bot_user_id),
        default_channel: copy_opt(&slack.default_channel),
    }
}

/// What is missing for Slack to work.
#[derive(Clone, Copy, Debug, PartialEq, Eq, Structural)]
pub enum SlackSetupError {
    NoBotToken,
    NoSigningSecret,
    NoAppToken,
}

impl SlackSetupError {
    /// What is said of what is missing.
    pub open spec fn text(self) -> Seq<char> {
        match self {
            SlackSetupError::NoBotToken =>
                "slack.enabled requires slack.bot_token for outbound replies"@,
            SlackSetupError::NoSigningSecret =>
                "slack.enabled with events_api mode requires slack.signing_secret"@,
            SlackSetupError::NoAppToken =>
                "slack.enabled with socket mode requires slack.app_token"@,
        }
    }

    /// What is said of what is missing.
    pub fn message(&self) -> (r: String)
        ensures
            r@ == self.text(),
    {
        match self {
            SlackSetupError::NoBotToken => copy_text(
                "slack.enabled requires slack.bot_token for outbound replies",
            ),
            SlackSetupError::NoSigningSecret => copy_text(
                "slack.enabled with events_api mode requires slack.signing_secret",
            ),
            SlackSetupError::NoAppToken => copy_text(
                "slack.enabled with socket mode requires slack.app_token",
            ),
        }
    }
}

/// What is missing for Slack to work: a token to reply with, and what the mode
/// takes to hear from it.
pub open spec fn setup_error(slack: SlackView) -> Option<SlackSetupError> {
    if !slack.enabled {
        None
    } else if present(slack.bot_token) is None {
        Some(SlackSetupError::NoBotToken)
    } else {
        match slack.mode {
            SlackMode::EventsApi => if present(slack.signing_secret) is None {
                Some(SlackSetupError::NoSigningSecret)
            } else {
                None
            },
            SlackMode::Socket => if present(slack.app_token) is None {
                Some(SlackSetupError::NoAppToken)
            } else {
                None
            },
        }
    }
}

/// Whether Slack can work as it is set up.
pub fn validate_slack_runtime(slack: &SlackRuntime) -> (r: Result<(), SlackSetupError>)
    ensures
        match r {
            Ok(_) => setup_error(slack@) is None,
            Err(e) => setup_error(slack@) == Some(e),
        },
{
    if !slack.enabled {
        return Ok(());
    }
    if !is_present(as_opt_str(&slack.bot_token)) {
        return Err(SlackSetupError::NoBotToken);
    }
    match slack.mode {
        SlackMode::EventsApi => {
            if !is_present(as_opt_str(&slack.signing_secret)) {
                return Err(SlackSetupError::NoSigningSecret);
            }
        },
        SlackMode::Socket => {
            if !is_present(as_opt_str(&slack.app_token)) {
                return Err(SlackSetupError::NoAppToken);
            }
        },
    }
    Ok(())
}

/// The token to ask Slack with who the bot is, where that is to be asked.
pub fn bot_user_id_token(slack: &SlackRuntime) -> (r: Option<&str>)
    ensures
        opt_str(r) == (if slack@.enabled && slack@.bot_user_id is None {
            slack@.bot_token
        } else {
            None
        }),
{
    if slack.enabled && slack.bot_user_id.is_none() {
        as_opt_str(&slack.bot_token)
    } else {
        None
    }
}

/// Whether events are to be taken from a socket.
pub fn listens_on_socket(slack: &SlackRuntime) -> (r: bool)
    ensures
        r == (slack@.enabled && slack@.mode == SlackMode::Socket),
{
    slack.enabled && slack.mode == SlackMode::Socket
}

// Signatures.
/// The headers that a request of Slack is signed with, as far as they are text.
#[derive(Debug)]
pub struct SlackHeaders {
    pub signature: Option<String>,
    pub timestamp: Option<String>,
}

#[verifier::ext_equal]
pub struct SlackHeadersView {
    pub signature: Option<Seq<char>>,
    pub timestamp: Option<Seq<char>>,
}

impl View for SlackHeaders {
    type V = SlackHeadersView;

    open spec fn view(&self) -> SlackHeadersView {
        SlackHeadersView {
            signature: opt_text(self.signature),
            timestamp: opt_text(self.timestamp),
        }
    }
}

/// What a request says it is signed with, and the text that was signed.
#[derive(Debug)]
pub struct SlackSignature {
    pub digest: Vec<u8>,
    pub payload: String,
}

/// How many seconds a request may be old, or ahead.
pub const MAX_SIGNATURE_AGE_SECS: i64 = 300;

/// The signature of a request with a body, at a time: a digest in hexadecimal
/// behind `v0=`, and a time in seconds that is not too far from `now`. Both the
/// time and the body were signed.
pub open spec fn claimed_signature(headers: SlackHeadersView, body: Seq<char>, now: int) -> Option<
    (Seq<u8>, Seq<char>),
> {
    match (headers.signature, headers.timestamp) {
        (Some(signature), Some(timestamp)) => match (
            after_prefix(signature, "v0="@),
            signed_value(timestamp),
        ) {
            (Some(digits), Some(ts)) => if is_hex(digits) && i64::MIN <= ts <= i64::MAX
                && -MAX_SIGNATURE_AGE_SECS <= now - ts <= MAX_SIGNATURE_AGE_SECS {
                Some((hex_bytes(digits), "v0:"@ + timestamp + ":"@ + body))
            } else {
                None
            },
            _ => None,
        },
        _ => None,
    }
}

/// The signature of a request with a body, at a time.
pub fn read_slack_signature(headers: &SlackHeaders, body: &str, now: i64) -> (r: Option<
    SlackSignature,
>)
    ensures
        match r {
            Some(s) => claimed_signature(headers@, body@, now as int) == Some(
                (s.digest@, s.payload@),
            ),
            None => claimed_signature(headers@, body@, now as int) is None,
        },
{
    let (signature, timestamp) = match (&headers.signature, &headers.timestamp) {
        (Some(signature), Some(timestamp)) => (signature.as_str(), timestamp.as_str()),
        _ => return None,
    };
    let digest = match strip_prefix(signature, "v0=") {
        Some(digits) => match hex_decode(digits) {
            Ok(bytes) => bytes,
            Err(_) => return None,
        },
        None => return None,
    };
    let ts: i64 = match parse_i64(timestamp) {
        Some(ts) => ts,
        None => return None,
    };
    let age: i128 = now as i128 - ts as i128;
    if age > MAX_SIGNATURE_AGE_SECS as i128 || age < -(MAX_SIGNATURE_AGE_SECS as i128) {
        return None;
    }
    let mut payload = copy_text("v0:");
    payload.append(timestamp);
    payload.append(":");
    payload.append(body);
    Some(SlackSignature { digest, payload })
}

/// Whether a request was signed with a secret, at a time.
pub open spec fn signed_by(
    secret: Seq<char>,
    headers: SlackHeadersView,
    body: Seq<u8>,
    now: int,
) -> bool {
    match claimed_signature(headers, utf8_lossy(body), now) {
        Some((digest, payload)) => digest == hmac_sha256(encode_utf8(secret), encode_utf8(payload)),
        None => false,
    }
}

/// Whether a request was signed with a secret, at a time.
pub fn verify_slack_signature_at(secret: &str, headers: &SlackHeaders, body: &[u8], now: i64) -> (r:
    bool)
    ensures
        r == signed_by(secret@, headers@, body@, now as int),
{
    let text = text_from_utf8_lossy(body);
    match read_slack_signature(headers, text.as_str(), now) {
        Some(s) => hmac_sha256_verify(
            secret.as_bytes(),
            s.payload.as_str().as_bytes(),
            s.digest.as_slice(),
        ),
        None => false,
    }
}

/// Whether a request was signed with a secret, and lately.
pub fn verify_slack_signature(secret: &str, headers: &SlackHeaders, body: &[u8]) -> (r: bool)
    ensures
        exists|now: int| now >= 0 && r == #[trigger] signed_by(secret@, headers@, body@, now),
{
    let now = utc_now();
    verify_slack_signature_at(secret, headers, body, now.secs)
}

// Requests.
/// What is answered to a request of Slack.
#[derive(Debug)]
pub enum SlackAnswer {
    /// It is refused.
    Refused(Refusal),
    /// The challenge is sent back.
    Challenge(String),
    /// It is taken; where it holds an event, this is to be looked at.
    Taken(Option<Json>),
}

pub enum SlackAnswerView {
    Refused(RefusalView),
    Challenge(Seq<char>),
    Taken(Option<JsonView>),
}

/// The view of a value that may be missing.
pub open spec fn json_option(o: Option<Json>) -> Option<JsonView> {
    match o {
        Some(v) => Some(v@),
        None => None,
    }
}

impl View for SlackAnswer {
    type V = SlackAnswerView;

    open spec fn view(&self) -> SlackAnswerView {
        match self {
            SlackAnswer::Refused(r) => SlackAnswerView::Refused(r@),
            SlackAnswer::Challenge(s) => SlackAnswerView::Challenge(s@),
            SlackAnswer::Taken(v) => SlackAnswerView::Taken(json_option(*v)),
        }
    }
}

/// A text under a key, or an empty one where there is none.
pub open spec fn text_or_empty(value: JsonView, key: Seq<char>) -> Seq<char> {
    match value.text_at(key) {
        Some(s) => s,
        None => seq![],
    }
}

fn read_text_or_empty<'a>(value: &'a Json, key: &str) -> (r: String)
    ensures
        r@ == text_or_empty(value@, key@),
{
    match value.text_at(key) {
        Some(s) => copy_text(s),
        None => String::new(),
    }
}

/// What is answered to a request of Slack with a payload.
pub open spec fn payload_answer(payload: JsonView) -> SlackAnswerView {
    let kind = text_or_empty(payload, "type"@);
    if kind == "url_verification"@ {
        SlackAnswerView::Challenge(text_or_empty(payload, "challenge"@))
    } else if kind == "event_callback"@ {
        SlackAnswerView::Taken(Some(payload))
    } else {
        SlackAnswerView::Taken(None)
    }
}

/// What is answered to a request of Slack with a payload.
pub fn answer_payload(payload: Json) -> (r: SlackAnswer)
    ensures
        r@ == payload_answer(payload@),
{
    let kind = read_text_or_empty(&payload, "type");
    if same_text(kind.as_str(), "url_verification") {
        return SlackAnswer::Challenge(read_text_or_empty(&payload, "challenge"));
    }
    if same_text(kind.as_str(), "event_callback") {
        return SlackAnswer::Taken(Some(payload));
    }
    SlackAnswer::Taken(None)
}

/// Why a request of Slack is refused before its body is looked at: Slack is off,
/// is heard on a socket or has no secret, or the request is not signed.
pub open spec fn request_refusal(slack: SlackView, signed: bool) -> Option<RefusalView> {
    if !slack.enabled {
        Some(RefusalView { status: 404, error: "slack integration disabled"@ })
    } else if slack.mode == SlackMode::Socket {
        Some(
            RefusalView {
                status: 404,
                error: "slack socket mode enabled; webhook endpoint disabled"@,
            },
        )
    } else if slack.signing_secret is None {
        Some(RefusalView { status: 500, error: "slack signing secret is not configured"@ })
    } else if !signed {
        Some(RefusalView { status: 401, error: "invalid slack signature"@ })
    } else {
        None
    }
}

/// The view of a refusal that may be missing.
pub open spec fn refusal_option(r: Option<Refusal>) -> Option<RefusalView> {
    match r {
        Some(refusal) => Some(refusal@),
        None => None,
    }
}

/// Why a request of Slack is refused before its body is looked at.
pub fn refuse_slack_request(slack: &SlackRuntime, signed: bool) -> (r: Option<Refusal>)
    ensures
        refusal_option(r) == request_refusal(slack@, signed),
{
    let (status, error): (u16, &str) = if !slack.enabled {
        (404, "slack integration disabled")
    } else if slack.mode == SlackMode::Socket {
        (404, "slack socket mode enabled; webhook endpoint disabled")
    } else if slack.signing_secret.is_none() {
        (500, "slack signing secret is not configured")
    } else if !signed {
        (401, "invalid slack signature")
    } else {
        return None;
    };
    Some(Refusal { status, error: copy_text(error) })
}

/// What is answered to a body that was read, or that could not be.
pub open spec fn body_answer(read: Result<JsonView, Seq<char>>) -> SlackAnswerView {
    match read {
        Ok(payload) => payload_answer(payload),
        Err(complaint) => SlackAnswerView::Refused(
            RefusalView { status: 400, error: "invalid json: "@ + complaint },
        ),
    }
}

/// The view of a body that was read, or that could not be.
pub open spec fn read_view(read: Result<Json, String>) -> Result<JsonView, Seq<char>> {
    match read {
        Ok(payload) => Ok(payload@),
        Err(complaint) => Err(complaint@),
    }
}

/// What is answered to a body that was read, or that could not be.
pub fn answer_body_read(read: Result<Json, String>) -> (r: SlackAnswer)
    ensures
        r@ == body_answer(read_view(read)),
{
    match read {
        Ok(payload) => answer_payload(payload),
        Err(complaint) => {
            let mut error = copy_text("invalid json: ");
            error.append(complaint.as_str());
            SlackAnswer::Refused(Refusal { status: 400, error })
        },
    }
}

/// What is answered to a request of Slack, at a time. Nothing in its body counts
/// before its signature does.
pub open spec fn events_answer(
    slack: SlackView,
    headers: SlackHeadersView,
    body: Seq<u8>,
    now: int,
) -> SlackAnswerView {
    let signed = match slack.signing_secret {
        Some(secret) => signed_by(secret, headers, body, now),
        None => false,
    };
    match request_refusal(slack, signed) {
        Some(refusal) => SlackAnswerView::Refused(refusal),
        None => body_answer(json_of_bytes(body)),
    }
}

/// What is answered to a request of Slack, at a time.
pub fn slack_events_at(slack: &SlackRuntime, headers: &SlackHeaders, body: &[u8], now: i64) -> (r:
    SlackAnswer)
    ensures
        r@ == events_answer(slack@, headers@, body@, now as int),
{
    let signed = match &slack.signing_secret {
        Some(secret) => verify_slack_signature_at(secret.as_str(), headers, body, now),
        None => false,
    };
    if let Some(refusal) = refuse_slack_request(slack, signed) {
        return SlackAnswer::Refused(refusal);
    }
    let read: Result<Json, String> = match value_of_bytes(body) {
        Ok(value) => Ok(json_of_value(&value)),
        Err(complaint) => Err(complaint),
    };
    answer_body_read(read)
}

/// What is answered to a request of Slack.
pub fn slack_events(slack: &SlackRuntime, headers: &SlackHeaders, body: &[u8]) -> (r: SlackAnswer)
    ensures
        exists|now: int| now >= 0 && r@ == #[trigger] events_answer(slack@, headers@, body@, now),
{
    let now = utc_now();
    slack_events_at(slack, headers, body, now.secs)
}

/// The body that an answer goes out with.
pub open spec fn answer_body(answer: SlackAnswerView) -> (u16, JsonView) {
    match answer {
        SlackAnswerView::Refused(r) => (r.status, error_body(r.error)),
        SlackAnswerView::Challenge(s) => (
            200,
            JsonView::Object(seq![("challenge"@, JsonView::Text(s))]),
        ),
        SlackAnswerView::Taken(_) => (200, JsonView::Object(seq![("ok"@, JsonView::Bool(true))])),
    }
}

/// The status and the body that an answer goes out with.
pub fn render_answer(answer: &SlackAnswer) -> (r: (u16, Json))
    ensures
        (r.0, r.1@) == answer_body(answer@),
{
    match answer {
        SlackAnswer::Refused(refusal) => (refusal.status, refusal_body(refusal)),
        SlackAnswer::Challenge(s) => (200, json_object1("challenge", json_text(s.as_str()))),
        SlackAnswer::Taken(_) => (200, json_object1("ok", Json::Bool(true))),
    }
}

// Events.
/// What stands in a text where the bot is mentioned.
pub open spec fn mention(bot_user_id: Seq<char>) -> Seq<char> {
    "<@"@ + bot_user_id + ">"@
}

fn render_mention(bot_user_id: &str) -> (r: String)
    ensures
        r@ == mention(bot_user_id@),
        r@.len() > 0,
{
    proof {
        reveal_strlit("<@");
    }
    let mut out = copy_text("<@");
    out.append(bot_user_id);
    out.append(">");
    out
}

/// Whether a message in a channel is not for the bot: one that is not an explicit
/// mention, in a channel of many, without the bot's name in it.
pub open spec fn ignored(
    slack: SlackView,
    channel: Seq<char>,
    kind: Seq<char>,
    text: Seq<char>,
) -> bool {
    kind != "app_mention"@ && (has_prefix(channel, "C"@) || has_prefix(channel, "G"@)) && (
    match slack.bot_user_id {
        Some(id) => !contains_text(text, mention(id)),
        None => false,
    })
}

/// Whether a message in a channel is not for the bot.
pub fn should_ignore_channel_message(
    slack: &SlackRuntime,
    channel: &str,
    event_kind: &str,
    text: &str,
) -> (r: bool)
    ensures
        r == ignored(slack@, channel@, event_kind@, text@),
{
    if same_text(event_kind, "app_mention") {
        return false;
    }
    if !(starts_with(channel, "C") || starts_with(channel, "G")) {
        return false;
    }
    match &slack.bot_user_id {
        Some(id) => !contains(text, render_mention(id.as_str()).as_str()),
        None => false,
    }
}

/// A text without the mentions of the bot.
pub open spec fn without_mention(slack: SlackView, text: Seq<char>) -> Seq<char> {
    match slack.bot_user_id {
        Some(id) => trimmed(replaced(text, mention(id), seq![])),
        None => text,
    }
}

/// A text without the mentions of the bot.
pub fn clean_slack_mention(slack: &SlackRuntime, text: &str) -> (r: String)
    ensures
        r@ == without_mention(slack@, text@),
{
    match &slack.bot_user_id {
        Some(id) => {
            let empty = String::new();
            assert(empty@ =~= seq![]);
            let rest = replace(text, render_mention(id.as_str()).as_str(), empty.as_str());
            copy_text(trim(rest.as_str()))
        },
        None => copy_text(text),
    }
}

/// A message that an event holds.
#[derive(Debug)]
pub struct SlackMessage {
    pub channel: String,
    pub user: Option<String>,
    pub thread_ts: Option<String>,
    pub session: String,
    pub text: String,
}

#[verifier::ext_equal]
pub struct SlackMessageView {
    pub channel: Seq<char>,
    pub user: Option<Seq<char>>,
    pub thread_ts: Option<Seq<char>>,
    pub session: Seq<char>,
    pub text: Seq<char>,
}

impl View for SlackMessage {
    type V = SlackMessageView;

    open spec fn view(&self) -> SlackMessageView {
        SlackMessageView {
            channel: self.channel@,
            user: opt_text(self.user),
            thread_ts: opt_text(self.thread_ts),
            session: self.session@,
            text: self.text@,
        }
    }
}

/// The event in a payload.
pub open spec fn event_of(payload: JsonView) -> JsonView {
    match payload.get("event"@) {
        Some(event) => event,
        None => JsonView::Null,
    }
}

/// The thread of an event: the one that it is in, or the one that it starts.
pub open spec fn thread_of(event: JsonView) -> Option<Seq<char>> {
    match event.text_at("thread_ts"@) {
        Some(ts) => Some(ts),
        None => event.text_at("ts"@),
    }
}

/// The session of a thread in a channel.
pub open spec fn slack_session(channel: Seq<char>, thread_ts: Option<Seq<char>>) -> Seq<char> {
    "slack:"@ + channel + ":"@ + (match thread_ts {
        Some(ts) => ts,
        None => "root"@,
    })
}

/// The message that an event holds, where it holds one for the bot: a mention or
/// a message of a person, with a channel and a text.
pub open spec fn event_message(slack: SlackView, event: JsonView) -> Option<SlackMessageView> {
    let kind = text_or_empty(event, "type"@);
    let channel = text_or_empty(event, "channel"@);
    let text = text_or_empty(event, "text"@);
    let edited = match event.text_at("subtype"@) {
        Some(subtype) => subtype != "thread_broadcast"@,
        None => false,
    };
    if (kind != "app_mention"@ && kind != "message"@) || event.get("bot_id"@) is Some || edited
        || channel.len() == 0 || trimmed(text).len() == 0 || ignored(slack, channel, kind, text) {
        None
    } else {
        Some(
            SlackMessageView {
                channel,
                user: event.text_at("user"@),
                thread_ts: thread_of(event),
                session: slack_session(channel, thread_of(event)),
                text: trimmed(without_mention(slack, text)),
            },
        )
    }
}

fn copy_text_at(value: &Json, key: &str) -> (r: Option<String>)
    ensures
        opt_text(r) == value@.text_at(key@),
{
    match value.text_at(key) {
        Some(s) => Some(copy_text(s)),
        None => None,
    }
}

/// The message that an event holds, where it holds one for the bot.
pub fn read_slack_event(slack: &SlackRuntime, event: &Json) -> (r: Option<SlackMessage>)
    ensures
        match r {
            Some(m) => event_message(slack@, event@) == Some(m@),
            None => event_message(slack@, event@) is None,
        },
{
    let kind = read_text_or_empty(event, "type");
    if !same_text(kind.as_str(), "app_mention") && !same_text(kind.as_str(), "message") {
        return None;
    }
    if event.get("bot_id").is_some() {
        return None;
    }
    if let Some(subtype) = event.text_at("subtype") {
        if !same_text(subtype, "thread_broadcast") {
            return None;
        }
    }
    let channel = read_text_or_empty(event, "channel");
    let user = copy_text_at(event, "user");
    let text = read_text_or_empty(event, "text");
    if channel.as_str().is_empty() || trim(text.as_str()).is_empty() {
        return None;
    }
    if should_ignore_channel_message(slack, channel.as_str(), kind.as_str(), text.as_str()) {
        return None;
    }
    let thread_ts = match copy_text_at(event, "thread_ts") {
        Some(ts) => Some(ts),
        None => copy_text_at(event, "ts"),
    };
    let mut session = copy_text("slack:");
    session.append(channel.as_str());
    session.append(":");
    match &thread_ts {
        Some(ts) => session.append(ts.as_str()),
        None => session.append("root"),
    }
    let cleaned = clean_slack_mention(slack, text.as_str());
    let text = copy_text(trim(cleaned.as_str()));
    Some(SlackMessage { channel, user, thread_ts, session, text })
}

/// The message that a payload holds, where it holds one for the bot, and the event
/// that it is in.
pub fn process_slack_event(slack: &SlackRuntime, payload: Json) -> (r: Option<
    (SlackMessage, Json),
>)
    ensures
        match r {
            Some((m, event)) => event@ == event_of(payload@) && event_message(slack@, event@)
                == Some(m@),
            None => event_message(slack@, event_of(payload@)) is None,
        },
{
    let event = payload.into_entry("event");
    match read_slack_event(slack, &event) {
        Some(m) => Some((m, event)),
        None => None,
    }
}

/// The text of a message together with what is said of its files.
pub open spec fn text_with_files(text: Seq<char>, files: Option<Seq<char>>) -> Seq<char> {
    trimmed(
        match files {
            Some(context) => if text.len() > 0 {
                text + "\n\n"@ + context
            } else {
                context
            },
            None => text,
        },
    )
}

/// What is handed to the orchestrator for a message of Slack, with what is said
/// of its files; nothing where there is no text.
pub open spec fn slack_incoming(m: SlackMessageView, files: Option<Seq<char>>) -> Option<
    MessageView,
> {
    let text = text_with_files(m.text, files);
    if text.len() == 0 {
        None
    } else {
        Some(
            MessageView {
                source: "slack"@,
                user: m.user,
                session: Some(m.session),
                agent_id: None,
                text,
            },
        )
    }
}

/// What is handed to the orchestrator for a message of Slack.
pub fn incoming_message(m: &SlackMessage, files: Option<&str>) -> (r: Option<IncomingMessage>)
    ensures
        match r {
            Some(i) => slack_incoming(m@, opt_str(files)) == Some(i@),
            None => slack_incoming(m@, opt_str(files)) is None,
        },
{
    let mut text = m.text.clone();
    if let Some(context) = files {
        if !text.as_str().is_empty() {
            text.append("\n\n");
        }
        text.append(context);
        assert(text@ =~= (if m.text@.len() > 0 {
            m.text@ + "\n\n"@ + context@
        } else {
            context@
        }));
    }
    let text = copy_text(trim(text.as_str()));
    if text.as_str().is_empty() {
        return None;
    }
    Some(
        IncomingMessage {
            source: copy_text("slack"),
            user: copy_opt(&m.user),
            session: Some(m.session.clone()),
            agent_id: None,
            text,
        },
    )
}

/// What is said where a message could not be handled.
pub open spec fn failure_text(error: Seq<char>) -> Seq<char> {
    "[openorchestrator error] "@ + error
}

/// What is said where a message could not be handled.
pub fn render_failure(error: &str) -> (r: String)
    ensures
        r@ == failure_text(error@),
{
    let mut out = copy_text("[openorchestrator error] ");
    out.append(error);
    out
}

// Laws.
/// A request with a wrong signature is refused, whatever its body holds.
pub proof fn law_unsigned_requests_are_refused(
    slack: SlackView,
    headers: SlackHeadersView,
    body: Seq<u8>,
    now: int,
)
    ensures
        !(events_answer(slack, headers, body, now) is Refused) ==> slack.enabled && slack.mode
            == SlackMode::EventsApi && slack.signing_secret is Some && signed_by(
            slack.signing_secret->0,
            headers,
            body,
            now,
        ),
        slack.enabled && slack.mode == SlackMode::EventsApi && slack.signing_secret is Some
            && !signed_by(slack.signing_secret->0, headers, body, now) ==> events_answer(
            slack,
            headers,
            body,
            now,
        ) == SlackAnswerView::Refused(
            RefusalView { status: 401, error: "invalid slack signature"@ },
        ),
{
}

/// A request that is too old, or too far ahead, is not taken for signed, nor one
/// without a signature or a time.
pub proof fn law_stale_requests_are_refused(
    secret: Seq<char>,
    headers: SlackHeadersView,
    body: Seq<u8>,
    now: int,
)
    requires
        signed_by(secret, headers, body, now),
    ensures
        headers.signature is Some,
        headers.timestamp is Some,
        signed_value(headers.timestamp->0) is Some,
        -300 <= now - signed_value(headers.timestamp->0)->0 <= 300,
        has_prefix(headers.signature->0, "v0="@),
{
}

/// A request that carries the code of its time and body under the secret, in
/// hexadecimal, is taken for signed as long as its time is near.
pub proof fn law_signed_requests_are_accepted(
    secret: Seq<char>,
    timestamp: Seq<char>,
    digits: Seq<char>,
    body: Seq<u8>,
    now: int,
)
    requires
        is_hex(digits),
        hex_bytes(digits) == hmac_sha256(
            encode_utf8(secret),
            encode_utf8("v0:"@ + timestamp + ":"@ + utf8_lossy(body)),
        ),
        signed_value(timestamp) matches Some(ts) && i64::MIN <= ts <= i64::MAX && -300 <= now - ts
            <= 300,
    ensures
        signed_by(
            secret,
            SlackHeadersView { signature: Some("v0="@ + digits), timestamp: Some(timestamp) },
            body,
            now,
        ),
{
    let signature = "v0="@ + digits;
    assert(signature.take("v0="@.len() as int) =~= "v0="@);
    assert(signature.skip("v0="@.len() as int) =~= digits);
}

/// A setup that is found to be good has a token to reply with and what its mode
/// needs, or Slack is off.
pub proof fn law_good_setup(slack: SlackView)
    requires
        setup_error(slack) is None,
        slack.enabled,
    ensures
        present(slack.bot_token) is Some,
        slack.mode == SlackMode::EventsApi ==> present(slack.signing_secret) is Some,
        slack.mode == SlackMode::Socket ==> present(slack.app_token) is Some,
{
}

/// What a bot said is no message, and neither is an event of another kind.
pub proof fn law_bots_are_not_heard(slack: SlackView, event: JsonView)
    requires
        event.get("bot_id"@) is Some || (text_or_empty(event, "type"@) != "app_mention"@
            && text_or_empty(event, "type"@) != "message"@),
    ensures
        event_message(slack, event) is None,
{
}

/// In a channel of many, a message that is no explicit mention is heard only
/// where it mentions the bot.
pub proof fn law_channels_need_a_mention(slack: SlackView, event: JsonView)
    requires
        event_message(slack, event) is Some,
        slack.bot_user_id is Some,
        text_or_empty(event, "type"@) == "message"@,
        has_prefix(text_or_empty(event, "channel"@), "C"@) || has_prefix(
            text_or_empty(event, "channel"@),
            "G"@,
        ),
    ensures
        contains_text(text_or_empty(event, "text"@), mention(slack.bot_user_id->0)),
{
    reveal_strlit("message");
    reveal_strlit("app_mention");
    assert("message"@.len() != "app_mention"@.len());
}

} // verus!
