//! The calls of Slack's own interface: what is sent, and what the answers mean.
use crate::config::SlackView;
use crate::json::{
    entry, json_array, json_entries, json_list, json_object, json_text, Json, JsonView,
};
use crate::number::{decimal, decimal_text};
use crate::outside::{json_display, json_of_bytes, json_of_value, value_of_bytes, value_to_text};
use crate::orchestrator::{turn_error_text, AgentReply, ReplyView, TurnError, TurnErrorView};
use crate::slack::{
    failure_text, json_option, render_failure, SlackMessage, SlackMessageView, SlackRuntime,
};
use crate::slack_files::{
    plan_output_uploads, resolve_slack_target_channel, target_channel, upload_plan,
};
use crate::text::{as_opt_str, copy_text, opt_str, opt_text, present, texts, trim_present};
use vstd::prelude::*;

verus! {

/// The status of an answer, and how it is shown.
#[derive(Debug)]
pub struct HttpStatus {
    pub code: u16,
    pub text: String,
}

#[verifier::ext_equal]
pub struct StatusView {
    pub code: u16,
    pub text: Seq<char>,
}

impl View for HttpStatus {
    type V = StatusView;

    open spec fn view(&self) -> StatusView {
        StatusView { code: self.code, text: self.text@ }
    }
}

impl StatusView {
    /// Whether the status is one of success.
    pub open spec fn success(self) -> bool {
        200 <= self.code < 300
    }
}

impl HttpStatus {
    /// Whether the status is one of success.
    pub fn is_success(&self) -> (r: bool)
        ensures
            r == self@.success(),
    {
        200 <= self.code && self.code < 300
    }
}

/// Why a call gave nothing.
#[derive(Debug)]
pub enum SlackApiError {
    /// A call did not get through.
    NotCalled { api: String },
    /// The answer to a call cannot be read.
    Unreadable { api: String },
    /// The answer to a call is no success.
    Http { api: String, status: String, body: String },
    /// Slack says that a call failed.
    NotOk { api: String, body: String },
    /// No connection was opened.
    NotOpened { status: String, body: String },
    /// Something is missing in the answer to a call.
    Missing { api: String, what: String },
    /// The bytes of a file were not taken.
    NotTaken { status: String },
    /// The bytes of a file were not given.
    NotGiven { status: String },
}

pub enum SlackApiErrorView {
    NotCalled { api: Seq<char> },
    Unreadable { api: Seq<char> },
    Http { api: Seq<char>, status: Seq<char>, body: Seq<char> },
    NotOk { api: Seq<char>, body: Seq<char> },
    NotOpened { status: Seq<char>, body: Seq<char> },
    Missing { api: Seq<char>, what: Seq<char> },
    NotTaken { status: Seq<char> },
    NotGiven { status: Seq<char> },
}

impl View for SlackApiError {
    type V = SlackApiErrorView;

    open spec fn view(&self) -> SlackApiErrorView {
        match self {
            SlackApiError::NotCalled { api } => SlackApiErrorView::NotCalled { api: api@ },
            SlackApiError::Unreadable { api } => SlackApiErrorView::Unreadable { api: api@ },
            SlackApiError::Http { api, status, body } => SlackApiErrorView::Http {
                api: api@,
                status: status@,
                body: body@,
            },
            SlackApiError::NotOk { api, body } => SlackApiErrorView::NotOk {
                api: api@,
                body: body@,
            },
            SlackApiError::NotOpened { status, body } => SlackApiErrorView::NotOpened {
                status: status@,
                body: body@,
            },
            SlackApiError::Missing { api, what } => SlackApiErrorView::Missing {
                api: api@,
                what: what@,
            },
            SlackApiError::NotTaken { status } => SlackApiErrorView::NotTaken { status: status@ },
            SlackApiError::NotGiven { status } => SlackApiErrorView::NotGiven { status: status@ },
        }
    }
}

/// What is said of an error.
pub open spec fn slack_api_error_text(e: SlackApiErrorView) -> Seq<char> {
    match e {
        SlackApiErrorView::NotCalled { api } => "failed calling Slack "@ + api,
        SlackApiErrorView::Unreadable { api } => "failed parsing Slack "@ + api + " response"@,
        SlackApiErrorView::Http { api, status, body } => "Slack "@ + api + " HTTP "@ + status
            + ": "@ + body,
        SlackApiErrorView::NotOk { api, body } => "Slack "@ + api + " failed: "@ + body,
        SlackApiErrorView::NotOpened { status, body } =>
            "Slack apps.connections.open failed (status="@ + status + "): "@ + body,
        SlackApiErrorView::Missing { api, what } => "Slack "@ + api + " missing "@ + what,
        SlackApiErrorView::NotTaken { status } => "Slack upload_url returned status "@ + status,
        SlackApiErrorView::NotGiven { status } => "Slack file download failed with status "@
            + status,
    }
}

fn concat2(a: &str, b: &str) -> (r: String)
    ensures
        r@ == a@ + b@,
{
    let mut out = copy_text(a);
    out.append(b);
    out
}

fn concat4(a: &str, b: &str, c: &str, d: &str) -> (r: String)
    ensures
        r@ == a@ + b@ + c@ + d@,
{
    let mut out = concat2(a, b);
    out.append(c);
    out.append(d);
    out
}

impl SlackApiError {
    /// What is said of the error.
    pub fn message(&self) -> (r: String)
        ensures
            r@ == slack_api_error_text(self@),
    {
        match self {
            SlackApiError::NotCalled { api } => concat2("failed calling Slack ", api.as_str()),
            SlackApiError::Unreadable { api } => {
                let mut out = concat2("failed parsing Slack ", api.as_str());
                out.append(" response");
                out
            },
            SlackApiError::Http { api, status, body } => {
                let mut out = concat4("Slack ", api.as_str(), " HTTP ", status.as_str());
                out.append(": ");
                out.append(body.as_str());
                out
            },
            SlackApiError::NotOk { api, body } => concat4(
                "Slack ",
                api.as_str(),
                " failed: ",
                body.as_str(),
            ),
            SlackApiError::NotOpened { status, body } => concat4(
                "Slack apps.connections.open failed (status=",
                status.as_str(),
                "): ",
                body.as_str(),
            ),
            SlackApiError::Missing { api, what } => concat4(
                "Slack ",
                api.as_str(),
                " missing ",
                what.as_str(),
            ),
            SlackApiError::NotTaken { status } => concat2(
                "Slack upload_url returned status ",
                status.as_str(),
            ),
            SlackApiError::NotGiven { status } => concat2(
                "Slack file download failed with status ",
                status.as_str(),
            ),
        }
    }
}

// Answers.
/// What is wrong with an answer that was read, and is shown as `shown`.
pub open spec fn reply_error(
    api: Seq<char>,
    status: StatusView,
    reply: JsonView,
    shown: Seq<char>,
) -> Option<SlackApiErrorView> {
    if !status.success() {
        Some(SlackApiErrorView::Http { api, status: status.text, body: shown })
    } else if !reply.true_at("ok"@) {
        Some(SlackApiErrorView::NotOk { api, body: shown })
    } else {
        None
    }
}

/// The view of an error that may be missing.
pub open spec fn error_option(e: Option<SlackApiError>) -> Option<SlackApiErrorView> {
    match e {
        Some(e) => Some(e@),
        None => None,
    }
}

/// What is wrong with an answer that was read.
pub fn check_reply(api: &str, status: &HttpStatus, reply: &Json, shown: &str) -> (r: Option<
    SlackApiError,
>)
    ensures
        error_option(r) == reply_error(api@, status@, reply@, shown@),
{
    if !status.is_success() {
        return Some(
            SlackApiError::Http {
                api: copy_text(api),
                status: status.text.clone(),
                body: copy_text(shown),
            },
        );
    }
    if !reply.true_at("ok") {
        return Some(SlackApiError::NotOk { api: copy_text(api), body: copy_text(shown) });
    }
    None
}

/// The answer to a call, where it can be read and says that all is well.
pub open spec fn api_reply(api: Seq<char>, status: StatusView, body: Seq<u8>) -> Result<
    JsonView,
    SlackApiErrorView,
> {
    match json_of_bytes(body) {
        Err(_) => Err(SlackApiErrorView::Unreadable { api }),
        Ok(reply) => match reply_error(api, status, reply, json_display(reply)) {
            Some(e) => Err(e),
            None => Ok(reply),
        },
    }
}

/// The view of an answer.
pub open spec fn reply_result(r: Result<Json, SlackApiError>) -> Result<
    JsonView,
    SlackApiErrorView,
> {
    match r {
        Ok(v) => Ok(v@),
        Err(e) => Err(e@),
    }
}

/// The answer to a call, where it can be read and says that all is well.
pub fn read_reply(api: &str, status: &HttpStatus, body: &[u8]) -> (r: Result<Json, SlackApiError>)
    ensures
        reply_result(r) == api_reply(api@, status@, body@),
{
    match value_of_bytes(body) {
        Ok(value) => {
            let reply = json_of_value(&value);
            let shown = value_to_text(&value);
            match check_reply(api, status, &reply, shown.as_str()) {
                Some(e) => Err(e),
                None => Ok(reply),
            }
        },
        Err(_) => Err(SlackApiError::Unreadable { api: copy_text(api) }),
    }
}

/// A text in an answer, or that it is missing.
pub open spec fn reply_text(api: Seq<char>, reply: JsonView, key: Seq<char>) -> Result<
    Seq<char>,
    SlackApiErrorView,
> {
    match reply.text_at(key) {
        Some(s) => Ok(s),
        None => Err(SlackApiErrorView::Missing { api, what: key }),
    }
}

/// The view of a text in an answer.
pub open spec fn text_result(r: Result<String, SlackApiError>) -> Result<
    Seq<char>,
    SlackApiErrorView,
> {
    match r {
        Ok(s) => Ok(s@),
        Err(e) => Err(e@),
    }
}

/// A text in an answer, or that it is missing.
pub fn read_reply_text(api: &str, reply: &Json, key: &str) -> (r: Result<String, SlackApiError>)
    ensures
        text_result(r) == reply_text(api@, reply@, key@),
{
    match reply.text_at(key) {
        Some(s) => Ok(copy_text(s)),
        None => Err(SlackApiError::Missing { api: copy_text(api), what: copy_text(key) }),
    }
}

/// Who the bot is, by the answer to `auth.test`.
pub fn read_bot_user_id(status: &HttpStatus, body: &[u8]) -> (r: Result<
    String,
    SlackApiError,
>)
    ensures
        text_result(r) == (match api_reply("auth.test"@, status@, body@) {
            Ok(reply) => reply_text("auth.test"@, reply, "user_id"@),
            Err(e) => Err(e),
        }),
{
    match read_reply("auth.test", status, body) {
        Ok(reply) => read_reply_text("auth.test", &reply, "user_id"),
        Err(e) => Err(e),
    }
}

/// The address of a socket that an answer to `apps.connections.open` holds, which
/// is shown as `shown`.
pub open spec fn socket_url(status: StatusView, reply: JsonView, shown: Seq<char>) -> Result<
    Seq<char>,
    SlackApiErrorView,
> {
    if !status.success() || !reply.true_at("ok"@) {
        Err(SlackApiErrorView::NotOpened { status: status.text, body: shown })
    } else {
        match reply.text_at("url"@) {
            Some(url) => Ok(url),
            None => Err(
                SlackApiErrorView::Missing {
                    api: "apps.connections.open"@,
                    what: "websocket url"@,
                },
            ),
        }
    }
}

/// The address of a socket that an answer to `apps.connections.open` holds.
pub fn read_socket_url(status: &HttpStatus, reply: &Json, shown: &str) -> (r: Result<
    String,
    SlackApiError,
>)
    ensures
        text_result(r) == socket_url(status@, reply@, shown@),
{
    if !status.is_success() || !reply.true_at("ok") {
        return Err(
            SlackApiError::NotOpened { status: status.text.clone(), body: copy_text(shown) },
        );
    }
    match reply.text_at("url") {
        Some(url) => Ok(copy_text(url)),
        None => Err(
            SlackApiError::Missing {
                api: copy_text("apps.connections.open"),
                what: copy_text("websocket url"),
            },
        ),
    }
}

/// The address of a socket, by the answer to `apps.connections.open`.
pub fn read_connection(status: &HttpStatus, body: &[u8]) -> (r: Result<
    String,
    SlackApiError,
>)
    ensures
        text_result(r) == (match json_of_bytes(body@) {
            Ok(reply) => socket_url(status@, reply, json_display(reply)),
            Err(_) => Err(SlackApiErrorView::Unreadable { api: "apps.connections.open"@ }),
        }),
{
    match value_of_bytes(body) {
        Ok(value) => read_socket_url(
            status,
            &json_of_value(&value),
            value_to_text(&value).as_str(),
        ),
        Err(_) => Err(SlackApiError::Unreadable { api: copy_text("apps.connections.open") }),
    }
}

// Messages.
/// A thread, where one is named.
pub open spec fn named_thread(thread_ts: Option<Seq<char>>) -> Option<Seq<char>> {
    if present(thread_ts) is Some {
        thread_ts
    } else {
        None
    }
}

/// Entries with a thread added, where one is named.
pub open spec fn with_thread(
    entries: Seq<(Seq<char>, JsonView)>,
    thread_ts: Option<Seq<char>>,
) -> Seq<(Seq<char>, JsonView)> {
    match named_thread(thread_ts) {
        Some(ts) => entries.push(("thread_ts"@, JsonView::Text(ts))),
        None => entries,
    }
}

fn push_entry(entries: &mut Vec<(String, Json)>, key: &str, value: Json)
    ensures
        json_entries(final(entries)@) == json_entries(old(entries)@).push((key@, value@)),
{
    entries.push((copy_text(key), value));
    assert(json_entries(entries@) =~= json_entries(old(entries)@).push((key@, value@)));
}

fn push_thread(entries: &mut Vec<(String, Json)>, thread_ts: Option<&str>)
    ensures
        json_entries(final(entries)@) == with_thread(
            json_entries(old(entries)@),
            opt_str(thread_ts),
        ),
{
    if trim_present(thread_ts).is_some() {
        if let Some(ts) = thread_ts {
            push_entry(entries, "thread_ts", json_text(ts));
        }
    }
}

/// What is sent to post a text in a channel; nothing where there is no channel.
pub open spec fn message_payload(
    channel: Seq<char>,
    text: Seq<char>,
    thread_ts: Option<Seq<char>>,
    default_channel: Option<Seq<char>>,
) -> Option<JsonView> {
    let target = target_channel(channel, default_channel);
    if target.len() == 0 {
        None
    } else {
        Some(
            JsonView::Object(
                with_thread(
                    seq![("channel"@, JsonView::Text(target)), ("text"@, JsonView::Text(text))],
                    thread_ts,
                ),
            ),
        )
    }
}

/// What is sent to post a text in a channel; nothing where there is no channel.
pub fn message_to_post(
    channel: &str,
    text: &str,
    thread_ts: Option<&str>,
    default_channel: Option<&str>,
) -> (r: Option<Json>)
    ensures
        json_option(r) == message_payload(
            channel@,
            text@,
            opt_str(thread_ts),
            opt_str(default_channel),
        ),
{
    let target = resolve_slack_target_channel(channel, default_channel);
    if target.as_str().is_empty() {
        return None;
    }
    let mut entries: Vec<(String, Json)> = Vec::new();
    assert(json_entries(entries@) =~= seq![]);
    push_entry(&mut entries, "channel", Json::Text(target));
    push_entry(&mut entries, "text", json_text(text));
    assert(json_entries(entries@) =~= seq![
        ("channel"@, JsonView::Text(target@)),
        ("text"@, JsonView::Text(text@)),
    ]);
    push_thread(&mut entries, thread_ts);
    Some(json_object(entries))
}

/// What goes to Slack for a message: what is posted, with which token, and the
/// output files that follow it.
#[derive(Debug)]
pub struct SlackPost {
    pub token: String,
    pub payload: Option<Json>,
    pub uploads: Option<(String, Vec<String>)>,
}

#[verifier::ext_equal]
pub struct SlackPostView {
    pub token: Seq<char>,
    pub payload: Option<JsonView>,
    pub uploads: Option<(Seq<char>, Seq<Seq<char>>)>,
}

impl View for SlackPost {
    type V = SlackPostView;

    open spec fn view(&self) -> SlackPostView {
        SlackPostView {
            token: self.token@,
            payload: json_option(self.payload),
            uploads: match self.uploads {
                Some((channel, paths)) => Some((channel@, texts(paths@))),
                None => None,
            },
        }
    }
}

/// What goes to Slack for a message: the reply and the output files that it
/// names, or what is said of a failure. Nothing goes without a token.
pub open spec fn slack_post(
    slack: SlackView,
    m: SlackMessageView,
    outcome: Result<ReplyView, TurnErrorView>,
) -> Option<SlackPostView> {
    match slack.bot_token {
        Some(token) => {
            let text = match outcome {
                Ok(reply) => reply.reply,
                Err(e) => failure_text(turn_error_text(e)),
            };
            Some(
                SlackPostView {
                    token,
                    payload: message_payload(m.channel, text, m.thread_ts, slack.default_channel),
                    uploads: match outcome {
                        Ok(reply) => upload_plan(m.channel, slack.default_channel, reply.reply),
                        Err(_) => None,
                    },
                },
            )
        },
        None => None,
    }
}

/// The view of what came of a message.
pub open spec fn outcome_view(r: Result<AgentReply, TurnError>) -> Result<
    ReplyView,
    TurnErrorView,
> {
    match r {
        Ok(reply) => Ok(reply@),
        Err(e) => Err(e@),
    }
}

/// What goes to Slack for a message.
pub fn answer_slack_message(
    slack: &SlackRuntime,
    m: &SlackMessage,
    outcome: &Result<AgentReply, TurnError>,
) -> (r: Option<SlackPost>)
    ensures
        match r {
            Some(post) => slack_post(slack@, m@, outcome_view(*outcome)) == Some(post@),
            None => slack_post(slack@, m@, outcome_view(*outcome)) is None,
        },
{
    let token = match &slack.bot_token {
        Some(token) => token.clone(),
        None => return None,
    };
    let default_channel = as_opt_str(&slack.default_channel);
    let (text, uploads) = match outcome {
        Ok(reply) => (
            reply.reply.clone(),
            plan_output_uploads(m.channel.as_str(), default_channel, reply.reply.as_str()),
        ),
        Err(e) => (render_failure(e.message().as_str()), None),
    };
    let payload = message_to_post(
        m.channel.as_str(),
        text.as_str(),
        as_opt_str(&m.thread_ts),
        default_channel,
    );
    Some(SlackPost { token, payload, uploads })
}

/// Whether a message was posted, by the answer to `chat.postMessage`.
pub fn read_sent_message(status: &HttpStatus, body: &[u8]) -> (r: Result<bool, SlackApiError>)
    ensures
        match r {
            Ok(sent) => json_of_bytes(body@) is Ok && sent == (status@.success()
                && json_of_bytes(body@)->Ok_0.true_at("ok"@)),
            Err(e) => json_of_bytes(body@) is Err && e@ == SlackApiErrorView::Unreadable {
                api: "chat.postMessage"@,
            },
        },
{
    match value_of_bytes(body) {
        Ok(value) => Ok(message_was_sent(status, &json_of_value(&value))),
        Err(_) => Err(SlackApiError::Unreadable { api: copy_text("chat.postMessage") }),
    }
}

/// Whether a message was posted, by what the answer holds.
pub fn message_was_sent(status: &HttpStatus, reply: &Json) -> (r: bool)
    ensures
        r == (status@.success() && reply@.true_at("ok"@)),
{
    status.is_success() && reply.true_at("ok")
}

/// What came of a call of `chat.postMessage`: it did not get through, or its answer
/// cannot be read, or it was answered. A message that Slack did not take is no
/// error.
pub open spec fn sent_result(answer: Option<(StatusView, Seq<u8>)>) -> Result<
    bool,
    SlackApiErrorView,
> {
    match answer {
        None => Err(SlackApiErrorView::NotCalled { api: "chat.postMessage"@ }),
        Some((status, body)) => match json_of_bytes(body) {
            Ok(reply) => Ok(status.success() && reply.true_at("ok"@)),
            Err(_) => Err(SlackApiErrorView::Unreadable { api: "chat.postMessage"@ }),
        },
    }
}

/// The view of an answer that may be missing.
pub open spec fn answer_option(answer: Option<(HttpStatus, Vec<u8>)>) -> Option<
    (StatusView, Seq<u8>),
> {
    match answer {
        Some((status, body)) => Some((status@, body@)),
        None => None,
    }
}

/// What came of a call of `chat.postMessage`, by the answer where there is one:
/// whether Slack took the message, or why that is not known.
pub fn read_send(answer: &Option<(HttpStatus, Vec<u8>)>) -> (r: Result<bool, SlackApiError>)
    ensures
        match r {
            Ok(sent) => sent_result(answer_option(*answer)) == Ok::<bool, SlackApiErrorView>(sent),
            Err(e) => sent_result(answer_option(*answer)) == Err::<bool, SlackApiErrorView>(e@),
        },
{
    match answer {
        Some((status, body)) => read_sent_message(status, body.as_slice()),
        None => Err(SlackApiError::NotCalled { api: copy_text("chat.postMessage") }),
    }
}

/// What the handling of a message ends with, after what was posted was sent or not:
/// a reply that could not be sent is an error, what is said of a failure may fail
/// to be sent.
pub fn after_send(outcome: &Result<AgentReply, TurnError>, sent: Result<bool, SlackApiError>) -> (r:
    Result<(), SlackApiError>)
    ensures
        *outcome is Err ==> r is Ok,
        *outcome is Ok ==> (r is Ok <==> sent is Ok),
        *outcome is Ok ==> (sent matches Err(e) ==> r == Err::<(), SlackApiError>(e)),
{
    match (outcome, sent) {
        (Ok(_), Err(e)) => Err(e),
        _ => Ok(()),
    }
}

// Files.
/// Whether the bytes of a file were given.
pub fn check_download(status: &HttpStatus) -> (r: Result<(), SlackApiError>)
    ensures
        match r {
            Ok(_) => status@.success(),
            Err(e) => !status@.success() && e@ == SlackApiErrorView::NotGiven {
                status: status@.text,
            },
        },
{
    if status.is_success() {
        Ok(())
    } else {
        Err(SlackApiError::NotGiven { status: status.text.clone() })
    }
}

/// The fields of the form that asks where to send a file.
pub fn upload_form(file_name: &str, len: u64) -> (r: Vec<(String, String)>)
    ensures
        r@.len() == 2,
        r@[0].0@ == "filename"@ && r@[0].1@ == file_name@,
        r@[1].0@ == "length"@ && r@[1].1@ == decimal(len as nat),
{
    let mut form: Vec<(String, String)> = Vec::new();
    form.push((copy_text("filename"), copy_text(file_name)));
    form.push((copy_text("length"), decimal_text(len)));
    form
}

/// Where the bytes of a file are to be sent, and the id it has.
#[derive(Debug)]
pub struct UploadTarget {
    pub upload_url: String,
    pub file_id: String,
}

/// Where the bytes of a file are to be sent, by what an answer holds.
pub open spec fn upload_target(reply: JsonView) -> Result<
    (Seq<char>, Seq<char>),
    SlackApiErrorView,
> {
    let api = "files.getUploadURLExternal"@;
    match reply_text(api, reply, "upload_url"@) {
        Ok(url) => match reply_text(api, reply, "file_id"@) {
            Ok(id) => Ok((url, id)),
            Err(e) => Err(e),
        },
        Err(e) => Err(e),
    }
}

/// The view of where the bytes of a file are to be sent.
pub open spec fn target_result(r: Result<UploadTarget, SlackApiError>) -> Result<
    (Seq<char>, Seq<char>),
    SlackApiErrorView,
> {
    match r {
        Ok(t) => Ok((t.upload_url@, t.file_id@)),
        Err(e) => Err(e@),
    }
}

/// Where the bytes of a file are to be sent, by what an answer holds.
pub fn read_upload_target(reply: &Json) -> (r: Result<UploadTarget, SlackApiError>)
    ensures
        target_result(r) == upload_target(reply@),
{
    let api: &str = "files.getUploadURLExternal";
    match read_reply_text(api, reply, "upload_url") {
        Ok(upload_url) => match read_reply_text(api, reply, "file_id") {
            Ok(file_id) => Ok(UploadTarget { upload_url, file_id }),
            Err(e) => Err(e),
        },
        Err(e) => Err(e),
    }
}

/// Where the bytes of a file are to be sent, by the answer to
/// `files.getUploadURLExternal`.
pub fn begin_upload(status: &HttpStatus, body: &[u8]) -> (r: Result<UploadTarget, SlackApiError>)
    ensures
        target_result(r) == (match api_reply("files.getUploadURLExternal"@, status@, body@) {
            Ok(reply) => upload_target(reply),
            Err(e) => Err(e),
        }),
{
    match read_reply("files.getUploadURLExternal", status, body) {
        Ok(reply) => read_upload_target(&reply),
        Err(e) => Err(e),
    }
}

/// Whether the bytes of a file were taken.
pub fn check_upload(status: &HttpStatus) -> (r: Result<(), SlackApiError>)
    ensures
        match r {
            Ok(_) => status@.success(),
            Err(e) => !status@.success() && e@ == SlackApiErrorView::NotTaken {
                status: status@.text,
            },
        },
{
    if status.is_success() {
        Ok(())
    } else {
        Err(SlackApiError::NotTaken { status: status.text.clone() })
    }
}

/// What is sent to show a file in a channel.
pub open spec fn completion_payload(
    file_id: Seq<char>,
    file_name: Seq<char>,
    channel: Seq<char>,
    thread_ts: Option<Seq<char>>,
) -> JsonView {
    JsonView::Object(
        with_thread(
            seq![
                (
                    "files"@,
                    JsonView::List(
                        seq![
                            JsonView::Object(
                                seq![
                                    ("id"@, JsonView::Text(file_id)),
                                    ("title"@, JsonView::Text(file_name)),
                                ],
                            ),
                        ],
                    ),
                ),
                ("channel_id"@, JsonView::Text(channel)),
            ],
            thread_ts,
        ),
    )
}

/// What is sent to show a file in a channel.
pub fn complete_upload(
    file_id: &str,
    file_name: &str,
    channel: &str,
    thread_ts: Option<&str>,
) -> (r: Json)
    ensures
        r@ == completion_payload(file_id@, file_name@, channel@, opt_str(thread_ts)),
{
    let mut file: Vec<(String, Json)> = Vec::new();
    assert(json_entries(file@) =~= seq![]);
    push_entry(&mut file, "id", json_text(file_id));
    push_entry(&mut file, "title", json_text(file_name));
    assert(json_entries(file@) =~= seq![
        ("id"@, JsonView::Text(file_id@)),
        ("title"@, JsonView::Text(file_name@)),
    ]);
    let mut files: Vec<Json> = Vec::new();
    let file = json_object(file);
    let ghost file_view = file@;
    files.push(file);
    assert(json_list(files@) =~= seq![file_view]);
    let mut entries: Vec<(String, Json)> = Vec::new();
    assert(json_entries(entries@) =~= seq![]);
    let files = json_array(files);
    push_entry(&mut entries, "files", files);
    push_entry(&mut entries, "channel_id", json_text(channel));
    assert(json_entries(entries@) =~= seq![
        ("files"@, JsonView::List(seq![file_view])),
        ("channel_id"@, JsonView::Text(channel@)),
    ]);
    push_thread(&mut entries, thread_ts);
    json_object(entries)
}

/// Whether a file was shown, by the answer to `files.completeUploadExternal`.
pub fn finish_upload(status: &HttpStatus, body: &[u8]) -> (r: Result<(), SlackApiError>)
    ensures
        match r {
            Ok(_) => api_reply("files.completeUploadExternal"@, status@, body@) is Ok,
            Err(e) => api_reply("files.completeUploadExternal"@, status@, body@) == Err::<
                JsonView,
                SlackApiErrorView,
            >(e@),
        },
{
    match read_reply("files.completeUploadExternal", status, body) {
        Ok(_) => Ok(()),
        Err(e) => Err(e),
    }
}

// The way of a file.
/// How far a file has come.
#[derive(Debug)]
pub enum UploadStage {
    /// It is asked where to send the bytes.
    Asked,
    /// The bytes are sent.
    Sent { file_id: String },
    /// It is asked to show the file.
    Shown,
}

pub enum UploadStageView {
    Asked,
    Sent { file_id: Seq<char> },
    Shown,
}

/// A file on its way to a channel.
#[derive(Debug)]
pub struct FileUpload {
    pub file_name: String,
    pub channel: String,
    pub thread_ts: Option<String>,
    pub stage: UploadStage,
}

#[verifier::ext_equal]
pub struct FileUploadView {
    pub file_name: Seq<char>,
    pub channel: Seq<char>,
    pub thread_ts: Option<Seq<char>>,
    pub stage: UploadStageView,
}

/// What is to be done next for a file.
#[derive(Debug)]
pub enum UploadStep {
    /// To send the bytes to this address.
    SendBytes(FileUpload, String),
    /// To send this to `files.completeUploadExternal`.
    Complete(FileUpload, Json),
    Done,
    Fail(SlackApiError),
}

pub enum UploadStepView {
    SendBytes(FileUploadView, Seq<char>),
    Complete(FileUploadView, JsonView),
    Done,
    Fail(SlackApiErrorView),
}

impl View for UploadStage {
    type V = UploadStageView;

    open spec fn view(&self) -> UploadStageView {
        match self {
            UploadStage::Asked => UploadStageView::Asked,
            UploadStage::Sent { file_id } => UploadStageView::Sent { file_id: file_id@ },
            UploadStage::Shown => UploadStageView::Shown,
        }
    }
}

impl View for FileUpload {
    type V = FileUploadView;

    open spec fn view(&self) -> FileUploadView {
        FileUploadView {
            file_name: self.file_name@,
            channel: self.channel@,
            thread_ts: opt_text(self.thread_ts),
            stage: self.stage@,
        }
    }
}

impl View for UploadStep {
    type V = UploadStepView;

    open spec fn view(&self) -> UploadStepView {
        match self {
            UploadStep::SendBytes(upload, url) => UploadStepView::SendBytes(upload@, url@),
            UploadStep::Complete(upload, payload) => UploadStepView::Complete(upload@, payload@),
            UploadStep::Done => UploadStepView::Done,
            UploadStep::Fail(e) => UploadStepView::Fail(e@),
        }
    }
}

/// The next step for a file, after the answer to the last one: where to send its
/// bytes is asked first, then they are sent, then the file is shown. It ends where
/// an answer is no success.
pub open spec fn upload_step(
    upload: FileUploadView,
    status: StatusView,
    body: Seq<u8>,
) -> UploadStepView {
    match upload.stage {
        UploadStageView::Asked => match api_reply("files.getUploadURLExternal"@, status, body) {
            Ok(reply) => match upload_target(reply) {
                Ok((url, file_id)) => UploadStepView::SendBytes(
                    FileUploadView { stage: UploadStageView::Sent { file_id }, ..upload },
                    url,
                ),
                Err(e) => UploadStepView::Fail(e),
            },
            Err(e) => UploadStepView::Fail(e),
        },
        UploadStageView::Sent { file_id } => if status.success() {
            UploadStepView::Complete(
                FileUploadView { stage: UploadStageView::Shown, ..upload },
                completion_payload(file_id, upload.file_name, upload.channel, upload.thread_ts),
            )
        } else {
            UploadStepView::Fail(SlackApiErrorView::NotTaken { status: status.text })
        },
        UploadStageView::Shown => match api_reply(
            "files.completeUploadExternal"@,
            status,
            body,
        ) {
            Ok(_) => UploadStepView::Done,
            Err(e) => UploadStepView::Fail(e),
        },
    }
}

/// A file for a channel, for which it is to be asked where to send its bytes.
pub fn start_upload(file_name: &str, channel: &str, thread_ts: Option<&str>) -> (r: FileUpload)
    ensures
        r@ == (FileUploadView {
            file_name: file_name@,
            channel: channel@,
            thread_ts: opt_str(thread_ts),
            stage: UploadStageView::Asked,
        }),
{
    FileUpload {
        file_name: copy_text(file_name),
        channel: copy_text(channel),
        thread_ts: match thread_ts {
            Some(ts) => Some(copy_text(ts)),
            None => None,
        },
        stage: UploadStage::Asked,
    }
}

impl FileUpload {
    /// The next step for the file, after the answer to the last one.
    pub fn advance(self, status: &HttpStatus, body: &[u8]) -> (r: UploadStep)
        ensures
            r@ == upload_step(self@, status@, body@),
    {
        let mut upload = self;
        match &upload.stage {
            UploadStage::Asked => match begin_upload(status, body) {
                Ok(target) => {
                    upload.stage = UploadStage::Sent { file_id: target.file_id };
                    UploadStep::SendBytes(upload, target.upload_url)
                },
                Err(e) => UploadStep::Fail(e),
            },
            UploadStage::Sent { file_id } => match check_upload(status) {
                Ok(_) => {
                    let payload = complete_upload(
                        file_id.as_str(),
                        upload.file_name.as_str(),
                        upload.channel.as_str(),
                        as_opt_str(&upload.thread_ts),
                    );
                    upload.stage = UploadStage::Shown;
                    UploadStep::Complete(upload, payload)
                },
                Err(e) => UploadStep::Fail(e),
            },
            UploadStage::Shown => match finish_upload(status, body) {
                Ok(_) => UploadStep::Done,
                Err(e) => UploadStep::Fail(e),
            },
        }
    }
}

// Laws.
/// A file is shown only after its bytes were taken, under the id it was given, and
/// is done only after it was shown; an answer that is no success ends it.
pub proof fn law_uploads_go_in_order(upload: FileUploadView, status: StatusView, body: Seq<u8>)
    ensures
        upload_step(upload, status, body) is SendBytes ==> upload.stage is Asked,
        upload_step(upload, status, body) matches UploadStepView::Complete(next, payload)
            ==> upload.stage is Sent && next.stage is Shown && payload == completion_payload(
            upload.stage->file_id,
            upload.file_name,
            upload.channel,
            upload.thread_ts,
        ),
        upload_step(upload, status, body) is Done ==> upload.stage is Shown,
        !status.success() ==> upload_step(upload, status, body) is Fail,
{
}

/// A message is posted to the channel it came from, where that has a name, and
/// to the default one otherwise; with its text as it is.
pub proof fn law_messages_go_to_their_channel(
    channel: Seq<char>,
    text: Seq<char>,
    thread_ts: Option<Seq<char>>,
    default_channel: Option<Seq<char>>,
)
    requires
        message_payload(channel, text, thread_ts, default_channel) is Some,
    ensures
        ({
            let payload = message_payload(channel, text, thread_ts, default_channel)->0;
            &&& payload.text_at("channel"@) == Some(target_channel(channel, default_channel))
            &&& payload.text_at("text"@) == Some(text)
            &&& payload.text_at("thread_ts"@) == named_thread(thread_ts)
        }),
{
    reveal_strlit("channel");
    reveal_strlit("text");
    reveal_strlit("thread_ts");
    reveal_with_fuel(entry, 4);
    let payload = message_payload(channel, text, thread_ts, default_channel)->0;
    let e = payload.entries();
    assert("channel"@.len() == 7 && "text"@.len() == 4 && "thread_ts"@.len() == 9);
    assert(e.skip(1)[0] == e[1]);
    if named_thread(thread_ts) is Some {
        assert(e.skip(1).skip(1)[0] == e[2]);
    }
}

/// Every message that was handled is answered in its thread, where there is a
/// token and a channel: with the reply, or with what is said of a failure, and
/// with no file in that case.
pub proof fn law_messages_are_answered(
    slack: SlackView,
    m: SlackMessageView,
    outcome: Result<ReplyView, TurnErrorView>,
)
    requires
        slack.bot_token is Some,
        target_channel(m.channel, slack.default_channel).len() > 0,
    ensures
        slack_post(slack, m, outcome) matches Some(post) && post.token == slack.bot_token->0
            && post.payload is Some && post.payload->0.text_at("text"@) == Some(
            match outcome {
                Ok(reply) => reply.reply,
                Err(e) => failure_text(turn_error_text(e)),
            },
        ) && post.payload->0.text_at("thread_ts"@) == named_thread(m.thread_ts) && (outcome is Err
            ==> post.uploads is None),
{
    let text = match outcome {
        Ok(reply) => reply.reply,
        Err(e) => failure_text(turn_error_text(e)),
    };
    law_messages_go_to_their_channel(m.channel, text, m.thread_ts, slack.default_channel);
}

/// An answer is taken only with a status of success and `ok`.
pub proof fn law_replies_are_checked(api: Seq<char>, status: StatusView, body: Seq<u8>)
    requires
        api_reply(api, status, body) is Ok,
    ensures
        status.success(),
        json_of_bytes(body) is Ok,
        json_of_bytes(body)->Ok_0.true_at("ok"@),
{
}

} // verus!
