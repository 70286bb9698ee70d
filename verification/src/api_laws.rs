//! What holds of the calls to Slack: how its answers are read, what is posted where, and
//! how a file is sent.
use crate::json::{entry, JsonView};
use crate::message_laws::lemma_blank;
use crate::number::decimal;
use crate::orchestrator::{turn_error_text, ReplyView, TurnErrorView};
use crate::outbox_laws::law_output_files_are_sent;
use crate::outside::{json_display, json_of_bytes};
use crate::slack::{SlackMessageView, SlackSetupError};
use crate::config::SlackView;
use crate::slack_api::{
    api_reply, completion_payload, message_payload, reply_text, sent_result, slack_api_error_text,
    slack_post, socket_url, upload_step, FileUploadView, SlackApiErrorView, StatusView,
    UploadStageView, UploadStepView,
};
use crate::slack_files::{
    exceeded_text, output_paths, upload_error_text, upload_plan, UploadErrorView,
};
use crate::slack_laws::{is_there, lemma_is_there};
use crate::text::CharSet;
use crate::text_laws::{all_in, bare, law_bare_stays};
use vstd::prelude::*;

verus! {

// Answers.
/// An answer of Slack is good where it can be read, came with a status from 200 to 299
/// and says that it is. What is wrong first is told: that it cannot be read, its status,
/// or what it says instead.
pub proof fn law_answers_are_read(api: Seq<char>, status: StatusView, body: Seq<u8>)
    ensures
        json_of_bytes(body) is Err ==> api_reply(api, status, body) == Err::<
            JsonView,
            SlackApiErrorView,
        >(SlackApiErrorView::Unreadable { api }),
        json_of_bytes(body) matches Ok(reply) ==> {
            let good = 200 <= status.code <= 299;
            &&& good && reply.get("ok"@) == Some(JsonView::Bool(true)) ==> api_reply(
                api,
                status,
                body,
            ) == Ok::<JsonView, SlackApiErrorView>(reply)
            &&& !good ==> api_reply(api, status, body) == Err::<JsonView, SlackApiErrorView>(
                SlackApiErrorView::Http { api, status: status.text, body: json_display(reply) },
            )
            &&& good && reply.get("ok"@) != Some(JsonView::Bool(true)) ==> api_reply(
                api,
                status,
                body,
            ) == Err::<JsonView, SlackApiErrorView>(
                SlackApiErrorView::NotOk { api, body: json_display(reply) },
            )
        },
{
}

/// The address of a socket is the one in a good answer.
pub proof fn law_socket_addresses_are_read(status: StatusView, reply: JsonView, shown: Seq<char>)
    ensures
        ({
            let good = 200 <= status.code <= 299 && reply.get("ok"@) == Some(
                JsonView::Bool(true),
            );
            &&& !good ==> socket_url(status, reply, shown) == Err::<Seq<char>, SlackApiErrorView>(
                SlackApiErrorView::NotOpened { status: status.text, body: shown },
            )
            &&& good ==> (reply.text_at("url"@) matches Some(url) ==> socket_url(
                status,
                reply,
                shown,
            ) == Ok::<Seq<char>, SlackApiErrorView>(url))
            &&& good && reply.text_at("url"@) is None ==> socket_url(status, reply, shown)
                == Err::<Seq<char>, SlackApiErrorView>(
                SlackApiErrorView::Missing {
                    api: "apps.connections.open"@,
                    what: "websocket url"@,
                },
            )
        }),
{
}

/// A message was sent where the answer can be read, is a success and says so; that it was
/// not, that there was no answer and that it cannot be read are told apart.
pub proof fn law_sends_are_read(status: StatusView, body: Seq<u8>)
    ensures
        sent_result(None) == Err::<bool, SlackApiErrorView>(
            SlackApiErrorView::NotCalled { api: "chat.postMessage"@ },
        ),
        json_of_bytes(body) is Err ==> sent_result(Some((status, body))) == Err::<
            bool,
            SlackApiErrorView,
        >(SlackApiErrorView::Unreadable { api: "chat.postMessage"@ }),
        json_of_bytes(body) matches Ok(reply) ==> sent_result(Some((status, body))) == Ok::<
            bool,
            SlackApiErrorView,
        >(200 <= status.code <= 299 && reply.get("ok"@) == Some(JsonView::Bool(true))),
{
}

/// What is asked of a good answer is what stands under its key; where nothing does, that
/// is told.
pub proof fn law_keys_are_read(api: Seq<char>, reply: JsonView, key: Seq<char>)
    ensures
        reply.text_at(key) matches Some(text) ==> reply_text(api, reply, key) == Ok::<
            Seq<char>,
            SlackApiErrorView,
        >(text),
        reply.text_at(key) is None ==> reply_text(api, reply, key) == Err::<
            Seq<char>,
            SlackApiErrorView,
        >(SlackApiErrorView::Missing { api, what: key }),
{
}

// Posting.
/// A message goes to the channel it is for, or to the default one where that has no name,
/// with its text and into its thread, where it has one; it does not go out where there is
/// no channel.
pub proof fn law_messages_are_posted(
    channel: Seq<char>,
    text: Seq<char>,
    thread_ts: Option<Seq<char>>,
    default_channel: Option<Seq<char>>,
    target: Seq<char>,
)
    requires
        bare(target, CharSet::Space),
        channel == target || (all_in(channel, CharSet::Space) && default_channel == Some(target)),
    ensures
        ({
            let payload = message_payload(channel, text, thread_ts, default_channel);
            &&& payload is Some
            &&& payload->0.text_at("channel"@) == Some(target)
            &&& payload->0.text_at("text"@) == Some(text)
            &&& is_there(thread_ts) ==> payload->0.text_at("thread_ts"@) == thread_ts
            &&& !is_there(thread_ts) ==> payload->0.get("thread_ts"@) is None
        }),
{
    law_bare_stays(target, CharSet::Space);
    if all_in(channel, CharSet::Space) {
        lemma_blank(channel);
    }
    lemma_is_there(thread_ts);
    crate::slack_api::law_messages_go_to_their_channel(channel, text, thread_ts, default_channel);
    let e = message_payload(channel, text, thread_ts, default_channel)->0.entries();
    if !is_there(thread_ts) {
        reveal_strlit("channel");
        reveal_strlit("text");
        reveal_strlit("thread_ts");
        reveal_with_fuel(entry, 4);
        assert("channel"@.len() == 7 && "text"@.len() == 4 && "thread_ts"@.len() == 9);
        assert(e.skip(1)[0] == e[1]);
        assert(e.skip(1).skip(1).len() == 0);
    }
}

/// Nothing is posted where neither the message nor the configuration names a channel.
pub proof fn law_nothing_is_posted_nowhere(
    channel: Seq<char>,
    text: Seq<char>,
    thread_ts: Option<Seq<char>>,
    default_channel: Option<Seq<char>>,
)
    requires
        all_in(channel, CharSet::Space),
        default_channel matches Some(c) ==> all_in(c, CharSet::Space),
    ensures
        message_payload(channel, text, thread_ts, default_channel) is None,
{
    lemma_blank(channel);
    if let Some(c) = default_channel {
        lemma_blank(c);
    }
}

/// A message of Slack is answered in its channel and thread with the bot's token: by the
/// reply to it, with the output files that the reply names, or by what went wrong.
/// Without a token it is not.
pub proof fn law_slack_messages_are_answered(
    slack: SlackView,
    m: SlackMessageView,
    reply: ReplyView,
    error: TurnErrorView,
)
    ensures
        slack.bot_token is None ==> slack_post(slack, m, Ok(reply)) is None && slack_post(
            slack,
            m,
            Err(error),
        ) is None,
        slack.bot_token matches Some(token) ==> {
            let good = slack_post(slack, m, Ok(reply));
            let bad = slack_post(slack, m, Err(error));
            &&& good matches Some(post) && post.token == token && post.payload == message_payload(
                m.channel,
                reply.reply,
                m.thread_ts,
                slack.default_channel,
            ) && post.uploads == upload_plan(m.channel, slack.default_channel, reply.reply)
            &&& bad matches Some(post) && post.token == token && post.payload == message_payload(
                m.channel,
                "[openorchestrator error] "@ + turn_error_text(error),
                m.thread_ts,
                slack.default_channel,
            ) && post.uploads is None
        },
{
}

/// The output files that a reply to a message of Slack names go where the reply goes.
pub proof fn law_output_files_go_with_the_reply(
    slack: SlackView,
    m: SlackMessageView,
    reply: ReplyView,
)
    requires
        slack.bot_token is Some,
        bare(m.channel, CharSet::Space),
        0 < output_paths(reply.reply).len() <= 3,
    ensures
        slack_post(slack, m, Ok(reply)) matches Some(post) && post.uploads == Some(
            (m.channel, output_paths(reply.reply)),
        ) && post.payload is Some && post.payload->0.text_at("channel"@) == Some(m.channel)
            && post.payload->0.text_at("text"@) == Some(reply.reply),
{
    law_output_files_are_sent(m.channel, slack.default_channel, reply.reply, m.channel);
    law_messages_are_posted(
        m.channel,
        reply.reply,
        m.thread_ts,
        slack.default_channel,
        m.channel,
    );
}

// Sending files.
/// A file is sent in three steps: its bytes go to the address that Slack gives, then it is
/// shown under its name in its channel and thread by the id that Slack gave, and it is
/// done when that was good. A step that fails ends it.
pub proof fn law_files_are_sent_in_steps(upload: FileUploadView, status: StatusView, body: Seq<u8>)
    ensures
        ({
            let step = upload_step(upload, status, body);
            let asked = api_reply("files.getUploadURLExternal"@, status, body);
            let shown = api_reply("files.completeUploadExternal"@, status, body);
            &&& upload.stage is Asked ==> {
                &&& asked matches Err(e) ==> step == UploadStepView::Fail(e)
                &&& asked matches Ok(reply) ==> {
                    let url = reply.text_at("upload_url"@);
                    let id = reply.text_at("file_id"@);
                    &&& url is Some && id is Some ==> step == UploadStepView::SendBytes(
                        FileUploadView {
                            stage: UploadStageView::Sent { file_id: id->0 },
                            file_name: upload.file_name,
                            channel: upload.channel,
                            thread_ts: upload.thread_ts,
                        },
                        url->0,
                    )
                    &&& url is None ==> step == UploadStepView::Fail(
                        SlackApiErrorView::Missing {
                            api: "files.getUploadURLExternal"@,
                            what: "upload_url"@,
                        },
                    )
                    &&& url is Some && id is None ==> step == UploadStepView::Fail(
                        SlackApiErrorView::Missing {
                            api: "files.getUploadURLExternal"@,
                            what: "file_id"@,
                        },
                    )
                }
            }
            &&& upload.stage matches UploadStageView::Sent { file_id } ==> {
                &&& 200 <= status.code <= 299 ==> (step matches UploadStepView::Complete(
                    next,
                    payload,
                ) && next == (FileUploadView {
                    stage: UploadStageView::Shown,
                    file_name: upload.file_name,
                    channel: upload.channel,
                    thread_ts: upload.thread_ts,
                }) && shows(payload, file_id, upload))
                &&& !(200 <= status.code <= 299) ==> step == UploadStepView::Fail(
                    SlackApiErrorView::NotTaken { status: status.text },
                )
            }
            &&& upload.stage is Shown ==> {
                &&& shown is Ok ==> step is Done
                &&& shown matches Err(e) ==> step == UploadStepView::Fail(e)
            }
        }),
{
    if let UploadStageView::Sent { file_id } = upload.stage {
        lemma_shows(file_id, upload);
    }
}

/// Whether a payload shows one file, by its id and under its name, in the channel and
/// thread of an upload.
pub open spec fn shows(payload: JsonView, file_id: Seq<char>, upload: FileUploadView) -> bool {
    &&& payload.list_at("files"@) matches Some(files) && files.len() == 1 && files[0].text_at(
        "id"@,
    ) == Some(file_id) && files[0].text_at("title"@) == Some(upload.file_name)
    &&& payload.text_at("channel_id"@) == Some(upload.channel)
    &&& is_there(upload.thread_ts) ==> payload.text_at("thread_ts"@) == upload.thread_ts
    &&& !is_there(upload.thread_ts) ==> payload.get("thread_ts"@) is None
}

proof fn lemma_shows(file_id: Seq<char>, upload: FileUploadView)
    ensures
        shows(
            completion_payload(file_id, upload.file_name, upload.channel, upload.thread_ts),
            file_id,
            upload,
        ),
{
    reveal_strlit("files");
    reveal_strlit("channel_id");
    reveal_strlit("thread_ts");
    reveal_strlit("id");
    reveal_strlit("title");
    reveal_with_fuel(entry, 4);
    lemma_is_there(upload.thread_ts);
    let payload = completion_payload(
        file_id,
        upload.file_name,
        upload.channel,
        upload.thread_ts,
    );
    let e = payload.entries();
    assert("files"@.len() == 5 && "channel_id"@.len() == 10 && "thread_ts"@.len() == 9);
    assert(e.skip(1)[0] == e[1]);
    if is_there(upload.thread_ts) {
        assert(e.skip(1).skip(1)[0] == e[2]);
    } else {
        assert(e.skip(1).skip(1).len() == 0);
    }
    let file = payload.list_at("files"@)->0[0];
    let f = file.entries();
    assert("id"@.len() == 2 && "title"@.len() == 5);
    assert(f.skip(1)[0] == f[1]);
}

// What is said.
/// What is said where Slack or a file is not as it should be.
pub proof fn law_complaints(api: Seq<char>, status: Seq<char>, body: Seq<char>)
    ensures
        slack_api_error_text(SlackApiErrorView::NotCalled { api }) == "failed calling Slack "@
            + api,
        slack_api_error_text(SlackApiErrorView::Unreadable { api }) == "failed parsing Slack "@
            + api + " response"@,
        slack_api_error_text(SlackApiErrorView::Http { api, status, body }) == "Slack "@ + api
            + " HTTP "@ + status + ": "@ + body,
        slack_api_error_text(SlackApiErrorView::NotOk { api, body }) == "Slack "@ + api
            + " failed: "@ + body,
        slack_api_error_text(SlackApiErrorView::NotOpened { status, body })
            == "Slack apps.connections.open failed (status="@ + status + "): "@ + body,
        slack_api_error_text(SlackApiErrorView::Missing { api, what: body }) == "Slack "@ + api
            + " missing "@ + body,
        slack_api_error_text(SlackApiErrorView::NotTaken { status })
            == "Slack upload_url returned status "@ + status,
        slack_api_error_text(SlackApiErrorView::NotGiven { status })
            == "Slack file download failed with status "@ + status,
        upload_error_text(UploadErrorView::NotAFile(api)) == "output path is not a file: "@ + api,
        upload_error_text(UploadErrorView::TooLarge(api)) == "output file "@ + api
            + " exceeds max upload size "@ + decimal(20_971_520) + " bytes"@,
        upload_error_text(UploadErrorView::BadName) == "output file has invalid utf-8 name"@,
        exceeded_text() == " (skipped: downloaded payload exceeded "@ + decimal(20_971_520)
            + " bytes)"@,
        SlackSetupError::NoBotToken.text()
            == "slack.enabled requires slack.bot_token for outbound replies"@,
        SlackSetupError::NoSigningSecret.text()
            == "slack.enabled with events_api mode requires slack.signing_secret"@,
        SlackSetupError::NoAppToken.text()
            == "slack.enabled with socket mode requires slack.app_token"@,
{
}

/// What is said where a message is refused: how a command is to be written, or what there
/// is not.
pub proof fn law_refusals(name: Seq<char>)
    ensures
        turn_error_text(TurnErrorView::NoAgents) == "at least one agent must be configured"@,
        turn_error_text(TurnErrorView::UnknownAgent(name)) == "agent '"@ + name
            + "' not found. use /agents"@,
        turn_error_text(TurnErrorView::SpawnUsage)
            == "usage: /spawn <agent_id> | <soul prompt> | <workspace_path?>"@,
        turn_error_text(TurnErrorView::BadAgentId)
            == "agent_id must be lowercase letters, numbers, '-' or '_'"@,
        turn_error_text(TurnErrorView::TaskAddUsage) == "usage: /task add <title>"@,
        turn_error_text(TurnErrorView::TaskDoneUsage) == "usage: /task done <task_id>"@,
        turn_error_text(TurnErrorView::RememberUsage) == "usage: /remember <note>"@,
        turn_error_text(TurnErrorView::MemUsage) == "usage: /mem <query>"@,
        turn_error_text(TurnErrorView::DelegateUsage) == "usage: /delegate <agent_id> <task>"@,
        turn_error_text(TurnErrorView::SaveFailed(name)) == name,
{
}

} // verus!
