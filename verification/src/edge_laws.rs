//! What holds at the edges: of chat requests, of the terminal, of calls of Codex, of the
//! onboarding, of the gateway and of sockets.
use crate::chat::{chat_message, ChatRequestView, RefusalView};
use crate::codex::{
    answer_file, call_arguments, codex_error_text, failed_run_text, switched_on,
    CodexArgumentView, CodexErrorView, CodexSettingsView,
};
use crate::config::{AgentView, ConfigView};
use crate::gateway::{chat_url, gateway_address, gateway_url};
use crate::json::{entry, JsonView};
use crate::message_laws::{alike, lemma_blank};
use crate::number::decimal;
use crate::onboarding::{
    answered, main_index, with_main_soul, AnswersView, SlackAnswersView,
};
use crate::orchestrator::{MessageView, ReplyView};
use crate::outside::json_of_text;
use crate::slack_laws::{is_there, lemma_is_there};
use crate::socket::{envelope_action, frame_action, SocketFrame};
use crate::text::{
    ascii_lower, has_prefix, lower_char, same_but_case, trim_end_of, trimmed, CharSet,
};
use crate::text_laws::{all_in, bare, law_bare_stays, law_trim_around, law_trim_end_run};
use crate::tui::{
    banner_text, first_context, line_action, reply_line, TuiActionView, TuiView,
};
use vstd::prelude::*;

verus! {

// Chat.
/// What is left of a field: its text without white space around it, or nothing.
pub open spec fn field(o: Option<Seq<char>>) -> Option<Seq<char>> {
    if is_there(o) {
        Some(trimmed(o->0))
    } else {
        None
    }
}

/// Whether a field is at most 128 characters long.
pub open spec fn fits(o: Option<Seq<char>>) -> bool {
    is_there(o) ==> trimmed(o->0).len() <= 128
}

/// A chat request is taken as a message where it has a text of at most 16000 characters
/// and its fields are not too long, with each of these in its place; it comes from the
/// interface where it does not say from where. Otherwise it is refused, with the first
/// reason there is.
pub proof fn law_chat_requests_are_read(req: ChatRequestView)
    ensures
        !is_there(Some(req.text)) ==> chat_message(req) == Err::<MessageView, RefusalView>(
            RefusalView { status: 400, error: "text must not be empty"@ },
        ),
        trimmed(req.text).len() > 16_000 ==> chat_message(req) == Err::<MessageView, RefusalView>(
            RefusalView { status: 413, error: "text must be <= "@ + decimal(16_000) + " chars"@ },
        ),
        is_there(Some(req.text)) && trimmed(req.text).len() <= 16_000 ==> {
            let refused = |name: Seq<char>|
                Err::<MessageView, RefusalView>(
                    RefusalView {
                        status: 400,
                        error: name + (" must be <= "@ + decimal(128) + " chars"@),
                    },
                );
            if !fits(req.source) {
                chat_message(req) == refused("source"@)
            } else if !fits(req.user) {
                chat_message(req) == refused("user"@)
            } else if !fits(req.session) {
                chat_message(req) == refused("session"@)
            } else if !fits(req.agent_id) {
                chat_message(req) == refused("agent_id"@)
            } else {
                chat_message(req) == Ok::<MessageView, RefusalView>(
                    MessageView {
                        source: if is_there(req.source) {
                            trimmed(req.source->0)
                        } else {
                            "api"@
                        },
                        user: field(req.user),
                        session: field(req.session),
                        agent_id: field(req.agent_id),
                        text: trimmed(req.text),
                    },
                )
            }
        },
{
    reveal_strlit("api");
    lemma_is_there(Some(req.text));
    lemma_is_there(req.source);
    lemma_is_there(req.user);
    lemma_is_there(req.session);
    lemma_is_there(req.agent_id);
    reveal_strlit("text");
    reveal_strlit("text must be <= ");
    reveal_strlit(" must be <= ");
    assert("text"@ + " must be <= "@ =~= "text must be <= "@);
    let tail = " must be <= "@ + decimal(128) + " chars"@;
    assert("source"@ + " must be <= "@ + decimal(128) + " chars"@ =~= "source"@ + tail);
    assert("user"@ + " must be <= "@ + decimal(128) + " chars"@ =~= "user"@ + tail);
    assert("session"@ + " must be <= "@ + decimal(128) + " chars"@ =~= "session"@ + tail);
    assert("agent_id"@ + " must be <= "@ + decimal(128) + " chars"@ =~= "agent_id"@ + tail);
}

// The terminal.
/// A line of the terminal that is no control is sent as it is, from the terminal, by its
/// user, in the session and for the agent that are set; nothing is sent of a blank line.
pub proof fn law_lines_are_sent(
    context: TuiView,
    before: Seq<char>,
    text: Seq<char>,
    after: Seq<char>,
    user: Seq<char>,
)
    requires
        all_in(before, CharSet::Space),
        all_in(after, CharSet::Space),
        bare(text, CharSet::Space),
        !same_but_case(text, "/exit"@),
        !same_but_case(text, "/who"@),
        !has_prefix(text, "/session "@),
        !has_prefix(text, "/agent "@),
    ensures
        line_action(context, before + text + after, user) == (
            context,
            TuiActionView::Send(
                ChatRequestView {
                    text,
                    source: Some("tui"@),
                    user: Some(user),
                    session: Some(context.session),
                    agent_id: Some(context.agent),
                },
            ),
        ),
        line_action(context, before, user) == (context, TuiActionView::Ignore),
{
    law_trim_around(before, text, after, CharSet::Space);
    lemma_blank(before);
}

/// The controls of the terminal: `/session` and `/agent` set what the next lines are sent
/// in and for, `/who` shows what is set, and `/exit` ends it, the last two in any case of
/// letters.
pub proof fn law_controls(context: TuiView, name: Seq<char>, line: Seq<char>, user: Seq<char>)
    requires
        bare(name, CharSet::Space),
    ensures
        line_action(context, "/session "@ + name, user) == (
            TuiView { session: name, agent: context.agent },
            TuiActionView::Show("session -> "@ + name),
        ),
        line_action(context, "/agent "@ + name, user) == (
            TuiView { session: context.session, agent: name },
            TuiActionView::Show("agent -> "@ + name),
        ),
        alike(line, "/who"@) ==> line_action(context, line, user) == (
            context,
            TuiActionView::Show("session="@ + context.session + " agent="@ + context.agent),
        ),
        alike(line, "/exit"@) ==> line_action(context, line, user) == (
            context,
            TuiActionView::Exit,
        ),
{
    reveal_strlit("/session ");
    reveal_strlit("/agent ");
    reveal_strlit("/exit");
    reveal_strlit("/who");
    let s = "/session "@ + name;
    let a = "/agent "@ + name;
    assert(s[0] == '/' && s.last() == name.last());
    assert(a[0] == '/' && a.last() == name.last());
    law_bare_stays(s, CharSet::Space);
    law_bare_stays(a, CharSet::Space);
    law_bare_stays(name, CharSet::Space);
    assert(s.take(9) =~= "/session "@ && s.skip(9) =~= name);
    assert(a.take(7) =~= "/agent "@ && a.skip(7) =~= name);
    assert(ascii_lower(s).len() == s.len() && ascii_lower(a).len() == a.len());
    assert(ascii_lower("/exit"@).len() == 5 && ascii_lower("/who"@).len() == 4);
    if has_prefix(a, "/session "@) {
        assert(a.take(9)[1] == 's');
        assert(a[1] == 'a');
    }
    if alike(line, "/who"@) {
        lemma_word(line, "/who"@);
        assert(ascii_lower(line).len() == 4);
    }
    if alike(line, "/exit"@) {
        lemma_word(line, "/exit"@);
    }
}

proof fn lemma_word(line: Seq<char>, name: Seq<char>)
    requires
        alike(line, name),
        name.len() > 1,
        name[0] == '/',
        'a' <= name.last() <= 'z',
    ensures
        trimmed(line) == line,
        same_but_case(line, name),
{
    assert(lower_char(line[0]) == lower_char(name[0]));
    assert(lower_char(line[line.len() - 1]) == lower_char(name[name.len() - 1]));
    law_bare_stays(line, CharSet::Space);
    assert(ascii_lower(line) =~= ascii_lower(name)) by {
        assert forall|i: int| 0 <= i < line.len() implies ascii_lower(line)[i] == ascii_lower(
            name,
        )[i] by {
            assert(lower_char(line[i]) == lower_char(name[i]));
        }
    }
}

/// The terminal starts in the session and for the agent that are asked for, or else in
/// its own session and for the main agent.
pub proof fn law_terminal_starts(session: Seq<char>, agent: Seq<char>)
    ensures
        first_context(Some(session), Some(agent)) == (TuiView { session, agent }),
        first_context(None, Some(agent)) == (TuiView { session: "tui:main"@, agent }),
        first_context(Some(session), None) == (TuiView { session, agent: "main"@ }),
        first_context(None, None) == (TuiView { session: "tui:main"@, agent: "main"@ }),
{
}

/// A reply is shown with its agent, its session, the start of its run's name, and its
/// words.
pub proof fn law_replies_are_shown(reply: ReplyView)
    ensures
        reply.run_id.len() <= 8 ==> reply_line(reply) == reply.agent_id + " ["@ + reply.session
            + "|run:"@ + reply.run_id + "]> "@ + reply.reply,
        reply.run_id.len() > 8 ==> reply_line(reply) == reply.agent_id + " ["@ + reply.session
            + "|run:"@ + reply.run_id.take(8) + "]> "@ + reply.reply,
{
}

/// What is shown at the start names the gateway, the session and the agent.
pub proof fn law_the_banner_names_them(url: Seq<char>, context: TuiView)
    ensures
        banner_text(url, context) == "OpenOrchestrator TUI\nGateway: "@ + url + "\nSession: "@
            + context.session + "\nAgent: "@ + context.agent
            + "\nLocal controls: /session <id>, /agent <id>, /who, /exit. Everything else is sent."@,
{
}

// Codex.
/// Codex is run in the sandbox that is asked for, or else in one that lets it write where
/// it works, unless it is to run without one; with the file for its answer, in the
/// workspace, with the prompt, and with the model that is asked for, where one is.
pub proof fn law_codex_is_called(
    prompt: Seq<char>,
    model: Option<Seq<char>>,
    settings: CodexSettingsView,
)
    ensures
        ({
            let text = |s: Seq<char>| CodexArgumentView::Text(s);
            let args = call_arguments(prompt, model, settings);
            let off = switched_on(settings.bypass_sandbox);
            let n: int = if off {
                3
            } else {
                4
            };
            &&& args[0] == text("exec"@)
            &&& args[1] == text("--skip-git-repo-check"@)
            &&& off ==> args[2] == text("--dangerously-bypass-approvals-and-sandbox"@)
            &&& !off ==> args[2] == text("--sandbox"@) && args[3] == text(
                if is_there(settings.sandbox) {
                    trimmed(settings.sandbox->0)
                } else {
                    "workspace-write"@
                },
            )
            &&& args[n] == text("--output-last-message"@)
            &&& args[n + 1] is OutputFile
            &&& args[n + 2] == text("--cd"@)
            &&& args[n + 3] is Workspace
            &&& args[n + 4] == text(prompt)
            &&& is_there(model) ==> args.len() == n + 7 && args[n + 5] == text("--model"@)
                && args[n + 6] == text(trimmed(model->0))
            &&& !is_there(model) ==> args.len() == n + 5
        }),
{
    lemma_is_there(model);
    lemma_is_there(settings.sandbox);
}

/// A switch is on where it says `1`, `true`, `yes` or `on`, in any case of letters and
/// with white space around it or not. It is off where it says anything else, or nothing.
pub proof fn law_switches(before: Seq<char>, word: Seq<char>, after: Seq<char>)
    requires
        all_in(before, CharSet::Space),
        all_in(after, CharSet::Space),
        bare(word, CharSet::Space),
    ensures
        switched_on(Some(before + word + after)) <==> alike(word, "1"@) || alike(word, "true"@)
            || alike(word, "yes"@) || alike(word, "on"@),
        !switched_on(Some(before)),
        !switched_on(None),
{
    reveal_strlit("1");
    reveal_strlit("true");
    reveal_strlit("yes");
    reveal_strlit("on");
    law_trim_around(before, word, after, CharSet::Space);
    lemma_blank(before);
    lemma_is_word(word, "1"@);
    lemma_is_word(word, "true"@);
    lemma_is_word(word, "yes"@);
    lemma_is_word(word, "on"@);
    assert(ascii_lower(trimmed(before)).len() == 0);
}

proof fn lemma_is_word(word: Seq<char>, small: Seq<char>)
    requires
        forall|i: int| 0 <= i < small.len() ==> lower_char(#[trigger] small[i]) == small[i],
    ensures
        ascii_lower(word) == small <==> alike(word, small),
{
    if ascii_lower(word) == small {
        assert(word.len() == small.len());
        assert forall|i: int| 0 <= i < word.len() implies lower_char(#[trigger] word[i])
            == lower_char(small[i]) by {
            assert(ascii_lower(word)[i] == small[i]);
        }
    }
    if alike(word, small) {
        assert forall|i: int| 0 <= i < word.len() implies ascii_lower(word)[i] == small[i] by {
            assert(lower_char(word[i]) == lower_char(small[i]));
        }
        assert(ascii_lower(word) =~= small);
    }
}

/// Each run has a file of its own for its answer.
pub proof fn law_runs_have_their_own_files(a: Seq<char>, b: Seq<char>)
    ensures
        answer_file(a) == "openorchestrator-codex-"@ + a + ".txt"@,
        answer_file(a) == answer_file(b) ==> a == b,
{
    reveal_strlit("openorchestrator-codex-");
    reveal_strlit(".txt");
    let n = "openorchestrator-codex-"@.len() as int;
    assert(answer_file(a).subrange(n, n + a.len()) =~= a);
    assert(answer_file(b).subrange(n, n + b.len()) =~= b);
}

/// What is said of a run that failed names its status and what it wrote.
pub proof fn law_failed_runs_are_told(
    status: Seq<char>,
    stderr: Seq<char>,
    stdout: Seq<char>,
    workspace: Seq<char>,
)
    ensures
        failed_run_text(status, stderr, stdout) == "codex exec failed (status="@ + status + "): "@
            + trimmed(stderr) + " "@ + trimmed(stdout),
        codex_error_text(CodexErrorView::MissingWorkspace(workspace))
            == "workspace does not exist: "@ + workspace,
        codex_error_text(CodexErrorView::Failed(status)) == status,
        codex_error_text(CodexErrorView::EmptyResponse) == "codex returned an empty response"@,
{
}

// Onboarding.
/// What is answered is configured: where the brain works, its model where one is named,
/// the address of the gateway, and Slack where it is wanted.
pub proof fn law_answers_are_configured(cfg: ConfigView, answers: AnswersView)
    ensures
        ({
            let after = answered(cfg, answers);
            &&& after.brain.workspace == answers.workspace
            &&& after.brain.model == field(Some(answers.model))
            &&& after.brain.provider == cfg.brain.provider
            &&& after.gateway.host == answers.host
            &&& after.gateway.port == answers.port
            &&& after.agents == cfg.agents
            &&& after.memory == cfg.memory
            &&& after.version == cfg.version
            &&& after.slack.enabled == (answers.slack is Some)
            &&& after.slack.mode == cfg.slack.mode
        }),
{
    lemma_is_there(Some(answers.model));
}

/// What is answered about Slack is kept as it was written, where it was filled in; what
/// was not is not set, but for a bot token that was there before. Who the bot is stays.
pub proof fn law_slack_answers_are_configured(
    cfg: ConfigView,
    answers: AnswersView,
    s: SlackAnswersView,
)
    requires
        answers.slack == Some(s),
    ensures
        ({
            let slack = answered(cfg, answers).slack;
            let kept = |t: Seq<char>|
                if is_there(Some(t)) {
                    Some(t)
                } else {
                    None
                };
            &&& is_there(Some(s.bot_token)) ==> slack.bot_token == Some(s.bot_token)
            &&& !is_there(Some(s.bot_token)) && is_there(cfg.slack.bot_token) ==> slack.bot_token
                == cfg.slack.bot_token
            &&& !is_there(Some(s.bot_token)) && !is_there(cfg.slack.bot_token) ==> slack.bot_token
                is None
            &&& slack.signing_secret == kept(s.signing_secret)
            &&& slack.app_token == kept(s.app_token)
            &&& slack.default_channel == kept(s.default_channel)
            &&& slack.bot_user_id == cfg.slack.bot_user_id
        }),
{
    lemma_is_there(Some(s.bot_token));
    lemma_is_there(cfg.slack.bot_token);
    lemma_is_there(Some(s.signing_secret));
    lemma_is_there(Some(s.app_token));
    lemma_is_there(Some(s.default_channel));
}

/// The soul that is given goes to the first agent named `main`, under its title; every
/// other agent and all else stays. Nothing changes where there is no such agent.
pub proof fn law_the_main_soul_is_set(cfg: ConfigView, soul: Seq<char>, i: int)
    requires
        0 <= i < cfg.agents.len() ==> cfg.agents[i].id == "main"@,
        0 <= i <= cfg.agents.len(),
        forall|j: int| 0 <= j < i ==> (#[trigger] cfg.agents[j]).id != "main"@,
    ensures
        i < cfg.agents.len() ==> with_main_soul(cfg, soul) == (ConfigView {
            agents: cfg.agents.update(
                i,
                AgentView {
                    id: "main"@,
                    name: "Main Brain"@,
                    soul,
                    workspace: cfg.agents[i].workspace,
                },
            ),
            ..cfg
        }),
        i == cfg.agents.len() ==> with_main_soul(cfg, soul) == cfg,
{
    lemma_main_index(cfg.agents, i);
}

proof fn lemma_main_index(agents: Seq<AgentView>, i: int)
    requires
        0 <= i <= agents.len(),
        i < agents.len() ==> agents[i].id == "main"@,
        forall|j: int| 0 <= j < i ==> (#[trigger] agents[j]).id != "main"@,
    ensures
        main_index(agents) == i,
    decreases agents.len(),
{
    if i > 0 {
        assert(agents[0].id != "main"@);
        let rest = agents.skip(1);
        assert forall|j: int| 0 <= j < i - 1 implies (#[trigger] rest[j]).id != "main"@ by {
            assert(rest[j] == agents[j + 1]);
        }
        lemma_main_index(rest, i - 1);
    }
}

// The gateway.
/// The gateway listens where it is told to, or else where the configuration says.
pub proof fn law_the_gateway_listens(cfg: ConfigView, host: Seq<char>, port: u16)
    ensures
        gateway_address(cfg, Some(host), Some(port)) == (host, port),
        gateway_address(cfg, None, Some(port)) == (cfg.gateway.host, port),
        gateway_address(cfg, Some(host), None) == (host, cfg.gateway.port),
        gateway_address(cfg, None, None) == (cfg.gateway.host, cfg.gateway.port),
{
}

/// The gateway is reached where it is told to be, or else at the address that the
/// configuration says; chats go to one path there, whether its address ends in `/` or not.
pub proof fn law_the_gateway_is_reached(cfg: ConfigView, url: Seq<char>, slashes: Seq<char>)
    requires
        url.len() > 0 && url.last() != '/',
        forall|i: int| 0 <= i < slashes.len() ==> #[trigger] slashes[i] == '/',
    ensures
        gateway_url(cfg, Some(url)) == url,
        gateway_url(cfg, None) == "http://"@ + cfg.gateway.host + ":"@ + decimal(
            cfg.gateway.port as nat,
        ),
        chat_url(url + slashes) == url + "/api/chat"@,
{
    reveal_strlit("/");
    assert("/"@ =~= seq!['/']);
    assert("/"@[0] == '/');
    law_trim_end_run(url, slashes, CharSet::OneOf("/"));
    assert(trim_end_of(url, CharSet::OneOf("/")) == url);
}

// Sockets.
/// An envelope with an id is acknowledged by that id, one of events hands on its payload,
/// and one that disconnects ends the connection; none of the others does.
pub proof fn law_envelopes(envelope: JsonView)
    ensures
        ({
            let action = envelope_action(envelope);
            let kind = envelope.text_at("type"@);
            &&& envelope.text_at("envelope_id"@) is None ==> action.ack is None
            &&& envelope.text_at("envelope_id"@) matches Some(id) ==> (action.ack matches Some(ack)
                && ack.text_at("envelope_id"@) == Some(id))
            &&& kind == Some("events_api"@) ==> (envelope.get("payload"@) matches Some(payload)
                ==> action.event == Some(payload))
            &&& kind == Some("events_api"@) && envelope.get("payload"@) is None ==> action.event
                == Some(JsonView::Null)
            &&& kind != Some("events_api"@) ==> action.event is None
            &&& action.stop <==> kind == Some("disconnect"@)
            &&& !action.pong
            &&& !action.unreadable
        }),
{
    reveal_with_fuel(entry, 2);
}

/// A ping is answered, an end is an end, a text is read as an envelope or told to be
/// unreadable, and nothing is done about other frames.
pub proof fn law_frames(frame: SocketFrame)
    ensures
        ({
            let action = frame_action(frame);
            let asks = action.ack is Some || action.event is Some;
            &&& frame is Ping ==> action.pong && !action.stop && !asks && !action.unreadable
            &&& frame is Close ==> action.stop && !action.pong && !asks && !action.unreadable
            &&& frame is Other ==> !action.pong && !action.stop && !asks && !action.unreadable
            &&& frame matches SocketFrame::Text(text) ==> {
                &&& json_of_text(text@) matches Some(envelope) ==> action == envelope_action(
                    envelope,
                )
                &&& json_of_text(text@) is None ==> action.unreadable && !action.pong
                    && !action.stop && !asks
            }
        }),
{
}

} // verus!
