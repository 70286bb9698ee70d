//! The terminal chat: what each line asks for.
use crate::chat::{ChatRequest, ChatRequestView, ChatResponse};
use crate::config::AppConfig;
use crate::gateway::{api_url, base_url, chat_url};
use crate::orchestrator::ReplyView;
use crate::state::first_items;
use crate::text::{
    after_prefix, ascii_lower, copy_text, eq_ignore_case, has_prefix, opt_str, same_but_case,
    strip_prefix, text_to, trim, trim_start_of, trimmed, CharSet,
};
use vstd::prelude::*;

verus! {

/// The session and the agent that are talked to.
#[derive(Debug)]
pub struct TuiContext {
    pub session: String,
    pub agent: String,
}

#[verifier::ext_equal]
pub struct TuiView {
    pub session: Seq<char>,
    pub agent: Seq<char>,
}

impl View for TuiContext {
    type V = TuiView;

    open spec fn view(&self) -> TuiView {
        TuiView { session: self.session@, agent: self.agent@ }
    }
}

/// What a line asks for.
#[derive(Debug)]
pub enum TuiAction {
    /// Nothing.
    Ignore,
    /// To end.
    Exit,
    /// To show this.
    Show(String),
    /// To send this to the gateway.
    Send(ChatRequest),
}

pub enum TuiActionView {
    Ignore,
    Exit,
    Show(Seq<char>),
    Send(ChatRequestView),
}

impl View for TuiAction {
    type V = TuiActionView;

    open spec fn view(&self) -> TuiActionView {
        match self {
            TuiAction::Ignore => TuiActionView::Ignore,
            TuiAction::Exit => TuiActionView::Exit,
            TuiAction::Show(text) => TuiActionView::Show(text@),
            TuiAction::Send(request) => TuiActionView::Send(request@),
        }
    }
}

/// The session and the agent to start with.
pub open spec fn first_context(session: Option<Seq<char>>, agent: Option<Seq<char>>) -> TuiView {
    TuiView {
        session: match session {
            Some(s) => s,
            None => "tui:main"@,
        },
        agent: match agent {
            Some(s) => s,
            None => "main"@,
        },
    }
}

/// What a chat starts with: the gateway, its chat endpoint, and the session and
/// the agent that are talked to.
#[derive(Debug)]
pub struct TuiPlan {
    pub base_url: String,
    pub api_url: String,
    pub context: TuiContext,
}

/// What a chat starts with.
pub fn run_tui(
    cfg: &AppConfig,
    gateway_url: Option<&str>,
    session_override: Option<&str>,
    agent_override: Option<&str>,
) -> (r: TuiPlan)
    ensures
        r.base_url@ == crate::gateway::gateway_url(cfg@, opt_str(gateway_url)),
        r.api_url@ == chat_url(r.base_url@),
        r.context@ == first_context(opt_str(session_override), opt_str(agent_override)),
{
    let base_url = base_url(cfg, gateway_url);
    let api_url = api_url(base_url.as_str());
    let session = match session_override {
        Some(s) => copy_text(s),
        None => copy_text("tui:main"),
    };
    let agent = match agent_override {
        Some(s) => copy_text(s),
        None => copy_text("main"),
    };
    TuiPlan { base_url, api_url, context: TuiContext { session, agent } }
}

/// What is shown at the start.
pub open spec fn banner_text(base_url: Seq<char>, context: TuiView) -> Seq<char> {
    "OpenOrchestrator TUI\nGateway: "@ + base_url + "\nSession: "@ + context.session + "\nAgent: "@
        + context.agent + "\nLocal controls: /session <id>, /agent <id>, /who, /exit. Everything else is sent."@
}

/// What is shown at the start.
pub fn banner(base_url: &str, context: &TuiContext) -> (r: String)
    ensures
        r@ == banner_text(base_url@, context@),
{
    let mut out = copy_text("OpenOrchestrator TUI\nGateway: ");
    out.append(base_url);
    out.append("\nSession: ");
    out.append(context.session.as_str());
    out.append("\nAgent: ");
    out.append(context.agent.as_str());
    out.append("\nLocal controls: /session <id>, /agent <id>, /who, /exit. Everything else is sent.");
    out
}

/// What a line asks for, and the session and the agent that are talked to after
/// it. Four controls are local; every other line that is not blank is sent.
pub open spec fn line_action(context: TuiView, line: Seq<char>, user: Seq<char>) -> (
    TuiView,
    TuiActionView,
) {
    let t = trimmed(line);
    if t.len() == 0 {
        (context, TuiActionView::Ignore)
    } else if same_but_case(t, "/exit"@) {
        (context, TuiActionView::Exit)
    } else if same_but_case(t, "/who"@) {
        (
            context,
            TuiActionView::Show("session="@ + context.session + " agent="@ + context.agent),
        )
    } else if let Some(rest) = after_prefix(t, "/session "@) {
        let next = trimmed(rest);
        if next.len() == 0 {
            (context, TuiActionView::Ignore)
        } else {
            (TuiView { session: next, ..context }, TuiActionView::Show("session -> "@ + next))
        }
    } else if let Some(rest) = after_prefix(t, "/agent "@) {
        let next = trimmed(rest);
        if next.len() == 0 {
            (context, TuiActionView::Ignore)
        } else {
            (TuiView { agent: next, ..context }, TuiActionView::Show("agent -> "@ + next))
        }
    } else {
        (
            context,
            TuiActionView::Send(
                ChatRequestView {
                    text: t,
                    source: Some("tui"@),
                    user: Some(user),
                    session: Some(context.session),
                    agent_id: Some(context.agent),
                },
            ),
        )
    }
}

impl TuiContext {
    /// What a line of a user asks for.
    pub fn read_line(&mut self, line: &str, user: &str) -> (r: TuiAction)
        ensures
            (final(self)@, r@) == line_action(old(self)@, line@, user@),
    {
        let t = trim(line);
        if t.is_empty() {
            return TuiAction::Ignore;
        }
        if eq_ignore_case(t, "/exit") {
            return TuiAction::Exit;
        }
        if eq_ignore_case(t, "/who") {
            let mut out = copy_text("session=");
            out.append(self.session.as_str());
            out.append(" agent=");
            out.append(self.agent.as_str());
            return TuiAction::Show(out);
        }
        if let Some(rest) = strip_prefix(t, "/session ") {
            let next = trim(rest);
            if next.is_empty() {
                return TuiAction::Ignore;
            }
            self.session = copy_text(next);
            let mut out = copy_text("session -> ");
            out.append(next);
            return TuiAction::Show(out);
        }
        if let Some(rest) = strip_prefix(t, "/agent ") {
            let next = trim(rest);
            if next.is_empty() {
                return TuiAction::Ignore;
            }
            self.agent = copy_text(next);
            let mut out = copy_text("agent -> ");
            out.append(next);
            return TuiAction::Show(out);
        }
        TuiAction::Send(
            ChatRequest {
                text: copy_text(t),
                source: Some(copy_text("tui")),
                user: Some(copy_text(user)),
                session: Some(self.session.clone()),
                agent_id: Some(self.agent.clone()),
            },
        )
    }
}

/// How a reply is shown, with the start of its run's name.
pub open spec fn reply_line(reply: ReplyView) -> Seq<char> {
    reply.agent_id + " ["@ + reply.session + "|run:"@ + first_items(reply.run_id, 8) + "]> "@
        + reply.reply
}

/// How a reply is shown.
pub fn show_reply(reply: &ChatResponse) -> (r: String)
    ensures
        r@ == reply_line(reply@),
{
    let mut out = reply.agent_id.clone();
    out.append(" [");
    out.append(reply.session.as_str());
    out.append("|run:");
    let run: &str = reply.run_id.as_str();
    if run.unicode_len() > 8 {
        out.append(text_to(run, 8));
    } else {
        out.append(run);
    }
    out.append("]> ");
    out.append(reply.reply.as_str());
    out
}

/// How an answer that is no success is shown; its body may be unknown.
pub fn show_gateway_error(body: Option<&str>) -> (r: String)
    ensures
        r@ == "gateway error: "@ + (match opt_str(body) {
            Some(b) => b,
            None => "<no body>"@,
        }),
{
    let mut out = copy_text("gateway error: ");
    match body {
        Some(b) => out.append(b),
        None => out.append("<no body>"),
    }
    out
}

/// Who the user is, by what the environment says.
pub fn whoami(user: Option<&str>, username: Option<&str>) -> (r: String)
    ensures
        r@ == (match (opt_str(user), opt_str(username)) {
            (Some(u), _) => u,
            (None, Some(u)) => u,
            (None, None) => "tui-user"@,
        }),
{
    match (user, username) {
        (Some(u), _) => copy_text(u),
        (None, Some(u)) => copy_text(u),
        (None, None) => copy_text("tui-user"),
    }
}

// Laws.
/// Whether a line is one of the four local controls: `/exit` and `/who` in any
/// case of letters, `/session` and `/agent` with what follows them.
pub open spec fn is_local_control(line: Seq<char>) -> bool {
    let t = trimmed(line);
    same_but_case(t, "/exit"@) || same_but_case(t, "/who"@) || has_prefix(t, "/session "@)
        || has_prefix(t, "/agent "@)
}

/// Every line that is not blank and is no local control is sent, and no other is.
pub proof fn law_everything_else_is_sent(context: TuiView, line: Seq<char>, user: Seq<char>)
    ensures
        line_action(context, line, user).1 is Send <==> trimmed(line).len() > 0
            && !is_local_control(line),
{
}

/// `/help` is sent, as the command of the orchestrator that it is.
pub proof fn law_help_is_sent(context: TuiView, user: Seq<char>)
    ensures
        line_action(context, "/help"@, user) == (
            context,
            TuiActionView::Send(
                ChatRequestView {
                    text: "/help"@,
                    source: Some("tui"@),
                    user: Some(user),
                    session: Some(context.session),
                    agent_id: Some(context.agent),
                },
            ),
        ),
{
    reveal_strlit("/help");
    reveal_strlit("/exit");
    reveal_strlit("/who");
    reveal_strlit("/session ");
    reveal_strlit("/agent ");
    let t = "/help"@;
    assert(trim_start_of(t, CharSet::Space) == t);
    assert(trimmed(t) == t);
    assert(ascii_lower(t)[1] == 'h');
    assert(ascii_lower("/exit"@)[1] == 'e');
    assert(ascii_lower(t).len() == 5);
    assert(ascii_lower("/who"@).len() == 4);
}

/// A line that is not sent switches at most the session (by `/session`) or the
/// agent (by `/agent`), to what follows without white space around it.
pub proof fn law_controls_switch_the_context(context: TuiView, line: Seq<char>, user: Seq<char>)
    ensures
        ({
            let t = trimmed(line);
            let (after, action) = line_action(context, line, user);
            &&& (after_prefix(t, "/session "@) matches Some(rest) && trimmed(rest).len() > 0)
                ==> after == (TuiView {
                session: trimmed(after_prefix(t, "/session "@)->0),
                ..context
            })
            &&& (after_prefix(t, "/agent "@) matches Some(rest) && trimmed(rest).len() > 0)
                ==> after == (TuiView {
                agent: trimmed(after_prefix(t, "/agent "@)->0),
                ..context
            })
            &&& !has_prefix(t, "/session "@) && !has_prefix(t, "/agent "@) ==> after == context
            &&& same_but_case(t, "/exit"@) ==> action is Exit
        }),
{
    reveal_strlit("/exit");
    reveal_strlit("/who");
    reveal_strlit("/session ");
    reveal_strlit("/agent ");
    let t = trimmed(line);
    assert(ascii_lower(t).len() == t.len());
    assert(ascii_lower("/exit"@).len() == 5);
    assert(ascii_lower("/who"@).len() == 4);
    if has_prefix(t, "/session "@) && has_prefix(t, "/agent "@) {
        assert(t.take("/session "@.len() as int)[1] == t.take("/agent "@.len() as int)[1]);
    }
}

/// A line that is sent is sent to the session and the agent that are talked to,
/// which stay as they are.
pub proof fn law_sent_lines_keep_the_context(context: TuiView, line: Seq<char>, user: Seq<char>)
    ensures
        ({
            let (after, action) = line_action(context, line, user);
            action matches TuiActionView::Send(request) ==> after == context && request.text
                == trimmed(line) && request.session == Some(context.session) && request.agent_id
                == Some(context.agent)
        }),
{
}

} // verus!
