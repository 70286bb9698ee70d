//! The orchestrator: how a message becomes a reply. What only the outside can
//! do (saving, running Codex) is asked for in steps; each step says what is to
//! be done next, and the next step is told what came of it.
use crate::agents::{
    build_workspace_agent_soul, inline_delegate, inline_spawn, is_valid_agent_id,
    normalize_agent_id, normalized_id, parse_inline_delegate_request,
    parse_inline_spawn_request, valid_id, workspace_soul,
};
use crate::codex::CodexRunner;
use crate::commands::{
    agents_text, command_of, delegation, help_lines, help_text, hits_text, parse_command,
    parse_delegation, parse_spawn, render_agents, render_hits, render_tasks, spawn_request,
    tasks_text, Command, CommandView,
};
use crate::config::{
    agent_views, normalize_workspace_binding_in, normalized_binding, AgentConfig, AgentView,
    AppConfig, ConfigView,
};
use crate::number::{decimal, decimal_text, parse_u64, unsigned_value};
use crate::outside::{home_dir, new_uuid, utc_now, uuid_form};
use crate::paths::{resolve_path_in, resolved, FilePath, FilePathView};
use crate::prompt::{build_prompt, prompt_text};
use crate::state::{
    has_task, long_tail, open_tasks, recent, with_conversation, with_memory, with_task,
    with_task_done, ConversationItem, ConversationView, StateStore, StoreView, Timestamp,
};
use crate::text::{
    as_opt_str, copy_opt, copy_text, eq_ignore_case, has_prefix, opt_str, opt_text, present,
    same_but_case, starts_with, trim, trim_present, trim_start_matches, trim_start_of, trimmed,
    CharSet,
};
use vstd::prelude::*;

verus! {

// What goes in and what comes out.
#[derive(Debug)]
pub struct IncomingMessage {
    pub source: String,
    pub user: Option<String>,
    pub session: Option<String>,
    pub agent_id: Option<String>,
    pub text: String,
}

impl Clone for IncomingMessage {
    fn clone(&self) -> (r: Self)
        ensures
            r@ == self@,
    {
        IncomingMessage {
            source: self.source.clone(),
            user: copy_opt(&self.user),
            session: copy_opt(&self.session),
            agent_id: copy_opt(&self.agent_id),
            text: self.text.clone(),
        }
    }
}

#[derive(Debug)]
pub struct AgentReply {
    pub run_id: String,
    pub agent_id: String,
    pub session: String,
    pub reply: String,
}

impl Clone for AgentReply {
    fn clone(&self) -> (r: Self)
        ensures
            r@ == self@,
    {
        AgentReply {
            run_id: self.run_id.clone(),
            agent_id: self.agent_id.clone(),
            session: self.session.clone(),
            reply: self.reply.clone(),
        }
    }
}

/// Why a message has no reply.
#[derive(Debug)]
pub enum TurnError {
    NoAgents,
    UnknownAgent(String),
    SpawnUsage,
    BadAgentId,
    TaskAddUsage,
    TaskDoneUsage,
    RememberUsage,
    MemUsage,
    DelegateUsage,
    /// Something could not be saved; this is what is said of it.
    SaveFailed(String),
}

/// The agent that a message is for, where it works, and the model it is run
/// with.
#[derive(Debug)]
pub struct AgentContext {
    pub agent: AgentConfig,
    pub workspace: FilePath,
    pub model: Option<String>,
}

/// A run of Codex that answers a message.
#[derive(Debug)]
pub struct CodexRun {
    pub agent_id: String,
    pub workspace: FilePath,
    pub prompt: String,
    pub model: Option<String>,
    /// Whether the agent answers for another.
    pub delegated: bool,
}

/// What a message leads to.
#[derive(Debug)]
pub enum Outcome {
    /// A reply.
    Reply(String),
    /// A reply, once the memory is saved.
    SaveState(String),
    /// A reply, once the configuration is saved.
    SaveConfig(String),
    /// A run of Codex.
    Think(CodexRun),
    /// No reply.
    Fail(TurnError),
}

/// How far a message has come.
#[derive(Debug)]
pub enum Stage {
    /// The message is noted, and the memory is to be saved.
    MessageNoted,
    /// This will be replied, once what the message changed is saved.
    EffectMade(String),
    /// An agent is asked.
    Thinking { agent_id: String, delegated: bool },
    /// This reply is noted, and the memory is to be saved.
    ReplyNoted(String),
}

/// A message on its way to a reply.
#[derive(Debug)]
pub struct Turn {
    pub run_id: String,
    pub session: String,
    pub source: String,
    pub text: String,
    pub context: AgentContext,
    pub stage: Stage,
}

/// What is to be done next for a message.
#[derive(Debug)]
pub enum Step {
    SaveState(Turn),
    SaveConfig(Turn),
    RunCodex(Turn, CodexRun),
    Done(AgentReply),
    Fail(TurnError),
}

/// The orchestrator: its configuration, its memory, and how Codex is run.
#[derive(Debug)]
pub struct Orchestrator {
    /// What is shown of the path of the configuration file.
    pub config_path: String,
    pub config: AppConfig,
    pub state: StateStore,
    pub codex: CodexRunner,
}

// Views.
#[verifier::ext_equal]
pub struct MessageView {
    pub source: Seq<char>,
    pub user: Option<Seq<char>>,
    pub session: Option<Seq<char>>,
    pub agent_id: Option<Seq<char>>,
    pub text: Seq<char>,
}

#[verifier::ext_equal]
pub struct ReplyView {
    pub run_id: Seq<char>,
    pub agent_id: Seq<char>,
    pub session: Seq<char>,
    pub reply: Seq<char>,
}

pub enum TurnErrorView {
    NoAgents,
    UnknownAgent(Seq<char>),
    SpawnUsage,
    BadAgentId,
    TaskAddUsage,
    TaskDoneUsage,
    RememberUsage,
    MemUsage,
    DelegateUsage,
    SaveFailed(Seq<char>),
}

#[verifier::ext_equal]
pub struct ContextView {
    pub agent: AgentView,
    pub workspace: FilePathView,
    pub model: Option<Seq<char>>,
}

#[verifier::ext_equal]
pub struct CodexRunView {
    pub agent_id: Seq<char>,
    pub workspace: FilePathView,
    pub prompt: Seq<char>,
    pub model: Option<Seq<char>>,
    pub delegated: bool,
}

pub enum OutcomeView {
    Reply(Seq<char>),
    SaveState(Seq<char>),
    SaveConfig(Seq<char>),
    Think(CodexRunView),
    Fail(TurnErrorView),
}

pub enum StageView {
    MessageNoted,
    EffectMade(Seq<char>),
    Thinking { agent_id: Seq<char>, delegated: bool },
    ReplyNoted(Seq<char>),
}

#[verifier::ext_equal]
pub struct TurnView {
    pub run_id: Seq<char>,
    pub session: Seq<char>,
    pub source: Seq<char>,
    pub text: Seq<char>,
    pub context: ContextView,
    pub stage: StageView,
}

pub enum StepView {
    SaveState(TurnView),
    SaveConfig(TurnView),
    RunCodex(TurnView, CodexRunView),
    Done(ReplyView),
    Fail(TurnErrorView),
}

#[verifier::ext_equal]
pub struct OrchestratorView {
    pub config_path: Seq<char>,
    pub config: ConfigView,
    pub state: StoreView,
    pub codex: CodexRunner,
}

impl View for IncomingMessage {
    type V = MessageView;

    open spec fn view(&self) -> MessageView {
        MessageView {
            source: self.source@,
            user: opt_text(self.user),
            session: opt_text(self.session),
            agent_id: opt_text(self.agent_id),
            text: self.text@,
        }
    }
}

impl View for AgentReply {
    type V = ReplyView;

    open spec fn view(&self) -> ReplyView {
        ReplyView {
            run_id: self.run_id@,
            agent_id: self.agent_id@,
            session: self.session@,
            reply: self.reply@,
        }
    }
}

impl View for TurnError {
    type V = TurnErrorView;

    open spec fn view(&self) -> TurnErrorView {
        match self {
            TurnError::NoAgents => TurnErrorView::NoAgents,
            TurnError::UnknownAgent(id) => TurnErrorView::UnknownAgent(id@),
            TurnError::SpawnUsage => TurnErrorView::SpawnUsage,
            TurnError::BadAgentId => TurnErrorView::BadAgentId,
            TurnError::TaskAddUsage => TurnErrorView::TaskAddUsage,
            TurnError::TaskDoneUsage => TurnErrorView::TaskDoneUsage,
            TurnError::RememberUsage => TurnErrorView::RememberUsage,
            TurnError::MemUsage => TurnErrorView::MemUsage,
            TurnError::DelegateUsage => TurnErrorView::DelegateUsage,
            TurnError::SaveFailed(m) => TurnErrorView::SaveFailed(m@),
        }
    }
}

impl View for AgentContext {
    type V = ContextView;

    open spec fn view(&self) -> ContextView {
        ContextView {
            agent: self.agent@,
            workspace: self.workspace@,
            model: opt_text(self.model),
        }
    }
}

impl View for CodexRun {
    type V = CodexRunView;

    open spec fn view(&self) -> CodexRunView {
        CodexRunView {
            agent_id: self.agent_id@,
            workspace: self.workspace@,
            prompt: self.prompt@,
            model: opt_text(self.model),
            delegated: self.delegated,
        }
    }
}

impl View for Outcome {
    type V = OutcomeView;

    open spec fn view(&self) -> OutcomeView {
        match self {
            Outcome::Reply(text) => OutcomeView::Reply(text@),
            Outcome::SaveState(text) => OutcomeView::SaveState(text@),
            Outcome::SaveConfig(text) => OutcomeView::SaveConfig(text@),
            Outcome::Think(run) => OutcomeView::Think(run@),
            Outcome::Fail(e) => OutcomeView::Fail(e@),
        }
    }
}

impl View for Stage {
    type V = StageView;

    open spec fn view(&self) -> StageView {
        match self {
            Stage::MessageNoted => StageView::MessageNoted,
            Stage::EffectMade(reply) => StageView::EffectMade(reply@),
            Stage::Thinking { agent_id, delegated } => StageView::Thinking {
                agent_id: agent_id@,
                delegated: *delegated,
            },
            Stage::ReplyNoted(reply) => StageView::ReplyNoted(reply@),
        }
    }
}

impl View for Turn {
    type V = TurnView;

    open spec fn view(&self) -> TurnView {
        TurnView {
            run_id: self.run_id@,
            session: self.session@,
            source: self.source@,
            text: self.text@,
            context: self.context@,
            stage: self.stage@,
        }
    }
}

impl View for Step {
    type V = StepView;

    open spec fn view(&self) -> StepView {
        match self {
            Step::SaveState(turn) => StepView::SaveState(turn@),
            Step::SaveConfig(turn) => StepView::SaveConfig(turn@),
            Step::RunCodex(turn, run) => StepView::RunCodex(turn@, run@),
            Step::Done(reply) => StepView::Done(reply@),
            Step::Fail(e) => StepView::Fail(e@),
        }
    }
}

impl View for Orchestrator {
    type V = OrchestratorView;

    open spec fn view(&self) -> OrchestratorView {
        OrchestratorView {
            config_path: self.config_path@,
            config: self.config@,
            state: self.state@,
            codex: self.codex,
        }
    }
}

// Errors.
/// What is said of an error.
pub open spec fn turn_error_text(e: TurnErrorView) -> Seq<char> {
    match e {
        TurnErrorView::NoAgents => "at least one agent must be configured"@,
        TurnErrorView::UnknownAgent(id) => "agent '"@ + id + "' not found. use /agents"@,
        TurnErrorView::SpawnUsage =>
            "usage: /spawn <agent_id> | <soul prompt> | <workspace_path?>"@,
        TurnErrorView::BadAgentId =>
            "agent_id must be lowercase letters, numbers, '-' or '_'"@,
        TurnErrorView::TaskAddUsage => "usage: /task add <title>"@,
        TurnErrorView::TaskDoneUsage => "usage: /task done <task_id>"@,
        TurnErrorView::RememberUsage => "usage: /remember <note>"@,
        TurnErrorView::MemUsage => "usage: /mem <query>"@,
        TurnErrorView::DelegateUsage => "usage: /delegate <agent_id> <task>"@,
        TurnErrorView::SaveFailed(m) => m,
    }
}

impl TurnError {
    /// What is said of the error.
    pub fn message(&self) -> (r: String)
        ensures
            r@ == turn_error_text(self@),
    {
        match self {
            TurnError::NoAgents => copy_text("at least one agent must be configured"),
            TurnError::UnknownAgent(id) => {
                let mut out = copy_text("agent '");
                out.append(id.as_str());
                out.append("' not found. use /agents");
                out
            },
            TurnError::SpawnUsage => copy_text(
                "usage: /spawn <agent_id> | <soul prompt> | <workspace_path?>",
            ),
            TurnError::BadAgentId => copy_text(
                "agent_id must be lowercase letters, numbers, '-' or '_'",
            ),
            TurnError::TaskAddUsage => copy_text("usage: /task add <title>"),
            TurnError::TaskDoneUsage => copy_text("usage: /task done <task_id>"),
            TurnError::RememberUsage => copy_text("usage: /remember <note>"),
            TurnError::MemUsage => copy_text("usage: /mem <query>"),
            TurnError::DelegateUsage => copy_text("usage: /delegate <agent_id> <task>"),
            TurnError::SaveFailed(m) => m.clone(),
        }
    }
}

// Sessions and agents.
/// The session of a message: the one it names, or else one for its source and
/// user.
pub open spec fn session_of(input: MessageView) -> Seq<char> {
    match present(input.session) {
        Some(session) => session,
        None => input.source + ":"@ + (match present(input.user) {
            Some(user) => user,
            None => "anonymous"@,
        }),
    }
}

/// The session of a message.
pub fn resolve_session(input: &IncomingMessage) -> (r: String)
    ensures
        r@ == session_of(input@),
{
    if let Some(session) = trim_present(as_opt_str(&input.session)) {
        return copy_text(session);
    }
    let user: &str = match trim_present(as_opt_str(&input.user)) {
        Some(user) => user,
        None => "anonymous",
    };
    let mut out = input.source.clone();
    out.append(":");
    out.append(user);
    out
}

/// The index of the first agent with a name, in any case of letters; the number
/// of agents where there is none.
pub open spec fn agent_index(agents: Seq<AgentView>, id: Seq<char>) -> int
    decreases agents.len(),
{
    if agents.len() == 0 || same_but_case(agents[0].id, id) {
        0
    } else {
        1 + agent_index(agents.skip(1), id)
    }
}

/// `agent_index` is the first index with the name.
pub proof fn lemma_agent_index(agents: Seq<AgentView>, id: Seq<char>)
    ensures
        0 <= agent_index(agents, id) <= agents.len(),
        agent_index(agents, id) < agents.len() ==> same_but_case(
            agents[agent_index(agents, id)].id,
            id,
        ),
        forall|j: int|
            0 <= j < agent_index(agents, id) ==> !same_but_case((#[trigger] agents[j]).id, id),
    decreases agents.len(),
{
    if agents.len() > 0 && !same_but_case(agents[0].id, id) {
        let rest = agents.skip(1);
        lemma_agent_index(rest, id);
        let n = agent_index(agents, id);
        assert forall|j: int| 0 <= j < n implies !same_but_case((#[trigger] agents[j]).id, id) by {
            if j > 0 {
                assert(agents[j] == rest[j - 1]);
            }
        }
        if n < agents.len() {
            assert(agents[n] == rest[n - 1]);
        }
    }
}

fn find_agent(agents: &Vec<AgentConfig>, id: &str) -> (r: usize)
    ensures
        r == agent_index(agent_views(agents@), id@),
        r <= agents@.len(),
{
    let ghost all = agent_views(agents@);
    let mut i: usize = 0;
    assert(all.skip(0) == all);
    while i < agents.len()
        invariant
            i <= agents@.len(),
            all == agent_views(agents@),
            agent_index(all, id@) == i + agent_index(all.skip(i as int), id@),
        decreases agents@.len() - i,
    {
        assert(all.skip(i as int)[0] == agents@[i as int]@);
        assert(all.skip(i as int).skip(1) == all.skip(i + 1));
        if eq_ignore_case(agents[i].id.as_str(), id) {
            return i;
        }
        i += 1;
    }
    i
}

/// The agent at an index: where it works (by its own workspace or the brain's)
/// and its model.
pub open spec fn context_at(cfg: ConfigView, i: int, home: Option<Seq<char>>) -> ContextView {
    let agent = cfg.agents[i];
    let workspace = match agent.workspace {
        Some(w) => w,
        None => cfg.brain.workspace,
    };
    ContextView {
        agent,
        workspace: resolved(
            normalized_binding(workspace, cfg.brain.workspace, home),
            home is Some,
        ),
        model: cfg.brain.model,
    }
}

/// The agent that is asked for, or the first one where none is.
pub open spec fn agent_context(
    cfg: ConfigView,
    requested: Option<Seq<char>>,
    home: Option<Seq<char>>,
) -> Result<ContextView, TurnErrorView> {
    let id = match requested {
        Some(value) => normalized_id(value),
        None => seq![],
    };
    if id.len() == 0 {
        if cfg.agents.len() == 0 {
            Err(TurnErrorView::NoAgents)
        } else {
            Ok(context_at(cfg, 0, home))
        }
    } else if agent_index(cfg.agents, id) < cfg.agents.len() {
        Ok(context_at(cfg, agent_index(cfg.agents, id), home))
    } else {
        Err(TurnErrorView::UnknownAgent(id))
    }
}

// Effects.
/// A configuration with an agent set up: one of that name gets the soul and, where
/// one is given, the workspace; where there is none it is added.
pub open spec fn upserted(
    cfg: ConfigView,
    id: Seq<char>,
    soul: Seq<char>,
    workspace: Option<Seq<char>>,
    home: Option<Seq<char>>,
) -> ConfigView {
    let bound = match workspace {
        Some(w) => Some(normalized_binding(w, cfg.brain.workspace, home)),
        None => None,
    };
    let i = agent_index(cfg.agents, id);
    ConfigView {
        agents: if i < cfg.agents.len() {
            let old = cfg.agents[i];
            cfg.agents.update(
                i,
                AgentView {
                    id: old.id,
                    name: id,
                    soul,
                    workspace: if bound is Some {
                        bound
                    } else {
                        old.workspace
                    },
                },
            )
        } else {
            cfg.agents.push(AgentView { id, name: id, soul, workspace: bound })
        },
        ..cfg
    }
}

/// What is said of an agent that was set up.
pub open spec fn ready_text(cfg: ConfigView, id: Seq<char>) -> Seq<char> {
    "agent '"@ + id + "' is ready (workspace: "@ + (match cfg.agents[agent_index(
        cfg.agents,
        id,
    )].workspace {
        Some(w) => w,
        None => "inherits brain.workspace"@,
    }) + ")"@
}

/// What setting up an agent leads to.
pub open spec fn upsert(
    cfg: ConfigView,
    id: Seq<char>,
    soul: Seq<char>,
    workspace: Option<Seq<char>>,
    home: Option<Seq<char>>,
) -> (ConfigView, OutcomeView) {
    let name = normalized_id(id);
    if name.len() == 0 || trimmed(soul).len() == 0 {
        (cfg, OutcomeView::Fail(TurnErrorView::SpawnUsage))
    } else if !valid_id(name) {
        (cfg, OutcomeView::Fail(TurnErrorView::BadAgentId))
    } else {
        let after = upserted(cfg, name, soul, workspace, home);
        (after, OutcomeView::SaveConfig(ready_text(after, name)))
    }
}

/// What `/spawn` leads to.
pub open spec fn spawned(cfg: ConfigView, rest: Seq<char>, home: Option<Seq<char>>) -> (
    ConfigView,
    OutcomeView,
) {
    match spawn_request(rest) {
        Some(s) => if valid_id(s.agent_id) {
            upsert(cfg, s.agent_id, s.soul, s.workspace, home)
        } else {
            (cfg, OutcomeView::Fail(TurnErrorView::BadAgentId))
        },
        None => (cfg, OutcomeView::Fail(TurnErrorView::SpawnUsage)),
    }
}

/// What a message that asks for a new agent leads to; nothing where it asks for
/// none.
pub open spec fn inline_spawned(cfg: ConfigView, text: Seq<char>, home: Option<Seq<char>>) -> Option<
    (ConfigView, OutcomeView),
> {
    match inline_spawn(text) {
        Some(s) => {
            let workspace = normalized_binding(s.workspace, cfg.brain.workspace, home);
            let (after, outcome) = upsert(
                cfg,
                s.agent_id,
                workspace_soul(workspace),
                Some(workspace),
                home,
            );
            Some(
                (
                    after,
                    match outcome {
                        OutcomeView::SaveConfig(ready) => OutcomeView::SaveConfig(
                            ready + "\nnext: "@ + s.agent_id + " run <task>"@,
                        ),
                        other => other,
                    },
                ),
            )
        },
        None => None,
    }
}

/// The run of Codex that answers a text in a session.
pub open spec fn thought(
    state: StoreView,
    context: ContextView,
    session: Seq<char>,
    text: Seq<char>,
    delegated: bool,
) -> CodexRunView {
    CodexRunView {
        agent_id: context.agent.id,
        workspace: context.workspace,
        prompt: prompt_text(
            context.agent,
            text,
            recent(state.state.conversations, session, 12),
            long_tail(state.state, text, 8),
            open_tasks(state.state.tasks),
        ),
        model: context.model,
        delegated,
    }
}

/// What a delegation leads to.
pub open spec fn delegated(
    o: OrchestratorView,
    rest: Seq<char>,
    session: Seq<char>,
    home: Option<Seq<char>>,
) -> OutcomeView {
    let (id, task) = delegation(rest);
    if id.len() == 0 || task.len() == 0 {
        OutcomeView::Fail(TurnErrorView::DelegateUsage)
    } else {
        match agent_context(o.config, Some(id), home) {
            Ok(context) => OutcomeView::Think(thought(o.state, context, session, task, true)),
            Err(e) => OutcomeView::Fail(e),
        }
    }
}

/// What a message that asks an agent to run a task leads to; nothing where it
/// asks none that there is.
pub open spec fn inline_delegated(
    o: OrchestratorView,
    session: Seq<char>,
    text: Seq<char>,
    home: Option<Seq<char>>,
) -> Option<OutcomeView> {
    match inline_delegate(text) {
        Some(d) => if agent_index(o.config.agents, d.agent_id) < o.config.agents.len() {
            Some(delegated(o, d.agent_id + " "@ + d.task, session, home))
        } else {
            None
        },
        None => None,
    }
}

/// What a command leads to, for an agent in a session.
pub open spec fn commanded(
    o: OrchestratorView,
    agent: AgentView,
    session: Seq<char>,
    raw: Seq<char>,
    now: Timestamp,
    home: Option<Seq<char>>,
) -> (OrchestratorView, OutcomeView) {
    match command_of(raw) {
        CommandView::Help => (o, OutcomeView::Reply(help_lines())),
        CommandView::Agents => (o, OutcomeView::Reply(agents_text(o.config.agents))),
        CommandView::Spawn(rest) => {
            let (config, outcome) = spawned(o.config, rest, home);
            (OrchestratorView { config, ..o }, outcome)
        },
        CommandView::Tasks => (o, OutcomeView::Reply(tasks_text(o.state.state.tasks))),
        CommandView::TaskAdd(title) => if title.len() == 0 {
            (o, OutcomeView::Fail(TurnErrorView::TaskAddUsage))
        } else {
            (
                OrchestratorView { state: with_task(o.state, title, agent.id, now), ..o },
                OutcomeView::SaveState(
                    "task#"@ + decimal(o.state.state.next_id as nat) + " added for "@ + agent.id
                        + ": "@ + title,
                ),
            )
        },
        CommandView::TaskDone(number) => match unsigned_value(number) {
            Some(n) => if n > u64::MAX {
                (o, OutcomeView::Fail(TurnErrorView::TaskDoneUsage))
            } else if has_task(o.state.state.tasks, n as u64) {
                (
                    OrchestratorView { state: with_task_done(o.state, n as u64, now), ..o },
                    OutcomeView::SaveState("task#"@ + decimal(n) + " marked done"@),
                )
            } else {
                (o, OutcomeView::Reply("task#"@ + decimal(n) + " not found"@))
            },
            None => (o, OutcomeView::Fail(TurnErrorView::TaskDoneUsage)),
        },
        CommandView::Remember(note) => if note.len() == 0 {
            (o, OutcomeView::Fail(TurnErrorView::RememberUsage))
        } else {
            (
                OrchestratorView {
                    state: with_memory(o.state, agent.id + ":"@ + session, note, now),
                    ..o
                },
                OutcomeView::SaveState("saved memory#"@ + decimal(o.state.state.next_id as nat)),
            )
        },
        CommandView::Mem(query) => if query.len() == 0 {
            (o, OutcomeView::Fail(TurnErrorView::MemUsage))
        } else {
            (o, OutcomeView::Reply(hits_text(long_tail(o.state.state, query, 6))))
        },
        CommandView::Delegate(rest) => (o, delegated(o, rest, session, home)),
        CommandView::Unknown => (o, OutcomeView::Reply("unknown command. use /help"@)),
    }
}

/// Whether a message is a command.
pub open spec fn is_command(text: Seq<char>) -> bool {
    has_prefix(trim_start_of(text, CharSet::Space), "/"@)
}

/// What a message leads to: a command, a new agent, a delegation, or else a run
/// of the agent that it is for.
pub open spec fn routed(
    o: OrchestratorView,
    context: ContextView,
    session: Seq<char>,
    text: Seq<char>,
    now: Timestamp,
    home: Option<Seq<char>>,
) -> (OrchestratorView, OutcomeView) {
    if is_command(text) {
        commanded(o, context.agent, session, text, now, home)
    } else if let Some((config, outcome)) = inline_spawned(o.config, text, home) {
        (OrchestratorView { config, ..o }, outcome)
    } else if let Some(outcome) = inline_delegated(o, session, text, home) {
        (o, outcome)
    } else {
        (o, OutcomeView::Think(thought(o.state, context, session, text, false)))
    }
}

// Steps.
/// The turn of a conversation in which a message came.
pub open spec fn message_item(
    input: MessageView,
    agent_id: Seq<char>,
    now: Timestamp,
) -> ConversationView {
    ConversationView {
        id: 0,
        ts: now,
        session: session_of(input),
        agent_id,
        role: "user"@,
        text: input.text,
        source: input.source,
        user: input.user,
    }
}

/// The turn of a conversation in which a reply went.
pub open spec fn reply_item(turn: TurnView, reply: Seq<char>, now: Timestamp) -> ConversationView {
    ConversationView {
        id: 0,
        ts: now,
        session: turn.session,
        agent_id: turn.context.agent.id,
        role: "assistant"@,
        text: reply,
        source: turn.source,
        user: None,
    }
}

/// The first step for a message: it is noted, unless there is no agent for it.
pub open spec fn begun(
    o: OrchestratorView,
    input: MessageView,
    run_id: Seq<char>,
    now: Timestamp,
    home: Option<Seq<char>>,
) -> (OrchestratorView, StepView) {
    match agent_context(o.config, input.agent_id, home) {
        Ok(context) => (
            OrchestratorView {
                state: with_conversation(o.state, message_item(input, context.agent.id, now)),
                ..o
            },
            StepView::SaveState(
                TurnView {
                    run_id,
                    session: session_of(input),
                    source: input.source,
                    text: input.text,
                    context,
                    stage: StageView::MessageNoted,
                },
            ),
        ),
        Err(e) => (o, StepView::Fail(e)),
    }
}

/// A reply is noted.
pub open spec fn replied(o: OrchestratorView, turn: TurnView, reply: Seq<char>, now: Timestamp) -> (
    OrchestratorView,
    StepView,
) {
    (
        OrchestratorView {
            state: with_conversation(o.state, reply_item(turn, reply, now)),
            ..o
        },
        StepView::SaveState(TurnView { stage: StageView::ReplyNoted(reply), ..turn }),
    )
}

/// What is replied when an agent was asked: its answer, or what is said of its
/// failure.
pub open spec fn answer_text(
    agent_id: Seq<char>,
    delegated: bool,
    outcome: Result<Seq<char>, Seq<char>>,
) -> Seq<char> {
    let answer = match outcome {
        Ok(answer) => answer,
        Err(chain) => "[openorchestrator error] codex run failed for agent '"@ + agent_id + "': "@
            + chain,
    };
    if delegated {
        "delegate:"@ + agent_id + "\n"@ + answer
    } else {
        answer
    }
}

/// The step for a message, after it was found what it leads to.
pub open spec fn followed(
    o: OrchestratorView,
    turn: TurnView,
    led_to: OutcomeView,
    now: Timestamp,
) -> (OrchestratorView, StepView) {
    match led_to {
        OutcomeView::Reply(reply) => replied(o, turn, reply, now),
        OutcomeView::SaveState(reply) => (
            o,
            StepView::SaveState(TurnView { stage: StageView::EffectMade(reply), ..turn }),
        ),
        OutcomeView::SaveConfig(reply) => (
            o,
            StepView::SaveConfig(TurnView { stage: StageView::EffectMade(reply), ..turn }),
        ),
        OutcomeView::Think(run) => (
            o,
            StepView::RunCodex(
                TurnView {
                    stage: StageView::Thinking {
                        agent_id: run.agent_id,
                        delegated: run.delegated,
                    },
                    ..turn
                },
                run,
            ),
        ),
        OutcomeView::Fail(e) => (o, StepView::Fail(e)),
    }
}

/// The step for a message that has been written down.
pub open spec fn answered(
    o: OrchestratorView,
    turn: TurnView,
    now: Timestamp,
    home: Option<Seq<char>>,
) -> (OrchestratorView, StepView) {
    let (after, led_to) = routed(o, turn.context, turn.session, turn.text, now, home);
    followed(after, turn, led_to, now)
}

/// The next step for a message, after what the last one asked for was done
/// (with an answer, where it asked for one) or failed.
pub open spec fn resumed(
    o: OrchestratorView,
    turn: TurnView,
    outcome: Result<Seq<char>, Seq<char>>,
    now: Timestamp,
    home: Option<Seq<char>>,
) -> (OrchestratorView, StepView) {
    match turn.stage {
        StageView::Thinking { agent_id, delegated } => replied(
            o,
            turn,
            answer_text(agent_id, delegated, outcome),
            now,
        ),
        StageView::MessageNoted => match outcome {
            Err(m) => (o, StepView::Fail(TurnErrorView::SaveFailed(m))),
            Ok(_) => answered(o, turn, now, home),
        },
        StageView::EffectMade(reply) => match outcome {
            Err(m) => (o, StepView::Fail(TurnErrorView::SaveFailed(m))),
            Ok(_) => replied(o, turn, reply, now),
        },
        StageView::ReplyNoted(reply) => match outcome {
            Err(m) => (o, StepView::Fail(TurnErrorView::SaveFailed(m))),
            Ok(_) => (
                o,
                StepView::Done(
                    ReplyView {
                        run_id: turn.run_id,
                        agent_id: turn.context.agent.id,
                        session: turn.session,
                        reply,
                    },
                ),
            ),
        },
    }
}

// Numbers.
/// Whether a command adds an item to the memory.
pub open spec fn adds_item(command: CommandView) -> bool {
    match command {
        CommandView::TaskAdd(title) => title.len() > 0,
        CommandView::Remember(note) => note.len() > 0,
        _ => false,
    }
}

/// Whether a command is replied to at once.
pub open spec fn replies_at_once(state: StoreView, command: CommandView) -> bool {
    match command {
        CommandView::Help => true,
        CommandView::Agents => true,
        CommandView::Tasks => true,
        CommandView::Unknown => true,
        CommandView::Mem(query) => query.len() > 0,
        CommandView::TaskDone(number) => match unsigned_value(number) {
            Some(n) => n <= u64::MAX && !has_task(state.state.tasks, n as u64),
            None => false,
        },
        _ => false,
    }
}

/// Whether the first step for a message takes a number for an item of the memory:
/// where there is an agent for it.
pub open spec fn takes_first_number(o: OrchestratorView, input: MessageView) -> bool {
    agent_context(o.config, input.agent_id, None) is Ok
}

/// Whether what a message leads to takes a number in the memory at once.
pub open spec fn takes_number_at_once(o: OrchestratorView, text: Seq<char>) -> bool {
    is_command(text) && (adds_item(command_of(text)) || replies_at_once(
        o.state,
        command_of(text),
    ))
}

proof fn lemma_reply_has_number(
    o: OrchestratorView,
    context: ContextView,
    session: Seq<char>,
    text: Seq<char>,
    now: Timestamp,
    home: Option<Seq<char>>,
)
    requires
        takes_number_at_once(o, text) ==> o.state.state.next_id < u64::MAX,
    ensures
        routed(o, context, session, text, now, home).1 is Reply ==> routed(
            o,
            context,
            session,
            text,
            now,
            home,
        ).0.state.state.next_id < u64::MAX,
{
}

/// Whether the next step for a message takes a number for an item of the memory.
pub open spec fn takes_number(
    o: OrchestratorView,
    turn: TurnView,
    outcome: Result<Seq<char>, Seq<char>>,
) -> bool {
    match turn.stage {
        StageView::Thinking { .. } => true,
        StageView::EffectMade(_) => outcome is Ok,
        StageView::ReplyNoted(_) => false,
        StageView::MessageNoted => outcome is Ok && takes_number_at_once(o, turn.text),
    }
}

/// The view of what came of a step.
pub open spec fn result_text(outcome: Result<String, String>) -> Result<Seq<char>, Seq<char>> {
    match outcome {
        Ok(s) => Ok(s@),
        Err(s) => Err(s@),
    }
}

/// The view of what was resolved for a message.
pub open spec fn context_result(r: Result<AgentContext, TurnError>) -> Result<
    ContextView,
    TurnErrorView,
> {
    match r {
        Ok(c) => Ok(c@),
        Err(e) => Err(e@),
    }
}

impl Orchestrator {
    pub fn new(config_path: String, config: AppConfig, state: StateStore, codex: CodexRunner) -> (r:
        Orchestrator)
        ensures
            r@ == (OrchestratorView {
                config_path: config_path@,
                config: config@,
                state: state@,
                codex,
            }),
    {
        Orchestrator { config_path, config, state, codex }
    }

    /// The configuration.
    pub fn config_handle(&self) -> (r: &AppConfig)
        ensures
            r@ == self@.config,
    {
        &self.config
    }

    /// The memory.
    pub fn state(&self) -> (r: &StateStore)
        ensures
            r@ == self@.state,
    {
        &self.state
    }

    /// The agent that is asked for, or the first one where none is.
    pub fn resolve_agent_context(&self, requested: Option<&str>, home: Option<&str>) -> (r: Result<
        AgentContext,
        TurnError,
    >)
        ensures
            context_result(r) == agent_context(self@.config, opt_str(requested), opt_str(home)),
    {
        let id = match requested {
            Some(value) => normalize_agent_id(value),
            None => String::new(),
        };
        let n: usize = self.config.agents.len();
        let i: usize = if id.as_str().is_empty() {
            if n == 0 {
                return Err(TurnError::NoAgents);
            }
            0
        } else {
            let i: usize = find_agent(&self.config.agents, id.as_str());
            if i >= n {
                return Err(TurnError::UnknownAgent(id));
            }
            i
        };
        let agent = self.config.agents[i].clone();
        assert(agent@ == self@.config.agents[i as int]);
        let brain: &str = self.config.brain.workspace.as_str();
        let bound = match &agent.workspace {
            Some(w) => normalize_workspace_binding_in(w.as_str(), brain, home),
            None => normalize_workspace_binding_in(brain, brain, home),
        };
        Ok(
            AgentContext {
                agent,
                workspace: resolve_path_in(bound.as_str(), home.is_some()),
                model: copy_opt(&self.config.brain.model),
            },
        )
    }

    /// Whether there is an agent with a name.
    pub fn agent_exists(&self, id: &str) -> (r: bool)
        ensures
            r == (agent_index(self@.config.agents, id@) < self@.config.agents.len()),
    {
        find_agent(&self.config.agents, id) < self.config.agents.len()
    }

    /// The run of Codex that answers a text in a session.
    pub fn plan_agent_turn(
        &self,
        context: &AgentContext,
        session: &str,
        user_text: &str,
        delegated: bool,
    ) -> (r: CodexRun)
        ensures
            r@ == thought(self@.state, context@, session@, user_text@, delegated),
    {
        let history = self.state.recent_session(session, 12);
        let hits = self.state.search_long_tail(user_text, 8);
        let tasks = self.state.list_open_tasks();
        CodexRun {
            agent_id: context.agent.id.clone(),
            workspace: context.workspace.clone(),
            prompt: build_prompt(&context.agent, user_text, &history, &hits, &tasks),
            model: copy_opt(&context.model),
            delegated,
        }
    }

    /// Sets up an agent.
    pub fn upsert_agent_config(
        &mut self,
        id: &str,
        soul: &str,
        workspace: Option<&str>,
        home: Option<&str>,
    ) -> (r: Outcome)
        ensures
            ({
                let (config, outcome) = upsert(
                    old(self)@.config,
                    id@,
                    soul@,
                    opt_str(workspace),
                    opt_str(home),
                );
                &&& final(self)@ == (OrchestratorView { config, ..old(self)@ })
                &&& r@ == outcome
            }),
    {
        let ghost before = self@.config;
        let name = normalize_agent_id(id);
        if name.as_str().is_empty() || trim(soul).is_empty() {
            return Outcome::Fail(TurnError::SpawnUsage);
        }
        if !is_valid_agent_id(name.as_str()) {
            return Outcome::Fail(TurnError::BadAgentId);
        }
        let bound: Option<String> = match workspace {
            Some(w) => Some(
                normalize_workspace_binding_in(w, self.config.brain.workspace.as_str(), home),
            ),
            None => None,
        };
        let i: usize = find_agent(&self.config.agents, name.as_str());
        if i < self.config.agents.len() {
            let old_agent = self.config.agents[i].clone();
            assert(old_agent@ == before.agents[i as int]);
            let agent = AgentConfig {
                id: old_agent.id,
                name: name.clone(),
                soul: copy_text(soul),
                workspace: if bound.is_some() {
                    bound
                } else {
                    old_agent.workspace
                },
            };
            self.config.agents.set(i, agent);
            assert(self@.config.agents =~= before.agents.update(i as int, agent@));
        } else {
            let agent = AgentConfig {
                id: name.clone(),
                name: name.clone(),
                soul: copy_text(soul),
                workspace: bound,
            };
            let ghost added = agent@;
            self.config.agents.push(agent);
            assert(self@.config.agents =~= before.agents.push(added));
        }
        let ghost after = self@.config;
        assert(after =~= upserted(before, name@, soul@, opt_str(workspace), opt_str(home)));
        let j: usize = find_agent(&self.config.agents, name.as_str());
        proof {
            lemma_upserted_is_found(before, name@, soul@, opt_str(workspace), opt_str(home));
        }
        let mut out = copy_text("agent '");
        out.append(name.as_str());
        out.append("' is ready (workspace: ");
        match &self.config.agents[j].workspace {
            Some(w) => out.append(w.as_str()),
            None => out.append("inherits brain.workspace"),
        }
        out.append(")");
        assert(self@.config.agents[j as int] == self.config.agents@[j as int]@);
        Outcome::SaveConfig(out)
    }

    /// Sets up the agent that `/spawn` asks for.
    pub fn spawn_agent(&mut self, rest: &str, home: Option<&str>) -> (r: Outcome)
        ensures
            ({
                let (config, outcome) = spawned(old(self)@.config, rest@, opt_str(home));
                &&& final(self)@ == (OrchestratorView { config, ..old(self)@ })
                &&& r@ == outcome
            }),
    {
        match parse_spawn(rest) {
            Some(s) => {
                if !is_valid_agent_id(s.agent_id.as_str()) {
                    return Outcome::Fail(TurnError::BadAgentId);
                }
                self.upsert_agent_config(
                    s.agent_id.as_str(),
                    s.soul.as_str(),
                    as_opt_str(&s.workspace),
                    home,
                )
            },
            None => Outcome::Fail(TurnError::SpawnUsage),
        }
    }

    /// Hands a task to the agent that `/delegate` names.
    pub fn delegate_command(&self, rest: &str, session: &str, home: Option<&str>) -> (r: Outcome)
        ensures
            r@ == delegated(self@, rest@, session@, opt_str(home)),
    {
        let (id, task) = parse_delegation(rest);
        if id.as_str().is_empty() || task.as_str().is_empty() {
            return Outcome::Fail(TurnError::DelegateUsage);
        }
        match self.resolve_agent_context(Some(id.as_str()), home) {
            Ok(context) => Outcome::Think(
                self.plan_agent_turn(&context, session, task.as_str(), true),
            ),
            Err(e) => Outcome::Fail(e),
        }
    }

    /// Sets up the agent that a message asks for, where it asks for one.
    pub fn try_inline_spawn(&mut self, text: &str, home: Option<&str>) -> (r: Option<Outcome>)
        ensures
            match inline_spawned(old(self)@.config, text@, opt_str(home)) {
                Some((config, outcome)) => final(self)@ == (OrchestratorView {
                    config,
                    ..old(self)@
                }) && r is Some && r->0@ == outcome,
                None => final(self)@ == old(self)@ && r is None,
            },
    {
        match parse_inline_spawn_request(text) {
            Some(s) => {
                let workspace = normalize_workspace_binding_in(
                    s.workspace.as_str(),
                    self.config.brain.workspace.as_str(),
                    home,
                );
                let soul = build_workspace_agent_soul(workspace.as_str());
                match self.upsert_agent_config(
                    s.agent_id.as_str(),
                    soul.as_str(),
                    Some(workspace.as_str()),
                    home,
                ) {
                    Outcome::SaveConfig(ready) => {
                        let mut out = ready;
                        out.append("\nnext: ");
                        out.append(s.agent_id.as_str());
                        out.append(" run <task>");
                        Some(Outcome::SaveConfig(out))
                    },
                    other => Some(other),
                }
            },
            None => None,
        }
    }

    /// Hands a task to the agent that a message names, where there is one.
    pub fn try_inline_delegate(&self, session: &str, text: &str, home: Option<&str>) -> (r: Option<
        Outcome,
    >)
        ensures
            match inline_delegated(self@, session@, text@, opt_str(home)) {
                Some(outcome) => r is Some && r->0@ == outcome,
                None => r is None,
            },
    {
        match parse_inline_delegate_request(text) {
            Some(d) => {
                if !self.agent_exists(d.agent_id.as_str()) {
                    return None;
                }
                let mut rest = d.agent_id.clone();
                rest.append(" ");
                rest.append(d.task.as_str());
                Some(self.delegate_command(rest.as_str(), session, home))
            },
            None => None,
        }
    }

    /// Carries out a command, for an agent in a session.
    pub fn handle_command(
        &mut self,
        current_agent: &AgentConfig,
        session: &str,
        raw: &str,
        now: Timestamp,
        home: Option<&str>,
    ) -> (r: Outcome)
        requires
            adds_item(command_of(raw@)) ==> old(self)@.state.state.next_id < u64::MAX,
        ensures
            (final(self)@, r@) == commanded(
                old(self)@,
                current_agent@,
                session@,
                raw@,
                now,
                opt_str(home),
            ),
    {
        let agent_id: &str = current_agent.id.as_str();
        match parse_command(raw) {
            Command::Help => Outcome::Reply(help_text()),
            Command::Agents => Outcome::Reply(render_agents(&self.config.agents)),
            Command::Spawn(rest) => self.spawn_agent(rest.as_str(), home),
            Command::Tasks => Outcome::Reply(render_tasks(&self.state.list_tasks())),
            Command::TaskAdd(title) => {
                if title.as_str().is_empty() {
                    return Outcome::Fail(TurnError::TaskAddUsage);
                }
                let task = self.state.add_task_at(title.as_str(), agent_id, now);
                let mut out = copy_text("task#");
                out.append(decimal_text(task.id).as_str());
                out.append(" added for ");
                out.append(task.owner_agent.as_str());
                out.append(": ");
                out.append(task.title.as_str());
                Outcome::SaveState(out)
            },
            Command::TaskDone(number) => match parse_u64(number.as_str()) {
                Some(id) => {
                    let mut out = copy_text("task#");
                    out.append(decimal_text(id).as_str());
                    if self.state.mark_task_done_at(id, now) {
                        out.append(" marked done");
                        Outcome::SaveState(out)
                    } else {
                        out.append(" not found");
                        Outcome::Reply(out)
                    }
                },
                None => Outcome::Fail(TurnError::TaskDoneUsage),
            },
            Command::Remember(note) => {
                if note.as_str().is_empty() {
                    return Outcome::Fail(TurnError::RememberUsage);
                }
                let mut source = copy_text(agent_id);
                source.append(":");
                source.append(session);
                let memory = self.state.add_memory_at(source.as_str(), note.as_str(), now);
                let mut out = copy_text("saved memory#");
                out.append(decimal_text(memory.id).as_str());
                Outcome::SaveState(out)
            },
            Command::Mem(query) => {
                if query.as_str().is_empty() {
                    return Outcome::Fail(TurnError::MemUsage);
                }
                let hits = self.state.search_long_tail(query.as_str(), 6);
                Outcome::Reply(render_hits(&hits))
            },
            Command::Delegate(rest) => self.delegate_command(rest.as_str(), session, home),
            Command::Unknown => Outcome::Reply(copy_text("unknown command. use /help")),
        }
    }

    /// Carries out what a message asks for.
    pub fn route(
        &mut self,
        context: &AgentContext,
        session: &str,
        text: &str,
        now: Timestamp,
        home: Option<&str>,
    ) -> (r: Outcome)
        requires
            is_command(text@) && adds_item(command_of(text@)) ==> old(self)@.state.state.next_id
                < u64::MAX,
        ensures
            (final(self)@, r@) == routed(
                old(self)@,
                context@,
                session@,
                text@,
                now,
                opt_str(home),
            ),
    {
        if starts_with(trim_start_matches(text, &CharSet::Space), "/") {
            return self.handle_command(&context.agent, session, text, now, home);
        }
        if let Some(r) = self.try_inline_spawn(text, home) {
            return r;
        }
        if let Some(r) = self.try_inline_delegate(session, text, home) {
            return r;
        }
        Outcome::Think(self.plan_agent_turn(context, session, text, false))
    }

    /// Whether there is a number left for what the first step for a message adds.
    pub fn can_begin(&self, input: &IncomingMessage) -> (r: bool)
        ensures
            r == (takes_first_number(self@, input@) ==> self@.state.state.next_id < u64::MAX),
    {
        self.state.state.next_id < u64::MAX || self.resolve_agent_context(
            as_opt_str(&input.agent_id),
            None,
        ).is_err()
    }

    /// Whether there is a number left for what the next step for a message adds.
    pub fn can_resume(&self, turn: &Turn, outcome: &Result<String, String>) -> (r: bool)
        ensures
            r == (takes_number(self@, turn@, result_text(*outcome)) ==> self@.state.state.next_id
                < u64::MAX),
    {
        if self.state.state.next_id < u64::MAX {
            return true;
        }
        match &turn.stage {
            Stage::Thinking { .. } => false,
            Stage::EffectMade(_) => outcome.is_err(),
            Stage::ReplyNoted(_) => true,
            Stage::MessageNoted => {
                if outcome.is_err() || !starts_with(
                    trim_start_matches(turn.text.as_str(), &CharSet::Space),
                    "/",
                ) {
                    return true;
                }
                match parse_command(turn.text.as_str()) {
                    Command::Help | Command::Agents | Command::Tasks | Command::Unknown => false,
                    Command::Spawn(_) | Command::Delegate(_) => true,
                    Command::TaskAdd(rest) | Command::Remember(rest) | Command::Mem(rest) => {
                        rest.as_str().is_empty()
                    },
                    Command::TaskDone(number) => match parse_u64(number.as_str()) {
                        Some(id) => self.state.holds_task(id),
                        None => true,
                    },
                }
            },
        }
    }

    /// The first step for a message, under a run's name, at a time and under a
    /// home directory.
    pub fn begin_at(
        &mut self,
        input: IncomingMessage,
        run_id: String,
        now: Timestamp,
        home: Option<&str>,
    ) -> (r: Step)
        requires
            takes_first_number(old(self)@, input@) ==> old(self)@.state.state.next_id < u64::MAX,
        ensures
            (final(self)@, r@) == begun(old(self)@, input@, run_id@, now, opt_str(home)),
    {
        let session = resolve_session(&input);
        let context = match self.resolve_agent_context(as_opt_str(&input.agent_id), home) {
            Ok(context) => context,
            Err(e) => return Step::Fail(e),
        };
        let item = ConversationItem {
            id: 0,
            ts: now,
            session: session.clone(),
            agent_id: context.agent.id.clone(),
            role: copy_text("user"),
            text: input.text.clone(),
            source: input.source.clone(),
            user: copy_opt(&input.user),
        };
        assert(item@ == message_item(input@, context@.agent.id, now));
        self.state.add_conversation(item);
        Step::SaveState(
            Turn {
                run_id,
                session,
                source: input.source,
                text: input.text,
                context,
                stage: Stage::MessageNoted,
            },
        )
    }

    /// The first step for a message.
    pub fn handle_message(&mut self, input: IncomingMessage) -> (r: Step)
        requires
            takes_first_number(old(self)@, input@) ==> old(self)@.state.state.next_id < u64::MAX,
        ensures
            exists|run_id: Seq<char>, now: Timestamp, home: Option<Seq<char>>|
                uuid_form(run_id) && now.is_moment() && (final(self)@, r@) == #[trigger] begun(
                    old(self)@,
                    input@,
                    run_id,
                    now,
                    home,
                ),
    {
        let run_id = new_uuid();
        let home = home_dir();
        self.begin_at(input, run_id, utc_now(), as_opt_str(&home))
    }

    fn note_reply(&mut self, turn: Turn, reply: String, now: Timestamp) -> (r: Step)
        requires
            old(self)@.state.state.next_id < u64::MAX,
        ensures
            (final(self)@, r@) == replied(old(self)@, turn@, reply@, now),
    {
        let item = ConversationItem {
            id: 0,
            ts: now,
            session: turn.session.clone(),
            agent_id: turn.context.agent.id.clone(),
            role: copy_text("assistant"),
            text: reply.clone(),
            source: turn.source.clone(),
            user: None,
        };
        assert(item@ == reply_item(turn@, reply@, now));
        self.state.add_conversation(item);
        let mut turn = turn;
        turn.stage = Stage::ReplyNoted(reply);
        Step::SaveState(turn)
    }

    fn follow(&mut self, turn: Turn, led_to: Outcome, now: Timestamp) -> (r: Step)
        requires
            led_to is Reply ==> old(self)@.state.state.next_id < u64::MAX,
        ensures
            (final(self)@, r@) == followed(old(self)@, turn@, led_to@, now),
    {
        let mut turn = turn;
        match led_to {
            Outcome::Reply(reply) => self.note_reply(turn, reply, now),
            Outcome::SaveState(reply) => {
                turn.stage = Stage::EffectMade(reply);
                Step::SaveState(turn)
            },
            Outcome::SaveConfig(reply) => {
                turn.stage = Stage::EffectMade(reply);
                Step::SaveConfig(turn)
            },
            Outcome::Think(run) => {
                turn.stage = Stage::Thinking {
                    agent_id: run.agent_id.clone(),
                    delegated: run.delegated,
                };
                Step::RunCodex(turn, run)
            },
            Outcome::Fail(e) => Step::Fail(e),
        }
    }

    fn answer(&mut self, turn: Turn, now: Timestamp, home: Option<&str>) -> (r: Step)
        requires
            takes_number_at_once(old(self)@, turn@.text) ==> old(self)@.state.state.next_id
                < u64::MAX,
        ensures
            (final(self)@, r@) == answered(old(self)@, turn@, now, opt_str(home)),
    {
        proof {
            lemma_reply_has_number(
                self@,
                turn@.context,
                turn@.session,
                turn@.text,
                now,
                opt_str(home),
            );
        }
        let led_to = self.route(
            &turn.context,
            turn.session.as_str(),
            turn.text.as_str(),
            now,
            home,
        );
        self.follow(turn, led_to, now)
    }

    /// The next step for a message, after what the last one asked for was done
    /// or failed, at a time and under a home directory.
    pub fn resume_at(
        &mut self,
        turn: Turn,
        outcome: Result<String, String>,
        now: Timestamp,
        home: Option<&str>,
    ) -> (r: Step)
        requires
            takes_number(old(self)@, turn@, result_text(outcome)) ==> old(self)@.state.state.next_id
                < u64::MAX,
        ensures
            (final(self)@, r@) == resumed(
                old(self)@,
                turn@,
                result_text(outcome),
                now,
                opt_str(home),
            ),
    {
        match (&turn.stage, outcome) {
            (Stage::Thinking { agent_id, delegated }, outcome) => {
                let reply = render_answer(agent_id.as_str(), *delegated, outcome);
                self.note_reply(turn, reply, now)
            },
            (_, Err(m)) => Step::Fail(TurnError::SaveFailed(m)),
            (Stage::MessageNoted, Ok(_)) => self.answer(turn, now, home),
            (Stage::EffectMade(reply), Ok(_)) => {
                let reply = reply.clone();
                self.note_reply(turn, reply, now)
            },
            (Stage::ReplyNoted(reply), Ok(_)) => {
                let reply = reply.clone();
                Step::Done(
                    AgentReply {
                        run_id: turn.run_id,
                        agent_id: turn.context.agent.id,
                        session: turn.session,
                        reply,
                    },
                )
            },
        }
    }

    /// The next step for a message, after what the last one asked for was done
    /// (with an answer, where it asked for one) or failed.
    pub fn resume(&mut self, turn: Turn, outcome: Result<String, String>) -> (r: Step)
        requires
            takes_number(old(self)@, turn@, result_text(outcome)) ==> old(self)@.state.state.next_id
                < u64::MAX,
        ensures
            exists|now: Timestamp, home: Option<Seq<char>>|
                now.is_moment() && (final(self)@, r@) == #[trigger] resumed(
                    old(self)@,
                    turn@,
                    result_text(outcome),
                    now,
                    home,
                ),
    {
        let home = home_dir();
        self.resume_at(turn, outcome, utc_now(), as_opt_str(&home))
    }
}

fn render_answer(agent_id: &str, delegated: bool, outcome: Result<String, String>) -> (r: String)
    ensures
        r@ == answer_text(agent_id@, delegated, result_text(outcome)),
{
    let answer = match outcome {
        Ok(answer) => answer,
        Err(chain) => {
            let mut out = copy_text("[openorchestrator error] codex run failed for agent '");
            out.append(agent_id);
            out.append("': ");
            out.append(chain.as_str());
            out
        },
    };
    if delegated {
        let mut out = copy_text("delegate:");
        out.append(agent_id);
        out.append("\n");
        out.append(answer.as_str());
        out
    } else {
        answer
    }
}

/// An agent that was set up is found under its name.
pub proof fn lemma_upserted_is_found(
    cfg: ConfigView,
    id: Seq<char>,
    soul: Seq<char>,
    workspace: Option<Seq<char>>,
    home: Option<Seq<char>>,
)
    ensures
        ({
            let after = upserted(cfg, id, soul, workspace, home);
            &&& agent_index(after.agents, id) == agent_index(cfg.agents, id)
            &&& agent_index(after.agents, id) < after.agents.len()
        }),
{
    let after = upserted(cfg, id, soul, workspace, home);
    lemma_agent_index(cfg.agents, id);
    lemma_agent_index(after.agents, id);
    let i = agent_index(cfg.agents, id);
    let j = agent_index(after.agents, id);
    assert(same_but_case(after.agents[i].id, id));
    if j < i {
        assert(after.agents[j].id == cfg.agents[j].id);
    }
}

} // verus!
