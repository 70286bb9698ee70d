//! What holds of the way of a message as a whole: what is saved, what is noted,
//! that it ends, and what becomes of agents.
use crate::agents::{
    inline_delegate, inline_spawn, law_valid_ids_are_normal, normalized_id, valid_id,
    workspace_soul, InlineDelegateView,
};
use crate::commands::{command_of, delegation, spawn_request, CommandView, SpawnView};
use crate::config::{normalized_binding, AgentView, ConfigView};
use crate::number::unsigned_value;
use crate::orchestrator::{
    agent_context, agent_index, answer_text, begun, context_at, followed, inline_delegated,
    inline_spawned, is_command, lemma_agent_index, lemma_upserted_is_found, ready_text,
    reply_item, resumed, routed, spawned, thought, upsert, upserted, ContextView, MessageView,
    OrchestratorView, OutcomeView, ReplyView, StageView, StepView, TurnErrorView, TurnView,
};
use crate::state::{with_conversation, ConversationView, Timestamp};
use crate::state_laws::{law_adding_keeps_numbers, law_done_keeps_numbers, numbered};
use crate::text::{
    ascii_lower, has_prefix, is_space, law_trim_set, lemma_span_until, lemma_trim_end,
    lemma_trim_start, same_but_case, span_until, split_on, trim_end_of, trim_start_of, trimmed,
    CharSet,
};
use vstd::prelude::*;

verus! {

// What a message changes.
/// A message that is refused changes nothing.
pub proof fn law_refusals_change_nothing(
    o: OrchestratorView,
    context: ContextView,
    session: Seq<char>,
    text: Seq<char>,
    now: Timestamp,
    home: Option<Seq<char>>,
)
    requires
        routed(o, context, session, text, now, home).1 is Fail,
    ensures
        routed(o, context, session, text, now, home).0 == o,
{
}

/// A message for an agent that there is not is refused before it is noted.
pub proof fn law_unknown_agents_change_nothing(
    o: OrchestratorView,
    input: MessageView,
    run_id: Seq<char>,
    now: Timestamp,
    home: Option<Seq<char>>,
)
    ensures
        begun(o, input, run_id, now, home).1 is Fail <==> agent_context(
            o.config,
            input.agent_id,
            home,
        ) is Err,
        begun(o, input, run_id, now, home).1 is Fail ==> begun(o, input, run_id, now, home).0 == o,
{
}

/// What a message changes is saved before it is replied to: where the memory
/// changed it is saved, where the configuration changed that is, both never
/// change at once, and where nothing is to be saved nothing changed.
pub proof fn law_changes_are_saved(
    o: OrchestratorView,
    context: ContextView,
    session: Seq<char>,
    text: Seq<char>,
    now: Timestamp,
    home: Option<Seq<char>>,
)
    ensures
        ({
            let (after, outcome) = routed(o, context, session, text, now, home);
            &&& after.config != o.config ==> outcome is SaveConfig && after.state == o.state
            &&& after.state != o.state ==> outcome is SaveState && after.config == o.config
            &&& after.config_path == o.config_path
            &&& after.codex == o.codex
        }),
{
}

/// No command asks an agent, but for `/delegate`.
pub proof fn law_commands_ask_no_agent(
    o: OrchestratorView,
    context: ContextView,
    session: Seq<char>,
    text: Seq<char>,
    now: Timestamp,
    home: Option<Seq<char>>,
)
    requires
        is_command(text),
        !(command_of(text) is Delegate),
    ensures
        !(routed(o, context, session, text, now, home).1 is Think),
{
}

/// A message that is no command, and asks for neither an agent nor a delegation,
/// is for the agent it was sent to.
pub proof fn law_plain_messages_ask_their_agent(
    o: OrchestratorView,
    context: ContextView,
    session: Seq<char>,
    text: Seq<char>,
    now: Timestamp,
    home: Option<Seq<char>>,
)
    requires
        !is_command(text),
        inline_spawn(text) is None,
        inline_delegate(text) is None,
    ensures
        routed(o, context, session, text, now, home) == (
            o,
            OutcomeView::Think(thought(o.state, context, session, text, false)),
        ),
{
}

// The way of a message.
/// How many steps a message may still need.
pub open spec fn steps_left(stage: StageView) -> nat {
    match stage {
        StageView::MessageNoted => 3,
        StageView::EffectMade(_) => 2,
        StageView::Thinking { .. } => 2,
        StageView::ReplyNoted(_) => 1,
    }
}

/// Each step brings a message nearer to its end, for the same run, session and
/// agent.
pub proof fn law_turns_end(
    o: OrchestratorView,
    turn: TurnView,
    outcome: Result<Seq<char>, Seq<char>>,
    now: Timestamp,
    home: Option<Seq<char>>,
)
    ensures
        ({
            let next = turn_of(resumed(o, turn, outcome, now, home).1);
            next matches Some(t) ==> steps_left(t.stage) < steps_left(turn.stage) && t
                == (TurnView { stage: t.stage, ..turn })
        }),
{
}

/// A reply is noted in the session and for the agent of the message before it
/// goes out, and what goes out is what was noted.
pub proof fn law_replies_are_noted(
    o: OrchestratorView,
    turn: TurnView,
    outcome: Result<Seq<char>, Seq<char>>,
    now: Timestamp,
    home: Option<Seq<char>>,
)
    ensures
        ({
            let (after, step) = resumed(o, turn, outcome, now, home);
            &&& step matches StepView::SaveState(t) ==> (t.stage matches StageView::ReplyNoted(
                reply,
            ) ==> after.state == with_conversation(o.state, reply_item(turn, reply, now)))
            &&& step matches StepView::Done(r) ==> after == o && turn.stage
                == StageView::ReplyNoted(r.reply) && r == (ReplyView {
                run_id: turn.run_id,
                agent_id: turn.context.agent.id,
                session: turn.session,
                reply: r.reply,
            })
        }),
{
}

/// The turn that a step hands on, where it hands one on.
pub open spec fn turn_of(step: StepView) -> Option<TurnView> {
    match step {
        StepView::SaveState(t) => Some(t),
        StepView::SaveConfig(t) => Some(t),
        StepView::RunCodex(t, _) => Some(t),
        StepView::Done(_) => None,
        StepView::Fail(_) => None,
    }
}

/// A message that is replied to at once has its reply after two steps that go
/// well, and both are in the memory.
pub proof fn law_direct_replies(
    o: OrchestratorView,
    turn: TurnView,
    now: Timestamp,
    later: Timestamp,
    home: Option<Seq<char>>,
    reply: Seq<char>,
)
    requires
        turn.stage is MessageNoted,
        routed(o, turn.context, turn.session, turn.text, now, home).1 == OutcomeView::Reply(reply),
    ensures
        ({
            let (noted, step) = resumed(o, turn, Ok(seq![]), now, home);
            &&& turn_of(step) is Some
            &&& noted.config == o.config
            &&& noted.state == with_conversation(o.state, reply_item(turn, reply, now))
            &&& resumed(noted, turn_of(step)->0, Ok(seq![]), later, home) == (
                noted,
                StepView::Done(done(turn, reply)),
            )
        }),
{
}

/// A message that changes something has its reply after the change was saved, and
/// the reply was.
pub proof fn law_effects_are_replied(
    o: OrchestratorView,
    turn: TurnView,
    now: Timestamp,
    later: Timestamp,
    last: Timestamp,
    home: Option<Seq<char>>,
    reply: Seq<char>,
)
    requires
        turn.stage is MessageNoted,
        ({
            let outcome = routed(o, turn.context, turn.session, turn.text, now, home).1;
            outcome == OutcomeView::SaveState(reply) || outcome == OutcomeView::SaveConfig(reply)
        }),
    ensures
        ({
            let changed = routed(o, turn.context, turn.session, turn.text, now, home).0;
            let (first, step) = resumed(o, turn, Ok(seq![]), now, home);
            let (second, next) = resumed(first, turn_of(step)->0, Ok(seq![]), later, home);
            &&& turn_of(step) is Some
            &&& first == changed
            &&& turn_of(next) is Some
            &&& second.config == changed.config
            &&& second.state == with_conversation(changed.state, reply_item(turn, reply, later))
            &&& resumed(second, turn_of(next)->0, Ok(seq![]), last, home) == (
                second,
                StepView::Done(done(turn, reply)),
            )
        }),
{
}

/// A message for an agent has what the agent answers as its reply, after the
/// answer was noted and saved.
pub proof fn law_answers_are_replied(
    o: OrchestratorView,
    turn: TurnView,
    now: Timestamp,
    later: Timestamp,
    last: Timestamp,
    home: Option<Seq<char>>,
    answer: Seq<char>,
)
    requires
        turn.stage is MessageNoted,
        routed(o, turn.context, turn.session, turn.text, now, home).1 is Think,
    ensures
        ({
            let run = routed(o, turn.context, turn.session, turn.text, now, home).1->Think_0;
            let reply = answer_text(run.agent_id, run.delegated, Ok(answer));
            let (first, step) = resumed(o, turn, Ok(seq![]), now, home);
            let (second, next) = resumed(first, turn_of(step)->0, Ok(answer), later, home);
            &&& step matches StepView::RunCodex(_, asked) && asked == run
            &&& first == o
            &&& turn_of(next) is Some
            &&& second.state == with_conversation(o.state, reply_item(turn, reply, later))
            &&& resumed(second, turn_of(next)->0, Ok(seq![]), last, home) == (
                second,
                StepView::Done(done(turn, reply)),
            )
        }),
{
}

/// The reply to a message.
pub open spec fn done(turn: TurnView, reply: Seq<char>) -> ReplyView {
    ReplyView {
        run_id: turn.run_id,
        agent_id: turn.context.agent.id,
        session: turn.session,
        reply,
    }
}

/// A failure of an agent is replied as any answer is: it does not end the
/// message.
pub proof fn law_agents_may_fail(
    o: OrchestratorView,
    turn: TurnView,
    chain: Seq<char>,
    now: Timestamp,
    home: Option<Seq<char>>,
)
    requires
        turn.stage is Thinking,
    ensures
        resumed(o, turn, Err(chain), now, home).1 is SaveState,
{
}

proof fn lemma_routing_keeps_numbers(
    o: OrchestratorView,
    turn: TurnView,
    now: Timestamp,
    home: Option<Seq<char>>,
)
    requires
        numbered(o.state.state),
        o.state.state.next_id < u64::MAX,
    ensures
        ({
            let (after, led_to) = routed(o, turn.context, turn.session, turn.text, now, home);
            &&& numbered(after.state.state)
            &&& after.state.state.next_id <= o.state.state.next_id + 1
            &&& led_to is Reply ==> after.state == o.state
        }),
{
    if is_command(turn.text) {
        let agent_id = turn.context.agent.id;
        let item = reply_item(turn, seq![], now);
        match command_of(turn.text) {
            CommandView::TaskAdd(title) => {
                law_adding_keeps_numbers(o.state, item, agent_id, title, now);
            },
            CommandView::TaskDone(number) => {
                let n = unsigned_value(number);
                if n is Some {
                    law_done_keeps_numbers(o.state, n->0 as u64, now);
                }
            },
            CommandView::Remember(note) => {
                law_adding_keeps_numbers(o.state, item, agent_id + ":"@ + turn.session, note, now);
            },
            _ => {},
        }
    }
}

/// The numbers of the memory stay in order from step to step.
pub proof fn law_steps_keep_numbers(
    o: OrchestratorView,
    input: MessageView,
    run_id: Seq<char>,
    turn: TurnView,
    outcome: Result<Seq<char>, Seq<char>>,
    now: Timestamp,
    home: Option<Seq<char>>,
)
    requires
        numbered(o.state.state),
        o.state.state.next_id < u64::MAX,
    ensures
        numbered(begun(o, input, run_id, now, home).0.state.state),
        numbered(resumed(o, turn, outcome, now, home).0.state.state),
        resumed(o, turn, outcome, now, home).0.state.state.next_id <= o.state.state.next_id + 1,
{
    assert forall|item: ConversationView| numbered(
        #[trigger] with_conversation(o.state, item).state,
    ) by {
        law_adding_keeps_numbers(o.state, item, seq![], seq![], now);
    }
    lemma_routing_keeps_numbers(o, turn, now, home);
    lemma_following_keeps_numbers(
        o,
        routed(o, turn.context, turn.session, turn.text, now, home),
        turn,
        now,
    );
}

proof fn lemma_following_keeps_numbers(
    o: OrchestratorView,
    led: (OrchestratorView, OutcomeView),
    turn: TurnView,
    now: Timestamp,
)
    requires
        numbered(o.state.state),
        o.state.state.next_id < u64::MAX,
        numbered(led.0.state.state),
        led.0.state.state.next_id <= o.state.state.next_id + 1,
        led.1 is Reply ==> led.0.state == o.state,
    ensures
        ({
            let after = followed(led.0, turn, led.1, now).0.state.state;
            numbered(after) && after.next_id <= o.state.state.next_id + 1
        }),
{
    if let OutcomeView::Reply(reply) = led.1 {
        law_adding_keeps_numbers(o.state, reply_item(turn, reply, now), seq![], seq![], now);
    }
}

// Agents.
/// Whether no two agents have the same name, in any case of letters.
pub open spec fn distinct_agents(agents: Seq<AgentView>) -> bool {
    forall|i: int, j: int|
        0 <= i < j < agents.len() ==> !same_but_case(
            (#[trigger] agents[i]).id,
            (#[trigger] agents[j]).id,
        )
}

/// Setting up an agent keeps the names of agents apart, and every other agent
/// as it is.
pub proof fn law_upsert_keeps_others(
    cfg: ConfigView,
    id: Seq<char>,
    soul: Seq<char>,
    workspace: Option<Seq<char>>,
    home: Option<Seq<char>>,
)
    ensures
        ({
            let after = upserted(cfg, id, soul, workspace, home);
            let i = agent_index(cfg.agents, id);
            &&& distinct_agents(cfg.agents) ==> distinct_agents(after.agents)
            &&& after == (ConfigView { agents: after.agents, ..cfg })
            &&& after.agents.len() == if i < cfg.agents.len() {
                cfg.agents.len()
            } else {
                cfg.agents.len() + 1
            }
            &&& forall|j: int|
                0 <= j < cfg.agents.len() && j != i ==> #[trigger] after.agents[j] == cfg.agents[j]
            &&& i < cfg.agents.len() ==> after.agents[i].id == cfg.agents[i].id
        }),
{
    lemma_agent_index(cfg.agents, id);
}

/// An agent that was set up can be asked for by its name, and has the soul and
/// the workspace that it was given.
pub proof fn law_upserted_agent_is_found(
    cfg: ConfigView,
    id: Seq<char>,
    soul: Seq<char>,
    workspace: Option<Seq<char>>,
    home: Option<Seq<char>>,
)
    requires
        upsert(cfg, id, soul, workspace, home).1 is SaveConfig,
    ensures
        ({
            let after = upsert(cfg, id, soul, workspace, home).0;
            let name = normalized_id(id);
            let i = agent_index(after.agents, name);
            &&& valid_id(name)
            &&& agent_context(after, Some(name), home) == Ok::<
                ContextView,
                TurnErrorView,
            >(context_at(after, i, home))
            &&& same_but_case(after.agents[i].id, name)
            &&& after.agents[i].name == name
            &&& after.agents[i].soul == soul
            &&& workspace matches Some(w) ==> after.agents[i].workspace == Some(
                normalized_binding(w, cfg.brain.workspace, home),
            )
        }),
{
    let name = normalized_id(id);
    let after = upserted(cfg, name, soul, workspace, home);
    lemma_agent_index(cfg.agents, name);
    lemma_agent_index(after.agents, name);
    lemma_upserted_is_found(cfg, name, soul, workspace, home);
    law_valid_ids_are_normal(name);
}

pub proof fn lemma_trimmed_ends(s: Seq<char>)
    requires
        s.len() > 0,
        trimmed(s) == s,
    ensures
        !is_space(s[0]),
        !is_space(s.last()),
{
    lemma_trim_start(s, CharSet::Space);
    let t = trim_start_of(s, CharSet::Space);
    lemma_trim_end(t, CharSet::Space);
    assert(t.len() == s.len());
    assert(t == s) by {
        lemma_trim_start_same(s, CharSet::Space);
    }
}

proof fn lemma_trim_start_same(s: Seq<char>, set: CharSet)
    requires
        trim_start_of(s, set).len() == s.len(),
    ensures
        trim_start_of(s, set) == s,
{
    if s.len() > 0 && set.has(s[0]) {
        lemma_trim_start(s.skip(1), set);
    }
}

pub proof fn lemma_span_of_name(id: Seq<char>, rest: Seq<char>)
    requires
        forall|i: int| 0 <= i < id.len() ==> !is_space(#[trigger] id[i]),
        rest.len() > 0,
        is_space(rest[0]),
    ensures
        span_until(id + rest, CharSet::Space) == id.len(),
{
    let s = id + rest;
    let n = span_until(s, CharSet::Space) as int;
    lemma_span_until(s, CharSet::Space);
    if n < id.len() {
        assert(s[n] == id[n]);
    } else if n > id.len() {
        assert(s[id.len() as int] == rest[0]);
        assert(CharSet::Space.has(s[id.len() as int]));
    }
}

/// `<agent> run <task>` asks the agent for the task, for every name of an agent
/// and every task without white space around it.
pub proof fn law_run_is_a_delegation(id: Seq<char>, task: Seq<char>)
    requires
        valid_id(id),
        id.len() > 0,
        task.len() > 0,
        trimmed(task) == task,
    ensures
        inline_delegate(id + " run "@ + task) == Some(InlineDelegateView { agent_id: id, task }),
{
    reveal_strlit(" run ");
    reveal_strlit("run ");
    let raw = id + " run "@ + task;
    let tail = " run "@ + task;
    lemma_trimmed_ends(task);
    assert(raw == id + tail);
    assert(raw[0] == id[0]);
    assert(raw.last() == task.last());
    assert(trim_start_of(raw, CharSet::Space) == raw);
    assert(trimmed(raw) == raw);
    lemma_span_of_name(id, tail);
    assert(raw.take(id.len() as int) =~= id);
    assert(raw.skip(id.len() as int) =~= tail);
    law_valid_ids_are_normal(id);
    let rest = "run "@ + task;
    assert(tail.skip(1) =~= rest);
    assert(trim_start_of(tail, CharSet::Space) == trim_start_of(tail.skip(1), CharSet::Space));
    assert(trim_start_of(rest, CharSet::Space) == rest);
    assert(ascii_lower(rest).take(4) =~= "run "@);
    let after = rest.skip(3);
    assert(after[0] == ' ');
    assert(after.skip(1) =~= task);
    assert(trim_start_of(after, CharSet::Space) == trim_start_of(task, CharSet::Space));
    assert(trimmed(after) == trimmed(task));
}

/// What is delegated in plain language is what `/delegate` would delegate: the
/// agent of that name is asked for the task, where there is one.
pub proof fn law_inline_delegation_asks_the_agent(
    o: OrchestratorView,
    session: Seq<char>,
    id: Seq<char>,
    task: Seq<char>,
    home: Option<Seq<char>>,
)
    requires
        valid_id(id),
        id.len() > 0,
        task.len() > 0,
        trimmed(task) == task,
        agent_index(o.config.agents, id) < o.config.agents.len(),
    ensures
        inline_delegated(o, session, id + " run "@ + task, home) == Some(
            OutcomeView::Think(
                thought(
                    o.state,
                    context_at(o.config, agent_index(o.config.agents, id), home),
                    session,
                    task,
                    true,
                ),
            ),
        ),
{
    law_run_is_a_delegation(id, task);
    law_valid_ids_are_normal(id);
    lemma_trimmed_ends(task);
    lemma_delegation(id, task);
}

pub proof fn lemma_delegation(id: Seq<char>, task: Seq<char>)
    requires
        valid_id(id),
        id.len() > 0,
        task.len() > 0,
        trimmed(task) == task,
    ensures
        delegation(id + " "@ + task) == (id, task),
        trimmed(id + " "@ + task) == id + " "@ + task,
{
    law_valid_ids_are_normal(id);
    lemma_trimmed_ends(task);
    reveal_strlit(" ");
    let rest = id + " "@ + task;
    let set = CharSet::OneOf(" ");
    assert(rest[0] == id[0]);
    assert(rest.last() == task.last());
    assert(trim_start_of(rest, CharSet::Space) == rest);
    assert(trimmed(rest) == rest);
    let n = span_until(rest, set) as int;
    lemma_span_until(rest, set);
    assert(rest[id.len() as int] == ' ');
    assert(" "@[0] == ' ');
    assert(set.has(' '));
    if n < id.len() {
        assert(rest[n] == id[n]);
    } else if n > id.len() {
        assert(set.has(rest[id.len() as int]));
    }
    assert(rest.take(n) =~= id);
    assert(rest.skip(n + 1) =~= task);
    assert(delegation(rest) == (id, task));
}

/// A command that takes a title, a note or a query always has one: without one
/// it is no such command.
pub proof fn law_commands_say_something(raw: Seq<char>)
    ensures
        command_of(raw) matches CommandView::TaskAdd(title) ==> title.len() > 0,
        command_of(raw) matches CommandView::TaskDone(number) ==> number.len() > 0,
        command_of(raw) matches CommandView::Remember(note) ==> note.len() > 0,
        command_of(raw) matches CommandView::Mem(query) ==> query.len() > 0,
{
    reveal_strlit("/task add ");
    reveal_strlit("/task done ");
    reveal_strlit("/remember ");
    reveal_strlit("/mem ");
    let t = trimmed(raw);
    law_trim_set(raw, CharSet::Space);
    lemma_rest_is_present(t, "/task add "@);
    lemma_rest_is_present(t, "/task done "@);
    lemma_rest_is_present(t, "/remember "@);
    lemma_rest_is_present(t, "/mem "@);
}

proof fn lemma_rest_is_present(t: Seq<char>, name: Seq<char>)
    requires
        t.len() > 0 ==> !is_space(t.last()),
        name.len() > 0,
        is_space(name.last()),
    ensures
        has_prefix(t, name) ==> trimmed(t.skip(name.len() as int)).len() > 0,
{
    if has_prefix(t, name) {
        let rest = t.skip(name.len() as int);
        if rest.len() == 0 {
            assert(t.take(name.len() as int) =~= t);
            assert(t.last() == name.last());
        }
        assert(rest.last() == t.last());
        lemma_trim_start_keeps(rest, CharSet::Space);
        let s = trim_start_of(rest, CharSet::Space);
        lemma_trim_start(rest, CharSet::Space);
        lemma_trim_end(s, CharSet::Space);
    }
}

proof fn lemma_trim_start_keeps(s: Seq<char>, set: CharSet)
    requires
        s.len() > 0,
        !set.has(s.last()),
    ensures
        trim_start_of(s, set).len() > 0,
    decreases s.len(),
{
    if set.has(s[0]) {
        assert(s.len() > 1);
        assert(s.skip(1).last() == s.last());
        lemma_trim_start_keeps(s.skip(1), set);
    }
}

proof fn lemma_command_text(name: Seq<char>, rest: Seq<char>)
    requires
        name.len() > 0,
        name[0] == '/',
        rest.len() > 0,
        trimmed(rest) == rest,
    ensures
        trimmed(name + rest) == name + rest,
        has_prefix(trim_start_of(name + rest, CharSet::Space), "/"@),
        has_prefix(name + rest, name),
        (name + rest).skip(name.len() as int) == rest,
{
    reveal_strlit("/");
    let t = name + rest;
    lemma_trimmed_ends(rest);
    assert(t[0] == '/');
    assert(t.last() == rest.last());
    assert(trim_start_of(t, CharSet::Space) == t);
    assert(t.take(1) =~= "/"@);
    assert(t.take(name.len() as int) =~= name);
    assert(t.skip(name.len() as int) =~= rest);
}

/// `/delegate` with a name and a task asks the agent of that name, where there is
/// one.
pub proof fn law_delegate_asks_the_agent(
    o: OrchestratorView,
    context: ContextView,
    session: Seq<char>,
    id: Seq<char>,
    task: Seq<char>,
    now: Timestamp,
    home: Option<Seq<char>>,
)
    requires
        valid_id(id),
        id.len() > 0,
        task.len() > 0,
        trimmed(task) == task,
        agent_index(o.config.agents, id) < o.config.agents.len(),
    ensures
        routed(o, context, session, "/delegate "@ + (id + " "@ + task), now, home) == (
            o,
            OutcomeView::Think(
                thought(
                    o.state,
                    context_at(o.config, agent_index(o.config.agents, id), home),
                    session,
                    task,
                    true,
                ),
            ),
        ),
{
    let rest = id + " "@ + task;
    let name = "/delegate "@;
    let t = name + rest;
    lemma_delegation(id, task);
    law_valid_ids_are_normal(id);
    reveal_strlit("/delegate ");
    lemma_command_text(name, rest);
    assert(t[1] == 'd' && t.len() > 10);
    lemma_not_that_command(t);
    assert(command_of(t) == CommandView::Delegate(rest));
}

/// A text that starts with `/d` holds none of the commands that come before
/// `/delegate`.
proof fn lemma_not_that_command(t: Seq<char>)
    requires
        t.len() > 7,
        t[1] == 'd',
    ensures
        !same_but_case(t, "/help"@),
        !same_but_case(t, "/agents"@),
        !same_but_case(t, "/tasks"@),
        !has_prefix(t, "/spawn "@),
        !has_prefix(t, "/task add "@),
        !has_prefix(t, "/task done "@),
        !has_prefix(t, "/remember "@),
        !has_prefix(t, "/mem "@),
{
    reveal_strlit("/help");
    reveal_strlit("/agents");
    reveal_strlit("/tasks");
    reveal_strlit("/spawn ");
    reveal_strlit("/task add ");
    reveal_strlit("/task done ");
    reveal_strlit("/remember ");
    reveal_strlit("/mem ");
    assert(ascii_lower(t).len() == t.len());
    assert(ascii_lower("/help"@).len() == 5);
    assert(ascii_lower("/agents"@).len() == 7);
    assert(ascii_lower("/tasks"@).len() == 6);
    lemma_second_char(t, "/spawn "@);
    lemma_second_char(t, "/task add "@);
    lemma_second_char(t, "/task done "@);
    lemma_second_char(t, "/remember "@);
    lemma_second_char(t, "/mem "@);
}

proof fn lemma_second_char(t: Seq<char>, p: Seq<char>)
    requires
        p.len() > 1,
        t.len() > 1,
        t[1] != p[1],
    ensures
        !has_prefix(t, p),
{
    if has_prefix(t, p) {
        assert(t.take(p.len() as int)[1] == p[1]);
    }
}

/// `/spawn` with a name and a soul sets up an agent of that name with that soul,
/// for every soul without `|` and without white space around it.
pub proof fn law_spawn_sets_up_the_agent(
    o: OrchestratorView,
    context: ContextView,
    session: Seq<char>,
    id: Seq<char>,
    soul: Seq<char>,
    now: Timestamp,
    home: Option<Seq<char>>,
)
    requires
        valid_id(id),
        id.len() > 0,
        soul.len() > 0,
        trimmed(soul) == soul,
        !soul.contains('|'),
    ensures
        ({
            let (after, outcome) = routed(
                o,
                context,
                session,
                "/spawn "@ + (id + " | "@ + soul),
                now,
                home,
            );
            &&& after == (OrchestratorView {
                config: upserted(o.config, id, soul, None, home),
                ..o
            })
            &&& outcome == OutcomeView::SaveConfig(
                ready_text(after.config, id),
            )
        }),
{
    let rest = id + " | "@ + soul;
    lemma_spawn_request(id, soul);
    lemma_spawn_command(rest);
    law_valid_ids_are_normal(id);
    assert(spawned(o.config, rest, home) == upsert(o.config, id, soul, None, home));
}

proof fn lemma_spawn_command(rest: Seq<char>)
    requires
        rest.len() > 0,
        trimmed(rest) == rest,
    ensures
        is_command("/spawn "@ + rest),
        command_of("/spawn "@ + rest) == CommandView::Spawn(rest),
{
    let name = "/spawn "@;
    let t = name + rest;
    reveal_strlit("/spawn ");
    reveal_strlit("/help");
    reveal_strlit("/agents");
    lemma_command_text(name, rest);
    assert(ascii_lower(t).len() == t.len());
    assert(ascii_lower("/help"@).len() == 5);
    assert(ascii_lower("/agents"@).len() == 7);
}

proof fn lemma_spawn_request(id: Seq<char>, soul: Seq<char>)
    requires
        valid_id(id),
        id.len() > 0,
        soul.len() > 0,
        trimmed(soul) == soul,
        !soul.contains('|'),
    ensures
        spawn_request(id + " | "@ + soul) == Some(
            SpawnView { agent_id: id, soul, workspace: None },
        ),
        trimmed(id + " | "@ + soul) == id + " | "@ + soul,
{
    let rest = id + " | "@ + soul;
    reveal_strlit(" | ");
    reveal_strlit("|");
    lemma_trimmed_ends(soul);
    assert(rest[0] == id[0]);
    assert(rest.last() == soul.last());
    assert(trim_start_of(rest, CharSet::Space) == rest);
    assert(trimmed(rest) == rest);
    let set = CharSet::OneOf("|");
    assert("|"@[0] == '|');
    assert(set.has('|'));
    let first = id + seq![' '];
    let second = seq![' '] + soul;
    let n = span_until(rest, set) as int;
    lemma_span_until(rest, set);
    assert(rest[id.len() as int + 1] == '|');
    if n < id.len() {
        assert(rest[n] == id[n]);
    } else if n == id.len() {
        assert(rest[n] == ' ');
    } else if n > id.len() + 1 {
        assert(set.has(rest[id.len() as int + 1]));
    }
    assert(n == id.len() + 1);
    assert(rest.take(n) =~= first);
    assert(rest.skip(n + 1) =~= second);
    let m = span_until(second, set) as int;
    lemma_span_until(second, set);
    if m < second.len() {
        if m > 0 {
            assert(soul[m - 1] == second[m]);
            assert(second[m] == '|');
            assert(soul.contains('|'));
        }
    }
    assert(split_on(second, set) == seq![second]);
    assert(split_on(rest, set) =~= seq![first, second]);
    law_valid_ids_are_normal(id);
    assert(first.drop_last() =~= id);
    assert(trim_start_of(first, CharSet::Space) == first);
    assert(trim_start_of(id, CharSet::Space) == id);
    assert(trim_end_of(first, CharSet::Space) == trim_end_of(id, CharSet::Space));
    assert(trimmed(first) == trimmed(id));
    assert(second.skip(1) =~= soul);
    assert(trim_start_of(second, CharSet::Space) == trim_start_of(soul, CharSet::Space));
    assert(trimmed(second) == soul);
}

/// A message that asks for a new agent sets it up for the workspace it names,
/// moved to where the brain works if it lies in the old place. Its soul speaks of
/// that workspace, and it can then be asked to run a task.
pub proof fn law_spawned_agents_can_run(
    o: OrchestratorView,
    text: Seq<char>,
    session: Seq<char>,
    task: Seq<char>,
    home: Option<Seq<char>>,
)
    requires
        inline_spawn(text) is Some,
        inline_spawn(text)->0.agent_id.len() > 0,
        task.len() > 0,
        trimmed(task) == task,
    ensures
        ({
            let id = inline_spawn(text)->0.agent_id;
            let (config, outcome) = inline_spawned(o.config, text, home)->0;
            let after = OrchestratorView { config, ..o };
            let brain = o.config.brain.workspace;
            let workspace = normalized_binding(inline_spawn(text)->0.workspace, brain, home);
            let agent = config.agents[agent_index(config.agents, id)];
            &&& outcome is SaveConfig
            &&& agent.workspace == Some(normalized_binding(workspace, brain, home))
            &&& agent.soul == workspace_soul(workspace)
            &&& inline_delegated(after, session, id + " run "@ + task, home) matches Some(
                OutcomeView::Think(run),
            ) && same_but_case(run.agent_id, id)
        }),
{
    let s = inline_spawn(text)->0;
    let workspace = normalized_binding(s.workspace, o.config.brain.workspace, home);
    let soul = workspace_soul(workspace);
    law_valid_ids_are_normal(s.agent_id);
    lemma_soul_is_present(workspace);
    law_upserted_agent_is_found(o.config, s.agent_id, soul, Some(workspace), home);
    let (config, outcome) = inline_spawned(o.config, text, home)->0;
    let after = OrchestratorView { config, ..o };
    lemma_upserted_is_found(o.config, s.agent_id, soul, Some(workspace), home);
    law_inline_delegation_asks_the_agent(after, session, s.agent_id, task, home);
}

proof fn lemma_soul_is_present(workspace: Seq<char>)
    ensures
        trimmed(workspace_soul(workspace)).len() > 0,
{
    reveal_strlit("You are a specialized automation sub-agent. Your workspace is ");
    let soul = workspace_soul(workspace);
    assert(soul[0] == 'Y');
    assert(trim_start_of(soul, CharSet::Space) == soul);
    lemma_trim_end(soul, CharSet::Space);
}

} // verus!
