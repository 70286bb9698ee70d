//! What becomes of a message, step by step: which agent and session it is for, what is
//! noted of it and of its reply, and what goes out.
use crate::agents::law_valid_ids_are_normal;
use crate::config::AgentView;
use crate::orchestrator::{
    begun, lemma_agent_index, resumed, routed, session_of, takes_first_number, takes_number,
    turn_error_text, MessageView, OrchestratorView, OutcomeView, ReplyView, StageView, StepView,
    TurnErrorView, TurnView,
};
use crate::orchestrator_laws::turn_of;
use crate::paths::FilePathView;
use crate::state::{ConversationView, Timestamp};
use crate::text::{contains_text, has_prefix, lower_char, trimmed, CharSet};
use crate::text_laws::{all_in, bare, law_bare_stays, law_trim_around};
use vstd::prelude::*;

verus! {

/// The turns of a memory after another one, where at most `most` are kept.
pub open spec fn with_turn(
    turns: Seq<ConversationView>,
    item: ConversationView,
    most: nat,
) -> Seq<ConversationView> {
    let all = turns.push(item);
    if all.len() > most {
        all.skip(all.len() - most)
    } else {
        all
    }
}

// Sessions.
/// A message that names a session is in that one, without the white space around it.
pub proof fn law_named_sessions(
    input: MessageView,
    before: Seq<char>,
    name: Seq<char>,
    after: Seq<char>,
)
    requires
        input.session == Some(before + name + after),
        all_in(before, CharSet::Space),
        all_in(after, CharSet::Space),
        bare(name, CharSet::Space),
    ensures
        session_of(input) == name,
{
    law_trim_around(before, name, after, CharSet::Space);
}

/// A message that names no session is in one for its source and its user, who may be
/// nobody in particular.
pub proof fn law_other_sessions(
    input: MessageView,
    before: Seq<char>,
    user: Seq<char>,
    after: Seq<char>,
)
    requires
        input.session matches Some(s) ==> all_in(s, CharSet::Space),
        all_in(before, CharSet::Space),
        all_in(after, CharSet::Space),
        bare(user, CharSet::Space),
    ensures
        input.user == Some(before + user + after) ==> session_of(input) == input.source + ":"@
            + user,
        input.user is None ==> session_of(input) == input.source + ":anonymous"@,
        (input.user matches Some(u) && all_in(u, CharSet::Space)) ==> session_of(input)
            == input.source + ":anonymous"@,
{
    law_trim_around(before, user, after, CharSet::Space);
    reveal_strlit(":anonymous");
    reveal_strlit(":");
    reveal_strlit("anonymous");
    assert(":"@ + "anonymous"@ =~= ":anonymous"@);
    assert(input.source + ":"@ + "anonymous"@ =~= input.source + (":"@ + "anonymous"@));
    if let Some(s) = input.session {
        lemma_blank(s);
    }
    if let Some(u) = input.user {
        if all_in(u, CharSet::Space) {
            lemma_blank(u);
        }
    }
}

/// Nothing is left of a text of white space.
pub proof fn lemma_blank(s: Seq<char>)
    requires
        all_in(s, CharSet::Space),
    ensures
        trimmed(s).len() == 0,
{
    crate::text_laws::law_trim_start_run(s, seq![], CharSet::Space);
    assert(s + seq![] =~= s);
}

// Agents.
/// Whether two names are alike in any case of their letters.
pub open spec fn alike(a: Seq<char>, b: Seq<char>) -> bool {
    a.len() == b.len() && forall|i: int|
        0 <= i < a.len() ==> lower_char(#[trigger] a[i]) == lower_char(b[i])
}

proof fn lemma_alike(a: Seq<char>, b: Seq<char>)
    ensures
        alike(a, b) <==> crate::text::same_but_case(a, b),
{
    let x = crate::text::ascii_lower(a);
    let y = crate::text::ascii_lower(b);
    if x == y {
        assert(a.len() == x.len() && b.len() == y.len());
        assert forall|i: int| 0 <= i < a.len() implies lower_char(#[trigger] a[i])
            == lower_char(b[i]) by {
            assert(x[i] == y[i]);
        }
    }
    if alike(a, b) {
        assert forall|i: int| 0 <= i < x.len() implies x[i] == y[i] by {
            assert(lower_char(a[i]) == lower_char(b[i]));
        }
        assert(x =~= y);
    }
}

/// Whether `i` is the place of the first agent with a name, in any case of letters.
pub open spec fn first_named(agents: Seq<AgentView>, name: Seq<char>, i: int) -> bool {
    0 <= i < agents.len() && alike(agents[i].id, name) && forall|j: int|
        0 <= j < i ==> !alike((#[trigger] agents[j]).id, name)
}

/// Whether no agent has a name, in any case of letters.
pub open spec fn none_named(agents: Seq<AgentView>, name: Seq<char>) -> bool {
    forall|j: int| 0 <= j < agents.len() ==> !alike((#[trigger] agents[j]).id, name)
}

/// The first agent with a name is found at its place, and none where there is none.
pub proof fn lemma_first_named(agents: Seq<AgentView>, name: Seq<char>, i: int)
    ensures
        first_named(agents, name, i) ==> crate::orchestrator::agent_index(agents, name) == i,
        none_named(agents, name) ==> crate::orchestrator::agent_index(agents, name)
            == agents.len(),
{
    lemma_agent_index(agents, name);
    let n = crate::orchestrator::agent_index(agents, name);
    assert forall|j: int| 0 <= j < agents.len() implies (alike((#[trigger] agents[j]).id, name)
        <==> crate::text::same_but_case(agents[j].id, name)) by {
        lemma_alike(agents[j].id, name);
    }
    if first_named(agents, name, i) {
        if n < i {
            assert(!alike(agents[n].id, name));
        } else if n > i {
            assert(!crate::text::same_but_case(agents[i].id, name));
        }
    }
    if none_named(agents, name) && n < agents.len() {
        assert(!alike(agents[n].id, name));
    }
}

/// Whether a text may be the name of an agent: small letters, digits, `-` and `_`.
pub open spec fn is_name(s: Seq<char>) -> bool {
    s.len() > 0 && forall|i: int|
        0 <= i < s.len() ==> 'a' <= #[trigger] s[i] <= 'z' || '0' <= s[i] <= '9' || s[i] == '-'
            || s[i] == '_'
}

/// A message that names an agent is for the first one with that name, in any case of
/// letters, with the workspace of that agent or else of the brain, and the model of the
/// brain. One for no agent that there is is refused.
pub proof fn law_named_agents(
    o: OrchestratorView,
    input: MessageView,
    run_id: Seq<char>,
    now: Timestamp,
    home: Option<Seq<char>>,
    name: Seq<char>,
    i: int,
)
    requires
        is_name(name),
        input.agent_id == Some(name) || input.agent_id == Some("@"@ + name),
    ensures
        ({
            let step = begun(o, input, run_id, now, home).1;
            &&& first_named(o.config.agents, name, i) ==> (step matches StepView::SaveState(turn)
                && turn.context.agent == o.config.agents[i] && turn.context.model
                == o.config.brain.model)
            &&& none_named(o.config.agents, name) ==> begun(o, input, run_id, now, home) == (
                o,
                StepView::Fail(TurnErrorView::UnknownAgent(name)),
            )
        }),
{
    assert(crate::agents::valid_id(name)) by {
        assert forall|k: int| 0 <= k < name.len() implies crate::agents::is_id_char(
            #[trigger] name[k],
        ) by {}
    }
    law_valid_ids_are_normal(name);
    lemma_at_is_taken(name);
    lemma_first_named(o.config.agents, name, i);
}

/// An `@` before a name makes no difference.
pub proof fn lemma_at_is_taken(name: Seq<char>)
    requires
        is_name(name),
    ensures
        crate::agents::normalized_id("@"@ + name) == name,
{
    reveal_strlit("@");
    reveal_strlit("`");
    reveal_strlit(":,;");
    let w = "@"@ + name;
    assert(w[0] == '@' && w.last() == name.last());
    assert("`"@ =~= seq!['`']);
    assert("@"@ =~= seq!['@']);
    assert(":,;"@ =~= seq![':', ',', ';']);
    law_bare_stays(w, CharSet::Space);
    law_bare_stays(w, CharSet::OneOf("`"));
    assert("@"@[0] == '@');
    crate::text_laws::law_trim_start_run("@"@, name, CharSet::OneOf("@"));
    law_bare_stays(name, CharSet::OneOf(":,;"));
    assert(crate::text::ascii_lower(name) =~= name);
}

/// A message that names no agent is for the first one; where there is none it is
/// refused.
pub proof fn law_messages_without_an_agent(
    o: OrchestratorView,
    input: MessageView,
    run_id: Seq<char>,
    now: Timestamp,
    home: Option<Seq<char>>,
)
    requires
        input.agent_id matches Some(s) ==> all_in(s, CharSet::Space),
    ensures
        ({
            let step = begun(o, input, run_id, now, home).1;
            &&& o.config.agents.len() > 0 ==> (step matches StepView::SaveState(turn)
                && turn.context.agent == o.config.agents[0] && turn.context.model
                == o.config.brain.model)
            &&& o.config.agents.len() == 0 ==> begun(o, input, run_id, now, home) == (
                o,
                StepView::Fail(TurnErrorView::NoAgents),
            )
        }),
{
    if let Some(s) = input.agent_id {
        lemma_blank(s);
        assert(trimmed(s) =~= seq![]);
        assert(crate::text::ascii_lower(seq![]) =~= seq![]);
    }
}

/// Where an agent works: in its own workspace, or where the brain does if it has none;
/// what follows a leading `~/` is seen from the home directory.
pub proof fn law_agents_work_in_their_workspace(
    o: OrchestratorView,
    input: MessageView,
    run_id: Seq<char>,
    now: Timestamp,
    home: Option<Seq<char>>,
    workspace: Seq<char>,
)
    requires
        begun(o, input, run_id, now, home).1 is SaveState,
        ({
            let agent = turn_of(begun(o, input, run_id, now, home).1)->0.context.agent;
            agent.workspace == Some(workspace) || (agent.workspace is None && workspace
                == o.config.brain.workspace)
        }),
        !contains_text(workspace, ".openclaw/workspace"@),
    ensures
        ({
            let place = turn_of(begun(o, input, run_id, now, home).1)->0.context.workspace;
            &&& !has_prefix(workspace, "~/"@) || home is None ==> place == FilePathView::Plain(
                workspace,
            )
            &&& forall|rest: Seq<char>|
                workspace == #[trigger] ("~/"@ + rest) && home is Some ==> place
                    == FilePathView::UnderHome(rest)
        }),
{
    lemma_not_legacy(workspace);
    reveal_strlit("~/");
    assert forall|rest: Seq<char>| workspace == #[trigger] ("~/"@ + rest) && home
        is Some implies turn_of(begun(o, input, run_id, now, home).1)->0.context.workspace
        == FilePathView::UnderHome(rest) by {
        assert(workspace.take(2) =~= "~/"@);
        assert(workspace.skip(2) =~= rest);
    }
}

/// A workspace in which the old place is not named is not in the old place.
pub proof fn lemma_not_legacy(workspace: Seq<char>)
    requires
        !contains_text(workspace, ".openclaw/workspace"@),
    ensures
        crate::config::legacy_suffix(workspace) is None,
{
    let t = trimmed(workspace);
    let old = ".openclaw/workspace"@;
    reveal_strlit(".openclaw/workspace");
    reveal_strlit("~/.openclaw/workspace/");
    reveal_strlit("~/.openclaw/workspace");
    reveal_strlit(".openclaw/workspace/");
    reveal_strlit("/.openclaw/workspace/");
    lemma_trimmed_is_contained(workspace);
    if crate::config::legacy_suffix(workspace) is Some {
        crate::text::lemma_find_text(t, "/.openclaw/workspace/"@);
        let at: int = if has_prefix(t, "~/.openclaw/workspace/"@) || t
            == "~/.openclaw/workspace"@ {
            2
        } else if has_prefix(t, ".openclaw/workspace/"@) || t == ".openclaw/workspace"@ {
            0
        } else {
            crate::text::find_text(t, "/.openclaw/workspace/"@)->0 + 1
        };
        if has_prefix(t, "~/.openclaw/workspace/"@) {
            assert(t.subrange(2, 21) =~= t.take(22).subrange(2, 21));
            assert("~/.openclaw/workspace/"@.subrange(2, 21) =~= old);
        } else if t == "~/.openclaw/workspace"@ {
            assert(t.subrange(2, 21) =~= old);
        } else if has_prefix(t, ".openclaw/workspace/"@) {
            assert(t.subrange(0, 19) =~= t.take(20).subrange(0, 19));
            assert(".openclaw/workspace/"@.subrange(0, 19) =~= old);
        } else if t == ".openclaw/workspace"@ {
            assert(t.subrange(0, 19) =~= old);
        } else {
            let i = at - 1;
            assert(t.subrange(at, at + 19) =~= t.subrange(i, i + 21).subrange(1, 20));
            assert("/.openclaw/workspace/"@.subrange(1, 20) =~= old);
        }
        assert(crate::text::matches_at(t, old, at));
        crate::text_laws::law_containing_passes_on(workspace, t, old);
    }
}

/// What is left of a text without the white space around it stands in the text.
pub proof fn lemma_trimmed_is_contained(s: Seq<char>)
    ensures
        contains_text(s, trimmed(s)),
{
    let t = crate::text::trim_start_of(s, CharSet::Space);
    crate::text::lemma_trim_start_skips(s, CharSet::Space);
    crate::text::lemma_trim_end(t, CharSet::Space);
    let start = s.len() - t.len();
    let n = trimmed(s).len();
    assert(s.subrange(start, start + n) =~= trimmed(s));
    assert(crate::text::matches_at(s, trimmed(s), start));
}

// Steps.
/// A message is noted before anything is done about it: under its session, for its
/// agent, as what a user said, in its words. Nothing else changes.
pub proof fn law_messages_are_noted(
    o: OrchestratorView,
    input: MessageView,
    run_id: Seq<char>,
    now: Timestamp,
    home: Option<Seq<char>>,
)
    requires
        !(begun(o, input, run_id, now, home).1 is Fail),
    ensures
        ({
            let (after, step) = begun(o, input, run_id, now, home);
            let s = o.state.state;
            &&& after.config == o.config
            &&& after.config_path == o.config_path
            &&& after.codex == o.codex
            &&& after.state.max_conversation_items == o.state.max_conversation_items
            &&& after.state.max_memory_items == o.state.max_memory_items
            &&& after.state.state.memories == s.memories
            &&& after.state.state.tasks == s.tasks
            &&& after.state.state.next_id == (s.next_id + 1) as u64
            &&& step matches StepView::SaveState(turn) && turn.run_id == run_id && turn.session
                == session_of(input) && turn.source == input.source && turn.text == input.text
                && turn.stage is MessageNoted && after.state.state.conversations == with_turn(
                s.conversations,
                ConversationView {
                    id: s.next_id,
                    ts: now,
                    session: session_of(input),
                    agent_id: turn.context.agent.id,
                    role: "user"@,
                    text: input.text,
                    source: input.source,
                    user: input.user,
                },
                o.state.max_conversation_items as nat,
            )
        }),
{
}

/// A reply is noted under the session and for the agent of its message, as what an
/// assistant said, before it goes out. Nothing else changes.
pub open spec fn noted_reply(
    o: OrchestratorView,
    turn: TurnView,
    reply: Seq<char>,
    now: Timestamp,
    after: OrchestratorView,
    step: StepView,
) -> bool {
    let s = o.state.state;
    &&& after.config == o.config
    &&& after.config_path == o.config_path
    &&& after.codex == o.codex
    &&& after.state.max_conversation_items == o.state.max_conversation_items
    &&& after.state.max_memory_items == o.state.max_memory_items
    &&& after.state.state.memories == s.memories
    &&& after.state.state.tasks == s.tasks
    &&& after.state.state.next_id == (s.next_id + 1) as u64
    &&& after.state.state.conversations == with_turn(
        s.conversations,
        ConversationView {
            id: s.next_id,
            ts: now,
            session: turn.session,
            agent_id: turn.context.agent.id,
            role: "assistant"@,
            text: reply,
            source: turn.source,
            user: None,
        },
        o.state.max_conversation_items as nat,
    )
    &&& step == StepView::SaveState(TurnView { stage: StageView::ReplyNoted(reply), ..turn })
}

/// What an agent answers is the reply, with the agent's name before it where the task
/// was delegated. Where the agent failed, what is said of that is.
pub proof fn law_answers_become_replies(
    o: OrchestratorView,
    turn: TurnView,
    agent_id: Seq<char>,
    delegated: bool,
    outcome: Result<Seq<char>, Seq<char>>,
    now: Timestamp,
    home: Option<Seq<char>>,
)
    requires
        turn.stage == (StageView::Thinking { agent_id, delegated }),
    ensures
        ({
            let (after, step) = resumed(o, turn, outcome, now, home);
            let answer = match outcome {
                Ok(a) => a,
                Err(chain) => "[openorchestrator error] codex run failed for agent '"@ + agent_id
                    + "': "@ + chain,
            };
            &&& delegated ==> noted_reply(
                o,
                turn,
                "delegate:"@ + agent_id + "\n"@ + answer,
                now,
                after,
                step,
            )
            &&& !delegated ==> noted_reply(o, turn, answer, now, after, step)
        }),
{
}

/// A message that was noted is routed: a reply that comes at once is noted, a change
/// is saved first, and a run is asked for, by the agent that it is of. Where the
/// message could not be saved, nothing more is done.
pub proof fn law_noted_messages_are_routed(
    o: OrchestratorView,
    turn: TurnView,
    saved: Seq<char>,
    now: Timestamp,
    home: Option<Seq<char>>,
)
    requires
        turn.stage is MessageNoted,
    ensures
        ({
            let (after, led_to) = routed(o, turn.context, turn.session, turn.text, now, home);
            let (next, step) = resumed(o, turn, Ok(saved), now, home);
            &&& led_to matches OutcomeView::Reply(reply) ==> noted_reply(
                after,
                turn,
                reply,
                now,
                next,
                step,
            )
            &&& led_to matches OutcomeView::SaveState(reply) ==> next == after && step
                == StepView::SaveState(TurnView { stage: StageView::EffectMade(reply), ..turn })
            &&& led_to matches OutcomeView::SaveConfig(reply) ==> next == after && step
                == StepView::SaveConfig(TurnView { stage: StageView::EffectMade(reply), ..turn })
            &&& led_to matches OutcomeView::Think(run) ==> next == after && step
                == StepView::RunCodex(
                TurnView {
                    stage: StageView::Thinking {
                        agent_id: run.agent_id,
                        delegated: run.delegated,
                    },
                    ..turn
                },
                run,
            )
            &&& led_to matches OutcomeView::Fail(e) ==> next == after && step == StepView::Fail(e)
            &&& resumed(o, turn, Err(saved), now, home) == (
                o,
                StepView::Fail(TurnErrorView::SaveFailed(saved)),
            )
        }),
{
}

/// A change that was saved is replied to, and a reply that was saved goes out, under
/// the run, the agent and the session of its message. What could not be saved is told.
pub proof fn law_saved_steps_go_on(
    o: OrchestratorView,
    turn: TurnView,
    reply: Seq<char>,
    saved: Seq<char>,
    now: Timestamp,
    home: Option<Seq<char>>,
)
    ensures
        ({
            let (next, step) = resumed(o, turn, Ok(saved), now, home);
            &&& turn.stage == StageView::EffectMade(reply) ==> noted_reply(
                o,
                turn,
                reply,
                now,
                next,
                step,
            )
            &&& turn.stage == StageView::ReplyNoted(reply) ==> next == o && step
                == StepView::Done(
                ReplyView {
                    run_id: turn.run_id,
                    agent_id: turn.context.agent.id,
                    session: turn.session,
                    reply,
                },
            )
            &&& turn.stage == StageView::EffectMade(reply) || turn.stage
                == StageView::ReplyNoted(reply) ==> resumed(o, turn, Err(saved), now, home) == (
                o,
                StepView::Fail(TurnErrorView::SaveFailed(saved)),
            )
        }),
{
}

// Numbers.
/// A number is left for a step exactly where it takes one: the first step takes one where
/// there is an agent for the message, and any other where something is noted in it.
pub proof fn law_steps_take_numbers(
    o: OrchestratorView,
    input: MessageView,
    run_id: Seq<char>,
    turn: TurnView,
    outcome: Result<Seq<char>, Seq<char>>,
    now: Timestamp,
    home: Option<Seq<char>>,
)
    requires
        o.state.state.next_id < u64::MAX,
    ensures
        takes_first_number(o, input) <==> begun(o, input, run_id, now, home).0.state.state.next_id
            == o.state.state.next_id + 1,
        takes_number(o, turn, outcome) <==> resumed(
            o,
            turn,
            outcome,
            now,
            home,
        ).0.state.state.next_id == o.state.state.next_id + 1,
{
    crate::orchestrator_laws::law_commands_say_something(turn.text);
    if turn.stage is MessageNoted && outcome is Ok {
        lemma_routes_take_numbers(o, turn, now, home);
        law_noted_messages_are_routed(o, turn, outcome->Ok_0, now, home);
    }
}

proof fn lemma_routes_take_numbers(
    o: OrchestratorView,
    turn: TurnView,
    now: Timestamp,
    home: Option<Seq<char>>,
)
    requires
        o.state.state.next_id < u64::MAX,
    ensures
        ({
            let (after, led_to) = routed(o, turn.context, turn.session, turn.text, now, home);
            let taken = after.state.state.next_id != o.state.state.next_id;
            &&& taken ==> after.state.state.next_id == o.state.state.next_id + 1
            &&& crate::orchestrator::takes_number_at_once(o, turn.text) <==> taken || led_to
                is Reply
            &&& led_to is Reply ==> !taken
        }),
{
    crate::orchestrator_laws::law_commands_say_something(turn.text);
}

/// What is said of a message that is refused.
pub proof fn law_refusals_are_explained(name: Seq<char>)
    ensures
        contains_text(turn_error_text(TurnErrorView::UnknownAgent(name)), name),
        contains_text(turn_error_text(TurnErrorView::UnknownAgent(name)), "/agents"@),
        turn_error_text(TurnErrorView::SaveFailed(name)) == name,
{
    reveal_strlit("agent '");
    reveal_strlit("' not found. use /agents");
    reveal_strlit("/agents");
    let said = turn_error_text(TurnErrorView::UnknownAgent(name));
    crate::text_laws::law_middle_is_contained("agent '"@, name, "' not found. use /agents"@);
    let n = said.len();
    assert(said.subrange(n - 7, n as int) =~= "/agents"@);
    assert(crate::text::matches_at(said, "/agents"@, n - 7));
}

} // verus!
