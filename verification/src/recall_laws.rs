//! What an agent is told of what was said before: the prompt of a run, said of the
//! turns, notes and tasks in the memory themselves.
use crate::number::decimal;
use crate::message_laws::{
    law_answers_become_replies, law_messages_are_noted, law_noted_messages_are_routed, with_turn,
};
use crate::orchestrator::{
    begun, resumed, routed, session_of, thought, ContextView, MessageView, OrchestratorView,
    OutcomeView, StageView, StepView, TurnView,
};
use crate::orchestrator_laws::turn_of;
use crate::prompt::{
    history_lines, memory_lines, open_task_lines, section, truncated,
};
use crate::state::{
    first_items, last_items, long_tail, of_session, open_tasks, recent, with_conversation,
    ConversationView, StoreView, TaskStatus, TaskView, Timestamp,
};
use crate::text::{contains_text, joined};
use crate::text_laws::{law_containing_passes_on, law_joined_contains, law_middle_is_contained};
use vstd::prelude::*;

verus! {

// Turns of a session.
/// Whether `places` are those of the latest turns of a session, at most `limit` of
/// them: in rising order, all of that session, and none of it left out but earlier
/// ones.
pub open spec fn latest_places(
    items: Seq<ConversationView>,
    session: Seq<char>,
    limit: nat,
    places: Seq<int>,
) -> bool {
    &&& places.len() <= limit
    &&& forall|k: int|
        0 <= k < places.len() ==> 0 <= #[trigger] places[k] < items.len()
            && items[places[k]].session == session
    &&& forall|k: int, l: int|
        0 <= k < l < places.len() ==> #[trigger] places[k] < #[trigger] places[l]
    &&& forall|j: int|
        0 <= j < items.len() && (#[trigger] items[j]).session == session && !places.contains(j)
            ==> places.len() == limit && (limit > 0 ==> j < places[0])
}

/// What is recalled of a session are the turns at the latest places of it.
pub proof fn law_recent_turns(
    items: Seq<ConversationView>,
    session: Seq<char>,
    limit: nat,
    places: Seq<int>,
)
    requires
        latest_places(items, session, limit, places),
    ensures
        recent(items, session, limit) == Seq::new(places.len(), |k: int| items[places[k]]),
    decreases items.len(),
{
    let found = of_session(items, session);
    let told = Seq::new(places.len(), |k: int| items[places[k]]);
    if items.len() == 0 {
        if places.len() > 0 {
            assert(0 <= places[0] < items.len());
        }
        assert(recent(items, session, limit) =~= told);
    } else if limit == 0 {
        assert(recent(items, session, limit) =~= told);
    } else {
        let rest = items.drop_last();
        let last = items.len() - 1;
        if items.last().session == session {
            assert(items[last].session == session);
            if !places.contains(last) {
                assert(last < places[0]);
            }
            let k = choose|k: int| 0 <= k < places.len() && places[k] == last;
            if k < places.len() - 1 {
                assert(places[k] < places[places.len() - 1]);
            }
            assert(places.last() == last);
            let fewer = places.drop_last();
            assert forall|j: int|
                0 <= j < rest.len() && (#[trigger] rest[j]).session == session
                    && !fewer.contains(j) implies fewer.len() == limit - 1 && (limit - 1 > 0
                ==> j < fewer[0]) by {
                assert(items[j] == rest[j]);
                if places.contains(j) {
                    let m = choose|m: int| 0 <= m < places.len() && places[m] == j;
                    assert(m < places.len() - 1);
                    assert(fewer[m] == j);
                }
                if limit - 1 > 0 {
                    assert(fewer[0] == places[0]);
                }
            }
            assert forall|k: int| 0 <= k < fewer.len() implies 0 <= #[trigger] fewer[k]
                < rest.len() && rest[fewer[k]].session == session by {
                assert(fewer[k] == places[k]);
                assert(places[k] < places[places.len() - 1]);
            }
            law_recent_turns(rest, session, (limit - 1) as nat, fewer);
            let before = Seq::new(fewer.len(), |k: int| rest[fewer[k]]);
            assert(told =~= before.push(items.last()));
            assert(found == of_session(rest, session).push(items.last()));
            assert(last_items(found, limit) =~= last_items(
                of_session(rest, session),
                (limit - 1) as nat,
            ).push(items.last()));
        } else {
            assert forall|k: int| 0 <= k < places.len() implies 0 <= #[trigger] places[k]
                < rest.len() && rest[places[k]].session == session by {
                assert(items[places[k]].session == session);
            }
            assert forall|j: int|
                0 <= j < rest.len() && (#[trigger] rest[j]).session == session
                    && !places.contains(j) implies places.len() == limit && (limit > 0 ==> j
                < places[0]) by {
                assert(items[j] == rest[j]);
            }
            law_recent_turns(rest, session, limit, places);
            assert(told =~= Seq::new(places.len(), |k: int| rest[places[k]]));
        }
    }
}

// Open tasks.
/// Whether `places` are those of the open tasks, in rising order.
pub open spec fn open_places(tasks: Seq<TaskView>, places: Seq<int>) -> bool {
    &&& forall|k: int|
        0 <= k < places.len() ==> 0 <= #[trigger] places[k] < tasks.len()
            && tasks[places[k]].status == TaskStatus::Open
    &&& forall|k: int, l: int|
        0 <= k < l < places.len() ==> #[trigger] places[k] < #[trigger] places[l]
    &&& forall|j: int|
        0 <= j < tasks.len() && (#[trigger] tasks[j]).status == TaskStatus::Open
            ==> places.contains(j)
}

/// The open tasks are the tasks at their places, in their order.
pub proof fn law_open_tasks_in_order(tasks: Seq<TaskView>, places: Seq<int>)
    requires
        open_places(tasks, places),
    ensures
        open_tasks(tasks) == Seq::new(places.len(), |k: int| tasks[places[k]]),
    decreases tasks.len(),
{
    let told = Seq::new(places.len(), |k: int| tasks[places[k]]);
    if tasks.len() == 0 {
        if places.len() > 0 {
            assert(0 <= places[0] < tasks.len());
        }
        assert(open_tasks(tasks) =~= told);
    } else {
        let rest = tasks.drop_last();
        let last = tasks.len() - 1;
        if tasks.last().status == TaskStatus::Open {
            assert(tasks[last].status == TaskStatus::Open);
            let k = choose|k: int| 0 <= k < places.len() && places[k] == last;
            if k < places.len() - 1 {
                assert(places[k] < places[places.len() - 1]);
            }
            let fewer = places.drop_last();
            assert forall|j: int|
                0 <= j < rest.len() && (#[trigger] rest[j]).status
                    == TaskStatus::Open implies fewer.contains(j) by {
                assert(tasks[j] == rest[j]);
                let m = choose|m: int| 0 <= m < places.len() && places[m] == j;
                assert(fewer[m] == j);
            }
            assert forall|k: int| 0 <= k < fewer.len() implies 0 <= #[trigger] fewer[k]
                < rest.len() && rest[fewer[k]].status == TaskStatus::Open by {
                assert(fewer[k] == places[k]);
                assert(places[k] < places[places.len() - 1]);
            }
            law_open_tasks_in_order(rest, fewer);
            assert(told =~= Seq::new(fewer.len(), |k: int| rest[fewer[k]]).push(tasks.last()));
        } else {
            assert forall|k: int| 0 <= k < places.len() implies 0 <= #[trigger] places[k]
                < rest.len() && rest[places[k]].status == TaskStatus::Open by {
                assert(tasks[places[k]].status == TaskStatus::Open);
            }
            assert forall|j: int|
                0 <= j < rest.len() && (#[trigger] rest[j]).status
                    == TaskStatus::Open implies places.contains(j) by {
                assert(tasks[j] == rest[j]);
            }
            law_open_tasks_in_order(rest, places);
            assert(told =~= Seq::new(places.len(), |k: int| rest[places[k]]));
        }
    }
}

// Prompts.
/// A text, or its first characters with a note of how many are left out.
pub open spec fn cut(value: Seq<char>, max: nat) -> Seq<char> {
    if value.len() <= max {
        value
    } else {
        value.take(max as int) + "\n...[truncated "@ + decimal((value.len() - max) as nat)
            + " chars]"@
    }
}

/// Lines under each other, or a word for there being none.
pub open spec fn listed(lines: Seq<Seq<char>>) -> Seq<char> {
    if lines.len() == 0 {
        "(none)"@
    } else {
        joined(lines, "\n"@)
    }
}

/// What an agent is told: who it is and its soul, then what was found in the memory for
/// the message, the first twenty open tasks, the last twelve turns of the very session
/// in which it is asked, and the message. What is too long is cut.
pub proof fn law_agents_are_told_of_their_session(
    state: StoreView,
    context: ContextView,
    session: Seq<char>,
    text: Seq<char>,
    delegated: bool,
    said: Seq<int>,
    open: Seq<int>,
)
    requires
        latest_places(state.state.conversations, session, 12, said),
        open_places(state.state.tasks, open),
    ensures
        ({
            let s = state.state;
            let run = thought(state, context, session, text, delegated);
            let found = long_tail(s, text, 8);
            let shown = if open.len() > 20 {
                20nat
            } else {
                open.len()
            };
            &&& run.agent_id == context.agent.id
            &&& run.workspace == context.workspace
            &&& run.model == context.model
            &&& run.delegated == delegated
            &&& run.prompt == "You are OpenOrchestrator agent '"@ + context.agent.id
                + "'.\nSoul:\n"@ + context.agent.soul
                + "\n\nOperating rules:\n- Be concise and operational.\n- Prefer concrete next actions.\n- If user asks for automation, include a clear checklist.\n- When stopping processes, avoid broad kill patterns; identify exact target PIDs and exclude your current shell process.\n\nLong-tail memory matches:\n"@
                + cut(listed(Seq::new(found.len(), |k: int| cut(found[k], 700))), 4000)
                + "\n\nOpen tasks:\n"@ + listed(
                Seq::new(
                    shown,
                    |k: int|
                        "task#"@ + decimal(s.tasks[open[k]].id as nat) + " ["@
                            + s.tasks[open[k]].owner_agent + "] "@ + s.tasks[open[k]].title
                            + " (open)"@,
                ),
            ) + "\n\nRecent session history:\n"@ + cut(
                listed(
                    Seq::new(
                        said.len(),
                        |k: int|
                            s.conversations[said[k]].role + ": "@ + cut(
                                s.conversations[said[k]].text,
                                1000,
                            ),
                    ),
                ),
                8000,
            ) + "\n\nUser message:\n"@ + cut(text, 4000)
        }),
{
    let s = state.state;
    law_recent_turns(s.conversations, session, 12, said);
    law_open_tasks_in_order(s.tasks, open);
    let history = recent(s.conversations, session, 12);
    let tasks = open_tasks(s.tasks);
    let found = long_tail(s, text, 8);
    let shown = if open.len() > 20 {
        20nat
    } else {
        open.len()
    };
    assert(history_lines(history) =~= Seq::new(
        said.len(),
        |k: int|
            s.conversations[said[k]].role + ": "@ + cut(s.conversations[said[k]].text, 1000),
    ));
    assert(memory_lines(found) =~= Seq::new(found.len(), |k: int| cut(found[k], 700)));
    let task_lines = Seq::new(
        shown,
        |k: int|
            "task#"@ + decimal(s.tasks[open[k]].id as nat) + " ["@ + s.tasks[open[k]].owner_agent
                + "] "@ + s.tasks[open[k]].title + " (open)"@,
    );
    assert(open_task_lines(tasks).len() == shown);
    assert forall|k: int| 0 <= k < shown implies open_task_lines(tasks)[k] == #[trigger] task_lines[k] by {
        let task = s.tasks[open[k]];
        assert(tasks[k] == task);
        assert(first_items(tasks, 20)[k] == task);
        reveal_strlit(" (open)");
        reveal_strlit(" (");
        reveal_strlit("open");
        reveal_strlit(")");
        assert(" ("@ + "open"@ + ")"@ =~= " (open)"@);
        let front = "task#"@ + decimal(task.id as nat) + " ["@ + task.owner_agent + "] "@
            + task.title;
        assert(front + " ("@ + "open"@ + ")"@ =~= front + (" ("@ + "open"@ + ")"@));
    }
    assert(open_task_lines(tasks) =~= task_lines);
}

/// What was said in another session does not change what an agent is told, but for
/// what a search of the memory for its message finds.
pub proof fn law_other_sessions_stay_out(
    state: StoreView,
    item: ConversationView,
    context: ContextView,
    session: Seq<char>,
    text: Seq<char>,
    delegated: bool,
)
    requires
        item.session != session,
        state.state.conversations.len() < state.max_conversation_items,
        long_tail(with_conversation(state, item).state, text, 8) == long_tail(
            state.state,
            text,
            8,
        ),
    ensures
        thought(with_conversation(state, item), context, session, text, delegated) == thought(
            state,
            context,
            session,
            text,
            delegated,
        ),
{
    let after = with_conversation(state, item).state.conversations;
    assert(after.drop_last() =~= state.state.conversations);
    assert(of_session(after, session) == of_session(state.state.conversations, session));
}

/// Whether no turn of a session is so long that what is told of it could be cut.
pub open spec fn short_turns(items: Seq<ConversationView>, session: Seq<char>) -> bool {
    forall|i: int|
        0 <= i < items.len() && (#[trigger] items[i]).session == session ==> items[i].role.len()
            <= 100 && items[i].text.len() <= 550
}

proof fn lemma_joined_is_bounded(lines: Seq<Seq<char>>, each: nat)
    requires
        forall|k: int| 0 <= k < lines.len() ==> (#[trigger] lines[k]).len() <= each,
    ensures
        joined(lines, "\n"@).len() <= lines.len() * (each + 1),
    decreases lines.len(),
{
    reveal_strlit("\n");
    if lines.len() == 1 {
        assert(lines[0].len() <= each);
    } else if lines.len() > 1 {
        let rest = lines.drop_last();
        assert forall|k: int| 0 <= k < rest.len() implies (#[trigger] rest[k]).len() <= each by {
            assert(rest[k] == lines[k]);
        }
        lemma_joined_is_bounded(rest, each);
        assert(lines[lines.len() - 1].len() <= each);
        assert(lines.len() * (each + 1) == rest.len() * (each + 1) + (each + 1))
            by (nonlinear_arith)
            requires
                lines.len() == rest.len() + 1,
        ;
    }
}

/// What is said of a turn.
pub open spec fn turn_line(c: ConversationView) -> Seq<char> {
    c.role + ": "@ + c.text
}

proof fn lemma_short_history(items: Seq<ConversationView>, session: Seq<char>)
    requires
        short_turns(items, session),
    ensures
        ({
            let history = recent(items, session, 12);
            let lines = Seq::new(history.len(), |k: int| turn_line(history[k]));
            &&& truncated(section(history_lines(history)), 8000) == section(lines)
            &&& history_lines(history) == lines
        }),
{
    reveal_strlit(": ");
    reveal_strlit("(none)");
    let history = recent(items, session, 12);
    let lines = Seq::new(history.len(), |k: int| turn_line(history[k]));
    assert forall|k: int| 0 <= k < history.len() implies history[k].role.len() <= 100
        && history[k].text.len() <= 550 by {
        crate::state_laws::law_recent_is_of_the_session(items, session, 12, k);
        let i = choose|i: int| 0 <= i < items.len() && items[i] == history[k];
        assert(items[i].session == session);
    }
    assert(history_lines(history) =~= lines);
    assert forall|k: int| 0 <= k < lines.len() implies (#[trigger] lines[k]).len() <= 652 by {
        assert(lines[k] == turn_line(history[k]));
    }
    lemma_joined_is_bounded(lines, 652);
    if history.len() > 0 {
        crate::state_laws::law_recent_is_of_the_session(items, session, 12, 0);
    }
    assert(lines.len() * 653 <= 12 * 653) by (nonlinear_arith)
        requires
            lines.len() <= 12,
    ;
}

/// A run in a session is told of each of its last turns, by the role and in the words
/// in which it was noted, where none is so long that it could be cut.
pub proof fn law_runs_are_told_of_each_turn(
    state: StoreView,
    context: ContextView,
    session: Seq<char>,
    text: Seq<char>,
    delegated: bool,
    said: Seq<int>,
    k: int,
)
    requires
        latest_places(state.state.conversations, session, 12, said),
        short_turns(state.state.conversations, session),
        0 <= k < said.len(),
    ensures
        ({
            let turn = state.state.conversations[said[k]];
            contains_text(
                thought(state, context, session, text, delegated).prompt,
                turn.role + ": "@ + turn.text,
            )
        }),
{
    let items = state.state.conversations;
    law_recent_turns(items, session, 12, said);
    lemma_short_history(items, session);
    let history = recent(items, session, 12);
    let lines = Seq::new(history.len(), |k: int| turn_line(history[k]));
    let prompt = thought(state, context, session, text, delegated).prompt;
    crate::prompt::law_prompt_holds_its_parts(
        context.agent,
        text,
        history,
        long_tail(state.state, text, 8),
        open_tasks(state.state.tasks),
    );
    assert(lines[k] == turn_line(items[said[k]]));
    law_joined_contains(lines, "\n"@, k);
    law_containing_passes_on(prompt, section(lines), lines[k]);
}

proof fn lemma_last_three(
    items: Seq<ConversationView>,
    session: Seq<char>,
)
    requires
        items.len() >= 3,
        items[items.len() - 1].session == session,
        items[items.len() - 2].session == session,
        items[items.len() - 3].session == session,
    ensures
        ({
            let history = recent(items, session, 12);
            let n = history.len();
            &&& n >= 3
            &&& history[n - 1] == items[items.len() - 1]
            &&& history[n - 2] == items[items.len() - 2]
            &&& history[n - 3] == items[items.len() - 3]
        }),
{
    let a = items.drop_last();
    let b = a.drop_last();
    let c = b.drop_last();
    assert(a.last() == items[items.len() - 2]);
    assert(b.last() == items[items.len() - 3]);
    assert(of_session(b, session) == of_session(c, session).push(b.last()));
    assert(of_session(a, session) == of_session(b, session).push(a.last()));
    assert(of_session(items, session) == of_session(a, session).push(items.last()));
}

proof fn lemma_joined_end(lines: Seq<Seq<char>>)
    requires
        lines.len() >= 3,
    ensures
        ({
            let n = lines.len();
            contains_text(
                joined(lines, "\n"@),
                lines[n - 3] + "\n"@ + lines[n - 2] + "\n"@ + lines[n - 1],
            )
        }),
{
    let n = lines.len();
    let a = lines.drop_last();
    let b = a.drop_last();
    let nl = "\n"@;
    let x = lines[n - 3];
    let y = lines[n - 2];
    let z = lines[n - 1];
    let three = x + nl + y + nl + z;
    assert(a.last() == y && b.last() == x);
    assert(joined(lines, nl) == joined(a, nl) + nl + z);
    assert(joined(a, nl) == joined(b, nl) + nl + y);
    if n == 3 {
        assert(joined(b, nl) == x);
        law_middle_is_contained(seq![], three, seq![]);
        assert(seq![] + three + seq![] =~= three);
    } else {
        let front = joined(b.drop_last(), nl) + nl;
        assert(joined(b, nl) == front + x);
        lemma_regroup(front, x, nl, y, z);
        law_middle_is_contained(front, three, seq![]);
        assert(front + three + seq![] =~= front + three);
    }
}

proof fn lemma_regroup(a: Seq<char>, x: Seq<char>, nl: Seq<char>, y: Seq<char>, z: Seq<char>)
    ensures
        a + x + nl + y + nl + z == a + (x + nl + y + nl + z),
{
    assert(a + x + nl + y + nl + z =~= a + (x + nl + y + nl + z));
}

/// What was said in a session is known when it goes on: after a message was answered,
/// the run for the next message of the same session is told the message, the answer and
/// the new message, in this order.
pub proof fn law_a_session_goes_on(
    o: OrchestratorView,
    first: MessageView,
    answer: Seq<char>,
    second: MessageView,
    run_id: Seq<char>,
    now: Timestamp,
    home: Option<Seq<char>>,
)
    requires
        session_of(first) == session_of(second),
        o.state.max_conversation_items >= 3,
        short_turns(o.state.state.conversations, session_of(first)),
        first.text.len() <= 550,
        second.text.len() <= 550,
        answer.len() <= 550,
        ({
            let (o1, s1) = begun(o, first, run_id, now, home);
            let (o2, s2) = resumed(o1, turn_of(s1)->0, Ok(seq![]), now, home);
            let (o3, s3) = resumed(o2, turn_of(s2)->0, Ok(answer), now, home);
            let (o4, s4) = begun(o3, second, run_id, now, home);
            let (o5, s5) = resumed(o4, turn_of(s4)->0, Ok(seq![]), now, home);
            &&& s1 is SaveState
            &&& s2 matches StepView::RunCodex(_, run) && !run.delegated
            &&& s4 is SaveState
            &&& s5 is RunCodex
        }),
    ensures
        ({
            let (o1, s1) = begun(o, first, run_id, now, home);
            let (o2, s2) = resumed(o1, turn_of(s1)->0, Ok(seq![]), now, home);
            let (o3, s3) = resumed(o2, turn_of(s2)->0, Ok(answer), now, home);
            let (o4, s4) = begun(o3, second, run_id, now, home);
            let (o5, s5) = resumed(o4, turn_of(s4)->0, Ok(seq![]), now, home);
            s5 matches StepView::RunCodex(_, run) && contains_text(
                run.prompt,
                "user: "@ + first.text + "\nassistant: "@ + answer + "\nuser: "@ + second.text,
            )
        }),
{
    let (o1, s1) = begun(o, first, run_id, now, home);
    let t1 = turn_of(s1)->0;
    law_messages_are_noted(o, first, run_id, now, home);
    let (o2, s2) = resumed(o1, t1, Ok(seq![]), now, home);
    lemma_run_step(o1, t1, now, home);
    let t2 = turn_of(s2)->0;
    let run1 = s2->RunCodex_1;
    law_answers_become_replies(o2, t2, run1.agent_id, run1.delegated, Ok(answer), now, home);
    let (o3, s3) = resumed(o2, t2, Ok(answer), now, home);
    let (o4, s4) = begun(o3, second, run_id, now, home);
    let t4 = turn_of(s4)->0;
    law_messages_are_noted(o3, second, run_id, now, home);
    let (o5, s5) = resumed(o4, t4, Ok(seq![]), now, home);
    lemma_run_step(o4, t4, now, home);
    let run = s5->RunCodex_1;
    lemma_thinking_has_the_history(o4, t4.context, t4.session, t4.text, now, home);
    lemma_three_turns(
        o.state.state.conversations,
        o1.state.state.conversations,
        o3.state.state.conversations,
        o4.state.state.conversations,
        o1.state.state.conversations.last(),
        o3.state.state.conversations.last(),
        o4.state.state.conversations.last(),
        o.state.max_conversation_items as nat,
        session_of(first),
        run.prompt,
    );
}

proof fn lemma_three_turns(
    all: Seq<ConversationView>,
    c1: Seq<ConversationView>,
    c3: Seq<ConversationView>,
    items: Seq<ConversationView>,
    a: ConversationView,
    b: ConversationView,
    c: ConversationView,
    most: nat,
    session: Seq<char>,
    prompt: Seq<char>,
)
    requires
        most >= 3,
        short_turns(all, session),
        c1 == with_turn(all, a, most),
        c3 == with_turn(c1, b, most),
        items == with_turn(c3, c, most),
        a.session == session && a.role == "user"@ && a.text.len() <= 550,
        b.session == session && b.role == "assistant"@ && b.text.len() <= 550,
        c.session == session && c.role == "user"@ && c.text.len() <= 550,
        contains_text(
            prompt,
            truncated(section(history_lines(recent(items, session, 12))), 8000),
        ),
    ensures
        contains_text(
            prompt,
            "user: "@ + a.text + "\nassistant: "@ + b.text + "\nuser: "@ + c.text,
        ),
{
    let n = items.len();
    assert(c1.last() == a);
    assert(c3.len() >= 2 && c3.last() == b && c3[c3.len() - 2] == a);
    assert(n >= 3 && items[n - 1] == c && items[n - 2] == b && items[n - 3] == a);
    reveal_strlit("user");
    reveal_strlit("assistant");
    assert forall|i: int| 0 <= i < items.len() && (#[trigger] items[i]).session
        == session implies items[i].role.len() <= 100 && items[i].text.len() <= 550 by {
        if i < n - 3 {
            let j3 = i - n + 1 + c3.len();
            assert(c3[j3] == items[i]);
            let j1 = j3 - c3.len() + 1 + c1.len();
            assert(c1[j1] == c3[j3]);
            let j = j1 - c1.len() + 1 + all.len();
            assert(all[j] == c1[j1]);
            assert(all[j].session == session);
        }
    }
    lemma_last_three(items, session);
    lemma_short_history(items, session);
    let history = recent(items, session, 12);
    let m = history.len();
    let lines = Seq::new(history.len(), |k: int| turn_line(history[k]));
    lemma_joined_end(lines);
    lemma_told(a, b, c);
    assert(lines[m - 3] == turn_line(a) && lines[m - 2] == turn_line(b) && lines[m - 1]
        == turn_line(c));
    law_containing_passes_on(
        prompt,
        section(lines),
        turn_line(a) + "\n"@ + turn_line(b) + "\n"@ + turn_line(c),
    );
}

proof fn lemma_told(a: ConversationView, b: ConversationView, c: ConversationView)
    requires
        a.role == "user"@,
        b.role == "assistant"@,
        c.role == "user"@,
    ensures
        turn_line(a) + "\n"@ + turn_line(b) + "\n"@ + turn_line(c) == "user: "@ + a.text
            + "\nassistant: "@ + b.text + "\nuser: "@ + c.text,
{
    reveal_strlit("user");
    reveal_strlit("assistant");
    reveal_strlit("user: ");
    reveal_strlit("\nassistant: ");
    reveal_strlit("\nuser: ");
    reveal_strlit(": ");
    reveal_strlit("\n");
    assert("user"@ + ": "@ =~= "user: "@);
    assert("\n"@ + "assistant"@ + ": "@ =~= "\nassistant: "@);
    assert("\n"@ + "user"@ + ": "@ =~= "\nuser: "@);
    let left = turn_line(a) + "\n"@ + turn_line(b) + "\n"@ + turn_line(c);
    assert(left =~= ("user"@ + ": "@) + a.text + ("\n"@ + "assistant"@ + ": "@) + b.text + ("\n"@
        + "user"@ + ": "@) + c.text);
}

proof fn lemma_run_step(
    o: OrchestratorView,
    turn: TurnView,
    now: Timestamp,
    home: Option<Seq<char>>,
)
    requires
        turn.stage is MessageNoted,
        resumed(o, turn, Ok(seq![]), now, home).1 is RunCodex,
    ensures
        ({
            let (after, step) = resumed(o, turn, Ok(seq![]), now, home);
            let run = step->RunCodex_1;
            &&& after == o
            &&& routed(o, turn.context, turn.session, turn.text, now, home).1
                == OutcomeView::Think(run)
            &&& turn_of(step) == Some(
                TurnView {
                    stage: StageView::Thinking {
                        agent_id: run.agent_id,
                        delegated: run.delegated,
                    },
                    ..turn
                },
            )
        }),
{
    law_noted_messages_are_routed(o, turn, seq![], now, home);
    if routed(o, turn.context, turn.session, turn.text, now, home).1 is Think {
        lemma_thinking_keeps_the_memory(
            o,
            turn.context,
            turn.session,
            turn.text,
            now,
            home,
        );
    }
}

proof fn lemma_thinking_keeps_the_memory(
    o: OrchestratorView,
    context: ContextView,
    session: Seq<char>,
    text: Seq<char>,
    now: Timestamp,
    home: Option<Seq<char>>,
)
    requires
        routed(o, context, session, text, now, home).1 is Think,
    ensures
        routed(o, context, session, text, now, home).0 == o,
{
}

proof fn lemma_thinking_has_the_history(
    o: OrchestratorView,
    context: ContextView,
    session: Seq<char>,
    text: Seq<char>,
    now: Timestamp,
    home: Option<Seq<char>>,
)
    requires
        routed(o, context, session, text, now, home).1 is Think,
    ensures
        ({
            let run = routed(o, context, session, text, now, home).1->Think_0;
            contains_text(
                run.prompt,
                truncated(section(history_lines(recent(o.state.state.conversations, session, 12))), 8000),
            )
        }),
{
    law_runs_are_in_their_session(o, context, session, text, now, home);
    let run = routed(o, context, session, text, now, home).1->Think_0;
    let (asked, task, delegated) = choose|asked: ContextView, task: Seq<char>, delegated: bool|
        run == #[trigger] thought(o.state, asked, session, task, delegated);
    crate::prompt::law_prompt_holds_its_parts(
        asked.agent,
        task,
        recent(o.state.state.conversations, session, 12),
        long_tail(o.state.state, task, 8),
        open_tasks(o.state.state.tasks),
    );
}

/// Whatever message leads to a run, the run is one in the session of the message, with
/// the memory as it is.
pub proof fn law_runs_are_in_their_session(
    o: OrchestratorView,
    context: ContextView,
    session: Seq<char>,
    text: Seq<char>,
    now: Timestamp,
    home: Option<Seq<char>>,
)
    requires
        routed(o, context, session, text, now, home).1 is Think,
    ensures
        exists|asked: ContextView, task: Seq<char>, delegated: bool|
            routed(o, context, session, text, now, home).1->Think_0 == #[trigger] thought(
                o.state,
                asked,
                session,
                task,
                delegated,
            ),
{
}

} // verus!
