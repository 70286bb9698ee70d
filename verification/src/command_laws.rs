//! What each command does, said of the text of the command and of the memory and the
//! agents before and after it.
use crate::agents::{law_valid_ids_are_normal, valid_id};
use crate::commands::{command_of, spawn_request, CommandView, SpawnView};
use crate::config::{AgentView, ConfigView};
use crate::message_laws::{
    alike, first_named, is_name, lemma_first_named, lemma_not_legacy, none_named,
};
use crate::number::{decimal, is_digit, law_decimal_reads_back, unsigned_value};
use crate::orchestrator::{
    is_command, routed, thought, upsert, ContextView, OrchestratorView, OutcomeView,
    TurnErrorView,
};
use crate::orchestrator_laws::lemma_delegation;
use crate::outside::unicode_lower;
use crate::paths::FilePathView;
use crate::search_laws::{
    entries, entry_line, going_before, has_word, law_search_puts_matches_in_place,
};
use crate::state::{
    has_task, lemma_task_index, long_tail, task_index, MemoryView, StateView, TaskStatus,
    TaskView, Timestamp,
};
use crate::text::{
    ascii_lower, contains_text, has_prefix, is_space, joined, lemma_span_until, same_but_case,
    span_until, split_on, trimmed, words_of, CharSet,
};
use crate::text_laws::{
    all_in, bare, law_bare_stays, law_containing_passes_on, law_joined_contains,
    law_middle_is_contained, law_trim_around,
};
use vstd::prelude::*;

verus! {

// Reading commands.
/// White space around a command makes no difference.
pub proof fn law_spaces_around_commands(
    o: OrchestratorView,
    context: ContextView,
    session: Seq<char>,
    before: Seq<char>,
    text: Seq<char>,
    after: Seq<char>,
    now: Timestamp,
    home: Option<Seq<char>>,
)
    requires
        all_in(before, CharSet::Space),
        all_in(after, CharSet::Space),
        bare(text, CharSet::Space),
        text[0] == '/',
    ensures
        routed(o, context, session, before + text + after, now, home) == routed(
            o,
            context,
            session,
            text,
            now,
            home,
        ),
{
    reveal_strlit("/");
    let whole = before + text + after;
    law_trim_around(before, text, after, CharSet::Space);
    law_bare_stays(text, CharSet::Space);
    assert(whole =~= before + (text + after));
    assert((text + after)[0] == '/');
    crate::text_laws::law_trim_start_run(before, text + after, CharSet::Space);
    assert((text + after).take(1) =~= "/"@);
    assert(text.take(1) =~= "/"@);
    assert(command_of(whole) == command_of(text));
}

proof fn lemma_command(name: Seq<char>, rest: Seq<char>)
    requires
        name.len() > 0,
        name[0] == '/',
        bare(rest, CharSet::Space),
    ensures
        is_command(name + rest),
        trimmed(name + rest) == name + rest,
        has_prefix(name + rest, name),
        (name + rest).skip(name.len() as int) == rest,
        trimmed(rest) == rest,
{
    reveal_strlit("/");
    let t = name + rest;
    assert(t[0] == '/' && t.last() == rest.last());
    law_bare_stays(t, CharSet::Space);
    law_bare_stays(rest, CharSet::Space);
    assert(t.take(1) =~= "/"@);
    assert(t.take(name.len() as int) =~= name);
    assert(t.skip(name.len() as int) =~= rest);
}

proof fn lemma_differ(t: Seq<char>, p: Seq<char>, i: int)
    requires
        0 <= i < t.len(),
        i < p.len(),
        t[i] != p[i],
    ensures
        !has_prefix(t, p),
{
    if has_prefix(t, p) {
        assert(t.take(p.len() as int)[i] == p[i]);
    }
}

proof fn lemma_no_bare_command(t: Seq<char>)
    requires
        t.len() > 7,
    ensures
        !same_but_case(t, "/help"@),
        !same_but_case(t, "/agents"@),
        !same_but_case(t, "/tasks"@),
{
    reveal_strlit("/help");
    reveal_strlit("/agents");
    reveal_strlit("/tasks");
    assert(ascii_lower(t).len() == t.len());
    assert(ascii_lower("/help"@).len() == 5);
    assert(ascii_lower("/agents"@).len() == 7);
    assert(ascii_lower("/tasks"@).len() == 6);
}

proof fn lemma_done_command(rest: Seq<char>)
    requires
        bare(rest, CharSet::Space),
    ensures
        is_command("/task done "@ + rest),
        command_of("/task done "@ + rest) == CommandView::TaskDone(rest),
{
    reveal_strlit("/task done ");
    reveal_strlit("/task add ");
    reveal_strlit("/spawn ");
    let t = "/task done "@ + rest;
    lemma_command("/task done "@, rest);
    lemma_no_bare_command(t);
    assert(t[1] == 't' && t[6] == 'd');
    lemma_differ(t, "/spawn "@, 1);
    lemma_differ(t, "/task add "@, 6);
}

proof fn lemma_add_command(rest: Seq<char>)
    requires
        bare(rest, CharSet::Space),
    ensures
        is_command("/task add "@ + rest),
        command_of("/task add "@ + rest) == CommandView::TaskAdd(rest),
{
    reveal_strlit("/task add ");
    reveal_strlit("/spawn ");
    let t = "/task add "@ + rest;
    lemma_command("/task add "@, rest);
    lemma_no_bare_command(t);
    assert(t[1] == 't');
    lemma_differ(t, "/spawn "@, 1);
}

proof fn lemma_remember_command(rest: Seq<char>)
    requires
        bare(rest, CharSet::Space),
    ensures
        is_command("/remember "@ + rest),
        command_of("/remember "@ + rest) == CommandView::Remember(rest),
{
    reveal_strlit("/remember ");
    reveal_strlit("/task done ");
    reveal_strlit("/task add ");
    reveal_strlit("/spawn ");
    let t = "/remember "@ + rest;
    lemma_command("/remember "@, rest);
    lemma_no_bare_command(t);
    assert(t[1] == 'r');
    lemma_differ(t, "/spawn "@, 1);
    lemma_differ(t, "/task add "@, 1);
    lemma_differ(t, "/task done "@, 1);
}

proof fn lemma_mem_command(rest: Seq<char>)
    requires
        bare(rest, CharSet::Space),
    ensures
        is_command("/mem "@ + rest),
        command_of("/mem "@ + rest) == CommandView::Mem(rest),
{
    reveal_strlit("/mem ");
    reveal_strlit("/remember ");
    reveal_strlit("/task done ");
    reveal_strlit("/task add ");
    reveal_strlit("/spawn ");
    reveal_strlit("/help");
    reveal_strlit("/agents");
    reveal_strlit("/tasks");
    let t = "/mem "@ + rest;
    lemma_command("/mem "@, rest);
    assert(t[1] == 'm');
    assert(ascii_lower(t)[1] == 'm');
    assert(ascii_lower("/help"@)[1] == 'h');
    assert(ascii_lower("/agents"@)[1] == 'a');
    assert(ascii_lower("/tasks"@)[1] == 't');
    lemma_differ(t, "/spawn "@, 1);
    lemma_differ(t, "/task add "@, 1);
    lemma_differ(t, "/task done "@, 1);
    lemma_differ(t, "/remember "@, 1);
}

pub proof fn lemma_delegate_command(rest: Seq<char>)
    requires
        bare(rest, CharSet::Space),
    ensures
        is_command("/delegate "@ + rest),
        command_of("/delegate "@ + rest) == CommandView::Delegate(rest),
{
    reveal_strlit("/delegate ");
    reveal_strlit("/mem ");
    reveal_strlit("/remember ");
    reveal_strlit("/task done ");
    reveal_strlit("/task add ");
    reveal_strlit("/spawn ");
    let t = "/delegate "@ + rest;
    lemma_command("/delegate "@, rest);
    lemma_no_bare_command(t);
    assert(t[1] == 'd');
    lemma_differ(t, "/spawn "@, 1);
    lemma_differ(t, "/task add "@, 1);
    lemma_differ(t, "/task done "@, 1);
    lemma_differ(t, "/remember "@, 1);
    lemma_differ(t, "/mem "@, 1);
}

pub proof fn lemma_spawn_command(rest: Seq<char>)
    requires
        bare(rest, CharSet::Space),
        rest.len() > 1,
    ensures
        is_command("/spawn "@ + rest),
        command_of("/spawn "@ + rest) == CommandView::Spawn(rest),
{
    reveal_strlit("/spawn ");
    let t = "/spawn "@ + rest;
    lemma_command("/spawn "@, rest);
    lemma_no_bare_command(t);
}

/// The decimal digits of a number are bare.
proof fn lemma_digits_are_bare(n: nat)
    ensures
        bare(decimal(n), CharSet::Space),
{
    law_decimal_reads_back(n);
    let s = decimal(n);
    if has_prefix(s, seq!['+']) {
        assert(s.take(1)[0] == '+');
        lemma_decimal_start(n);
    }
    assert(is_digit(s[0]));
    assert(is_digit(s[s.len() - 1]));
}

proof fn lemma_decimal_start(n: nat)
    ensures
        decimal(n).len() > 0,
        is_digit(decimal(n)[0]),
    decreases n,
{
    if n >= 10 {
        lemma_decimal_start(n / 10);
        assert(decimal(n)[0] == decimal(n / 10)[0]);
    }
}

// Tasks.
/// `/task done` with the number of a task closes the first task with that number, at
/// the time of the command, and says so. Every other task, every turn and every note
/// stays as it is, and so do the agents.
pub proof fn law_done_closes_the_task_named(
    o: OrchestratorView,
    context: ContextView,
    session: Seq<char>,
    n: u64,
    i: int,
    now: Timestamp,
    home: Option<Seq<char>>,
)
    requires
        0 <= i < o.state.state.tasks.len(),
        o.state.state.tasks[i].id == n,
        forall|j: int| 0 <= j < i ==> (#[trigger] o.state.state.tasks[j]).id != n,
    ensures
        ({
            let text = "/task done "@ + decimal(n as nat);
            let (after, outcome) = routed(o, context, session, text, now, home);
            let before = o.state.state.tasks;
            let tasks = after.state.state.tasks;
            &&& outcome == OutcomeView::SaveState("task#"@ + decimal(n as nat) + " marked done"@)
            &&& tasks.len() == before.len()
            &&& tasks[i].id == n
            &&& tasks[i].status == TaskStatus::Done
            &&& tasks[i].updated_at == now
            &&& tasks[i].ts == before[i].ts
            &&& tasks[i].title == before[i].title
            &&& tasks[i].owner_agent == before[i].owner_agent
            &&& forall|j: int| 0 <= j < tasks.len() && j != i ==> #[trigger] tasks[j] == before[j]
            &&& after.state.state.next_id == o.state.state.next_id
            &&& after.state.state.conversations == o.state.state.conversations
            &&& after.state.state.memories == o.state.state.memories
            &&& after.state.max_conversation_items == o.state.max_conversation_items
            &&& after.state.max_memory_items == o.state.max_memory_items
            &&& after.config == o.config
            &&& after.config_path == o.config_path
            &&& after.codex == o.codex
        }),
{
    lemma_digits_are_bare(n as nat);
    lemma_done_command(decimal(n as nat));
    law_decimal_reads_back(n as nat);
    lemma_task_index(o.state.state.tasks, n);
    let k = task_index(o.state.state.tasks, n);
    assert(has_task(o.state.state.tasks, n));
    if k < i {
        assert(o.state.state.tasks[k].id != n);
    } else if k > i {
        assert(o.state.state.tasks[i].id != n);
    }
}

/// `/task done` with a number that no task has says so, and changes nothing.
pub proof fn law_done_needs_a_task(
    o: OrchestratorView,
    context: ContextView,
    session: Seq<char>,
    n: u64,
    now: Timestamp,
    home: Option<Seq<char>>,
)
    requires
        forall|j: int|
            0 <= j < o.state.state.tasks.len() ==> (#[trigger] o.state.state.tasks[j]).id != n,
    ensures
        routed(o, context, session, "/task done "@ + decimal(n as nat), now, home) == (
            o,
            OutcomeView::Reply("task#"@ + decimal(n as nat) + " not found"@),
        ),
{
    lemma_digits_are_bare(n as nat);
    lemma_done_command(decimal(n as nat));
    law_decimal_reads_back(n as nat);
    assert(!has_task(o.state.state.tasks, n));
}

/// `/task done` with what is no number is refused, and changes nothing.
pub proof fn law_done_needs_a_number(
    o: OrchestratorView,
    context: ContextView,
    session: Seq<char>,
    word: Seq<char>,
    k: int,
    now: Timestamp,
    home: Option<Seq<char>>,
)
    requires
        bare(word, CharSet::Space),
        0 <= k < word.len(),
        !('0' <= word[k] <= '9'),
        k > 0 || word[0] != '+',
    ensures
        routed(o, context, session, "/task done "@ + word, now, home) == (
            o,
            OutcomeView::Fail(TurnErrorView::TaskDoneUsage),
        ),
{
    lemma_done_command(word);
    let d = if has_prefix(word, seq!['+']) {
        word.skip(1)
    } else {
        word
    };
    if has_prefix(word, seq!['+']) {
        assert(word.take(1)[0] == '+');
        assert(d[k - 1] == word[k]);
        assert(!is_digit(d[k - 1]));
    } else {
        assert(!is_digit(d[k]));
    }
    assert(unsigned_value(word) is None);
}

/// `/task add` adds an open task under the next number, with that title, for the agent
/// of the message, and says so. Nothing else changes but the next number.
pub proof fn law_add_adds_the_task(
    o: OrchestratorView,
    context: ContextView,
    session: Seq<char>,
    title: Seq<char>,
    now: Timestamp,
    home: Option<Seq<char>>,
)
    requires
        bare(title, CharSet::Space),
        o.state.state.next_id < u64::MAX,
    ensures
        ({
            let n = o.state.state.next_id;
            let (after, outcome) = routed(
                o,
                context,
                session,
                "/task add "@ + title,
                now,
                home,
            );
            &&& outcome == OutcomeView::SaveState(
                "task#"@ + decimal(n as nat) + " added for "@ + context.agent.id + ": "@ + title,
            )
            &&& after.state.state == (StateView {
                next_id: (n + 1) as u64,
                tasks: o.state.state.tasks.push(
                    TaskView {
                        id: n,
                        ts: now,
                        updated_at: now,
                        owner_agent: context.agent.id,
                        title,
                        status: TaskStatus::Open,
                    },
                ),
                ..o.state.state
            })
            &&& after.state.max_conversation_items == o.state.max_conversation_items
            &&& after.state.max_memory_items == o.state.max_memory_items
            &&& after.config == o.config
            &&& after.config_path == o.config_path
            &&& after.codex == o.codex
        }),
{
    lemma_add_command(title);
}

/// `/tasks` shows every task on a line of its own, in their order: whether it is open
/// or done, its number, its title and the agent it is for.
pub proof fn law_tasks_are_shown(
    o: OrchestratorView,
    context: ContextView,
    session: Seq<char>,
    text: Seq<char>,
    now: Timestamp,
    home: Option<Seq<char>>,
)
    requires
        alike(text, "/tasks"@),
    ensures
        ({
            let tasks = o.state.state.tasks;
            let (after, outcome) = routed(o, context, session, text, now, home);
            &&& after == o
            &&& tasks.len() == 0 ==> outcome == OutcomeView::Reply("no tasks"@)
            &&& tasks.len() > 0 ==> outcome == OutcomeView::Reply(
                joined(
                    Seq::new(
                        tasks.len(),
                        |i: int|
                            (if tasks[i].status == TaskStatus::Open {
                                "[open] task#"@
                            } else {
                                "[done] task#"@
                            }) + decimal(tasks[i].id as nat) + " "@ + tasks[i].title + " ("@
                                + tasks[i].owner_agent + ")"@,
                    ),
                    "\n"@,
                ),
            )
        }),
{
    reveal_strlit("/tasks");
    reveal_strlit("/help");
    reveal_strlit("/agents");
    reveal_strlit("/spawn ");
    lemma_bare_word(text, "/tasks"@);
    assert(ascii_lower(text).len() == 6);
    assert(ascii_lower("/help"@).len() == 5);
    assert(ascii_lower("/agents"@).len() == 7);
    assert("/spawn "@.len() == 7);
    assert(command_of(text) == CommandView::Tasks);
    let tasks = o.state.state.tasks;
    reveal_strlit("[open] task#");
    reveal_strlit("[done] task#");
    reveal_strlit("[open]");
    reveal_strlit("[done]");
    reveal_strlit(" task#");
    assert("[open]"@ + " task#"@ =~= "[open] task#"@);
    assert("[done]"@ + " task#"@ =~= "[done] task#"@);
    if tasks.len() > 0 {
        assert(Seq::new(tasks.len(), |i: int| crate::commands::task_line(tasks[i])) =~= Seq::new(
            tasks.len(),
            |i: int|
                (if tasks[i].status == TaskStatus::Open {
                    "[open] task#"@
                } else {
                    "[done] task#"@
                }) + decimal(tasks[i].id as nat) + " "@ + tasks[i].title + " ("@
                    + tasks[i].owner_agent + ")"@,
        ));
    }
}

proof fn lemma_bare_word(text: Seq<char>, name: Seq<char>)
    requires
        alike(text, name),
        name.len() > 1,
        name[0] == '/',
        'a' <= name.last() <= 'z',
    ensures
        is_command(text),
        trimmed(text) == text,
        same_but_case(text, name),
{
    reveal_strlit("/");
    assert(crate::text::lower_char(text[0]) == crate::text::lower_char(name[0]));
    assert(crate::text::lower_char(text[text.len() - 1]) == crate::text::lower_char(
        name[name.len() - 1],
    ));
    assert(text[0] == '/');
    assert(!is_space(text.last()));
    law_bare_stays(text, CharSet::Space);
    assert(text.take(1) =~= "/"@);
    assert(ascii_lower(text) =~= ascii_lower(name)) by {
        assert forall|i: int| 0 <= i < text.len() implies ascii_lower(text)[i] == ascii_lower(
            name,
        )[i] by {
            assert(crate::text::lower_char(text[i]) == crate::text::lower_char(name[i]));
        }
    }
}

/// A task that was added is shown as open, and as done once it was closed by its
/// number, whatever tasks there are besides.
pub proof fn law_a_task_is_opened_and_closed(
    o: OrchestratorView,
    context: ContextView,
    session: Seq<char>,
    title: Seq<char>,
    now: Timestamp,
    later: Timestamp,
    home: Option<Seq<char>>,
)
    requires
        bare(title, CharSet::Space),
        o.state.state.next_id < u64::MAX,
        forall|j: int|
            0 <= j < o.state.state.tasks.len() ==> (#[trigger] o.state.state.tasks[j]).id
                < o.state.state.next_id,
    ensures
        ({
            let n = decimal(o.state.state.next_id as nat);
            let (added, _) = routed(o, context, session, "/task add "@ + title, now, home);
            let (closed, _) = routed(added, context, session, "/task done "@ + n, later, home);
            let shown = n + " "@ + title + " ("@ + context.agent.id + ")"@;
            &&& routed(added, context, session, "/tasks"@, now, home).1 matches OutcomeView::Reply(
                said,
            ) && contains_text(said, "[open] task#"@ + shown)
            &&& routed(closed, context, session, "/tasks"@, later, home).1
                matches OutcomeView::Reply(said) && contains_text(said, "[done] task#"@ + shown)
        }),
{
    let id = o.state.state.next_id;
    let n = decimal(id as nat);
    let added = routed(o, context, session, "/task add "@ + title, now, home).0;
    let closed = routed(added, context, session, "/task done "@ + n, later, home).0;
    let i = o.state.state.tasks.len() as int;
    assert(added.state.state.tasks == o.state.state.tasks.push(
        TaskView {
            id,
            ts: now,
            updated_at: now,
            owner_agent: context.agent.id,
            title,
            status: TaskStatus::Open,
        },
    )) by {
        law_add_adds_the_task(o, context, session, title, now, home);
    }
    assert forall|j: int| 0 <= j < i implies (#[trigger] added.state.state.tasks[j]).id != id by {
        assert(added.state.state.tasks[j] == o.state.state.tasks[j]);
    }
    assert(({
        let task = closed.state.state.tasks[i];
        closed.state.state.tasks.len() == i + 1 && task.id == id && task.status
            == TaskStatus::Done && task.title == title && task.owner_agent == context.agent.id
    })) by {
        law_done_closes_the_task_named(added, context, session, id, i, later, home);
    }
    lemma_task_is_shown(added, context, session, i, "[open] task#"@, now, home);
    lemma_task_is_shown(closed, context, session, i, "[done] task#"@, later, home);
}

#[verifier::rlimit(40)]
proof fn lemma_task_is_shown(
    o: OrchestratorView,
    context: ContextView,
    session: Seq<char>,
    i: int,
    mark: Seq<char>,
    now: Timestamp,
    home: Option<Seq<char>>,
)
    requires
        0 <= i < o.state.state.tasks.len(),
        mark == if o.state.state.tasks[i].status == TaskStatus::Open {
            "[open] task#"@
        } else {
            "[done] task#"@
        },
    ensures
        ({
            let task = o.state.state.tasks[i];
            routed(o, context, session, "/tasks"@, now, home).1 matches OutcomeView::Reply(said)
                && contains_text(
                said,
                mark + (decimal(task.id as nat) + " "@ + task.title + " ("@ + task.owner_agent
                    + ")"@),
            )
        }),
{
    let task = o.state.state.tasks[i];
    law_tasks_are_shown(o, context, session, "/tasks"@, now, home);
    lemma_line_is_shown(o.state.state.tasks, i);
    assert(mark + decimal(task.id as nat) + " "@ + task.title + " ("@ + task.owner_agent + ")"@
        =~= mark + (decimal(task.id as nat) + " "@ + task.title + " ("@ + task.owner_agent
        + ")"@));
}

proof fn lemma_line_is_shown(tasks: Seq<TaskView>, i: int)
    requires
        0 <= i < tasks.len(),
    ensures
        ({
            let lines = Seq::new(
                tasks.len(),
                |i: int|
                    (if tasks[i].status == TaskStatus::Open {
                        "[open] task#"@
                    } else {
                        "[done] task#"@
                    }) + decimal(tasks[i].id as nat) + " "@ + tasks[i].title + " ("@
                        + tasks[i].owner_agent + ")"@,
            );
            contains_text(joined(lines, "\n"@), lines[i])
        }),
{
    let lines = Seq::new(
        tasks.len(),
        |i: int|
            (if tasks[i].status == TaskStatus::Open {
                "[open] task#"@
            } else {
                "[done] task#"@
            }) + decimal(tasks[i].id as nat) + " "@ + tasks[i].title + " ("@
                + tasks[i].owner_agent + ")"@,
    );
    law_joined_contains(lines, "\n"@, i);
}

// Notes.
/// `/remember` keeps a note under the next number, in its words, from the agent and the
/// session of the message, and says under which number. At most so many notes are kept,
/// the latest ones. Nothing else changes but the next number.
pub proof fn law_remember_keeps_the_note(
    o: OrchestratorView,
    context: ContextView,
    session: Seq<char>,
    note: Seq<char>,
    now: Timestamp,
    home: Option<Seq<char>>,
)
    requires
        bare(note, CharSet::Space),
        o.state.state.next_id < u64::MAX,
    ensures
        ({
            let n = o.state.state.next_id;
            let (after, outcome) = routed(
                o,
                context,
                session,
                "/remember "@ + note,
                now,
                home,
            );
            let most = o.state.max_memory_items as nat;
            let all = o.state.state.memories.push(
                MemoryView {
                    id: n,
                    ts: now,
                    source: context.agent.id + ":"@ + session,
                    text: note,
                },
            );
            &&& outcome == OutcomeView::SaveState("saved memory#"@ + decimal(n as nat))
            &&& after.state.state == (StateView {
                next_id: (n + 1) as u64,
                memories: if all.len() > most {
                    all.skip(all.len() - most)
                } else {
                    all
                },
                ..o.state.state
            })
            &&& after.state.max_conversation_items == o.state.max_conversation_items
            &&& after.state.max_memory_items == o.state.max_memory_items
            &&& after.config == o.config
            &&& after.config_path == o.config_path
            &&& after.codex == o.codex
        }),
{
    lemma_remember_command(note);
}

/// `/mem` shows the first six of what a search for the query finds, one on a line, or
/// says that there is nothing. It changes nothing.
pub proof fn law_mem_shows_what_is_found(
    o: OrchestratorView,
    context: ContextView,
    session: Seq<char>,
    query: Seq<char>,
    now: Timestamp,
    home: Option<Seq<char>>,
)
    requires
        bare(query, CharSet::Space),
    ensures
        ({
            let found = long_tail(o.state.state, query, 6);
            let (after, outcome) = routed(o, context, session, "/mem "@ + query, now, home);
            &&& after == o
            &&& found.len() == 0 ==> outcome == OutcomeView::Reply("no memory hits"@)
            &&& found.len() > 0 ==> outcome == OutcomeView::Reply(
                "memory hits:\n"@ + joined(found, "\n"@),
            )
        }),
{
    lemma_mem_command(query);
}

/// `/mem` shows every note and turn in which a word of the query stands, in any case of
/// letters and whoever said it, unless six others go before it.
pub proof fn law_mem_shows_matches(
    o: OrchestratorView,
    context: ContextView,
    session: Seq<char>,
    query: Seq<char>,
    x: int,
    t: int,
    now: Timestamp,
    home: Option<Seq<char>>,
)
    requires
        bare(query, CharSet::Space),
        0 <= x < entries(o.state.state),
        0 <= t < words_of(unicode_lower(query)).len(),
        has_word(o.state.state, query, x, t),
        going_before(o.state.state, query, x).len() < 6,
    ensures
        routed(o, context, session, "/mem "@ + query, now, home).1 matches OutcomeView::Reply(said)
            && contains_text(said, entry_line(o.state.state, x)),
{
    let s = o.state.state;
    law_mem_shows_what_is_found(o, context, session, query, now, home);
    law_search_puts_matches_in_place(s, query, 6, x, t);
    let found = long_tail(s, query, 6);
    let k = going_before(s, query, x).len() as int;
    law_joined_contains(found, "\n"@, k);
    let lines = joined(found, "\n"@);
    let said = "memory hits:\n"@ + lines;
    law_middle_is_contained("memory hits:\n"@, lines, seq![]);
    assert("memory hits:\n"@ + lines + seq![] =~= said);
    law_containing_passes_on(said, lines, found[k]);
}

// Asking.
/// `/help` shows the commands, `/agents` shows the name and the title of every agent on
/// a line of its own, in their order. Neither changes anything, and both may be written
/// in any case of letters.
pub proof fn law_help_and_agents(
    o: OrchestratorView,
    context: ContextView,
    session: Seq<char>,
    text: Seq<char>,
    now: Timestamp,
    home: Option<Seq<char>>,
)
    ensures
        alike(text, "/help"@) ==> routed(o, context, session, text, now, home) == (
            o,
            OutcomeView::Reply(
                "OpenOrchestrator commands:\n/help\n/agents\n/spawn <agent_id> | <soul prompt> | <workspace_path?>\n/tasks\n/task add <title>\n/task done <task_id>\n/remember <note>\n/mem <query>\n/delegate <agent_id> <task>\n\nNatural delegation:\n<agent_id> run <task>"@,
            ),
        ),
        alike(text, "/agents"@) ==> routed(o, context, session, text, now, home) == (
            o,
            OutcomeView::Reply(
                "Agents:\n"@ + joined(
                    Seq::new(
                        o.config.agents.len(),
                        |i: int|
                            "- "@ + o.config.agents[i].id + ": "@ + o.config.agents[i].name,
                    ),
                    "\n"@,
                ),
            ),
        ),
{
    reveal_strlit("/help");
    reveal_strlit("/agents");
    if alike(text, "/help"@) {
        lemma_bare_word(text, "/help"@);
        assert(command_of(text) == CommandView::Help);
    }
    if alike(text, "/agents"@) {
        lemma_bare_word(text, "/agents"@);
        assert(ascii_lower(text).len() == 7);
        assert(ascii_lower("/help"@).len() == 5);
        assert(command_of(text) == CommandView::Agents);
        let agents = o.config.agents;
        assert(Seq::new(agents.len(), |i: int| "- "@ + agents[i].id + ": "@ + agents[i].name)
            =~= Seq::new(
            o.config.agents.len(),
            |i: int| "- "@ + o.config.agents[i].id + ": "@ + o.config.agents[i].name,
        ));
    }
}

/// What starts with `/` and is no command is told so, and changes nothing.
pub proof fn law_unknown_commands(
    o: OrchestratorView,
    context: ContextView,
    session: Seq<char>,
    text: Seq<char>,
    now: Timestamp,
    home: Option<Seq<char>>,
)
    requires
        bare(text, CharSet::Space),
        text[0] == '/',
        !same_but_case(text, "/help"@),
        !same_but_case(text, "/agents"@),
        !same_but_case(text, "/tasks"@),
        !has_prefix(text, "/spawn "@),
        !has_prefix(text, "/task add "@),
        !has_prefix(text, "/task done "@),
        !has_prefix(text, "/remember "@),
        !has_prefix(text, "/mem "@),
        !has_prefix(text, "/delegate "@),
    ensures
        routed(o, context, session, text, now, home) == (
            o,
            OutcomeView::Reply("unknown command. use /help"@),
        ),
{
    reveal_strlit("/");
    law_bare_stays(text, CharSet::Space);
    assert(text.take(1) =~= "/"@);
}

// Delegating.
/// The place of a workspace that is not the old one.
pub open spec fn place_of(workspace: Seq<char>, home: Option<Seq<char>>) -> FilePathView {
    if home is Some && workspace.len() >= 2 && workspace[0] == '~' && workspace[1] == '/' {
        FilePathView::UnderHome(workspace.skip(2))
    } else {
        FilePathView::Plain(workspace)
    }
}

pub proof fn lemma_place_of(workspace: Seq<char>, home: Option<Seq<char>>)
    ensures
        crate::paths::resolved(workspace, home is Some) == place_of(workspace, home),
{
    reveal_strlit("~/");
    if has_prefix(workspace, "~/"@) {
        assert(workspace.take(2)[0] == '~' && workspace.take(2)[1] == '/');
    } else if workspace.len() >= 2 && workspace[0] == '~' && workspace[1] == '/' {
        assert(workspace.take(2) =~= "~/"@);
    }
}

/// The context of an agent with a workspace that is not the old one: the agent, where
/// it works (in its own workspace, or where the brain does), and the brain's model.
pub open spec fn context_of(cfg: ConfigView, i: int, home: Option<Seq<char>>) -> ContextView {
    let agent = cfg.agents[i];
    ContextView {
        agent,
        workspace: place_of(
            if agent.workspace is Some {
                agent.workspace->0
            } else {
                cfg.brain.workspace
            },
            home,
        ),
        model: cfg.brain.model,
    }
}

/// Whether the workspace of an agent, or else of the brain, is not the old one.
pub open spec fn settled(cfg: ConfigView, i: int) -> bool {
    let agent = cfg.agents[i];
    !contains_text(
        if agent.workspace is Some {
            agent.workspace->0
        } else {
            cfg.brain.workspace
        },
        ".openclaw/workspace"@,
    )
}

pub proof fn lemma_context_of(cfg: ConfigView, i: int, home: Option<Seq<char>>)
    requires
        settled(cfg, i),
    ensures
        crate::orchestrator::context_at(cfg, i, home) == context_of(cfg, i, home),
{
    let agent = cfg.agents[i];
    let workspace = if agent.workspace is Some {
        agent.workspace->0
    } else {
        cfg.brain.workspace
    };
    lemma_not_legacy(workspace);
    lemma_place_of(workspace, home);
}

proof fn lemma_is_valid(name: Seq<char>)
    requires
        is_name(name),
    ensures
        valid_id(name),
        crate::agents::normalized_id(name) == name,
        bare(name, CharSet::Space),
{
    assert forall|k: int| 0 <= k < name.len() implies crate::agents::is_id_char(
        #[trigger] name[k],
    ) by {}
    law_valid_ids_are_normal(name);
}

/// `/delegate` with the name of an agent and a task runs that agent, in its own
/// workspace, with that task in the session of the message; it changes nothing. Where
/// there is no such agent it is refused.
pub proof fn law_delegate_runs_the_agent_named(
    o: OrchestratorView,
    context: ContextView,
    session: Seq<char>,
    name: Seq<char>,
    task: Seq<char>,
    i: int,
    now: Timestamp,
    home: Option<Seq<char>>,
)
    requires
        is_name(name),
        bare(task, CharSet::Space),
    ensures
        ({
            let text = "/delegate "@ + name + " "@ + task;
            &&& first_named(o.config.agents, name, i) && settled(o.config, i) ==> routed(
                o,
                context,
                session,
                text,
                now,
                home,
            ) == (
                o,
                OutcomeView::Think(
                    thought(o.state, context_of(o.config, i, home), session, task, true),
                ),
            )
            &&& none_named(o.config.agents, name) ==> routed(
                o,
                context,
                session,
                text,
                now,
                home,
            ) == (o, OutcomeView::Fail(TurnErrorView::UnknownAgent(name)))
        }),
{
    lemma_is_valid(name);
    law_bare_stays(task, CharSet::Space);
    lemma_delegation(name, task);
    let rest = name + " "@ + task;
    assert("/delegate "@ + name + " "@ + task =~= "/delegate "@ + rest);
    assert(rest[0] == name[0] && rest.last() == task.last());
    lemma_delegate_command(rest);
    lemma_first_named(o.config.agents, name, i);
    if first_named(o.config.agents, name, i) && settled(o.config, i) {
        lemma_context_of(o.config, i, home);
    }
}

/// `/delegate` without a task, or without a name, is refused.
pub proof fn law_delegate_needs_a_task(
    o: OrchestratorView,
    context: ContextView,
    session: Seq<char>,
    name: Seq<char>,
    now: Timestamp,
    home: Option<Seq<char>>,
)
    requires
        is_name(name),
    ensures
        routed(o, context, session, "/delegate "@ + name, now, home) == (
            o,
            OutcomeView::Fail(TurnErrorView::DelegateUsage),
        ),
{
    lemma_is_valid(name);
    law_bare_stays(name, CharSet::Space);
    lemma_delegate_command(name);
    reveal_strlit(" ");
    let set = CharSet::OneOf(" ");
    assert(" "@ =~= seq![' ']);
    lemma_span_until(name, set);
    let n = span_until(name, set) as int;
    if n < name.len() {
        assert(set.has(name[n]));
    }
}

// Spawning.
proof fn lemma_one_part(s: Seq<char>)
    requires
        !s.contains('|'),
    ensures
        split_on(s, CharSet::OneOf("|")) == seq![s],
{
    reveal_strlit("|");
    let set = CharSet::OneOf("|");
    assert("|"@ =~= seq!['|']);
    lemma_span_until(s, set);
    let n = span_until(s, set) as int;
    if n < s.len() {
        assert(s[n] == '|');
        assert(s.contains('|'));
    }
}

proof fn lemma_more_parts(s: Seq<char>, rest: Seq<char>)
    requires
        !s.contains('|'),
    ensures
        split_on(s + seq!['|'] + rest, CharSet::OneOf("|")) == seq![s] + split_on(
            rest,
            CharSet::OneOf("|"),
        ),
{
    reveal_strlit("|");
    let set = CharSet::OneOf("|");
    assert("|"@ =~= seq!['|']);
    assert("|"@[0] == '|');
    let whole = s + seq!['|'] + rest;
    lemma_span_until(whole, set);
    let n = span_until(whole, set) as int;
    assert(whole[s.len() as int] == '|');
    assert(set.has('|'));
    if n < s.len() {
        assert(whole[n] == s[n]);
        assert(s.contains('|'));
    } else if n > s.len() {
        assert(set.has(whole[s.len() as int]));
    }
    assert(whole.take(n) =~= s);
    assert(whole.skip(n + 1) =~= rest);
}

proof fn lemma_padded(s: Seq<char>, set: CharSet)
    requires
        bare(s, CharSet::Space),
    ensures
        trimmed(seq![' '] + s) == s,
        trimmed(s + seq![' ']) == s,
        trimmed(seq![' '] + s + seq![' ']) == s,
        trimmed(s) == s,
{
    let one = seq![' '];
    assert(all_in(one, CharSet::Space));
    assert(all_in(Seq::<char>::empty(), CharSet::Space));
    law_trim_around(one, s, seq![], CharSet::Space);
    law_trim_around(seq![], s, one, CharSet::Space);
    law_trim_around(one, s, one, CharSet::Space);
    assert(one + s + seq![] =~= one + s);
    assert(seq![] + s + one =~= s + one);
    law_bare_stays(s, CharSet::Space);
}

/// The request that a name, a soul and perhaps a workspace make, with bars between
/// them.
proof fn lemma_request(name: Seq<char>, soul: Seq<char>, workspace: Seq<char>)
    requires
        is_name(name),
        bare(soul, CharSet::Space),
        !soul.contains('|'),
        bare(workspace, CharSet::Space),
        !workspace.contains('|'),
    ensures
        spawn_request(name + " | "@ + soul) == Some(
            SpawnView { agent_id: name, soul, workspace: None },
        ),
        spawn_request(name + " | "@ + soul + " | "@ + workspace) == Some(
            SpawnView { agent_id: name, soul, workspace: Some(workspace) },
        ),
{
    reveal_strlit(" | ");
    let sp = seq![' '];
    let a = name + sp;
    let b = sp + soul;
    let c = sp + soul + sp;
    let d = sp + workspace;
    lemma_is_valid(name);
    lemma_padded(name, CharSet::Space);
    lemma_padded(soul, CharSet::Space);
    lemma_padded(workspace, CharSet::Space);
    assert(!a.contains('|')) by {
        if a.contains('|') {
            let k = choose|k: int| 0 <= k < a.len() && a[k] == '|';
            if k < name.len() {
                assert(name[k] == '|');
            }
        }
    }
    assert(!b.contains('|')) by {
        if b.contains('|') {
            let k = choose|k: int| 0 <= k < b.len() && b[k] == '|';
            assert(soul[k - 1] == '|');
        }
    }
    assert(!c.contains('|')) by {
        if c.contains('|') {
            let k = choose|k: int| 0 <= k < c.len() && c[k] == '|';
            assert(soul[k - 1] == '|');
        }
    }
    assert(!d.contains('|')) by {
        if d.contains('|') {
            let k = choose|k: int| 0 <= k < d.len() && d[k] == '|';
            assert(workspace[k - 1] == '|');
        }
    }
    let bar = seq!['|'];
    lemma_one_part(b);
    lemma_more_parts(a, b);
    assert(name + " | "@ + soul =~= a + bar + b);
    lemma_one_part(d);
    lemma_more_parts(c, d);
    lemma_more_parts(a, c + bar + d);
    assert(name + " | "@ + soul + " | "@ + workspace =~= a + bar + (c + bar + d));
    let two = split_on(name + " | "@ + soul, CharSet::OneOf("|"));
    assert(two =~= seq![a, b]);
    let three = split_on(name + " | "@ + soul + " | "@ + workspace, CharSet::OneOf("|"));
    assert(three =~= seq![a, c, d]);
    lemma_same_name(a, name);
}

/// The request that a word and a soul make, with a bar between them.
pub proof fn lemma_request_of(word: Seq<char>, soul: Seq<char>)
    requires
        bare(word, CharSet::Space),
        !word.contains('|'),
        bare(soul, CharSet::Space),
        !soul.contains('|'),
        crate::agents::normalized_id(word).len() > 0,
    ensures
        spawn_request(word + " | "@ + soul) == Some(
            SpawnView { agent_id: crate::agents::normalized_id(word), soul, workspace: None },
        ),
{
    reveal_strlit(" | ");
    let sp = seq![' '];
    let a = word + sp;
    let b = sp + soul;
    lemma_padded(word, CharSet::Space);
    lemma_padded(soul, CharSet::Space);
    assert(!a.contains('|')) by {
        if a.contains('|') {
            let k = choose|k: int| 0 <= k < a.len() && a[k] == '|';
            assert(word[k] == '|');
        }
    }
    assert(!b.contains('|')) by {
        if b.contains('|') {
            let k = choose|k: int| 0 <= k < b.len() && b[k] == '|';
            assert(soul[k - 1] == '|');
        }
    }
    lemma_one_part(b);
    lemma_more_parts(a, b);
    assert(word + " | "@ + soul =~= a + seq!['|'] + b);
    assert(split_on(word + " | "@ + soul, CharSet::OneOf("|")) =~= seq![a, b]);
    lemma_same_name(a, word);
}

proof fn lemma_same_name(a: Seq<char>, b: Seq<char>)
    requires
        trimmed(a) == trimmed(b),
    ensures
        crate::agents::normalized_id(a) == crate::agents::normalized_id(b),
{
}

/// The agents after one of a name was set up with a soul: where there is none of that
/// name it is added last; where there is one it keeps its place and its own spelling of
/// the name, and keeps its workspace where none is given. Every other agent stays.
pub open spec fn with_agent(
    agents: Seq<AgentView>,
    i: int,
    name: Seq<char>,
    soul: Seq<char>,
    workspace: Option<Seq<char>>,
) -> Seq<AgentView> {
    if i < agents.len() {
        agents.update(
            i,
            AgentView {
                id: agents[i].id,
                name,
                soul,
                workspace: if workspace is Some {
                    workspace
                } else {
                    agents[i].workspace
                },
            },
        )
    } else {
        agents.push(AgentView { id: name, name, soul, workspace })
    }
}

/// Where an agent works, in words.
pub open spec fn shown_workspace(workspace: Option<Seq<char>>) -> Seq<char> {
    match workspace {
        Some(w) => w,
        None => "inherits brain.workspace"@,
    }
}

/// Setting up an agent with a good name and a soul, in a workspace that is not the old
/// one, sets it up and no other.
pub proof fn lemma_set_up(
    cfg: ConfigView,
    name: Seq<char>,
    soul: Seq<char>,
    workspace: Option<Seq<char>>,
    home: Option<Seq<char>>,
    i: int,
)
    requires
        is_name(name),
        trimmed(soul).len() > 0,
        workspace matches Some(w) ==> !contains_text(w, ".openclaw/workspace"@),
        first_named(cfg.agents, name, i) || (i == cfg.agents.len() && none_named(
            cfg.agents,
            name,
        )),
    ensures
        ({
            let (after, outcome) = upsert(cfg, name, soul, workspace, home);
            &&& after == (ConfigView {
                agents: with_agent(cfg.agents, i, name, soul, workspace),
                ..cfg
            })
            &&& outcome == OutcomeView::SaveConfig(
                "agent '"@ + name + "' is ready (workspace: "@ + shown_workspace(
                    after.agents[i].workspace,
                ) + ")"@,
            )
        }),
{
    lemma_is_valid(name);
    if let Some(w) = workspace {
        lemma_not_legacy(w);
    }
    lemma_first_named(cfg.agents, name, i);
    let agents = with_agent(cfg.agents, i, name, soul, workspace);
    let after = upsert(cfg, name, soul, workspace, home).0;
    assert(after.agents =~= agents);
    assert(first_named(agents, name, i)) by {
        assert forall|j: int| 0 <= j < i implies !alike((#[trigger] agents[j]).id, name) by {
            assert(agents[j] == cfg.agents[j]);
        }
    }
    lemma_first_named(agents, name, i);
}

pub proof fn lemma_spawn_is_routed(
    o: OrchestratorView,
    context: ContextView,
    session: Seq<char>,
    rest: Seq<char>,
    now: Timestamp,
    home: Option<Seq<char>>,
)
    requires
        bare(rest, CharSet::Space),
        rest.len() > 1,
        spawn_request(rest) is Some,
        valid_id(spawn_request(rest)->0.agent_id),
    ensures
        ({
            let s = spawn_request(rest)->0;
            let (config, outcome) = upsert(o.config, s.agent_id, s.soul, s.workspace, home);
            routed(o, context, session, "/spawn "@ + rest, now, home) == (
                OrchestratorView { config, ..o },
                outcome,
            )
        }),
{
    lemma_spawn_command(rest);
}

/// `/spawn` with a name and a soul sets up the agent of that name with that soul, and
/// says that it is ready and where it works. The other agents, the rest of the
/// configuration and the memory stay.
#[verifier::rlimit(40)]
pub proof fn law_spawn_sets_up_the_agent_named(
    o: OrchestratorView,
    context: ContextView,
    session: Seq<char>,
    name: Seq<char>,
    soul: Seq<char>,
    i: int,
    now: Timestamp,
    home: Option<Seq<char>>,
)
    requires
        is_name(name),
        bare(soul, CharSet::Space),
        !soul.contains('|'),
        first_named(o.config.agents, name, i) || (i == o.config.agents.len() && none_named(
            o.config.agents,
            name,
        )),
    ensures
        ({
            let text = "/spawn "@ + name + " | "@ + soul;
            let (after, outcome) = routed(o, context, session, text, now, home);
            &&& after == (OrchestratorView {
                config: ConfigView {
                    agents: with_agent(o.config.agents, i, name, soul, None),
                    ..o.config
                },
                ..o
            })
            &&& outcome == OutcomeView::SaveConfig(
                "agent '"@ + name + "' is ready (workspace: "@ + shown_workspace(
                    after.config.agents[i].workspace,
                ) + ")"@,
            )
        }),
{
    lemma_is_valid(name);
    lemma_request(name, soul, name);
    law_bare_stays(soul, CharSet::Space);
    let rest = name + " | "@ + soul;
    assert(rest[0] == name[0] && rest.last() == soul.last());
    reveal_strlit(" | ");
    lemma_spawn_is_routed(o, context, session, rest, now, home);
    assert("/spawn "@ + name + " | "@ + soul =~= "/spawn "@ + rest);
    lemma_set_up(o.config, name, soul, None, home, i);
}

/// `/spawn` with a name, a soul and a workspace sets up the agent of that name with
/// that soul in that workspace, and says so. The other agents, the rest of the
/// configuration and the memory stay.
#[verifier::rlimit(40)]
pub proof fn law_spawn_sets_up_the_workspace(
    o: OrchestratorView,
    context: ContextView,
    session: Seq<char>,
    name: Seq<char>,
    soul: Seq<char>,
    workspace: Seq<char>,
    i: int,
    now: Timestamp,
    home: Option<Seq<char>>,
)
    requires
        is_name(name),
        bare(soul, CharSet::Space),
        !soul.contains('|'),
        bare(workspace, CharSet::Space),
        !workspace.contains('|'),
        !contains_text(workspace, ".openclaw/workspace"@),
        first_named(o.config.agents, name, i) || (i == o.config.agents.len() && none_named(
            o.config.agents,
            name,
        )),
    ensures
        routed(
            o,
            context,
            session,
            "/spawn "@ + name + " | "@ + soul + " | "@ + workspace,
            now,
            home,
        ) == (
            OrchestratorView {
                config: ConfigView {
                    agents: with_agent(o.config.agents, i, name, soul, Some(workspace)),
                    ..o.config
                },
                ..o
            },
            OutcomeView::SaveConfig(
                "agent '"@ + name + "' is ready (workspace: "@ + workspace + ")"@,
            ),
        ),
{
    lemma_is_valid(name);
    lemma_request(name, soul, workspace);
    law_bare_stays(soul, CharSet::Space);
    let rest = name + " | "@ + soul + " | "@ + workspace;
    assert(rest[0] == name[0] && rest.last() == workspace.last());
    reveal_strlit(" | ");
    lemma_spawn_is_routed(o, context, session, rest, now, home);
    assert("/spawn "@ + name + " | "@ + soul + " | "@ + workspace =~= "/spawn "@ + rest);
    lemma_set_up(o.config, name, soul, Some(workspace), home, i);
}

/// `/spawn` with more than two bars is refused, and changes nothing.
pub proof fn law_spawn_takes_no_more(
    o: OrchestratorView,
    context: ContextView,
    session: Seq<char>,
    a: Seq<char>,
    b: Seq<char>,
    c: Seq<char>,
    more: Seq<char>,
    now: Timestamp,
    home: Option<Seq<char>>,
)
    requires
        !a.contains('|') && !b.contains('|') && !c.contains('|'),
        bare(a + seq!['|'] + (b + seq!['|'] + (c + seq!['|'] + more)), CharSet::Space),
    ensures
        routed(
            o,
            context,
            session,
            "/spawn "@ + (a + seq!['|'] + (b + seq!['|'] + (c + seq!['|'] + more))),
            now,
            home,
        ) == (o, OutcomeView::Fail(TurnErrorView::SpawnUsage)),
{
    let rest = a + seq!['|'] + (b + seq!['|'] + (c + seq!['|'] + more));
    lemma_spawn_command(rest);
    lemma_more_parts(c, more);
    lemma_more_parts(b, c + seq!['|'] + more);
    lemma_more_parts(a, b + seq!['|'] + (c + seq!['|'] + more));
    lemma_has_parts(more);
}

proof fn lemma_has_parts(s: Seq<char>)
    ensures
        split_on(s, CharSet::OneOf("|")).len() >= 1,
{
}

/// `/spawn` with a name and nothing for a soul is refused; with a soul and nothing for a
/// workspace it is as without a workspace.
pub proof fn law_spawn_with_nothing_behind_a_bar(
    o: OrchestratorView,
    context: ContextView,
    session: Seq<char>,
    name: Seq<char>,
    soul: Seq<char>,
    now: Timestamp,
    home: Option<Seq<char>>,
)
    requires
        is_name(name),
        bare(soul, CharSet::Space),
        !soul.contains('|'),
    ensures
        routed(o, context, session, "/spawn "@ + (name + " |"@), now, home) == (
            o,
            OutcomeView::Fail(TurnErrorView::SpawnUsage),
        ),
        routed(o, context, session, "/spawn "@ + (name + " | "@ + soul + " |"@), now, home)
            == routed(o, context, session, "/spawn "@ + (name + " | "@ + soul), now, home),
{
    reveal_strlit(" |");
    reveal_strlit(" | ");
    lemma_is_valid(name);
    let sp = seq![' '];
    let bar = seq!['|'];
    let none = Seq::<char>::empty();
    let a = name + sp;
    let c = sp + soul + sp;
    assert(!a.contains('|')) by {
        if a.contains('|') {
            let k = choose|k: int| 0 <= k < a.len() && a[k] == '|';
            if k < name.len() {
                assert(name[k] == '|');
            }
        }
    }
    assert(!c.contains('|')) by {
        if c.contains('|') {
            let k = choose|k: int| 0 <= k < c.len() && c[k] == '|';
            assert(soul[k - 1] == '|');
        }
    }
    assert(!none.contains('|'));
    lemma_one_part(none);
    lemma_more_parts(a, none);
    assert(name + " |"@ =~= a + bar + none);
    let short = name + " |"@;
    assert(short[0] == name[0] && short.last() == '|');
    lemma_spawn_command(short);
    assert(split_on(short, CharSet::OneOf("|")) =~= seq![a, none]);
    assert(trimmed(none).len() == 0);
    lemma_more_parts(c, none);
    lemma_more_parts(a, c + bar + none);
    let long = name + " | "@ + soul + " |"@;
    assert(long =~= a + bar + (c + bar + none));
    assert(long[0] == name[0] && long.last() == '|');
    assert(split_on(long, CharSet::OneOf("|")) =~= seq![a, c, none]);
    lemma_padded(name, CharSet::Space);
    lemma_padded(soul, CharSet::Space);
    lemma_same_name(a, name);
    lemma_request(name, soul, name);
    let plain = name + " | "@ + soul;
    assert(plain[0] == name[0] && plain.last() == soul.last());
    assert(spawn_request(long) == spawn_request(plain));
    lemma_spawn_is_routed(o, context, session, long, now, home);
    lemma_spawn_is_routed(o, context, session, plain, now, home);
}

/// `/spawn` without a bar is refused, and changes nothing.
pub proof fn law_spawn_needs_a_soul(
    o: OrchestratorView,
    context: ContextView,
    session: Seq<char>,
    rest: Seq<char>,
    now: Timestamp,
    home: Option<Seq<char>>,
)
    requires
        bare(rest, CharSet::Space),
        rest.len() > 1,
        !rest.contains('|'),
    ensures
        routed(o, context, session, "/spawn "@ + rest, now, home) == (
            o,
            OutcomeView::Fail(TurnErrorView::SpawnUsage),
        ),
{
    lemma_spawn_command(rest);
    lemma_one_part(rest);
}

} // verus!
