//! The prompt that an agent's turn is run with.
use crate::config::{AgentConfig, AgentView};
use crate::number::{decimal, decimal_text};
use crate::state::{
    conversation_views, first_items, task_views, ConversationItem, ConversationView, TaskItem,
    TaskStatus, TaskView,
};
use crate::text::{contains_text, copy_text, join, joined, matches_at, text_to, texts};
use vstd::prelude::*;

verus! {

pub const MAX_PROMPT_USER_CHARS: usize = 4_000;

pub const MAX_PROMPT_HISTORY_ITEM_CHARS: usize = 1_000;

pub const MAX_PROMPT_HISTORY_TOTAL_CHARS: usize = 8_000;

pub const MAX_PROMPT_MEMORY_ITEM_CHARS: usize = 700;

pub const MAX_PROMPT_MEMORY_TOTAL_CHARS: usize = 4_000;

pub const MAX_PROMPT_TASKS: usize = 20;

/// The first `max` characters of a text, with a note of how many are left out;
/// the text itself where that is none. With no characters, nothing is noted.
pub open spec fn truncated(value: Seq<char>, max: nat) -> Seq<char> {
    if max == 0 {
        seq![]
    } else if value.len() <= max {
        value
    } else {
        value.take(max as int) + "\n...[truncated "@ + decimal((value.len() - max) as nat)
            + " chars]"@
    }
}

/// The first `max_chars` characters of a text, with a note of how many are left
/// out.
pub fn truncate_for_prompt(value: &str, max_chars: usize) -> (r: String)
    ensures
        r@ == truncated(value@, max_chars as nat),
{
    if max_chars == 0 {
        return String::new();
    }
    let n: usize = value.unicode_len();
    if n <= max_chars {
        return copy_text(value);
    }
    let mut out = copy_text(text_to(value, max_chars));
    out.append("\n...[truncated ");
    out.append(decimal_text((n - max_chars) as u64).as_str());
    out.append(" chars]");
    out
}

/// The word for a task's status.
pub open spec fn status_text(status: TaskStatus) -> Seq<char> {
    match status {
        TaskStatus::Open => "open"@,
        TaskStatus::Done => "done"@,
    }
}

/// The word for a task's status.
pub fn format_status(status: &TaskStatus) -> (r: &'static str)
    ensures
        r@ == status_text(*status),
{
    match status {
        TaskStatus::Open => "open",
        TaskStatus::Done => "done",
    }
}

/// The lines of a section, or a word for there being none.
pub open spec fn section(lines: Seq<Seq<char>>) -> Seq<char> {
    if lines.len() == 0 {
        "(none)"@
    } else {
        joined(lines, "\n"@)
    }
}

/// What was said in a session.
pub open spec fn history_lines(history: Seq<ConversationView>) -> Seq<Seq<char>> {
    Seq::new(
        history.len(),
        |i: int|
            history[i].role + ": "@ + truncated(
                history[i].text,
                MAX_PROMPT_HISTORY_ITEM_CHARS as nat,
            ),
    )
}

fn render_history(history: &Vec<ConversationItem>) -> (r: Vec<String>)
    ensures
        texts(r@) == history_lines(conversation_views(history@)),
{
    let ghost lines = history_lines(conversation_views(history@));
    let mut out: Vec<String> = Vec::new();
    let mut i: usize = 0;
    while i < history.len()
        invariant
            i <= history@.len(),
            lines == history_lines(conversation_views(history@)),
            out@.len() == i,
            forall|j: int| 0 <= j < i ==> (#[trigger] out@[j])@ == lines[j],
        decreases history@.len() - i,
    {
        let mut line = copy_text(history[i].role.as_str());
        line.append(": ");
        line.append(
            truncate_for_prompt(history[i].text.as_str(), MAX_PROMPT_HISTORY_ITEM_CHARS).as_str(),
        );
        out.push(line);
        i += 1;
    }
    assert(texts(out@) =~= lines);
    out
}

/// What was found in memory.
pub open spec fn memory_lines(long_tail: Seq<Seq<char>>) -> Seq<Seq<char>> {
    Seq::new(
        long_tail.len(),
        |i: int| truncated(long_tail[i], MAX_PROMPT_MEMORY_ITEM_CHARS as nat),
    )
}

fn render_memory_hits(long_tail: &Vec<String>) -> (r: Vec<String>)
    ensures
        texts(r@) == memory_lines(texts(long_tail@)),
{
    let ghost lines = memory_lines(texts(long_tail@));
    let mut out: Vec<String> = Vec::new();
    let mut i: usize = 0;
    while i < long_tail.len()
        invariant
            i <= long_tail@.len(),
            lines == memory_lines(texts(long_tail@)),
            out@.len() == i,
            forall|j: int| 0 <= j < i ==> (#[trigger] out@[j])@ == lines[j],
        decreases long_tail@.len() - i,
    {
        out.push(truncate_for_prompt(long_tail[i].as_str(), MAX_PROMPT_MEMORY_ITEM_CHARS));
        i += 1;
    }
    assert(texts(out@) =~= lines);
    out
}

/// What is said of a task that is open.
pub open spec fn open_task_line(task: TaskView) -> Seq<char> {
    "task#"@ + decimal(task.id as nat) + " ["@ + task.owner_agent + "] "@ + task.title + " ("@
        + status_text(task.status) + ")"@
}

/// The first of the open tasks.
pub open spec fn open_task_lines(tasks: Seq<TaskView>) -> Seq<Seq<char>> {
    let first = first_items(tasks, MAX_PROMPT_TASKS as nat);
    Seq::new(first.len(), |i: int| open_task_line(first[i]))
}

fn render_open_tasks(tasks: &Vec<TaskItem>) -> (r: Vec<String>)
    ensures
        texts(r@) == open_task_lines(task_views(tasks@)),
{
    let ghost lines = open_task_lines(task_views(tasks@));
    let n: usize = if tasks.len() > MAX_PROMPT_TASKS {
        MAX_PROMPT_TASKS
    } else {
        tasks.len()
    };
    let mut out: Vec<String> = Vec::new();
    let mut i: usize = 0;
    while i < n
        invariant
            i <= n,
            n <= tasks@.len(),
            n == lines.len(),
            lines == open_task_lines(task_views(tasks@)),
            out@.len() == i,
            forall|j: int| 0 <= j < i ==> (#[trigger] out@[j])@ == lines[j],
        decreases n - i,
    {
        let task = &tasks[i];
        let mut line = copy_text("task#");
        line.append(decimal_text(task.id).as_str());
        line.append(" [");
        line.append(task.owner_agent.as_str());
        line.append("] ");
        line.append(task.title.as_str());
        line.append(" (");
        line.append(format_status(&task.status));
        line.append(")");
        assert(line@ == open_task_line(task@));
        out.push(line);
        i += 1;
    }
    assert(texts(out@) =~= lines);
    out
}

fn render_section(lines: &Vec<String>) -> (r: String)
    ensures
        r@ == section(texts(lines@)),
{
    if lines.len() == 0 {
        copy_text("(none)")
    } else {
        join(lines, "\n")
    }
}

/// The prompt for a turn of an agent: who it is, the rules it works by, what is
/// remembered, the open tasks, what was said before, and the message.
pub open spec fn prompt_text(
    agent: AgentView,
    user_text: Seq<char>,
    history: Seq<ConversationView>,
    long_tail: Seq<Seq<char>>,
    open_tasks: Seq<TaskView>,
) -> Seq<char> {
    "You are OpenOrchestrator agent '"@ + agent.id + "'.\nSoul:\n"@ + agent.soul
        + "\n\nOperating rules:\n- Be concise and operational.\n- Prefer concrete next actions.\n- If user asks for automation, include a clear checklist.\n- When stopping processes, avoid broad kill patterns; identify exact target PIDs and exclude your current shell process.\n\nLong-tail memory matches:\n"@
        + truncated(section(memory_lines(long_tail)), MAX_PROMPT_MEMORY_TOTAL_CHARS as nat)
        + "\n\nOpen tasks:\n"@ + section(open_task_lines(open_tasks))
        + "\n\nRecent session history:\n"@ + truncated(
        section(history_lines(history)),
        MAX_PROMPT_HISTORY_TOTAL_CHARS as nat,
    ) + "\n\nUser message:\n"@ + truncated(user_text, MAX_PROMPT_USER_CHARS as nat)
}

/// The prompt for a turn of an agent.
pub fn build_prompt(
    agent: &AgentConfig,
    user_text: &str,
    history: &Vec<ConversationItem>,
    long_tail: &Vec<String>,
    open_tasks: &Vec<TaskItem>,
) -> (r: String)
    ensures
        r@ == prompt_text(
            agent@,
            user_text@,
            conversation_views(history@),
            texts(long_tail@),
            task_views(open_tasks@),
        ),
{
    let memory = render_section(&render_memory_hits(long_tail));
    let tasks = render_section(&render_open_tasks(open_tasks));
    let said = render_section(&render_history(history));
    let mut out = copy_text("You are OpenOrchestrator agent '");
    out.append(agent.id.as_str());
    out.append("'.\nSoul:\n");
    out.append(agent.soul.as_str());
    out.append(
        "\n\nOperating rules:\n- Be concise and operational.\n- Prefer concrete next actions.\n- If user asks for automation, include a clear checklist.\n- When stopping processes, avoid broad kill patterns; identify exact target PIDs and exclude your current shell process.\n\nLong-tail memory matches:\n",
    );
    out.append(truncate_for_prompt(memory.as_str(), MAX_PROMPT_MEMORY_TOTAL_CHARS).as_str());
    out.append("\n\nOpen tasks:\n");
    out.append(tasks.as_str());
    out.append("\n\nRecent session history:\n");
    out.append(truncate_for_prompt(said.as_str(), MAX_PROMPT_HISTORY_TOTAL_CHARS).as_str());
    out.append("\n\nUser message:\n");
    out.append(truncate_for_prompt(user_text, MAX_PROMPT_USER_CHARS).as_str());
    out
}

// Laws.
/// A text that is cut keeps its first characters, and is no longer than these,
/// the number of those left out and 22 characters around it. One that needs no
/// cut is kept whole.
pub proof fn law_truncated(value: Seq<char>, max: nat)
    requires
        max > 0,
    ensures
        value.len() <= max ==> truncated(value, max) == value,
        value.len() > max ==> truncated(value, max).take(max as int) == value.take(max as int),
        value.len() > max ==> truncated(value, max).len() == max + 22 + decimal(
            (value.len() - max) as nat,
        ).len(),
{
    reveal_strlit("\n...[truncated ");
    reveal_strlit(" chars]");
    if value.len() > max {
        assert(truncated(value, max).take(max as int) =~= value.take(max as int));
    }
}

/// A prompt holds the name and the soul of the agent, what is remembered, the open
/// tasks and what was said before, each cut where it is too long.
pub proof fn law_prompt_holds_its_parts(
    agent: AgentView,
    user_text: Seq<char>,
    history: Seq<ConversationView>,
    long_tail: Seq<Seq<char>>,
    open_tasks: Seq<TaskView>,
)
    ensures
        ({
            let prompt = prompt_text(agent, user_text, history, long_tail, open_tasks);
            &&& contains_text(prompt, agent.id)
            &&& contains_text(prompt, agent.soul)
            &&& contains_text(
                prompt,
                truncated(section(memory_lines(long_tail)), MAX_PROMPT_MEMORY_TOTAL_CHARS as nat),
            )
            &&& contains_text(prompt, section(open_task_lines(open_tasks)))
            &&& contains_text(
                prompt,
                truncated(section(history_lines(history)), MAX_PROMPT_HISTORY_TOTAL_CHARS as nat),
            )
        }),
{
    let prompt = prompt_text(agent, user_text, history, long_tail, open_tasks);
    let memory = truncated(
        section(memory_lines(long_tail)),
        MAX_PROMPT_MEMORY_TOTAL_CHARS as nat,
    );
    let tasks = section(open_task_lines(open_tasks));
    let said = truncated(
        section(history_lines(history)),
        MAX_PROMPT_HISTORY_TOTAL_CHARS as nat,
    );
    let rules = "\n\nOperating rules:\n- Be concise and operational.\n- Prefer concrete next actions.\n- If user asks for automation, include a clear checklist.\n- When stopping processes, avoid broad kill patterns; identify exact target PIDs and exclude your current shell process.\n\nLong-tail memory matches:\n"@;
    let a = "You are OpenOrchestrator agent '"@;
    let b = a + agent.id + "'.\nSoul:\n"@;
    let c = b + agent.soul + rules;
    let d = c + memory + "\n\nOpen tasks:\n"@;
    let e = d + tasks + "\n\nRecent session history:\n"@;
    let message = "\n\nUser message:\n"@ + truncated(user_text, MAX_PROMPT_USER_CHARS as nat);
    assert(prompt =~= e + said + message);
    lemma_middle(a, agent.id, "'.\nSoul:\n"@);
    lemma_middle(b, agent.soul, rules);
    lemma_middle(c, memory, "\n\nOpen tasks:\n"@);
    lemma_middle(d, tasks, "\n\nRecent session history:\n"@);
    lemma_middle(e, said, message);
    lemma_start_contains(b, agent.soul + rules, agent.id);
    assert(b + (agent.soul + rules) =~= c);
    lemma_start_contains(c, memory + "\n\nOpen tasks:\n"@, agent.id);
    lemma_start_contains(c, memory + "\n\nOpen tasks:\n"@, agent.soul);
    assert(c + (memory + "\n\nOpen tasks:\n"@) =~= d);
    let f = tasks + "\n\nRecent session history:\n"@;
    assert(d + f =~= e);
    lemma_start_contains(d, f, agent.id);
    lemma_start_contains(d, f, agent.soul);
    lemma_start_contains(d, f, memory);
    let g = said + message;
    assert(e + g =~= prompt);
    lemma_start_contains(e, g, agent.id);
    lemma_start_contains(e, g, agent.soul);
    lemma_start_contains(e, g, memory);
    lemma_start_contains(e, g, tasks);
}

proof fn lemma_middle(a: Seq<char>, b: Seq<char>, c: Seq<char>)
    ensures
        contains_text(a + b + c, b),
{
    assert((a + b + c).subrange(a.len() as int, a.len() as int + b.len()) =~= b);
    assert(matches_at(a + b + c, b, a.len() as int));
}

proof fn lemma_start_contains(s: Seq<char>, rest: Seq<char>, t: Seq<char>)
    requires
        contains_text(s, t),
    ensures
        contains_text(s + rest, t),
{
    let i = choose|i: int| matches_at(s, t, i);
    assert((s + rest).subrange(i, i + t.len()) =~= s.subrange(i, i + t.len()));
    assert(matches_at(s + rest, t, i));
}

/// A prompt ends with the message, cut where it is too long.
pub proof fn law_prompt_ends_with_message(
    agent: AgentView,
    user_text: Seq<char>,
    history: Seq<ConversationView>,
    long_tail: Seq<Seq<char>>,
    open_tasks: Seq<TaskView>,
)
    ensures
        ({
            let prompt = prompt_text(agent, user_text, history, long_tail, open_tasks);
            let message = truncated(user_text, MAX_PROMPT_USER_CHARS as nat);
            &&& message.len() <= prompt.len()
            &&& prompt.skip(prompt.len() - message.len()) == message
        }),
{
    let prompt = prompt_text(agent, user_text, history, long_tail, open_tasks);
    let message = truncated(user_text, MAX_PROMPT_USER_CHARS as nat);
    assert(prompt.skip(prompt.len() - message.len()) =~= message);
}

} // verus!
