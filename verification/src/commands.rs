//! The commands that a message can hold, and what is answered to those that
//! only ask.
use crate::agents::{normalize_agent_id, normalized_id};
use crate::config::{agent_views, AgentConfig, AgentView};
use crate::number::{decimal, decimal_text};
use crate::state::{task_views, TaskItem, TaskStatus, TaskView};
use crate::text::{
    after_prefix, copy_text, eq_ignore_case, join, joined, opt_text, present, same_but_case,
    span, span_until, split, split_on, strip_prefix, text_from, text_to, texts, trim,
    trim_present, trimmed, CharSet,
};
use vstd::prelude::*;

verus! {

/// A command, with what follows its name.
#[derive(Debug)]
pub enum Command {
    Help,
    Agents,
    Spawn(String),
    Tasks,
    TaskAdd(String),
    TaskDone(String),
    Remember(String),
    Mem(String),
    Delegate(String),
    Unknown,
}

pub enum CommandView {
    Help,
    Agents,
    Spawn(Seq<char>),
    Tasks,
    TaskAdd(Seq<char>),
    TaskDone(Seq<char>),
    Remember(Seq<char>),
    Mem(Seq<char>),
    Delegate(Seq<char>),
    Unknown,
}

impl View for Command {
    type V = CommandView;

    open spec fn view(&self) -> CommandView {
        match self {
            Command::Help => CommandView::Help,
            Command::Agents => CommandView::Agents,
            Command::Spawn(rest) => CommandView::Spawn(rest@),
            Command::Tasks => CommandView::Tasks,
            Command::TaskAdd(title) => CommandView::TaskAdd(title@),
            Command::TaskDone(id) => CommandView::TaskDone(id@),
            Command::Remember(note) => CommandView::Remember(note@),
            Command::Mem(query) => CommandView::Mem(query@),
            Command::Delegate(rest) => CommandView::Delegate(rest@),
            Command::Unknown => CommandView::Unknown,
        }
    }
}

/// The command that a message holds. The names of commands without more to
/// them may be written in any case of letters.
pub open spec fn command_of(raw: Seq<char>) -> CommandView {
    let t = trimmed(raw);
    if same_but_case(t, "/help"@) {
        CommandView::Help
    } else if same_but_case(t, "/agents"@) {
        CommandView::Agents
    } else if let Some(rest) = after_prefix(t, "/spawn "@) {
        CommandView::Spawn(rest)
    } else if same_but_case(t, "/tasks"@) {
        CommandView::Tasks
    } else if let Some(rest) = after_prefix(t, "/task add "@) {
        CommandView::TaskAdd(trimmed(rest))
    } else if let Some(rest) = after_prefix(t, "/task done "@) {
        CommandView::TaskDone(trimmed(rest))
    } else if let Some(rest) = after_prefix(t, "/remember "@) {
        CommandView::Remember(trimmed(rest))
    } else if let Some(rest) = after_prefix(t, "/mem "@) {
        CommandView::Mem(trimmed(rest))
    } else if let Some(rest) = after_prefix(t, "/delegate "@) {
        CommandView::Delegate(rest)
    } else {
        CommandView::Unknown
    }
}

/// The command that a message holds.
pub fn parse_command(raw: &str) -> (r: Command)
    ensures
        r@ == command_of(raw@),
{
    let t = trim(raw);
    if eq_ignore_case(t, "/help") {
        return Command::Help;
    }
    if eq_ignore_case(t, "/agents") {
        return Command::Agents;
    }
    if let Some(rest) = strip_prefix(t, "/spawn ") {
        return Command::Spawn(copy_text(rest));
    }
    if eq_ignore_case(t, "/tasks") {
        return Command::Tasks;
    }
    if let Some(rest) = strip_prefix(t, "/task add ") {
        return Command::TaskAdd(copy_text(trim(rest)));
    }
    if let Some(rest) = strip_prefix(t, "/task done ") {
        return Command::TaskDone(copy_text(trim(rest)));
    }
    if let Some(rest) = strip_prefix(t, "/remember ") {
        return Command::Remember(copy_text(trim(rest)));
    }
    if let Some(rest) = strip_prefix(t, "/mem ") {
        return Command::Mem(copy_text(trim(rest)));
    }
    if let Some(rest) = strip_prefix(t, "/delegate ") {
        return Command::Delegate(copy_text(rest));
    }
    Command::Unknown
}

/// The commands there are.
pub open spec fn help_lines() -> Seq<char> {
    "OpenOrchestrator commands:\n/help\n/agents\n/spawn <agent_id> | <soul prompt> | <workspace_path?>\n/tasks\n/task add <title>\n/task done <task_id>\n/remember <note>\n/mem <query>\n/delegate <agent_id> <task>\n\nNatural delegation:\n<agent_id> run <task>"@
}

/// The commands there are.
pub fn help_text() -> (r: String)
    ensures
        r@ == help_lines(),
{
    copy_text(
        "OpenOrchestrator commands:\n/help\n/agents\n/spawn <agent_id> | <soul prompt> | <workspace_path?>\n/tasks\n/task add <title>\n/task done <task_id>\n/remember <note>\n/mem <query>\n/delegate <agent_id> <task>\n\nNatural delegation:\n<agent_id> run <task>",
    )
}

/// The agents there are, one on a line.
pub open spec fn agents_text(agents: Seq<AgentView>) -> Seq<char> {
    "Agents:\n"@ + joined(
        Seq::new(agents.len(), |i: int| "- "@ + agents[i].id + ": "@ + agents[i].name),
        "\n"@,
    )
}

/// The agents there are, one on a line.
pub fn render_agents(agents: &Vec<AgentConfig>) -> (r: String)
    ensures
        r@ == agents_text(agent_views(agents@)),
{
    let ghost views = agent_views(agents@);
    let ghost lines = Seq::new(
        views.len(),
        |i: int| "- "@ + views[i].id + ": "@ + views[i].name,
    );
    let mut out: Vec<String> = Vec::new();
    let mut i: usize = 0;
    while i < agents.len()
        invariant
            i <= agents@.len(),
            views == agent_views(agents@),
            lines == Seq::new(views.len(), |i: int| "- "@ + views[i].id + ": "@ + views[i].name),
            out@.len() == i,
            forall|j: int| 0 <= j < i ==> (#[trigger] out@[j])@ == lines[j],
        decreases agents@.len() - i,
    {
        let mut line = copy_text("- ");
        line.append(agents[i].id.as_str());
        line.append(": ");
        line.append(agents[i].name.as_str());
        out.push(line);
        i += 1;
    }
    assert(texts(out@) =~= lines);
    let mut text = copy_text("Agents:\n");
    text.append(join(&out, "\n").as_str());
    text
}

/// What is said of a task in the list of tasks.
pub open spec fn task_line(task: TaskView) -> Seq<char> {
    (match task.status {
        TaskStatus::Open => "[open]"@,
        TaskStatus::Done => "[done]"@,
    }) + " task#"@ + decimal(task.id as nat) + " "@ + task.title + " ("@ + task.owner_agent + ")"@
}

/// The tasks there are, one on a line.
pub open spec fn tasks_text(tasks: Seq<TaskView>) -> Seq<char> {
    if tasks.len() == 0 {
        "no tasks"@
    } else {
        joined(Seq::new(tasks.len(), |i: int| task_line(tasks[i])), "\n"@)
    }
}

/// The tasks there are, one on a line.
pub fn render_tasks(tasks: &Vec<TaskItem>) -> (r: String)
    ensures
        r@ == tasks_text(task_views(tasks@)),
{
    if tasks.len() == 0 {
        return copy_text("no tasks");
    }
    let ghost views = task_views(tasks@);
    let ghost lines = Seq::new(views.len(), |i: int| task_line(views[i]));
    let mut out: Vec<String> = Vec::new();
    let mut i: usize = 0;
    while i < tasks.len()
        invariant
            i <= tasks@.len(),
            views == task_views(tasks@),
            lines == Seq::new(views.len(), |i: int| task_line(views[i])),
            out@.len() == i,
            forall|j: int| 0 <= j < i ==> (#[trigger] out@[j])@ == lines[j],
        decreases tasks@.len() - i,
    {
        let task = &tasks[i];
        let mut line = match task.status {
            TaskStatus::Open => copy_text("[open]"),
            TaskStatus::Done => copy_text("[done]"),
        };
        line.append(" task#");
        line.append(decimal_text(task.id).as_str());
        line.append(" ");
        line.append(task.title.as_str());
        line.append(" (");
        line.append(task.owner_agent.as_str());
        line.append(")");
        assert(line@ == task_line(task@));
        out.push(line);
        i += 1;
    }
    assert(texts(out@) =~= lines);
    join(&out, "\n")
}

/// What is said of what was found in memory.
pub open spec fn hits_text(hits: Seq<Seq<char>>) -> Seq<char> {
    if hits.len() == 0 {
        "no memory hits"@
    } else {
        "memory hits:\n"@ + joined(hits, "\n"@)
    }
}

/// What is said of what was found in memory.
pub fn render_hits(hits: &Vec<String>) -> (r: String)
    ensures
        r@ == hits_text(texts(hits@)),
{
    assert(texts(hits@).len() == hits@.len());
    if hits.len() == 0 {
        return copy_text("no memory hits");
    }
    let mut out = copy_text("memory hits:\n");
    out.append(join(hits, "\n").as_str());
    out
}

/// What `/spawn` asks for.
#[derive(Debug)]
pub struct SpawnRequest {
    pub agent_id: String,
    pub soul: String,
    pub workspace: Option<String>,
}

#[verifier::ext_equal]
pub struct SpawnView {
    pub agent_id: Seq<char>,
    pub soul: Seq<char>,
    pub workspace: Option<Seq<char>>,
}

impl View for SpawnRequest {
    type V = SpawnView;

    open spec fn view(&self) -> SpawnView {
        SpawnView {
            agent_id: self.agent_id@,
            soul: self.soul@,
            workspace: opt_text(self.workspace),
        }
    }
}

/// What `/spawn` asks for: a name, a soul and perhaps a workspace, with `|`
/// between them.
pub open spec fn spawn_request(rest: Seq<char>) -> Option<SpawnView> {
    let parts = split_on(rest, CharSet::OneOf("|"));
    if parts.len() == 2 || parts.len() == 3 {
        let id = normalized_id(parts[0]);
        let soul = trimmed(parts[1]);
        if id.len() == 0 || soul.len() == 0 {
            None
        } else {
            Some(
                SpawnView {
                    agent_id: id,
                    soul,
                    workspace: if parts.len() == 3 {
                        present(Some(parts[2]))
                    } else {
                        None
                    },
                },
            )
        }
    } else {
        None
    }
}

/// What `/spawn` asks for.
pub fn parse_spawn(rest: &str) -> (r: Option<SpawnRequest>)
    ensures
        match r {
            Some(s) => spawn_request(rest@) == Some(s@),
            None => spawn_request(rest@) is None,
        },
{
    let parts = split(rest, &CharSet::OneOf("|"));
    let ghost all = split_on(rest@, CharSet::OneOf("|"));
    assert(all.len() == parts@.len());
    if parts.len() < 2 || parts.len() > 3 {
        return None;
    }
    assert(all[0] == parts@[0]@ && all[1] == parts@[1]@);
    let agent_id = normalize_agent_id(parts[0].as_str());
    let soul = copy_text(trim(parts[1].as_str()));
    if agent_id.as_str().is_empty() || soul.as_str().is_empty() {
        return None;
    }
    let workspace: Option<String> = if parts.len() == 3 {
        assert(all[2] == parts@[2]@);
        match trim_present(Some(parts[2].as_str())) {
            Some(w) => Some(copy_text(w)),
            None => None,
        }
    } else {
        None
    };
    Some(SpawnRequest { agent_id, soul, workspace })
}

/// The agent that `/delegate` names, and the task: what stands before and after
/// the first space.
pub open spec fn delegation(rest: Seq<char>) -> (Seq<char>, Seq<char>) {
    let t = trimmed(rest);
    let n = span_until(t, CharSet::OneOf(" ")) as int;
    if n < t.len() {
        (normalized_id(t.take(n)), trimmed(t.skip(n + 1)))
    } else {
        (normalized_id(t), seq![])
    }
}

/// The agent that `/delegate` names, and the task.
pub fn parse_delegation(rest: &str) -> (r: (String, String))
    ensures
        (r.0@, r.1@) == delegation(rest@),
{
    let t = trim(rest);
    let n: usize = span(t, &CharSet::OneOf(" "));
    let m: usize = t.unicode_len();
    if n < m {
        (normalize_agent_id(text_to(t, n)), copy_text(trim(text_from(t, n + 1))))
    } else {
        (normalize_agent_id(t), String::new())
    }
}

} // verus!
