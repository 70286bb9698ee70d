//! Long-tail memory: conversations, notes and tasks, and the search in them.
use crate::number::{decimal, decimal_text};
use crate::outside::{to_lowercase, unicode_lower, utc_now};
use crate::text::{
    contains, contains_text, copy_opt, copy_text, opt_text, same_text, texts, words, words_of,
};
use vstd::prelude::*;

verus! {

/// A moment in UTC: whole seconds since 1970 and the nanoseconds that follow.
#[derive(Clone, Copy, Debug, PartialEq, Eq, Structural)]
pub struct Timestamp {
    pub secs: i64,
    pub nanos: u32,
}

impl Timestamp {
    /// Whether this is a moment from 1970 on, with less than a second in
    /// nanoseconds.
    pub open spec fn is_moment(self) -> bool {
        self.secs >= 0 && self.nanos < 1_000_000_000
    }
}

#[derive(Debug)]
pub struct ConversationItem {
    pub id: u64,
    pub ts: Timestamp,
    pub session: String,
    pub agent_id: String,
    pub role: String,
    pub text: String,
    pub source: String,
    pub user: Option<String>,
}

#[derive(Debug)]
pub struct MemoryItem {
    pub id: u64,
    pub ts: Timestamp,
    pub source: String,
    pub text: String,
}

#[derive(Debug)]
pub struct TaskItem {
    pub id: u64,
    pub ts: Timestamp,
    pub updated_at: Timestamp,
    pub owner_agent: String,
    pub title: String,
    pub status: TaskStatus,
}

#[derive(Clone, Copy, Debug, PartialEq, Eq, Structural)]
pub enum TaskStatus {
    Open,
    Done,
}

/// What is kept between runs.
#[derive(Debug)]
pub struct PersistedState {
    pub next_id: u64,
    pub conversations: Vec<ConversationItem>,
    pub memories: Vec<MemoryItem>,
    pub tasks: Vec<TaskItem>,
}

/// The memory of the orchestrator, with the most items of a kind that it holds.
#[derive(Debug)]
pub struct StateStore {
    pub state: PersistedState,
    pub max_conversation_items: usize,
    pub max_memory_items: usize,
}

// Views.
#[verifier::ext_equal]
pub struct ConversationView {
    pub id: u64,
    pub ts: Timestamp,
    pub session: Seq<char>,
    pub agent_id: Seq<char>,
    pub role: Seq<char>,
    pub text: Seq<char>,
    pub source: Seq<char>,
    pub user: Option<Seq<char>>,
}

#[verifier::ext_equal]
pub struct MemoryView {
    pub id: u64,
    pub ts: Timestamp,
    pub source: Seq<char>,
    pub text: Seq<char>,
}

#[verifier::ext_equal]
pub struct TaskView {
    pub id: u64,
    pub ts: Timestamp,
    pub updated_at: Timestamp,
    pub owner_agent: Seq<char>,
    pub title: Seq<char>,
    pub status: TaskStatus,
}

#[verifier::ext_equal]
pub struct StateView {
    pub next_id: u64,
    pub conversations: Seq<ConversationView>,
    pub memories: Seq<MemoryView>,
    pub tasks: Seq<TaskView>,
}

#[verifier::ext_equal]
pub struct StoreView {
    pub state: StateView,
    pub max_conversation_items: usize,
    pub max_memory_items: usize,
}

impl View for ConversationItem {
    type V = ConversationView;

    open spec fn view(&self) -> ConversationView {
        ConversationView {
            id: self.id,
            ts: self.ts,
            session: self.session@,
            agent_id: self.agent_id@,
            role: self.role@,
            text: self.text@,
            source: self.source@,
            user: opt_text(self.user),
        }
    }
}

impl View for MemoryItem {
    type V = MemoryView;

    open spec fn view(&self) -> MemoryView {
        MemoryView { id: self.id, ts: self.ts, source: self.source@, text: self.text@ }
    }
}

impl View for TaskItem {
    type V = TaskView;

    open spec fn view(&self) -> TaskView {
        TaskView {
            id: self.id,
            ts: self.ts,
            updated_at: self.updated_at,
            owner_agent: self.owner_agent@,
            title: self.title@,
            status: self.status,
        }
    }
}

pub open spec fn conversation_views(v: Seq<ConversationItem>) -> Seq<ConversationView> {
    Seq::new(v.len(), |i: int| v[i]@)
}

pub open spec fn memory_views(v: Seq<MemoryItem>) -> Seq<MemoryView> {
    Seq::new(v.len(), |i: int| v[i]@)
}

pub open spec fn task_views(v: Seq<TaskItem>) -> Seq<TaskView> {
    Seq::new(v.len(), |i: int| v[i]@)
}

impl View for PersistedState {
    type V = StateView;

    open spec fn view(&self) -> StateView {
        StateView {
            next_id: self.next_id,
            conversations: conversation_views(self.conversations@),
            memories: memory_views(self.memories@),
            tasks: task_views(self.tasks@),
        }
    }
}

impl View for StateStore {
    type V = StoreView;

    open spec fn view(&self) -> StoreView {
        StoreView {
            state: self.state@,
            max_conversation_items: self.max_conversation_items,
            max_memory_items: self.max_memory_items,
        }
    }
}

// Copies.
impl Clone for ConversationItem {
    fn clone(&self) -> (r: Self)
        ensures
            r == *self,
    {
        ConversationItem {
            id: self.id,
            ts: self.ts,
            session: self.session.clone(),
            agent_id: self.agent_id.clone(),
            role: self.role.clone(),
            text: self.text.clone(),
            source: self.source.clone(),
            user: copy_opt(&self.user),
        }
    }
}

impl Clone for MemoryItem {
    fn clone(&self) -> (r: Self)
        ensures
            r == *self,
    {
        MemoryItem {
            id: self.id,
            ts: self.ts,
            source: self.source.clone(),
            text: self.text.clone(),
        }
    }
}

impl Clone for TaskItem {
    fn clone(&self) -> (r: Self)
        ensures
            r == *self,
    {
        TaskItem {
            id: self.id,
            ts: self.ts,
            updated_at: self.updated_at,
            owner_agent: self.owner_agent.clone(),
            title: self.title.clone(),
            status: self.status,
        }
    }
}

impl Clone for PersistedState {
    fn clone(&self) -> (r: Self)
        ensures
            r@ == self@,
    {
        let conversations = self.conversations.clone();
        let memories = self.memories.clone();
        let tasks = self.tasks.clone();
        assert(conversation_views(conversations@) =~= conversation_views(self.conversations@));
        assert(memory_views(memories@) =~= memory_views(self.memories@));
        assert(task_views(tasks@) =~= task_views(self.tasks@));
        PersistedState { next_id: self.next_id, conversations, memories, tasks }
    }
}

/// A memory with nothing in it; numbers are given out from 1 on.
pub open spec fn empty_state() -> StateView {
    StateView { next_id: 1, conversations: seq![], memories: seq![], tasks: seq![] }
}

impl Default for PersistedState {
    fn default() -> (r: Self)
        ensures
            r@ == empty_state(),
    {
        let r = PersistedState {
            next_id: 1,
            conversations: Vec::new(),
            memories: Vec::new(),
            tasks: Vec::new(),
        };
        assert(r@ =~= empty_state());
        r
    }
}

// Adding.
/// The last `n` items, or all where there are no more.
pub open spec fn last_items<T>(s: Seq<T>, n: nat) -> Seq<T> {
    if s.len() > n {
        s.skip(s.len() - n)
    } else {
        s
    }
}

fn keep_last<T>(v: &mut Vec<T>, n: usize)
    ensures
        final(v)@ == last_items(old(v)@, n as nat),
{
    let len: usize = v.len();
    if len > n {
        let tail = v.split_off(len - n);
        assert(tail@ =~= old(v)@.skip(len - n));
        *v = tail;
    }
}

/// A store after a turn of a conversation was added under the next number.
pub open spec fn with_conversation(s: StoreView, item: ConversationView) -> StoreView {
    StoreView {
        state: StateView {
            next_id: (s.state.next_id + 1) as u64,
            conversations: last_items(
                s.state.conversations.push(ConversationView { id: s.state.next_id, ..item }),
                s.max_conversation_items as nat,
            ),
            ..s.state
        },
        ..s
    }
}

/// The note that is added next.
pub open spec fn new_memory(
    s: StoreView,
    source: Seq<char>,
    text: Seq<char>,
    ts: Timestamp,
) -> MemoryView {
    MemoryView { id: s.state.next_id, ts, source, text }
}

/// A store after a note was added under the next number.
pub open spec fn with_memory(
    s: StoreView,
    source: Seq<char>,
    text: Seq<char>,
    ts: Timestamp,
) -> StoreView {
    StoreView {
        state: StateView {
            next_id: (s.state.next_id + 1) as u64,
            memories: last_items(
                s.state.memories.push(new_memory(s, source, text, ts)),
                s.max_memory_items as nat,
            ),
            ..s.state
        },
        ..s
    }
}

/// The task that is added next.
pub open spec fn new_task(
    s: StoreView,
    title: Seq<char>,
    owner_agent: Seq<char>,
    ts: Timestamp,
) -> TaskView {
    TaskView {
        id: s.state.next_id,
        ts,
        updated_at: ts,
        owner_agent,
        title,
        status: TaskStatus::Open,
    }
}

/// A store after a task was added under the next number.
pub open spec fn with_task(
    s: StoreView,
    title: Seq<char>,
    owner_agent: Seq<char>,
    ts: Timestamp,
) -> StoreView {
    StoreView {
        state: StateView {
            next_id: (s.state.next_id + 1) as u64,
            tasks: s.state.tasks.push(new_task(s, title, owner_agent, ts)),
            ..s.state
        },
        ..s
    }
}

/// The index of the first task numbered `id`; the number of tasks where none is.
pub open spec fn task_index(tasks: Seq<TaskView>, id: u64) -> int
    decreases tasks.len(),
{
    if tasks.len() == 0 || tasks[0].id == id {
        0
    } else {
        1 + task_index(tasks.skip(1), id)
    }
}

/// Whether some task is numbered `id`.
pub open spec fn has_task(tasks: Seq<TaskView>, id: u64) -> bool {
    exists|i: int| 0 <= i < tasks.len() && (#[trigger] tasks[i]).id == id
}

/// A store after the first task numbered `id`, where there is one, was done.
pub open spec fn with_task_done(s: StoreView, id: u64, ts: Timestamp) -> StoreView {
    if has_task(s.state.tasks, id) {
        let i = task_index(s.state.tasks, id);
        StoreView {
            state: StateView {
                tasks: s.state.tasks.update(
                    i,
                    TaskView {
                        status: TaskStatus::Done,
                        updated_at: ts,
                        ..s.state.tasks[i]
                    },
                ),
                ..s.state
            },
            ..s
        }
    } else {
        s
    }
}

/// `task_index` is the first index with the number.
pub proof fn lemma_task_index(tasks: Seq<TaskView>, id: u64)
    ensures
        0 <= task_index(tasks, id) <= tasks.len(),
        task_index(tasks, id) < tasks.len() ==> tasks[task_index(tasks, id)].id == id,
        forall|j: int| 0 <= j < task_index(tasks, id) ==> (#[trigger] tasks[j]).id != id,
        has_task(tasks, id) <==> task_index(tasks, id) < tasks.len(),
    decreases tasks.len(),
{
    if tasks.len() > 0 && tasks[0].id != id {
        lemma_task_index(tasks.skip(1), id);
        let n = task_index(tasks, id);
        assert forall|j: int| 0 <= j < n implies (#[trigger] tasks[j]).id != id by {
            if j > 0 {
                assert(tasks[j] == tasks.skip(1)[j - 1]);
            }
        }
        if n < tasks.len() {
            assert(tasks[n] == tasks.skip(1)[n - 1]);
        } else {
            assert(!has_task(tasks, id));
        }
    }
}

/// A store of what was kept, or an empty one where nothing was.
pub open spec fn loaded(
    kept: Option<StateView>,
    max_conversation_items: usize,
    max_memory_items: usize,
) -> StoreView {
    StoreView {
        state: match kept {
            Some(s) => s,
            None => empty_state(),
        },
        max_conversation_items,
        max_memory_items,
    }
}

/// The view of what was kept.
pub open spec fn kept_view(kept: Option<PersistedState>) -> Option<StateView> {
    match kept {
        Some(s) => Some(s@),
        None => None,
    }
}

impl StateStore {
    /// A store of what was kept, or an empty one where nothing was.
    pub fn load(
        kept: Option<PersistedState>,
        max_conversation_items: usize,
        max_memory_items: usize,
    ) -> (r: StateStore)
        ensures
            r@ == loaded(kept_view(kept), max_conversation_items, max_memory_items),
    {
        let state = match kept {
            Some(s) => s,
            None => PersistedState::default(),
        };
        StateStore { state, max_conversation_items, max_memory_items }
    }

    /// What is to be kept of the store.
    pub fn snapshot(&self) -> (r: PersistedState)
        ensures
            r@ == self@.state,
    {
        self.state.clone()
    }

    /// Adds a turn of a conversation, under the next number.
    pub fn add_conversation(&mut self, item: ConversationItem)
        requires
            old(self)@.state.next_id < u64::MAX,
        ensures
            final(self)@ == with_conversation(old(self)@, item@),
    {
        let ghost before = self@;
        let mut item = item;
        item.id = self.state.next_id;
        let ghost added = item@;
        self.state.next_id = self.state.next_id + 1;
        self.state.conversations.push(item);
        assert(conversation_views(self.state.conversations@) =~= before.state.conversations.push(
            added,
        ));
        let ghost all = self.state.conversations@;
        keep_last(&mut self.state.conversations, self.max_conversation_items);
        assert(conversation_views(self.state.conversations@) =~= last_items(
            conversation_views(all),
            self.max_conversation_items as nat,
        ));
    }

    /// Adds a note made at `ts`, under the next number.
    pub fn add_memory_at(&mut self, source: &str, text: &str, ts: Timestamp) -> (r: MemoryItem)
        requires
            old(self)@.state.next_id < u64::MAX,
        ensures
            r@ == new_memory(old(self)@, source@, text@, ts),
            final(self)@ == with_memory(old(self)@, source@, text@, ts),
    {
        let ghost before = self@;
        let item = MemoryItem {
            id: self.state.next_id,
            ts,
            source: copy_text(source),
            text: copy_text(text),
        };
        self.state.next_id = self.state.next_id + 1;
        self.state.memories.push(item.clone());
        assert(memory_views(self.state.memories@) =~= before.state.memories.push(item@));
        let ghost all = self.state.memories@;
        keep_last(&mut self.state.memories, self.max_memory_items);
        assert(memory_views(self.state.memories@) =~= last_items(
            memory_views(all),
            self.max_memory_items as nat,
        ));
        item
    }

    /// Adds a note, under the next number.
    pub fn add_memory(&mut self, source: &str, text: &str) -> (r: MemoryItem)
        requires
            old(self)@.state.next_id < u64::MAX,
        ensures
            r@ == new_memory(old(self)@, source@, text@, r.ts),
            final(self)@ == with_memory(old(self)@, source@, text@, r.ts),
            r.ts.is_moment(),
    {
        self.add_memory_at(source, text, utc_now())
    }

    /// Adds an open task at `ts`, under the next number.
    pub fn add_task_at(&mut self, title: &str, owner_agent: &str, ts: Timestamp) -> (r: TaskItem)
        requires
            old(self)@.state.next_id < u64::MAX,
        ensures
            r@ == new_task(old(self)@, title@, owner_agent@, ts),
            final(self)@ == with_task(old(self)@, title@, owner_agent@, ts),
    {
        let ghost before = self@;
        let item = TaskItem {
            id: self.state.next_id,
            ts,
            updated_at: ts,
            owner_agent: copy_text(owner_agent),
            title: copy_text(title),
            status: TaskStatus::Open,
        };
        self.state.next_id = self.state.next_id + 1;
        self.state.tasks.push(item.clone());
        assert(task_views(self.state.tasks@) =~= before.state.tasks.push(item@));
        item
    }

    /// Adds an open task, under the next number.
    pub fn add_task(&mut self, title: &str, owner_agent: &str) -> (r: TaskItem)
        requires
            old(self)@.state.next_id < u64::MAX,
        ensures
            r@ == new_task(old(self)@, title@, owner_agent@, r.ts),
            final(self)@ == with_task(old(self)@, title@, owner_agent@, r.ts),
            r.ts.is_moment(),
    {
        self.add_task_at(title, owner_agent, utc_now())
    }

    /// Marks the first task numbered `id` as done at `ts`; says whether there is one.
    pub fn mark_task_done_at(&mut self, id: u64, ts: Timestamp) -> (r: bool)
        ensures
            r == has_task(old(self)@.state.tasks, id),
            final(self)@ == with_task_done(old(self)@, id, ts),
    {
        let ghost before = self@;
        let ghost tasks = before.state.tasks;
        proof {
            lemma_task_index(tasks, id);
        }
        let mut i: usize = 0;
        while i < self.state.tasks.len()
            invariant
                i <= self.state.tasks@.len(),
                self@ == before,
                before == old(self)@,
                tasks == before.state.tasks,
                tasks == task_views(self.state.tasks@),
                0 <= task_index(tasks, id) <= tasks.len(),
                task_index(tasks, id) < tasks.len() ==> tasks[task_index(tasks, id)].id == id,
                forall|j: int| 0 <= j < task_index(tasks, id) ==> (#[trigger] tasks[j]).id != id,
                has_task(tasks, id) <==> task_index(tasks, id) < tasks.len(),
                i <= task_index(tasks, id),
            decreases self.state.tasks@.len() - i,
        {
            assert(tasks[i as int] == self.state.tasks@[i as int]@);
            if self.state.tasks[i].id == id {
                assert(i == task_index(tasks, id));
                let mut task = self.state.tasks[i].clone();
                task.status = TaskStatus::Done;
                task.updated_at = ts;
                let ghost done = task@;
                self.state.tasks.set(i, task);
                assert(task_views(self.state.tasks@) =~= tasks.update(i as int, done));
                return true;
            }
            i += 1;
        }
        false
    }

    /// Marks the first task numbered `id` as done; says whether there is one.
    pub fn mark_task_done(&mut self, id: u64) -> (r: bool)
        ensures
            r == has_task(old(self)@.state.tasks, id),
            exists|ts: Timestamp|
                ts.is_moment() && final(self)@ == #[trigger] with_task_done(old(self)@, id, ts),
    {
        self.mark_task_done_at(id, utc_now())
    }

    /// Whether some task is numbered `id`.
    pub fn holds_task(&self, id: u64) -> (r: bool)
        ensures
            r == has_task(self@.state.tasks, id),
    {
        let mut i: usize = 0;
        while i < self.state.tasks.len()
            invariant
                i <= self.state.tasks@.len(),
                forall|j: int| 0 <= j < i ==> (#[trigger] self@.state.tasks[j]).id != id,
            decreases self.state.tasks@.len() - i,
        {
            assert(self@.state.tasks[i as int] == self.state.tasks@[i as int]@);
            if self.state.tasks[i].id == id {
                return true;
            }
            i += 1;
        }
        false
    }

    /// All tasks.
    pub fn list_tasks(&self) -> (r: Vec<TaskItem>)
        ensures
            task_views(r@) == self@.state.tasks,
    {
        let r = self.state.tasks.clone();
        assert(task_views(r@) =~= self@.state.tasks);
        r
    }

    /// The tasks that are not done, in their order.
    pub fn list_open_tasks(&self) -> (r: Vec<TaskItem>)
        ensures
            task_views(r@) == open_tasks(self@.state.tasks),
    {
        let ghost all = self@.state.tasks;
        let mut out: Vec<TaskItem> = Vec::new();
        let mut i: usize = 0;
        assert(task_views(out@) =~= open_tasks(all.take(0)));
        while i < self.state.tasks.len()
            invariant
                i <= self.state.tasks@.len(),
                all == task_views(self.state.tasks@),
                task_views(out@) == open_tasks(all.take(i as int)),
            decreases self.state.tasks@.len() - i,
        {
            let ghost before = out@;
            assert(all.take(i + 1).drop_last() == all.take(i as int));
            if self.state.tasks[i].status == TaskStatus::Open {
                out.push(self.state.tasks[i].clone());
                assert(task_views(out@) =~= task_views(before).push(all[i as int]));
            }
            i += 1;
        }
        assert(all.take(all.len() as int) == all);
        out
    }

    /// The last `limit` turns of a session, in their order.
    pub fn recent_session(&self, session: &str, limit: usize) -> (r: Vec<ConversationItem>)
        ensures
            conversation_views(r@) == recent(self@.state.conversations, session@, limit as nat),
    {
        let ghost all = self@.state.conversations;
        let mut out: Vec<ConversationItem> = Vec::new();
        let mut i: usize = 0;
        assert(conversation_views(out@) =~= of_session(all.take(0), session@));
        while i < self.state.conversations.len()
            invariant
                i <= self.state.conversations@.len(),
                all == conversation_views(self.state.conversations@),
                conversation_views(out@) == of_session(all.take(i as int), session@),
            decreases self.state.conversations@.len() - i,
        {
            let ghost before = out@;
            assert(all.take(i + 1).drop_last() == all.take(i as int));
            if same_text(self.state.conversations[i].session.as_str(), session) {
                out.push(self.state.conversations[i].clone());
                assert(conversation_views(out@) =~= conversation_views(before).push(
                    all[i as int],
                ));
            }
            i += 1;
        }
        assert(all.take(all.len() as int) == all);
        let ghost found = out@;
        keep_last(&mut out, limit);
        assert(conversation_views(out@) =~= last_items(conversation_views(found), limit as nat));
        out
    }
}

/// The tasks that are not done, in their order.
pub open spec fn open_tasks(tasks: Seq<TaskView>) -> Seq<TaskView>
    decreases tasks.len(),
{
    if tasks.len() == 0 {
        seq![]
    } else if tasks.last().status == TaskStatus::Open {
        open_tasks(tasks.drop_last()).push(tasks.last())
    } else {
        open_tasks(tasks.drop_last())
    }
}

/// The turns of a session, in their order.
pub open spec fn of_session(items: Seq<ConversationView>, session: Seq<char>) -> Seq<
    ConversationView,
>
    decreases items.len(),
{
    if items.len() == 0 {
        seq![]
    } else if items.last().session == session {
        of_session(items.drop_last(), session).push(items.last())
    } else {
        of_session(items.drop_last(), session)
    }
}

/// The last `limit` turns of a session.
pub open spec fn recent(items: Seq<ConversationView>, session: Seq<char>, limit: nat) -> Seq<
    ConversationView,
> {
    last_items(of_session(items, session), limit)
}

// Search.
/// How many of `terms` occur in `text`.
pub open spec fn score(text: Seq<char>, terms: Seq<Seq<char>>) -> nat
    decreases terms.len(),
{
    if terms.len() == 0 {
        0
    } else {
        score(text, terms.drop_last()) + if contains_text(text, terms.last()) {
            1nat
        } else {
            0nat
        }
    }
}

/// The scores of `lowered`.
pub open spec fn scores(lowered: Seq<Seq<char>>, terms: Seq<Seq<char>>) -> Seq<nat> {
    Seq::new(lowered.len(), |i: int| score(lowered[i], terms))
}

/// The indices below `n` at which the score is `k`, in rising order.
pub open spec fn indices_with(s: Seq<nat>, k: nat, n: nat) -> Seq<int>
    decreases n,
{
    if n == 0 {
        seq![]
    } else if s[n - 1] == k {
        indices_with(s, k, (n - 1) as nat).push(n - 1)
    } else {
        indices_with(s, k, (n - 1) as nat)
    }
}

/// The indices with a score from 1 to `k`: the highest scores first, and the
/// earlier of two with the same score first.
pub open spec fn ranking(s: Seq<nat>, k: nat) -> Seq<int>
    decreases k,
{
    if k == 0 {
        seq![]
    } else {
        indices_with(s, k, s.len()) + ranking(s, (k - 1) as nat)
    }
}

/// The lines at some indices.
pub open spec fn lines_at(lines: Seq<Seq<char>>, order: Seq<int>) -> Seq<Seq<char>> {
    Seq::new(order.len(), |i: int| lines[order[i]])
}

/// The first `n` items, or all where there are no more.
pub open spec fn first_items<T>(s: Seq<T>, n: nat) -> Seq<T> {
    if s.len() > n {
        s.take(n as int)
    } else {
        s
    }
}

/// The first `limit` of `lines`, ranked by how many of `terms` occur in what
/// stands in `lowered` at the same index.
pub open spec fn best_lines(
    terms: Seq<Seq<char>>,
    lowered: Seq<Seq<char>>,
    lines: Seq<Seq<char>>,
    limit: nat,
) -> Seq<Seq<char>> {
    first_items(lines_at(lines, ranking(scores(lowered, terms), terms.len())), limit)
}

fn score_text(text: &str, terms: &Vec<String>) -> (r: usize)
    ensures
        r == score(text@, texts(terms@)),
        r <= terms@.len(),
{
    let mut total: usize = 0;
    let mut i: usize = 0;
    while i < terms.len()
        invariant
            i <= terms@.len(),
            total == score(text@, texts(terms@).take(i as int)),
            total <= i,
        decreases terms@.len() - i,
    {
        assert(texts(terms@).take(i + 1).drop_last() == texts(terms@).take(i as int));
        if contains(text, terms[i].as_str()) {
            total += 1;
        }
        i += 1;
    }
    assert(texts(terms@).take(terms@.len() as int) == texts(terms@));
    total
}

/// Ranks `lines` by how many of `terms` occur in what stands in `lowered` at the
/// same index, and gives the first `limit`.
pub fn rank_lines(
    terms: &Vec<String>,
    lowered: &Vec<String>,
    lines: &Vec<String>,
    limit: usize,
) -> (r: Vec<String>)
    requires
        lowered@.len() == lines@.len(),
    ensures
        texts(r@) == best_lines(texts(terms@), texts(lowered@), texts(lines@), limit as nat),
{
    let ghost marks = scores(texts(lowered@), texts(terms@));
    let ghost all = texts(lines@);
    let n: usize = lines.len();
    let mut counted: Vec<usize> = Vec::new();
    while counted.len() < n
        invariant
            n == lowered@.len(),
            counted@.len() <= n,
            forall|j: int|
                0 <= j < counted@.len() ==> #[trigger] counted@[j] == score(
                    texts(lowered@)[j],
                    texts(terms@),
                ),
        decreases n - counted@.len(),
    {
        let s: usize = score_text(lowered[counted.len()].as_str(), terms);
        counted.push(s);
    }
    let mut out: Vec<String> = Vec::new();
    let mut k: usize = terms.len();
    let ghost order = ranking(marks, k as nat);
    let ghost mut done: Seq<int> = seq![];
    assert(order =~= done + ranking(marks, k as nat));
    while k > 0
        invariant
            n == lines@.len(),
            n == counted@.len(),
            marks.len() == n,
            all == texts(lines@),
            forall|j: int| 0 <= j < n ==> #[trigger] counted@[j] == marks[j],
            order == done + ranking(marks, k as nat),
            texts(out@) == lines_at(all, done),
        decreases k,
    {
        let ghost start = done;
        let ghost rest = ranking(marks, (k - 1) as nat);
        let mut i: usize = 0;
        assert(start + indices_with(marks, k as nat, 0) =~= start);
        while i < n
            invariant
                i <= n,
                n == lines@.len(),
                n == counted@.len(),
                marks.len() == n,
                all == texts(lines@),
                forall|j: int| 0 <= j < n ==> #[trigger] counted@[j] == marks[j],
                texts(out@) == lines_at(all, start + indices_with(marks, k as nat, i as nat)),
            decreases n - i,
        {
            let ghost before = out@;
            let ghost so_far = start + indices_with(marks, k as nat, i as nat);
            if counted[i] == k {
                out.push(lines[i].clone());
                assert(texts(out@) =~= texts(before).push(all[i as int]));
                assert(start + indices_with(marks, k as nat, (i + 1) as nat) =~= so_far.push(
                    i as int,
                ));
                assert(lines_at(all, so_far.push(i as int)) =~= lines_at(all, so_far).push(
                    all[i as int],
                ));
            }
            i += 1;
        }
        proof {
            done = start + indices_with(marks, k as nat, n as nat);
            assert(done + rest =~= start + ranking(marks, k as nat));
        }
        k -= 1;
    }
    assert(done =~= order);
    let ghost ranked = texts(out@);
    if out.len() > limit {
        out.truncate(limit);
        assert(texts(out@) =~= ranked.take(limit as int));
    }
    out
}

/// What is said of a note that was found.
pub open spec fn memory_line(m: MemoryView) -> Seq<char> {
    "memory#"@ + decimal(m.id as nat) + " ["@ + m.source + "] "@ + m.text
}

/// What is said of a turn that was found.
pub open spec fn conversation_line(c: ConversationView) -> Seq<char> {
    "conversation#"@ + decimal(c.id as nat) + " ["@ + c.session + ":"@ + c.agent_id + ":"@ + c.role
        + "] "@ + c.text
}

fn render_memory(m: &MemoryItem) -> (r: String)
    ensures
        r@ == memory_line(m@),
{
    let mut out = copy_text("memory#");
    out.append(decimal_text(m.id).as_str());
    out.append(" [");
    out.append(m.source.as_str());
    out.append("] ");
    out.append(m.text.as_str());
    out
}

fn render_conversation(c: &ConversationItem) -> (r: String)
    ensures
        r@ == conversation_line(c@),
{
    let mut out = copy_text("conversation#");
    out.append(decimal_text(c.id).as_str());
    out.append(" [");
    out.append(c.session.as_str());
    out.append(":");
    out.append(c.agent_id.as_str());
    out.append(":");
    out.append(c.role.as_str());
    out.append("] ");
    out.append(c.text.as_str());
    out
}

/// The texts to search in, in small letters: the notes, then the turns.
pub open spec fn searched_texts(s: StateView) -> Seq<Seq<char>> {
    Seq::new(s.memories.len(), |i: int| unicode_lower(s.memories[i].text)) + Seq::new(
        s.conversations.len(),
        |i: int| unicode_lower(s.conversations[i].text),
    )
}

/// The lines that stand for the texts to search in.
pub open spec fn searched_lines(s: StateView) -> Seq<Seq<char>> {
    Seq::new(s.memories.len(), |i: int| memory_line(s.memories[i])) + Seq::new(
        s.conversations.len(),
        |i: int| conversation_line(s.conversations[i]),
    )
}

/// The first `limit` of the notes and turns in which some word of `query`
/// occurs, whatever the case of letters; those with the most words first, and
/// notes before turns where that is the same.
pub open spec fn long_tail(s: StateView, query: Seq<char>, limit: nat) -> Seq<Seq<char>> {
    best_lines(words_of(unicode_lower(query)), searched_texts(s), searched_lines(s), limit)
}

impl StateStore {
    /// The first `limit` of the notes and turns in which some word of `query`
    /// occurs.
    pub fn search_long_tail(&self, query: &str, limit: usize) -> (r: Vec<String>)
        ensures
            texts(r@) == long_tail(self@.state, query@, limit as nat),
    {
        let terms = words(to_lowercase(query).as_str());
        let ghost view = self@.state;
        let mut lowered: Vec<String> = Vec::new();
        let mut lines: Vec<String> = Vec::new();
        let mut i: usize = 0;
        assert(texts(lowered@) =~= searched_texts(view).take(0));
        assert(texts(lines@) =~= searched_lines(view).take(0));
        while i < self.state.memories.len()
            invariant
                i <= self.state.memories@.len(),
                view == self@.state,
                lowered@.len() == i,
                lines@.len() == i,
                texts(lowered@) == searched_texts(view).take(i as int),
                texts(lines@) == searched_lines(view).take(i as int),
            decreases self.state.memories@.len() - i,
        {
            let ghost before = (lowered@, lines@);
            lowered.push(to_lowercase(self.state.memories[i].text.as_str()));
            lines.push(render_memory(&self.state.memories[i]));
            assert(texts(lowered@) =~= searched_texts(view).take(i + 1)) by {
                assert(texts(lowered@) =~= texts(before.0).push(lowered@[i as int]@));
            }
            assert(texts(lines@) =~= searched_lines(view).take(i + 1)) by {
                assert(texts(lines@) =~= texts(before.1).push(lines@[i as int]@));
            }
            i += 1;
        }
        let m: usize = i;
        let mut j: usize = 0;
        while j < self.state.conversations.len()
            invariant
                j <= self.state.conversations@.len(),
                view == self@.state,
                m == view.memories.len(),
                lowered@.len() == m + j,
                lines@.len() == m + j,
                texts(lowered@) == searched_texts(view).take(m + j),
                texts(lines@) == searched_lines(view).take(m + j),
            decreases self.state.conversations@.len() - j,
        {
            let ghost before = (lowered@, lines@);
            lowered.push(to_lowercase(self.state.conversations[j].text.as_str()));
            lines.push(render_conversation(&self.state.conversations[j]));
            assert(texts(lowered@) =~= searched_texts(view).take(m + j + 1)) by {
                assert(texts(lowered@) =~= texts(before.0).push(lowered@[m + j]@));
            }
            assert(texts(lines@) =~= searched_lines(view).take(m + j + 1)) by {
                assert(texts(lines@) =~= texts(before.1).push(lines@[m + j]@));
            }
            j += 1;
        }
        assert(texts(lowered@) =~= searched_texts(view));
        assert(texts(lines@) =~= searched_lines(view));
        rank_lines(&terms, &lowered, &lines, limit)
    }
}

} // verus!
