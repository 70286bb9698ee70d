//! What holds of the memory as a whole: its numbers, its bounds, its tasks and
//! what a search finds.
use crate::outside::unicode_lower;
use crate::state::{
    empty_state, has_task, indices_with, lemma_task_index, lines_at, loaded, long_tail,
    new_memory, new_task, of_session, open_tasks, ranking, recent, score, scores,
    searched_lines, searched_texts, task_index, with_conversation, with_memory, with_task,
    with_task_done, ConversationView, StateView, StoreView, TaskStatus, TaskView, Timestamp,
};
use crate::text::{contains_text, words_of};
use vstd::prelude::*;

verus! {

// Numbers.
/// Whether the numbers given out so far are in order: rising within each kind
/// of item, never used twice, and all below the next one.
pub open spec fn numbered(s: StateView) -> bool {
    &&& forall|i: int| 0 <= i < s.conversations.len() ==> (#[trigger] s.conversations[i]).id < s.next_id
    &&& forall|i: int| 0 <= i < s.memories.len() ==> (#[trigger] s.memories[i]).id < s.next_id
    &&& forall|i: int| 0 <= i < s.tasks.len() ==> (#[trigger] s.tasks[i]).id < s.next_id
    &&& forall|i: int, j: int|
        0 <= i < j < s.conversations.len() ==> (#[trigger] s.conversations[i]).id < (
        #[trigger] s.conversations[j]).id
    &&& forall|i: int, j: int|
        0 <= i < j < s.memories.len() ==> (#[trigger] s.memories[i]).id < (
        #[trigger] s.memories[j]).id
    &&& forall|i: int, j: int|
        0 <= i < j < s.tasks.len() ==> (#[trigger] s.tasks[i]).id < (#[trigger] s.tasks[j]).id
    &&& forall|i: int, j: int|
        0 <= i < s.conversations.len() && 0 <= j < s.memories.len() ==> (
        #[trigger] s.conversations[i]).id != (#[trigger] s.memories[j]).id
    &&& forall|i: int, j: int|
        0 <= i < s.conversations.len() && 0 <= j < s.tasks.len() ==> (
        #[trigger] s.conversations[i]).id != (#[trigger] s.tasks[j]).id
    &&& forall|i: int, j: int|
        0 <= i < s.memories.len() && 0 <= j < s.tasks.len() ==> (#[trigger] s.memories[i]).id != (
        #[trigger] s.tasks[j]).id
}

/// An empty memory has its numbers in order.
pub proof fn law_empty_is_numbered()
    ensures
        numbered(empty_state()),
{
}

/// Each item that is added takes the next number, and the numbers stay in order.
pub proof fn law_adding_keeps_numbers(
    s: StoreView,
    item: ConversationView,
    source: Seq<char>,
    text: Seq<char>,
    ts: Timestamp,
)
    requires
        numbered(s.state),
        s.state.next_id < u64::MAX,
    ensures
        numbered(with_conversation(s, item).state),
        numbered(with_memory(s, source, text, ts).state),
        numbered(with_task(s, text, source, ts).state),
        with_conversation(s, item).state.next_id == s.state.next_id + 1,
        with_memory(s, source, text, ts).state.next_id == s.state.next_id + 1,
        with_task(s, text, source, ts).state.next_id == s.state.next_id + 1,
        new_memory(s, source, text, ts).id == s.state.next_id,
        new_task(s, text, source, ts).id == s.state.next_id,
{
}

/// Marking a task as done leaves the numbers as they are.
pub proof fn law_done_keeps_numbers(s: StoreView, id: u64, ts: Timestamp)
    requires
        numbered(s.state),
    ensures
        numbered(with_task_done(s, id, ts).state),
{
    lemma_task_index(s.state.tasks, id);
}

// Restarts.
/// A memory that is kept and loaded again, under the same bounds, is the same.
pub proof fn law_memory_survives_a_restart(s: StoreView)
    ensures
        loaded(Some(s.state), s.max_conversation_items, s.max_memory_items) == s,
{
}

/// Where nothing was kept, the memory starts empty, and numbers from one on.
pub proof fn law_memory_starts_empty(max_conversation_items: usize, max_memory_items: usize)
    ensures
        ({
            let s = loaded(None, max_conversation_items, max_memory_items);
            &&& s.state.next_id == 1
            &&& s.state.conversations.len() == 0
            &&& s.state.memories.len() == 0
            &&& s.state.tasks.len() == 0
            &&& s.max_conversation_items == max_conversation_items
            &&& s.max_memory_items == max_memory_items
        }),
{
}

// Bounds.
/// A turn that is added is the last one, no more turns are held than may be,
/// those that are held are the latest, and notes and tasks stay as they are.
pub proof fn law_conversations_are_bounded(s: StoreView, item: ConversationView)
    ensures
        ({
            let after = with_conversation(s, item);
            let added = ConversationView { id: s.state.next_id, ..item };
            &&& after.state.conversations.len() <= s.max_conversation_items
            &&& s.max_conversation_items > 0 ==> after.state.conversations.last() == added
            &&& s.state.conversations.len() < s.max_conversation_items
                ==> after.state.conversations == s.state.conversations.push(added)
            &&& after.state.memories == s.state.memories
            &&& after.state.tasks == s.state.tasks
            &&& after.max_conversation_items == s.max_conversation_items
            &&& after.max_memory_items == s.max_memory_items
        }),
{
}

/// A note that is added is the last one, no more notes are held than may be,
/// those that are held are the latest, and turns and tasks stay as they are.
pub proof fn law_memories_are_bounded(
    s: StoreView,
    source: Seq<char>,
    text: Seq<char>,
    ts: Timestamp,
)
    ensures
        ({
            let after = with_memory(s, source, text, ts);
            let added = new_memory(s, source, text, ts);
            &&& after.state.memories.len() <= s.max_memory_items
            &&& s.max_memory_items > 0 ==> after.state.memories.last() == added
            &&& s.state.memories.len() < s.max_memory_items ==> after.state.memories
                == s.state.memories.push(added)
            &&& after.state.conversations == s.state.conversations
            &&& after.state.tasks == s.state.tasks
            &&& after.max_conversation_items == s.max_conversation_items
            &&& after.max_memory_items == s.max_memory_items
        }),
{
}

// Tasks.
/// The open tasks are those tasks that are open.
pub proof fn law_open_tasks(tasks: Seq<TaskView>, task: TaskView)
    ensures
        open_tasks(tasks).contains(task) <==> tasks.contains(task) && task.status
            == TaskStatus::Open,
    decreases tasks.len(),
{
    if tasks.len() > 0 {
        let rest = tasks.drop_last();
        let found = open_tasks(rest);
        law_open_tasks(rest, task);
        assert(tasks == rest.push(tasks.last()));
        if tasks.contains(task) {
            let i = choose|i: int| 0 <= i < tasks.len() && tasks[i] == task;
            if i < rest.len() {
                assert(rest[i] == task);
            }
        }
        if rest.contains(task) {
            let i = choose|i: int| 0 <= i < rest.len() && rest[i] == task;
            assert(tasks[i] == task);
        }
        if tasks.last() == task {
            assert(tasks[tasks.len() - 1] == task);
        }
        if tasks.last().status == TaskStatus::Open {
            let all = open_tasks(tasks);
            assert(all == found.push(tasks.last()));
            if all.contains(task) {
                let i = choose|i: int| 0 <= i < all.len() && all[i] == task;
                if i < found.len() {
                    assert(found[i] == task);
                }
            }
            if found.contains(task) {
                let i = choose|i: int| 0 <= i < found.len() && found[i] == task;
                assert(all[i] == task);
            }
            assert(all[found.len() as int] == tasks.last());
        }
    }
}

/// A task that was added is open.
pub proof fn law_added_task_is_open(
    s: StoreView,
    title: Seq<char>,
    owner_agent: Seq<char>,
    ts: Timestamp,
)
    ensures
        open_tasks(with_task(s, title, owner_agent, ts).state.tasks) == open_tasks(
            s.state.tasks,
        ).push(new_task(s, title, owner_agent, ts)),
{
    let after = with_task(s, title, owner_agent, ts).state.tasks;
    assert(after.drop_last() =~= s.state.tasks);
}

/// Marking a task as done closes it and no other, and changes nothing else.
pub proof fn law_done_closes_one_task(s: StoreView, id: u64, ts: Timestamp, task: TaskView)
    requires
        numbered(s.state),
    ensures
        ({
            let after = with_task_done(s, id, ts);
            &&& open_tasks(after.state.tasks).contains(task) <==> open_tasks(
                s.state.tasks,
            ).contains(task) && task.id != id
            &&& after.state.tasks.len() == s.state.tasks.len()
            &&& after.state.next_id == s.state.next_id
            &&& after.state.conversations == s.state.conversations
            &&& after.state.memories == s.state.memories
            &&& !has_task(s.state.tasks, id) ==> after == s
        }),
{
    let before = s.state.tasks;
    let after = with_task_done(s, id, ts).state.tasks;
    lemma_task_index(before, id);
    law_open_tasks(before, task);
    law_open_tasks(after, task);
    if before.contains(task) && task.id != id {
        let i = choose|i: int| 0 <= i < before.len() && before[i] == task;
        assert(after[i] == task);
    }
    if after.contains(task) && task.status == TaskStatus::Open {
        let i = choose|i: int| 0 <= i < after.len() && after[i] == task;
        assert(before[i] == task);
    }
}

/// Marking a task as done a second time changes only when that was.
pub proof fn law_done_again(s: StoreView, id: u64, first: Timestamp, second: Timestamp)
    ensures
        with_task_done(with_task_done(s, id, first), id, second) == with_task_done(s, id, second),
{
    let once = with_task_done(s, id, first);
    let twice = with_task_done(once, id, second);
    lemma_task_index(s.state.tasks, id);
    lemma_task_index(once.state.tasks, id);
    if has_task(s.state.tasks, id) {
        let i = task_index(s.state.tasks, id);
        let j = task_index(once.state.tasks, id);
        assert(once.state.tasks[i].id == id);
        assert(has_task(once.state.tasks, id));
        assert forall|k: int| 0 <= k < i implies (#[trigger] once.state.tasks[k]).id != id by {
            assert(once.state.tasks[k] == s.state.tasks[k]);
        }
        assert(i == j);
        assert(twice.state.tasks =~= with_task_done(s, id, second).state.tasks);
    }
}

// Sessions.
proof fn lemma_of_session(items: Seq<ConversationView>, session: Seq<char>)
    ensures
        forall|i: int|
            0 <= i < of_session(items, session).len() ==> (#[trigger] of_session(
                items,
                session,
            )[i]).session == session && items.contains(of_session(items, session)[i]),
    decreases items.len(),
{
    if items.len() > 0 {
        let rest = items.drop_last();
        lemma_of_session(rest, session);
        let found = of_session(items, session);
        assert forall|i: int| 0 <= i < found.len() implies (#[trigger] found[i]).session == session
            && items.contains(found[i]) by {
            if i < of_session(rest, session).len() {
                assert(found[i] == of_session(rest, session)[i]);
                let k = choose|k: int| 0 <= k < rest.len() && rest[k] == found[i];
                assert(items[k] == found[i]);
            } else {
                assert(found[i] == items[items.len() - 1]);
            }
        }
    }
}

/// What is recalled of a session was said in it, and is no more than was asked
/// for.
pub proof fn law_recent_is_of_the_session(
    items: Seq<ConversationView>,
    session: Seq<char>,
    limit: nat,
    i: int,
)
    requires
        0 <= i < recent(items, session, limit).len(),
    ensures
        recent(items, session, limit).len() <= limit,
        recent(items, session, limit)[i].session == session,
        items.contains(recent(items, session, limit)[i]),
{
    lemma_of_session(items, session);
    let all = of_session(items, session);
    if all.len() > limit {
        assert(recent(items, session, limit)[i] == all[all.len() - limit + i]);
    }
}

/// What was said last in a session is what is recalled of it last, and it is
/// not recalled of another session.
pub proof fn law_added_turn_is_recalled(
    s: StoreView,
    item: ConversationView,
    session: Seq<char>,
    limit: nat,
)
    requires
        s.max_conversation_items > 0,
        limit > 0,
    ensures
        ({
            let after = with_conversation(s, item).state.conversations;
            let added = ConversationView { id: s.state.next_id, ..item };
            &&& recent(after, item.session, limit).last() == added
            &&& session != item.session && s.state.conversations.len() < s.max_conversation_items
                ==> recent(after, session, limit) == recent(s.state.conversations, session, limit)
        }),
{
    let after = with_conversation(s, item).state.conversations;
    let added = ConversationView { id: s.state.next_id, ..item };
    assert(after.last() == added);
    assert(of_session(after, item.session).last() == added);
    if s.state.conversations.len() < s.max_conversation_items {
        assert(after.drop_last() =~= s.state.conversations);
    }
}

// Search.
proof fn lemma_indices_with(s: Seq<nat>, k: nat, n: nat)
    requires
        n <= s.len(),
    ensures
        ({
            let found = indices_with(s, k, n);
            &&& forall|i: int|
                0 <= i < found.len() ==> 0 <= #[trigger] found[i] < n && s[found[i]] == k
            &&& forall|i: int, j: int|
                0 <= i < j < found.len() ==> #[trigger] found[i] < #[trigger] found[j]
            &&& forall|x: int| 0 <= x < n && #[trigger] s[x] == k ==> found.contains(x)
        }),
    decreases n,
{
    if n > 0 {
        let rest = indices_with(s, k, (n - 1) as nat);
        let found = indices_with(s, k, n);
        lemma_indices_with(s, k, (n - 1) as nat);
        assert forall|x: int| 0 <= x < n && #[trigger] s[x] == k implies found.contains(x) by {
            if x < n - 1 {
                let i = choose|i: int| 0 <= i < rest.len() && rest[i] == x;
                assert(found[i] == x);
            } else {
                assert(found[rest.len() as int] == x);
            }
        }
    }
}

/// A ranking names each index with a score from 1 to `k` once; higher scores
/// stand first, and the earlier of two indices with the same score does.
pub proof fn law_ranking(s: Seq<nat>, k: nat)
    ensures
        forall|i: int|
            0 <= i < ranking(s, k).len() ==> 0 <= #[trigger] ranking(s, k)[i] < s.len() && 1
                <= s[ranking(s, k)[i]] <= k,
        forall|i: int, j: int|
            0 <= i < j < ranking(s, k).len() ==> {
                let a = #[trigger] ranking(s, k)[i];
                let b = #[trigger] ranking(s, k)[j];
                s[a] > s[b] || (s[a] == s[b] && a < b)
            },
        forall|x: int| 0 <= x < s.len() && 1 <= #[trigger] s[x] <= k ==> ranking(s, k).contains(x),
    decreases k,
{
    if k > 0 {
        let first = indices_with(s, k, s.len());
        let rest = ranking(s, (k - 1) as nat);
        let all = ranking(s, k);
        lemma_indices_with(s, k, s.len());
        law_ranking(s, (k - 1) as nat);
        assert(all == first + rest);
        assert forall|i: int| 0 <= i < all.len() implies 0 <= #[trigger] all[i] < s.len() && 1
            <= s[all[i]] <= k by {
            if i < first.len() {
                assert(all[i] == first[i]);
            } else {
                assert(all[i] == rest[i - first.len()]);
            }
        }
        assert forall|i: int, j: int| 0 <= i < j < all.len() implies {
            let a = #[trigger] all[i];
            let b = #[trigger] all[j];
            s[a] > s[b] || (s[a] == s[b] && a < b)
        } by {
            if j < first.len() {
                assert(all[i] == first[i] && all[j] == first[j]);
            } else if i < first.len() {
                assert(all[i] == first[i] && all[j] == rest[j - first.len()]);
            } else {
                assert(all[i] == rest[i - first.len()] && all[j] == rest[j - first.len()]);
            }
        }
        assert forall|x: int| 0 <= x < s.len() && 1 <= #[trigger] s[x] <= k implies all.contains(
            x,
        ) by {
            if s[x] == k {
                let i = choose|i: int| 0 <= i < first.len() && first[i] == x;
                assert(all[i] == x);
            } else {
                let i = choose|i: int| 0 <= i < rest.len() && rest[i] == x;
                assert(all[first.len() + i] == x);
            }
        }
    }
}

/// A text scores at most one for each term, and scores at all exactly where
/// some term occurs in it.
pub proof fn law_score(text: Seq<char>, terms: Seq<Seq<char>>)
    ensures
        score(text, terms) <= terms.len(),
        score(text, terms) > 0 <==> exists|i: int|
            0 <= i < terms.len() && contains_text(text, #[trigger] terms[i]),
    decreases terms.len(),
{
    if terms.len() > 0 {
        let rest = terms.drop_last();
        law_score(text, rest);
        if score(text, rest) > 0 {
            let i = choose|i: int| 0 <= i < rest.len() && contains_text(text, #[trigger] rest[i]);
            assert(contains_text(text, terms[i]));
        }
        if contains_text(text, terms.last()) {
            assert(contains_text(text, terms[terms.len() - 1]));
        }
        if exists|i: int| 0 <= i < terms.len() && contains_text(text, #[trigger] terms[i]) {
            let i = choose|i: int| 0 <= i < terms.len() && contains_text(text, #[trigger] terms[i]);
            if i < rest.len() {
                assert(contains_text(text, rest[i]));
            }
        }
    }
}

/// A search finds no more than was asked for. What it finds stands for a note
/// or a turn in which a word of the query occurs, whatever the case of letters.
pub proof fn law_search_finds_matches(s: StateView, query: Seq<char>, limit: nat, i: int)
    requires
        0 <= i < long_tail(s, query, limit).len(),
    ensures
        long_tail(s, query, limit).len() <= limit,
        exists|x: int, t: int|
            #![trigger searched_lines(s)[x], words_of(unicode_lower(query))[t]]
            0 <= x < searched_lines(s).len() && long_tail(s, query, limit)[i] == searched_lines(
                s,
            )[x] && 0 <= t < words_of(unicode_lower(query)).len() && contains_text(
                searched_texts(s)[x],
                words_of(unicode_lower(query))[t],
            ),
{
    let terms = words_of(unicode_lower(query));
    let marks = scores(searched_texts(s), terms);
    let order = ranking(marks, terms.len());
    law_ranking(marks, terms.len());
    assert(long_tail(s, query, limit)[i] == lines_at(searched_lines(s), order)[i]);
    let x = order[i];
    assert(0 <= x < searched_lines(s).len());
    law_score(searched_texts(s)[x], terms);
    let t = choose|t: int|
        0 <= t < terms.len() && contains_text(searched_texts(s)[x], #[trigger] terms[t]);
    assert(searched_lines(s)[x] == long_tail(s, query, limit)[i]);
    assert(contains_text(searched_texts(s)[x], terms[t]));
}

/// A search without a limit that binds finds every note and turn in which a
/// word of the query occurs.
pub proof fn law_search_is_complete(s: StateView, query: Seq<char>, limit: nat, x: int, t: int)
    requires
        0 <= x < searched_lines(s).len(),
        0 <= t < words_of(unicode_lower(query)).len(),
        contains_text(searched_texts(s)[x], words_of(unicode_lower(query))[t]),
        searched_lines(s).len() <= limit,
    ensures
        long_tail(s, query, limit).contains(searched_lines(s)[x]),
{
    let terms = words_of(unicode_lower(query));
    let marks = scores(searched_texts(s), terms);
    let order = ranking(marks, terms.len());
    law_ranking(marks, terms.len());
    law_score(searched_texts(s)[x], terms);
    assert(marks[x] == score(searched_texts(s)[x], terms));
    lemma_distinct_indices(order, marks.len());
    assert(order.contains(x));
    let i = choose|i: int| 0 <= i < order.len() && order[i] == x;
    assert(long_tail(s, query, limit)[i] == searched_lines(s)[x]);
}

/// Different indices below `n` are no more than `n`.
proof fn lemma_distinct_indices(order: Seq<int>, n: nat)
    requires
        forall|i: int| 0 <= i < order.len() ==> 0 <= #[trigger] order[i] < n,
        forall|i: int, j: int|
            0 <= i < j < order.len() ==> #[trigger] order[i] != #[trigger] order[j],
    ensures
        order.len() <= n,
{
    let below = vstd::set_lib::set_int_range(0, n as int);
    vstd::set_lib::lemma_int_range(0, n as int);
    assert(order.no_duplicates());
    order.unique_seq_to_set();
    assert(order.to_set().subset_of(below)) by {
        assert forall|x: int| order.to_set().contains(x) implies below.contains(x) by {
            let i = choose|i: int| 0 <= i < order.len() && order[i] == x;
            assert(0 <= order[i] < n);
        }
    }
    vstd::set_lib::lemma_len_subset(order.to_set(), below);
}

/// A query without a word finds nothing.
pub proof fn law_empty_search(s: StateView, query: Seq<char>, limit: nat)
    requires
        words_of(unicode_lower(query)).len() == 0,
    ensures
        long_tail(s, query, limit).len() == 0,
{
}

} // verus!
