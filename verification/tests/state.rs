use openorchestrator::state::{
    rank_lines, ConversationItem, PersistedState, StateStore, TaskStatus, Timestamp,
};

const NOW: Timestamp = Timestamp { secs: 10, nanos: 0 };
const LATER: Timestamp = Timestamp { secs: 20, nanos: 0 };

fn item(session: &str, text: &str) -> ConversationItem {
    ConversationItem {
        id: 0,
        ts: NOW,
        session: session.to_string(),
        agent_id: "main".to_string(),
        role: "user".to_string(),
        text: text.to_string(),
        source: "api".to_string(),
        user: None,
    }
}

fn store() -> StateStore {
    StateStore::load(None, 3, 2)
}

#[test]
fn numbers_are_given_out_once() {
    let mut s = store();
    s.add_conversation(item("a", "x"));
    let note = s.add_memory_at("src", "n", NOW);
    let task = s.add_task_at("t", "main", NOW);
    s.add_conversation(item("a", "y"));
    assert_eq!(s.state.conversations[0].id, 1);
    assert_eq!(note.id, 2);
    assert_eq!(task.id, 3);
    assert_eq!(s.state.conversations[1].id, 4);
    assert_eq!(s.state.next_id, 5);
}

#[test]
fn the_oldest_items_are_dropped() {
    let mut s = store();
    for text in ["1", "2", "3", "4", "5"] {
        s.add_conversation(item("a", text));
        s.add_memory_at("src", text, NOW);
    }
    let turns: Vec<&str> = s.state.conversations.iter().map(|c| c.text.as_str()).collect();
    assert_eq!(turns, vec!["3", "4", "5"]);
    let notes: Vec<&str> = s.state.memories.iter().map(|m| m.text.as_str()).collect();
    assert_eq!(notes, vec!["4", "5"]);
    assert_eq!(s.state.next_id, 11);
}

#[test]
fn a_memory_of_no_size_holds_nothing() {
    let mut s = StateStore::load(None, 0, 0);
    s.add_conversation(item("a", "1"));
    let note = s.add_memory_at("src", "n", NOW);
    assert!(s.state.conversations.is_empty());
    assert!(s.state.memories.is_empty());
    assert_eq!(note.id, 2);
}

#[test]
fn tasks_are_done_once() {
    let mut s = store();
    let first = s.add_task_at("one", "main", NOW);
    let second = s.add_task_at("two", "bob", NOW);
    assert_eq!(s.list_open_tasks().len(), 2);
    assert!(s.mark_task_done_at(first.id, LATER));
    assert!(s.mark_task_done_at(first.id, LATER));
    assert!(!s.mark_task_done_at(99, LATER));
    let open = s.list_open_tasks();
    assert_eq!(open.len(), 1);
    assert_eq!(open[0].id, second.id);
    let all = s.list_tasks();
    assert_eq!(all.len(), 2);
    assert_eq!(all[0].status, TaskStatus::Done);
    assert_eq!(all[0].updated_at, LATER);
    assert_eq!(all[0].ts, NOW);
    assert_eq!(all[1].status, TaskStatus::Open);
    assert_eq!(all[1].updated_at, NOW);
}

#[test]
fn the_clock_is_read() {
    let before = chrono::Utc::now().timestamp();
    let mut s = store();
    let note = s.add_memory("src", "n");
    let task = s.add_task("t", "main");
    assert!(s.mark_task_done(task.id));
    let after = chrono::Utc::now().timestamp();
    assert!(before <= note.ts.secs && note.ts.secs <= after);
    assert!(before <= task.ts.secs && task.ts.secs <= after);
    assert!(note.ts.nanos < 1_000_000_000);
    assert_eq!(s.list_tasks()[0].status, TaskStatus::Done);
}

#[test]
fn sessions_are_recalled() {
    let mut s = StateStore::load(None, 10, 10);
    for (session, text) in [("a", "1"), ("b", "2"), ("a", "3"), ("a", "4")] {
        s.add_conversation(item(session, text));
    }
    let said: Vec<String> = s.recent_session("a", 2).into_iter().map(|c| c.text).collect();
    assert_eq!(said, vec!["3", "4"]);
    assert_eq!(s.recent_session("a", 9).len(), 3);
    assert_eq!(s.recent_session("A", 9).len(), 0);
    assert_eq!(s.recent_session("b", 0).len(), 0);
}

#[test]
fn searches_rank_by_words_found() {
    let mut s = StateStore::load(None, 10, 10);
    s.add_conversation(item("a", "green pears and apples"));
    s.add_conversation(item("a", "apples"));
    s.add_memory_at("src", "APPLES are red", NOW);
    s.add_memory_at("src", "nothing here", NOW);
    let found = s.search_long_tail("pears APPLES", 8);
    assert_eq!(
        found,
        vec![
            "conversation#1 [a:main:user] green pears and apples",
            "memory#3 [src] APPLES are red",
            "conversation#2 [a:main:user] apples",
        ]
    );
    assert_eq!(s.search_long_tail("pears APPLES", 1).len(), 1);
    assert_eq!(s.search_long_tail("  ", 8).len(), 0);
    assert_eq!(s.search_long_tail("kiwi", 8).len(), 0);
}

#[test]
fn searches_know_all_letters() {
    let mut s = StateStore::load(None, 10, 10);
    s.add_memory_at("src", "Äpfel und ÖL", NOW);
    assert_eq!(s.search_long_tail("ÄPFEL", 8), vec!["memory#1 [src] Äpfel und ÖL"]);
    assert_eq!(s.search_long_tail("öl", 8).len(), 1);
}

#[test]
fn lines_are_ranked() {
    let strings = |v: &[&str]| v.iter().map(|s| s.to_string()).collect::<Vec<String>>();
    let terms = strings(&["a", "b", "a"]);
    let lowered = strings(&["b", "a", "xyz", "ab", "a b"]);
    let lines = strings(&["0", "1", "2", "3", "4"]);
    assert_eq!(rank_lines(&terms, &lowered, &lines, 9), vec!["3", "4", "1", "0"]);
    assert_eq!(rank_lines(&terms, &lowered, &lines, 2), vec!["3", "4"]);
    assert!(rank_lines(&Vec::new(), &lowered, &lines, 9).is_empty());
}

#[test]
fn memory_survives_a_restart() {
    let mut s = store();
    s.add_conversation(item("a", "x"));
    s.add_memory_at("src", "n", NOW);
    s.add_task_at("t", "main", NOW);
    let again = StateStore::load(Some(s.snapshot()), 3, 2);
    assert_eq!(format!("{:?}", again), format!("{:?}", s));
    let fresh = StateStore::load(None, 3, 2);
    assert_eq!(fresh.state.next_id, 1);
    assert_eq!(PersistedState::default().next_id, 1);
}
