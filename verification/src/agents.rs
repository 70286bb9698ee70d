//! The names of agents, and the requests to them that are written in plain
//! language.
use crate::text::{
    ascii_lower, chars_of, contains, contains_text, copy_text, has_prefix, opt_text, same_text,
    span, span_until, starts_with, text_from, text_to, texts, to_ascii_lower, trim,
    trim_end_matches, trim_end_of, trim_matches, trim_set, trim_start_matches, trim_start_of,
    trimmed, words, words_of, CharSet,
};
use vstd::prelude::*;

verus! {

// Names.
/// Whether `c` may stand in the name of an agent.
pub open spec fn is_id_char(c: char) -> bool {
    'a' <= c <= 'z' || '0' <= c <= '9' || c == '-' || c == '_'
}

/// Whether all of a name may stand there.
pub open spec fn valid_id(id: Seq<char>) -> bool {
    forall|i: int| 0 <= i < id.len() ==> is_id_char(#[trigger] id[i])
}

/// The name of an agent as it is meant: without white space, backticks and
/// `@` before it and punctuation behind it, in small letters.
pub open spec fn normalized_id(value: Seq<char>) -> Seq<char> {
    ascii_lower(
        trim_end_of(
            trim_start_of(trim_set(trimmed(value), CharSet::OneOf("`")), CharSet::OneOf("@")),
            CharSet::OneOf(":,;"),
        ),
    )
}

/// Whether `value` is made of small letters, digits, `-` and `_`.
pub fn is_valid_agent_id(value: &str) -> (r: bool)
    ensures
        r == valid_id(value@),
{
    let chars = chars_of(value);
    let mut i: usize = 0;
    while i < chars.len()
        invariant
            i <= chars@.len(),
            chars@ == value@,
            forall|j: int| 0 <= j < i ==> is_id_char(#[trigger] value@[j]),
        decreases chars@.len() - i,
    {
        let c = chars[i];
        let good = ('a' <= c && c <= 'z') || ('0' <= c && c <= '9') || c == '-' || c == '_';
        if !good {
            assert(!is_id_char(value@[i as int]));
            return false;
        }
        i += 1;
    }
    true
}

/// The name of an agent as it is meant.
pub fn normalize_agent_id(value: &str) -> (r: String)
    ensures
        r@ == normalized_id(value@),
{
    let bare = trim_matches(trim(value), &CharSet::OneOf("`"));
    let bare = trim_start_matches(bare, &CharSet::OneOf("@"));
    to_ascii_lower(trim_end_matches(bare, &CharSet::OneOf(":,;")))
}

// Delegation.
/// A task for an agent, as `<agent> run <task>` asks for it.
#[derive(Debug)]
pub struct InlineDelegateRequest {
    pub agent_id: String,
    pub task: String,
}

#[verifier::ext_equal]
pub struct InlineDelegateView {
    pub agent_id: Seq<char>,
    pub task: Seq<char>,
}

impl View for InlineDelegateRequest {
    type V = InlineDelegateView;

    open spec fn view(&self) -> InlineDelegateView {
        InlineDelegateView { agent_id: self.agent_id@, task: self.task@ }
    }
}

/// The first word of a message, and what follows the white space behind it;
/// nothing where there is only one word.
pub open spec fn first_word(raw: Seq<char>) -> Option<(Seq<char>, Seq<char>)> {
    let t = trimmed(raw);
    let n = span_until(t, CharSet::Space) as int;
    if n >= t.len() {
        None
    } else {
        Some((t.take(n), trim_start_of(t.skip(n), CharSet::Space)))
    }
}

fn split_first_word<'a>(raw: &'a str) -> (r: Option<(&'a str, &'a str)>)
    ensures
        match r {
            Some(p) => first_word(raw@) == Some((p.0@, p.1@)),
            None => first_word(raw@) is None,
        },
{
    let t = trim(raw);
    let n: usize = span(t, &CharSet::Space);
    if n >= t.unicode_len() {
        return None;
    }
    Some((text_to(t, n), trim_start_matches(text_from(t, n), &CharSet::Space)))
}

/// The delegation that a message asks for.
pub open spec fn inline_delegate(raw: Seq<char>) -> Option<InlineDelegateView> {
    match first_word(raw) {
        Some((word, rest)) => {
            let id = normalized_id(word);
            let task = trimmed(rest.skip(3));
            if valid_id(id) && has_prefix(ascii_lower(rest), "run "@) && task.len() > 0 {
                Some(InlineDelegateView { agent_id: id, task })
            } else {
                None
            }
        },
        None => None,
    }
}

/// The delegation that a message asks for: a name, the word `run` in any case
/// of letters, and a task.
pub fn parse_inline_delegate_request(raw: &str) -> (r: Option<InlineDelegateRequest>)
    ensures
        match r {
            Some(d) => inline_delegate(raw@) == Some(d@),
            None => inline_delegate(raw@) is None,
        },
{
    let (word, rest) = match split_first_word(raw) {
        Some(p) => p,
        None => return None,
    };
    let agent_id = normalize_agent_id(word);
    if !is_valid_agent_id(agent_id.as_str()) {
        return None;
    }
    if !starts_with(to_ascii_lower(rest).as_str(), "run ") {
        return None;
    }
    proof {
        reveal_strlit("run ");
    }
    let task = trim(text_from(rest, 3));
    if task.is_empty() {
        return None;
    }
    Some(InlineDelegateRequest { agent_id, task: copy_text(task) })
}

// Spawning.
/// A new agent for a workspace.
#[derive(Debug)]
pub struct InlineSpawnRequest {
    pub agent_id: String,
    pub workspace: String,
}

#[verifier::ext_equal]
pub struct InlineSpawnView {
    pub agent_id: Seq<char>,
    pub workspace: Seq<char>,
}

impl View for InlineSpawnRequest {
    type V = InlineSpawnView;

    open spec fn view(&self) -> InlineSpawnView {
        InlineSpawnView { agent_id: self.agent_id@, workspace: self.workspace@ }
    }
}

/// Whether a word names an agent beyond doubt: it starts with `@`, or the name
/// holds a digit, `-` or `_`.
pub open spec fn explicit_target(raw: Seq<char>) -> bool {
    let t = trimmed(raw);
    let id = normalized_id(t);
    t.len() > 0 && (t[0] == '@' || exists|i: int|
        0 <= i < id.len() && is_mark(#[trigger] id[i]))
}

/// Whether `c` is a digit, `-` or `_`.
pub open spec fn is_mark(c: char) -> bool {
    c == '_' || c == '-' || '0' <= c <= '9'
}

/// Whether a word names an agent beyond doubt.
pub fn is_explicit_inline_spawn_target(raw_candidate: &str) -> (r: bool)
    ensures
        r == explicit_target(raw_candidate@),
{
    let t = trim(raw_candidate);
    if t.is_empty() {
        return false;
    }
    if t.get_char(0) == '@' {
        return true;
    }
    let id = normalize_agent_id(t);
    let chars = chars_of(id.as_str());
    let mut i: usize = 0;
    while i < chars.len()
        invariant
            i <= chars@.len(),
            chars@ == id@,
            id@ == normalized_id(trimmed(raw_candidate@)),
            trimmed(raw_candidate@).len() > 0,
            trimmed(raw_candidate@)[0] != '@',
            forall|j: int| 0 <= j < i ==> !is_mark(#[trigger] id@[j]),
        decreases chars@.len() - i,
    {
        let c = chars[i];
        if c == '_' || c == '-' || ('0' <= c && c <= '9') {
            assert(is_mark(id@[i as int]));
            return true;
        }
        i += 1;
    }
    false
}

/// A word of a message as a path, where it is one: without quotes, brackets
/// and punctuation around it, and written as a path is.
pub open spec fn path_token(token: Seq<char>) -> Option<Seq<char>> {
    let cleaned = trimmed(
        trim_end_of(trim_set(token, CharSet::OneOf("\"'`()[]")), CharSet::OneOf(",;.:)]}")),
    );
    if cleaned != "/"@ && (has_prefix(cleaned, "/"@) || has_prefix(cleaned, "~/"@) || has_prefix(
        cleaned,
        "./"@,
    ) || has_prefix(cleaned, "../"@)) {
        Some(cleaned)
    } else {
        None
    }
}

fn read_path_token(token: &str) -> (r: Option<String>)
    ensures
        opt_text(r) == path_token(token@),
{
    let bare = trim_matches(token, &CharSet::OneOf("\"'`()[]"));
    let cleaned = trim(trim_end_matches(bare, &CharSet::OneOf(",;.:)]}")));
    let is_path_like = starts_with(cleaned, "/") || starts_with(cleaned, "~/") || starts_with(
        cleaned,
        "./",
    ) || starts_with(cleaned, "../");
    if !is_path_like || same_text(cleaned, "/") {
        return None;
    }
    Some(copy_text(cleaned))
}

/// The first of some words that is a path.
pub open spec fn first_path(tokens: Seq<Seq<char>>) -> Option<Seq<char>>
    decreases tokens.len(),
{
    if tokens.len() == 0 {
        None
    } else if path_token(tokens[0]) is Some {
        path_token(tokens[0])
    } else {
        first_path(tokens.skip(1))
    }
}

/// The first word of a message that is a path.
pub fn extract_workspace_path(raw: &str) -> (r: Option<String>)
    ensures
        opt_text(r) == first_path(words_of(raw@)),
{
    let tokens = words(raw);
    let ghost all = texts(tokens@);
    let mut i: usize = 0;
    assert(all.skip(0) == all);
    while i < tokens.len()
        invariant
            i <= tokens@.len(),
            all == texts(tokens@),
            all == words_of(raw@),
            first_path(all) == first_path(all.skip(i as int)),
        decreases tokens@.len() - i,
    {
        assert(all.skip(i as int)[0] == tokens@[i as int]@);
        assert(all.skip(i as int).skip(1) == all.skip(i + 1));
        let path = read_path_token(tokens[i].as_str());
        if path.is_some() {
            return path;
        }
        i += 1;
    }
    None
}

/// Whether a text speaks of spawning an agent.
pub open spec fn speaks_of_spawning(rest: Seq<char>) -> bool {
    let t = ascii_lower(rest);
    contains_text(t, "spawn"@) && (contains_text(t, "new agent"@) || contains_text(t, "an agent"@)
        || contains_text(t, "sub-agent"@) || contains_text(t, "sub agent"@))
}

/// The new agent that a message asks for.
pub open spec fn inline_spawn(raw: Seq<char>) -> Option<InlineSpawnView> {
    match first_word(raw) {
        Some((word, rest)) => {
            let id = normalized_id(word);
            match first_path(words_of(rest)) {
                Some(workspace) => if explicit_target(word) && valid_id(id) && speaks_of_spawning(
                    rest,
                ) {
                    Some(InlineSpawnView { agent_id: id, workspace })
                } else {
                    None
                },
                None => None,
            }
        },
        None => None,
    }
}

/// The new agent that a message asks for: a name beyond doubt, the wish to
/// spawn an agent, and a path.
pub fn parse_inline_spawn_request(raw: &str) -> (r: Option<InlineSpawnRequest>)
    ensures
        match r {
            Some(s) => inline_spawn(raw@) == Some(s@),
            None => inline_spawn(raw@) is None,
        },
{
    let (word, rest) = match split_first_word(raw) {
        Some(p) => p,
        None => return None,
    };
    if !is_explicit_inline_spawn_target(word) {
        return None;
    }
    let agent_id = normalize_agent_id(word);
    if !is_valid_agent_id(agent_id.as_str()) {
        return None;
    }
    let lower = to_ascii_lower(rest);
    let t: &str = lower.as_str();
    let has_spawn_intent = contains(t, "spawn") && (contains(t, "new agent") || contains(
        t,
        "an agent",
    ) || contains(t, "sub-agent") || contains(t, "sub agent"));
    if !has_spawn_intent {
        return None;
    }
    match extract_workspace_path(rest) {
        Some(workspace) => Some(InlineSpawnRequest { agent_id, workspace }),
        None => None,
    }
}

/// The soul of an agent that works in a workspace.
pub open spec fn workspace_soul(workspace: Seq<char>) -> Seq<char> {
    "You are a specialized automation sub-agent. Your workspace is "@ + workspace
        + ". Analyze scripts in this workspace, execute delegated runs, and return concise results with concrete next actions."@
}

/// The soul of an agent that works in a workspace.
pub fn build_workspace_agent_soul(workspace: &str) -> (r: String)
    ensures
        r@ == workspace_soul(workspace@),
{
    let mut out = copy_text("You are a specialized automation sub-agent. Your workspace is ");
    out.append(workspace);
    out.append(
        ". Analyze scripts in this workspace, execute delegated runs, and return concise results with concrete next actions.",
    );
    out
}

// Laws.
proof fn lemma_nothing_to_trim(s: Seq<char>, set: CharSet)
    requires
        forall|i: int| 0 <= i < s.len() ==> !set.has(#[trigger] s[i]),
    ensures
        trim_start_of(s, set) == s,
        trim_end_of(s, set) == s,
{
}

/// A valid name is meant as it is written.
pub proof fn law_valid_ids_are_normal(id: Seq<char>)
    requires
        valid_id(id),
    ensures
        normalized_id(id) == id,
{
    reveal_strlit("`");
    reveal_strlit("@");
    reveal_strlit(":,;");
    lemma_nothing_to_trim(id, CharSet::Space);
    lemma_nothing_to_trim(id, CharSet::OneOf("`"));
    lemma_nothing_to_trim(id, CharSet::OneOf("@"));
    lemma_nothing_to_trim(id, CharSet::OneOf(":,;"));
    assert(ascii_lower(id) =~= id);
}

/// A delegation that a message asks for names a valid agent and a task that is
/// not empty.
pub proof fn law_inline_delegate(raw: Seq<char>)
    requires
        inline_delegate(raw) is Some,
    ensures
        valid_id(inline_delegate(raw)->0.agent_id),
        inline_delegate(raw)->0.task.len() > 0,
{
}

/// A new agent that a message asks for has a valid name, and a workspace that
/// is a path.
pub proof fn law_inline_spawn(raw: Seq<char>)
    requires
        inline_spawn(raw) is Some,
    ensures
        valid_id(inline_spawn(raw)->0.agent_id),
        has_prefix(inline_spawn(raw)->0.workspace, "/"@) || has_prefix(
            inline_spawn(raw)->0.workspace,
            "~/"@,
        ) || has_prefix(inline_spawn(raw)->0.workspace, "./"@) || has_prefix(
            inline_spawn(raw)->0.workspace,
            "../"@,
        ),
        inline_spawn(raw)->0.workspace != "/"@,
{
    lemma_first_path(words_of((first_word(raw)->0).1));
}

proof fn lemma_first_path(tokens: Seq<Seq<char>>)
    requires
        first_path(tokens) is Some,
    ensures
        exists|i: int| 0 <= i < tokens.len() && first_path(tokens) == path_token(#[trigger] tokens[i]),
    decreases tokens.len(),
{
    if path_token(tokens[0]) is None {
        lemma_first_path(tokens.skip(1));
        let i = choose|i: int|
            0 <= i < tokens.skip(1).len() && first_path(tokens.skip(1)) == path_token(
                #[trigger] tokens.skip(1)[i],
            );
        assert(tokens[i + 1] == tokens.skip(1)[i]);
    }
}

} // verus!
