//! What is asked for in plain words: which messages ask for a new agent or for a run of
//! one, and what becomes of them.
use crate::agents::{
    explicit_target, first_path, first_word, inline_delegate, inline_spawn, is_id_char, is_mark,
    normalized_id, path_token, speaks_of_spawning, valid_id, workspace_soul, InlineDelegateView,
    InlineSpawnView,
};
use crate::command_laws::{context_of, lemma_set_up, settled, shown_workspace, with_agent};
use crate::commands::delegation;
use crate::config::ConfigView;
use crate::message_laws::{
    alike, first_named, is_name, lemma_first_named, lemma_not_legacy, none_named,
};
use crate::orchestrator::{
    begun, inline_spawned, is_command, routed, thought, ContextView, MessageView,
    OrchestratorView, OutcomeView, StepView, TurnErrorView,
};
use crate::orchestrator_laws::lemma_delegation;
use crate::state::Timestamp;
use crate::text::{
    ascii_lower, contains_text, has_prefix, is_space, lemma_span_until, lemma_trim_end,
    lower_char, matches_at, span_until, trim_end_of, trim_start_of, trimmed, words_of, CharSet,
};
use crate::text_laws::{
    all_in, bare, law_bare_stays, law_containing_passes_on, law_trim_end_run,
    law_trim_start_run, law_words_are_words, law_words_around,
};
use vstd::prelude::*;

verus! {

// Paths.
/// The signs that may stand around a path: quotes and brackets.
pub open spec fn wrapping(c: char) -> bool {
    c == '"' || c == '\'' || c == '`' || c == '(' || c == ')' || c == '[' || c == ']'
}

/// The signs that may end a sentence or a part of it, and closing brackets.
pub open spec fn stopping(c: char) -> bool {
    c == ',' || c == ';' || c == '.' || c == ':' || c == ')' || c == ']' || c == '}'
}

proof fn lemma_path_signs(c: char)
    ensures
        CharSet::OneOf("\"'`()[]").has(c) <==> wrapping(c),
        CharSet::OneOf(",;.:)]}").has(c) <==> stopping(c),
{
    reveal_strlit("\"'`()[]");
    reveal_strlit(",;.:)]}");
    let w = "\"'`()[]"@;
    let s = ",;.:)]}"@;
    assert(w =~= seq!['"', '\'', '`', '(', ')', '[', ']']);
    assert(s =~= seq![',', ';', '.', ':', ')', ']', '}']);
    assert(w[0] == '"' && w[1] == '\'' && w[2] == '`' && w[3] == '(' && w[4] == ')' && w[5] == '['
        && w[6] == ']');
    assert(s[0] == ',' && s[1] == ';' && s[2] == '.' && s[3] == ':' && s[4] == ')' && s[5] == ']'
        && s[6] == '}');
}

/// Whether a text is written as a path is: from the root, from home, from here or from
/// above, without white space, and without signs at its end.
pub open spec fn written_path(p: Seq<char>) -> bool {
    &&& p.len() > 1
    &&& p[0] == '/' || (p[0] == '~' && p[1] == '/') || (p[0] == '.' && p[1] == '/') || (p.len() > 2
        && p[0] == '.' && p[1] == '.' && p[2] == '/')
    &&& forall|i: int| 0 <= i < p.len() ==> !is_space(#[trigger] p[i])
    &&& !wrapping(p.last())
    &&& !stopping(p.last())
}

proof fn lemma_starts_like_a_path(p: Seq<char>)
    ensures
        (has_prefix(p, "/"@) || has_prefix(p, "~/"@) || has_prefix(p, "./"@) || has_prefix(
            p,
            "../"@,
        )) <==> (p.len() > 0 && p[0] == '/') || (p.len() > 1 && p[0] == '~' && p[1] == '/') || (
        p.len() > 1 && p[0] == '.' && p[1] == '/') || (p.len() > 2 && p[0] == '.' && p[1] == '.'
            && p[2] == '/'),
{
    reveal_strlit("/");
    reveal_strlit("~/");
    reveal_strlit("./");
    reveal_strlit("../");
    if has_prefix(p, "/"@) {
        assert(p.take(1)[0] == '/');
    }
    if has_prefix(p, "~/"@) {
        assert(p.take(2)[0] == '~' && p.take(2)[1] == '/');
    }
    if has_prefix(p, "./"@) {
        assert(p.take(2)[0] == '.' && p.take(2)[1] == '/');
    }
    if has_prefix(p, "../"@) {
        assert(p.take(3)[0] == '.' && p.take(3)[1] == '.' && p.take(3)[2] == '/');
    }
    if p.len() > 0 && p[0] == '/' {
        assert(p.take(1) =~= "/"@);
    }
    if p.len() > 1 && p[0] == '~' && p[1] == '/' {
        assert(p.take(2) =~= "~/"@);
    }
    if p.len() > 1 && p[0] == '.' && p[1] == '/' {
        assert(p.take(2) =~= "./"@);
    }
    if p.len() > 2 && p[0] == '.' && p[1] == '.' && p[2] == '/' {
        assert(p.take(3) =~= "../"@);
    }
}

/// Trimming at the end reaches no further than a character that stays.
pub proof fn lemma_trim_end_keeps(p: Seq<char>, q: Seq<char>, set: CharSet)
    requires
        p.len() > 0,
        !set.has(p.last()),
    ensures
        trim_end_of(p + q, set) == p + trim_end_of(q, set),
    decreases q.len(),
{
    if q.len() == 0 {
        assert(p + q =~= p);
        assert(p + trim_end_of(q, set) =~= p);
    } else {
        assert((p + q).last() == q.last());
        if set.has(q.last()) {
            assert((p + q).drop_last() =~= p + q.drop_last());
            lemma_trim_end_keeps(p, q.drop_last(), set);
        }
    }
}

/// A path with signs around it, of a sentence and of quotes or brackets, is the path.
pub proof fn law_paths_are_read(
    open: Seq<char>,
    path: Seq<char>,
    stop: Seq<char>,
    close: Seq<char>,
)
    requires
        written_path(path),
        forall|i: int| 0 <= i < open.len() ==> wrapping(#[trigger] open[i]),
        forall|i: int| 0 <= i < stop.len() ==> stopping(#[trigger] stop[i]),
        forall|i: int| 0 <= i < close.len() ==> wrapping(#[trigger] close[i]),
    ensures
        path_token(open + path + stop + close) == Some(path),
{
    let wrap = CharSet::OneOf("\"'`()[]");
    let ends = CharSet::OneOf(",;.:)]}");
    let token = open + path + stop + close;
    assert forall|i: int| 0 <= i < open.len() implies wrap.has(#[trigger] open[i]) by {
        lemma_path_signs(open[i]);
    }
    assert forall|i: int| 0 <= i < close.len() implies wrap.has(#[trigger] close[i]) by {
        lemma_path_signs(close[i]);
    }
    lemma_path_signs(path[0]);
    lemma_path_signs(path.last());
    let inner = path + stop + close;
    assert(token =~= open + inner);
    assert(inner[0] == path[0]);
    law_trim_start_run(open, inner, wrap);
    law_trim_end_run(path + stop, close, wrap);
    lemma_trim_end_keeps(path, stop, wrap);
    let left = trim_end_of(stop, wrap);
    lemma_trim_end(stop, wrap);
    assert forall|i: int| 0 <= i < left.len() implies ends.has(#[trigger] left[i]) by {
        assert(left[i] == stop[i]);
        lemma_path_signs(stop[i]);
    }
    law_trim_end_run(path, left, ends);
    law_bare_stays(path, CharSet::Space);
    lemma_starts_like_a_path(path);
    reveal_strlit("/");
}

/// Whether a word cannot be a path: behind the quotes and brackets before it, it does
/// not start as a path does; or it is the root alone.
pub open spec fn no_path(w: Seq<char>) -> bool {
    let lead = trim_start_of(w, CharSet::OneOf("\"'`()[]"));
    ||| w == "/"@
    ||| !{
        ||| lead.len() > 0 && lead[0] == '/'
        ||| lead.len() > 1 && lead[0] == '~' && lead[1] == '/'
        ||| lead.len() > 1 && lead[0] == '.' && lead[1] == '/'
        ||| lead.len() > 2 && lead[0] == '.' && lead[1] == '.' && lead[2] == '/'
    }
}

/// A word that cannot be a path is not taken for one.
pub proof fn law_other_words_are_no_paths(w: Seq<char>)
    requires
        forall|i: int| 0 <= i < w.len() ==> !is_space(#[trigger] w[i]),
        no_path(w),
    ensures
        path_token(w) is None,
{
    let wrap = CharSet::OneOf("\"'`()[]");
    let ends = CharSet::OneOf(",;.:)]}");
    let lead = trim_start_of(w, wrap);
    crate::text::lemma_trim_start_skips(w, wrap);
    let a = trim_end_of(lead, wrap);
    lemma_trim_end(lead, wrap);
    let b = trim_end_of(a, ends);
    lemma_trim_end(a, ends);
    assert(b =~= lead.take(b.len() as int));
    assert(lead == w.skip(w.len() - lead.len()));
    if b.len() > 0 {
        assert(b[0] == w[w.len() - lead.len()]);
        assert(b.last() == w[w.len() - lead.len() + b.len() - 1]);
        law_bare_stays(b, CharSet::Space);
    }
    assert(trimmed(b) == b);
    lemma_starts_like_a_path(b);
    reveal_strlit("/");
    if w == "/"@ {
        lemma_path_signs('/');
        assert(lead =~= w);
        assert(a =~= w);
        assert(b =~= w);
    }
}

proof fn lemma_first_path_at(tokens: Seq<Seq<char>>, k: int)
    requires
        0 <= k < tokens.len(),
        forall|j: int| 0 <= j < k ==> path_token(#[trigger] tokens[j]) is None,
        path_token(tokens[k]) is Some,
    ensures
        first_path(tokens) == path_token(tokens[k]),
    decreases k,
{
    if k > 0 {
        let rest = tokens.skip(1);
        assert(path_token(tokens[0]) is None);
        assert forall|j: int| 0 <= j < k - 1 implies path_token(#[trigger] rest[j]) is None by {
            assert(rest[j] == tokens[j + 1]);
        }
        assert(rest[k - 1] == tokens[k]);
        lemma_first_path_at(rest, k - 1);
    }
}

proof fn lemma_no_first_path(tokens: Seq<Seq<char>>)
    requires
        forall|j: int| 0 <= j < tokens.len() ==> path_token(#[trigger] tokens[j]) is None,
    ensures
        first_path(tokens) is None,
    decreases tokens.len(),
{
    if tokens.len() > 0 {
        assert(path_token(tokens[0]) is None);
        let rest = tokens.skip(1);
        assert forall|j: int| 0 <= j < rest.len() implies path_token(#[trigger] rest[j])
            is None by {
            assert(rest[j] == tokens[j + 1]);
        }
        lemma_no_first_path(rest);
    }
}

// Names.
/// Whether a text addresses the agent of a name: the name in any case of letters,
/// perhaps with `@` before it and with `:`, `,` or `;` behind it.
pub open spec fn addresses(
    word: Seq<char>,
    ats: Seq<char>,
    spelled: Seq<char>,
    tail: Seq<char>,
    name: Seq<char>,
) -> bool {
    &&& word == ats + spelled + tail
    &&& is_name(name)
    &&& alike(spelled, name)
    &&& forall|i: int| 0 <= i < ats.len() ==> #[trigger] ats[i] == '@'
    &&& forall|i: int|
        0 <= i < tail.len() ==> #[trigger] tail[i] == ':' || tail[i] == ',' || tail[i] == ';'
}

proof fn lemma_spelled(spelled: Seq<char>, name: Seq<char>, i: int)
    requires
        is_name(name),
        alike(spelled, name),
        0 <= i < spelled.len(),
    ensures
        lower_char(spelled[i]) == name[i],
        is_id_char(spelled[i]) || 'A' <= spelled[i] <= 'Z',
{
    let c = name[i];
    assert('a' <= c <= 'z' || '0' <= c <= '9' || c == '-' || c == '_');
    assert(lower_char(spelled[i]) == lower_char(name[i]));
}

/// A word that addresses an agent names it.
pub proof fn law_addresses(
    word: Seq<char>,
    ats: Seq<char>,
    spelled: Seq<char>,
    tail: Seq<char>,
    name: Seq<char>,
)
    requires
        addresses(word, ats, spelled, tail, name),
    ensures
        normalized_id(word) == name,
        valid_id(name),
        word.len() > 0,
        forall|i: int| 0 <= i < word.len() ==> !is_space(#[trigger] word[i]),
        word[0] != '/',
{
    reveal_strlit("`");
    reveal_strlit("@");
    reveal_strlit(":,;");
    assert("`"@ =~= seq!['`']);
    assert("@"@ =~= seq!['@']);
    assert(":,;"@ =~= seq![':', ',', ';']);
    assert("@"@[0] == '@');
    assert(":,;"@[0] == ':' && ":,;"@[1] == ',' && ":,;"@[2] == ';');
    let n = ats.len() as int;
    let m = spelled.len() as int;
    assert forall|i: int| 0 <= i < word.len() implies !is_space(#[trigger] word[i]) && word[i]
        != '`' && word[i] != '/' by {
        if i < n {
            assert(word[i] == ats[i]);
        } else if i < n + m {
            assert(word[i] == spelled[i - n]);
            lemma_spelled(spelled, name, i - n);
        } else {
            assert(word[i] == tail[i - n - m]);
        }
    }
    law_bare_stays(word, CharSet::Space);
    law_bare_stays(word, CharSet::OneOf("`"));
    lemma_spelled(spelled, name, 0);
    lemma_spelled(spelled, name, m - 1);
    assert(word =~= ats + (spelled + tail));
    assert((spelled + tail)[0] == spelled[0]);
    law_trim_start_run(ats, spelled + tail, CharSet::OneOf("@"));
    law_trim_end_run(spelled, tail, CharSet::OneOf(":,;"));
    law_bare_stays(spelled, CharSet::OneOf(":,;"));
    assert(ascii_lower(spelled) =~= name) by {
        assert forall|i: int| 0 <= i < m implies ascii_lower(spelled)[i] == name[i] by {
            lemma_spelled(spelled, name, i);
        }
    }
    assert(valid_id(name)) by {
        assert forall|k: int| 0 <= k < name.len() implies is_id_char(#[trigger] name[k]) by {}
    }
}

proof fn lemma_first_word(word: Seq<char>, rest: Seq<char>)
    requires
        word.len() > 0,
        forall|i: int| 0 <= i < word.len() ==> !is_space(#[trigger] word[i]),
        bare(rest, CharSet::Space),
    ensures
        first_word(word + " "@ + rest) == Some((word, rest)),
        trimmed(word + " "@ + rest) == word + " "@ + rest,
{
    reveal_strlit(" ");
    let raw = word + " "@ + rest;
    let tail = " "@ + rest;
    assert(raw =~= word + tail);
    assert(raw[0] == word[0] && raw.last() == rest.last());
    law_bare_stays(raw, CharSet::Space);
    crate::orchestrator_laws::lemma_span_of_name(word, tail);
    assert(raw.take(word.len() as int) =~= word);
    assert(raw.skip(word.len() as int) =~= tail);
    assert(all_in(" "@, CharSet::Space));
    law_trim_start_run(" "@, rest, CharSet::Space);
}

// New agents.
/// Whether a text wishes for an agent to be spawned, in any case of letters.
pub open spec fn wishes_an_agent(t: Seq<char>) -> bool {
    contains_text(ascii_lower(t), "spawn"@) && (contains_text(ascii_lower(t), "new agent"@)
        || contains_text(ascii_lower(t), "an agent"@) || contains_text(
        ascii_lower(t),
        "sub-agent"@,
    ) || contains_text(ascii_lower(t), "sub agent"@))
}

/// A message that addresses an agent beyond doubt (with `@`, or by a name with a digit,
/// `-` or `_` in it), wishes for a new agent, an agent, a sub-agent or a sub agent to be
/// spawned, and names a path, asks for that agent in the first path it names.
pub proof fn law_spawn_wishes_are_heard(
    word: Seq<char>,
    ats: Seq<char>,
    spelled: Seq<char>,
    tail: Seq<char>,
    name: Seq<char>,
    before: Seq<char>,
    open: Seq<char>,
    path: Seq<char>,
    stop: Seq<char>,
    close: Seq<char>,
    after: Seq<char>,
)
    requires
        addresses(word, ats, spelled, tail, name),
        ats.len() > 0 || exists|i: int|
            0 <= i < name.len() && (#[trigger] name[i] == '_' || name[i] == '-' || '0' <= name[i]
                <= '9'),
        written_path(path),
        forall|i: int| 0 <= i < open.len() ==> wrapping(#[trigger] open[i]),
        forall|i: int| 0 <= i < stop.len() ==> stopping(#[trigger] stop[i]),
        forall|i: int| 0 <= i < close.len() ==> wrapping(#[trigger] close[i]),
        before.len() > 0 ==> !is_space(before[0]) && is_space(before.last()),
        after.len() > 0 ==> is_space(after[0]) && !is_space(after.last()),
        forall|k: int| 0 <= k < words_of(before).len() ==> no_path(#[trigger] words_of(before)[k]),
        wishes_an_agent(before + (open + path + stop + close) + after),
    ensures
        inline_spawn(word + " "@ + (before + (open + path + stop + close) + after)) == Some(
            InlineSpawnView { agent_id: name, workspace: path },
        ),
{
    let token = open + path + stop + close;
    let rest = before + token + after;
    law_addresses(word, ats, spelled, tail, name);
    assert forall|i: int| 0 <= i < token.len() implies !is_space(#[trigger] token[i]) by {
        let a = open.len() as int;
        let b = a + path.len();
        let c = b + stop.len();
        if i < a {
            assert(token[i] == open[i]);
        } else if i < b {
            assert(token[i] == path[i - a]);
        } else if i < c {
            assert(token[i] == stop[i - b]);
        } else {
            assert(token[i] == close[i - c]);
        }
    }
    assert(bare(rest, CharSet::Space)) by {
        if before.len() > 0 {
            assert(rest[0] == before[0]);
        } else {
            assert(rest[0] == token[0]);
        }
        if after.len() > 0 {
            assert(rest.last() == after.last());
        } else {
            assert(rest.last() == token[token.len() - 1]);
        }
    }
    lemma_first_word(word, rest);
    law_bare_stays(word, CharSet::Space);
    assert(explicit_target(word)) by {
        if ats.len() > 0 {
            assert(word[0] == ats[0]);
        } else {
            let i = choose|i: int|
                0 <= i < name.len() && (#[trigger] name[i] == '_' || name[i] == '-' || '0'
                    <= name[i] <= '9');
            assert(is_mark(normalized_id(word)[i]));
        }
    }
    law_words_around(before, token, after);
    law_paths_are_read(open, path, stop, close);
    let tokens = words_of(rest);
    let k = words_of(before).len() as int;
    assert(tokens[k] == token);
    assert forall|j: int| 0 <= j < k implies path_token(#[trigger] tokens[j]) is None by {
        assert(tokens[j] == words_of(before)[j]);
        law_words_are_words(before, j);
        law_other_words_are_no_paths(words_of(before)[j]);
    }
    lemma_first_path_at(tokens, k);
    assert(speaks_of_spawning(rest));
}

/// Small letters of a part stand in the small letters of the whole.
pub proof fn lemma_lower_contains(s: Seq<char>, part: Seq<char>)
    requires
        contains_text(s, part),
    ensures
        contains_text(ascii_lower(s), ascii_lower(part)),
{
    let i = choose|i: int| matches_at(s, part, i);
    assert(ascii_lower(s).subrange(i, i + part.len()) =~= ascii_lower(part)) by {
        assert forall|k: int| 0 <= k < part.len() implies ascii_lower(s).subrange(
            i,
            i + part.len(),
        )[k] == ascii_lower(part)[k] by {
            assert(s.subrange(i, i + part.len())[k] == part[k]);
        }
    }
    assert(matches_at(ascii_lower(s), ascii_lower(part), i));
}

proof fn lemma_rest_is_contained(raw: Seq<char>)
    requires
        first_word(raw) is Some,
    ensures
        contains_text(raw, (first_word(raw)->0).1),
        contains_text(raw, (first_word(raw)->0).0),
{
    let t = trimmed(raw);
    let n = span_until(t, CharSet::Space) as int;
    lemma_span_until(t, CharSet::Space);
    crate::message_laws::lemma_trimmed_is_contained(raw);
    let r = trim_start_of(t.skip(n), CharSet::Space);
    crate::text::lemma_trim_start_skips(t.skip(n), CharSet::Space);
    let start = t.len() - r.len();
    assert(t.subrange(start, start + r.len()) =~= r);
    assert(matches_at(t, r, start));
    law_containing_passes_on(raw, t, r);
    assert(t.subrange(0, n) =~= t.take(n));
    assert(matches_at(t, t.take(n), 0));
    law_containing_passes_on(raw, t, t.take(n));
}

/// A message that asks for a new agent says so: it wishes for one to be spawned, and
/// addresses one beyond doubt. Without these, without a path, or with one word alone it
/// does not ask for one.
pub proof fn law_other_messages_wish_for_no_agent(raw: Seq<char>)
    ensures
        !wishes_an_agent(raw) ==> inline_spawn(raw) is None,
        (forall|k: int| 0 <= k < words_of(raw).len() ==> no_path(#[trigger] words_of(raw)[k]))
            ==> inline_spawn(raw) is None,
        words_of(raw).len() <= 1 ==> inline_spawn(raw) is None,
{
    if inline_spawn(raw) is Some {
        let (word, rest) = first_word(raw)->0;
        lemma_rest_is_contained(raw);
        lemma_lower_contains(raw, rest);
        let low = ascii_lower(rest);
        let all = ascii_lower(raw);
        law_containing_passes_on(all, low, "spawn"@);
        if contains_text(low, "new agent"@) {
            law_containing_passes_on(all, low, "new agent"@);
        } else if contains_text(low, "an agent"@) {
            law_containing_passes_on(all, low, "an agent"@);
        } else if contains_text(low, "sub-agent"@) {
            law_containing_passes_on(all, low, "sub-agent"@);
        } else {
            law_containing_passes_on(all, low, "sub agent"@);
        }
        lemma_words_of_rest(raw);
        if words_of(rest).len() == 0 {
            lemma_no_first_path(words_of(rest));
        }
        if forall|k: int| 0 <= k < words_of(raw).len() ==> no_path(#[trigger] words_of(raw)[k]) {
            assert forall|j: int| 0 <= j < words_of(rest).len() implies path_token(
                #[trigger] words_of(rest)[j],
            ) is None by {
                assert(words_of(raw)[j + 1] == words_of(rest)[j]);
                law_words_are_words(raw, j + 1);
                law_other_words_are_no_paths(words_of(raw)[j + 1]);
            }
            lemma_no_first_path(words_of(rest));
        }
    }
}

proof fn lemma_words_of_rest(raw: Seq<char>)
    requires
        first_word(raw) is Some,
    ensures
        words_of(raw) == seq![(first_word(raw)->0).0] + words_of((first_word(raw)->0).1),
{
    let set = CharSet::Space;
    let s = trim_start_of(raw, set);
    let t = trimmed(raw);
    lemma_trim_end(s, set);
    crate::text::lemma_trim_start(raw, set);
    let n = span_until(t, set) as int;
    lemma_span_until(t, set);
    let word = t.take(n);
    let rest = trim_start_of(t.skip(n), set);
    crate::text_laws::law_trim_twice(raw, set);
    assert(n > 0);
    lemma_trailing_space(raw);
    assert(trim_start_of(t, set) == t);
    assert(words_of(t) == seq![word] + words_of(t.skip(n)));
    lemma_leading_space(t.skip(n));
}

proof fn lemma_leading_space(s: Seq<char>)
    ensures
        words_of(trim_start_of(s, CharSet::Space)) == words_of(s),
    decreases s.len(),
{
    if s.len() > 0 && is_space(s[0]) {
        lemma_leading_space(s.skip(1));
        assert(trim_start_of(s, CharSet::Space) == trim_start_of(s.skip(1), CharSet::Space));
    }
}

/// White space at the end of a text makes no words.
pub proof fn lemma_trailing_space(raw: Seq<char>)
    ensures
        words_of(trimmed(raw)) == words_of(raw),
{
    let s = trim_start_of(raw, CharSet::Space);
    lemma_leading_space(raw);
    lemma_trim_end_words(s);
}

proof fn lemma_trim_end_words(s: Seq<char>)
    ensures
        words_of(trim_end_of(s, CharSet::Space)) == words_of(s),
    decreases s.len(),
{
    let set = CharSet::Space;
    if s.len() > 0 && set.has(s.last()) {
        lemma_trim_end_words(s.drop_last());
        lemma_one_space_less(s);
    }
}

proof fn lemma_one_space_less(s: Seq<char>)
    requires
        s.len() > 0,
        is_space(s.last()),
    ensures
        words_of(s.drop_last()) == words_of(s),
    decreases s.len(),
{
    let set = CharSet::Space;
    let r = s.drop_last();
    if r.len() == 0 {
        assert(s.skip(1) =~= r);
        assert(trim_start_of(s, set) == trim_start_of(s.skip(1), set));
        assert(words_of(r) =~= seq![]);
        assert(words_of(s) =~= seq![]);
    } else if is_space(s[0]) {
        assert(r[0] == s[0]);
        assert(s.skip(1).drop_last() =~= r.skip(1));
        assert(s.skip(1).last() == s.last());
        lemma_one_space_less(s.skip(1));
        assert(trim_start_of(s, set) == trim_start_of(s.skip(1), set));
        assert(trim_start_of(r, set) == trim_start_of(r.skip(1), set));
        assert(words_of(s) == words_of(s.skip(1)));
        assert(words_of(r) == words_of(r.skip(1)));
    } else {
        assert(r[0] == s[0]);
        assert(trim_start_of(s, set) == s);
        assert(trim_start_of(r, set) == r);
        let n = span_until(s, set) as int;
        let m = span_until(r, set) as int;
        lemma_span_until(s, set);
        lemma_span_until(r, set);
        assert(n < s.len()) by {
            if n >= s.len() {
                assert(!set.has(s[s.len() - 1]));
            }
        }
        if m < n {
            if m < r.len() {
                assert(r[m] == s[m]);
            }
        }
        if n < m {
            assert(r[n] == s[n]);
        }
        assert(n == m);
        assert(s.take(n) =~= r.take(n));
        let x = s.skip(n);
        assert(x.drop_last() =~= r.skip(n));
        assert(x.last() == s.last());
        lemma_one_space_less(x);
        assert(words_of(s) == seq![s.take(n)] + words_of(x));
        assert(words_of(r) == seq![r.take(n)] + words_of(r.skip(n)));
    }
}

/// A message that asks for a new agent sets it up, where its path is not the old place:
/// under its name, with a soul that speaks of the path and in that workspace. It is told
/// that the agent is ready, where it works, and how to run it. The other agents, the
/// rest of the configuration and the memory stay.
pub proof fn law_wished_agents_are_set_up(
    o: OrchestratorView,
    context: ContextView,
    session: Seq<char>,
    text: Seq<char>,
    name: Seq<char>,
    path: Seq<char>,
    i: int,
    now: Timestamp,
    home: Option<Seq<char>>,
)
    requires
        inline_spawn(text) == Some(InlineSpawnView { agent_id: name, workspace: path }),
        text.len() > 0 && !is_space(text[0]) && text[0] != '/',
        is_name(name),
        !contains_text(path, ".openclaw/workspace"@),
        first_named(o.config.agents, name, i) || (i == o.config.agents.len() && none_named(
            o.config.agents,
            name,
        )),
    ensures
        ({
            let soul = "You are a specialized automation sub-agent. Your workspace is "@ + path
                + ". Analyze scripts in this workspace, execute delegated runs, and return concise results with concrete next actions."@;
            routed(o, context, session, text, now, home) == (
                OrchestratorView {
                    config: ConfigView {
                        agents: with_agent(o.config.agents, i, name, soul, Some(path)),
                        ..o.config
                    },
                    ..o
                },
                OutcomeView::SaveConfig(
                    "agent '"@ + name + "' is ready (workspace: "@ + path + ")"@ + "\nnext: "@
                        + name + " run <task>"@,
                ),
            )
        }),
{
    let soul = workspace_soul(path);
    lemma_is_no_command(text);
    lemma_not_legacy(path);
    reveal_strlit("You are a specialized automation sub-agent. Your workspace is ");
    assert(soul[0] == 'Y');
    assert(trim_start_of(soul, CharSet::Space) == soul);
    lemma_trim_end(soul, CharSet::Space);
    lemma_set_up(o.config, name, soul, Some(path), home, i);
    assert(inline_spawned(o.config, text, home) is Some);
}

proof fn lemma_is_no_command(text: Seq<char>)
    requires
        text.len() > 0 && !is_space(text[0]) && text[0] != '/',
    ensures
        !is_command(text),
{
    reveal_strlit("/");
    assert(trim_start_of(text, CharSet::Space) == text);
    if has_prefix(text, "/"@) {
        assert(text.take(1)[0] == '/');
    }
}

// Runs.
/// A message that addresses an agent, says `run` in any case of letters and names a
/// task asks for that task of that agent.
pub proof fn law_run_wishes_are_heard(
    word: Seq<char>,
    ats: Seq<char>,
    spelled: Seq<char>,
    tail: Seq<char>,
    name: Seq<char>,
    run: Seq<char>,
    task: Seq<char>,
)
    requires
        addresses(word, ats, spelled, tail, name),
        alike(run, "run"@),
        bare(task, CharSet::Space),
    ensures
        inline_delegate(word + " "@ + (run + " "@ + task)) == Some(
            InlineDelegateView { agent_id: name, task },
        ),
{
    law_addresses(word, ats, spelled, tail, name);
    reveal_strlit("run");
    reveal_strlit("run ");
    reveal_strlit(" ");
    let rest = run + " "@ + task;
    assert forall|i: int| 0 <= i < 3 implies lower_char(#[trigger] run[i]) == "run"@[i] by {
        assert(lower_char(run[i]) == lower_char("run"@[i]));
    }
    assert(lower_char(run[0]) == 'r');
    assert(!is_space(run[0]));
    assert(rest[0] == run[0] && rest.last() == task.last());
    lemma_first_word(word, rest);
    assert(ascii_lower(rest).take(4) =~= "run "@) by {
        let low = ascii_lower(rest);
        assert(low[0] == lower_char(run[0]) && low[1] == lower_char(run[1]) && low[2]
            == lower_char(run[2]) && low[3] == ' ');
    }
    assert(rest.skip(3) =~= " "@ + task);
    assert(all_in(" "@, CharSet::Space));
    crate::text_laws::law_trim_around(" "@, task, seq![], CharSet::Space);
    assert(" "@ + task + seq![] =~= " "@ + task);
}

/// A message that asks an agent for a task, and wishes for no new one, runs that agent,
/// in its own workspace, with that task in the session of the message. Where there is
/// no such agent, the agent of the message is asked the whole message.
pub proof fn law_wished_runs_are_planned(
    o: OrchestratorView,
    context: ContextView,
    session: Seq<char>,
    text: Seq<char>,
    name: Seq<char>,
    task: Seq<char>,
    i: int,
    now: Timestamp,
    home: Option<Seq<char>>,
)
    requires
        inline_delegate(text) == Some(InlineDelegateView { agent_id: name, task }),
        text.len() > 0 && !is_space(text[0]) && text[0] != '/',
        !wishes_an_agent(text),
        is_name(name),
        bare(task, CharSet::Space),
    ensures
        first_named(o.config.agents, name, i) && settled(o.config, i) ==> routed(
            o,
            context,
            session,
            text,
            now,
            home,
        ) == (
            o,
            OutcomeView::Think(
                thought(o.state, context_of(o.config, i, home), session, task, true),
            ),
        ),
        none_named(o.config.agents, name) ==> routed(o, context, session, text, now, home) == (
            o,
            OutcomeView::Think(thought(o.state, context, session, text, false)),
        ),
{
    lemma_is_no_command(text);
    law_other_messages_wish_for_no_agent(text);
    lemma_first_named(o.config.agents, name, i);
    law_bare_stays(task, CharSet::Space);
    assert(valid_id(name)) by {
        assert forall|k: int| 0 <= k < name.len() implies is_id_char(#[trigger] name[k]) by {}
    }
    crate::agents::law_valid_ids_are_normal(name);
    lemma_delegation(name, task);
    if first_named(o.config.agents, name, i) && settled(o.config, i) {
        crate::command_laws::lemma_context_of(o.config, i, home);
    }
    assert(inline_spawned(o.config, text, home) is None);
}

/// Whether a text is letters alone.
pub open spec fn letters(s: Seq<char>) -> bool {
    forall|i: int| 0 <= i < s.len() ==> 'a' <= #[trigger] s[i] <= 'z' || 'A' <= s[i] <= 'Z'
}

/// A message whose first word is letters alone names no agent beyond doubt, and asks for
/// no new one.
pub proof fn law_plain_words_name_no_agent(raw: Seq<char>)
    requires
        words_of(raw).len() > 0 ==> letters(words_of(raw)[0]),
    ensures
        inline_spawn(raw) is None,
{
    if inline_spawn(raw) is Some {
        let word = (first_word(raw)->0).0;
        lemma_words_of_rest(raw);
        assert(words_of(raw)[0] == word);
        law_words_are_words(raw, 0);
        law_bare_stays(word, CharSet::Space);
        lemma_letters(word);
        let id = normalized_id(word);
        assert(exists|i: int| 0 <= i < id.len() && is_mark(#[trigger] id[i]));
        let i = choose|i: int| 0 <= i < id.len() && is_mark(#[trigger] id[i]);
        assert(id[i] == lower_char(word[i]));
    }
}

proof fn lemma_letters(word: Seq<char>)
    requires
        word.len() > 0,
        letters(word),
    ensures
        normalized_id(word) == ascii_lower(word),
        trimmed(word) == word,
        word[0] != '@',
{
    reveal_strlit("`");
    reveal_strlit("@");
    reveal_strlit(":,;");
    assert("`"@ =~= seq!['`']);
    assert("@"@ =~= seq!['@']);
    assert(":,;"@ =~= seq![':', ',', ';']);
    assert('a' <= word[0] <= 'z' || 'A' <= word[0] <= 'Z');
    assert('a' <= word[word.len() - 1] <= 'z' || 'A' <= word[word.len() - 1] <= 'Z');
    law_bare_stays(word, CharSet::Space);
    law_bare_stays(word, CharSet::OneOf("`"));
    law_bare_stays(word, CharSet::OneOf("@"));
    law_bare_stays(word, CharSet::OneOf(":,;"));
}

/// A message that asks for a run says so: its second word is `run`, in any case of
/// letters, a task follows, and its first word names the agent.
pub proof fn law_only_runs_are_runs(raw: Seq<char>)
    requires
        inline_delegate(raw) is Some,
    ensures
        words_of(raw).len() >= 2,
        alike(words_of(raw)[1], "run"@),
        inline_delegate(raw)->0.agent_id == normalized_id(words_of(raw)[0]),
        inline_delegate(raw)->0.task.len() > 0,
{
    let (word, rest) = first_word(raw)->0;
    let low = ascii_lower(rest);
    reveal_strlit("run ");
    reveal_strlit("run");
    lemma_words_of_rest(raw);
    let run = rest.take(3);
    let tail = rest.skip(3);
    assert(rest =~= run + tail);
    assert(low.take(4)[0] == 'r' && low.take(4)[1] == 'u' && low.take(4)[2] == 'n' && low.take(
        4,
    )[3] == ' ');
    assert(low[0] == lower_char(rest[0]) && low[1] == lower_char(rest[1]) && low[2]
        == lower_char(rest[2]) && low[3] == lower_char(rest[3]));
    assert(rest[3] == ' ');
    assert forall|i: int| 0 <= i < 3 implies !is_space(#[trigger] run[i]) && lower_char(run[i])
        == lower_char("run"@[i]) by {
        assert(run[i] == rest[i]);
    }
    let none = Seq::<char>::empty();
    assert(none + run + tail =~= rest);
    assert(tail[0] == ' ');
    law_words_around(none, run, tail);
    assert(trim_start_of(none, CharSet::Space) =~= none);
    assert(words_of(none) =~= seq![]);
    assert(words_of(rest)[0] == run);
    assert(words_of(raw)[1] == run);
}

/// A message that is no command, asks for no agent and whose second word is not `run` is
/// for the agent it was sent to, with all that it says, in its session; it changes
/// nothing.
pub proof fn law_other_messages_are_for_their_agent(
    o: OrchestratorView,
    context: ContextView,
    session: Seq<char>,
    text: Seq<char>,
    now: Timestamp,
    home: Option<Seq<char>>,
)
    requires
        text.len() > 0 && !is_space(text[0]) && text[0] != '/',
        !wishes_an_agent(text) || letters(words_of(text)[0]),
        words_of(text).len() >= 2 ==> !alike(words_of(text)[1], "run"@),
    ensures
        routed(o, context, session, text, now, home) == (
            o,
            OutcomeView::Think(thought(o.state, context, session, text, false)),
        ),
{
    lemma_is_no_command(text);
    law_other_messages_wish_for_no_agent(text);
    if letters(words_of(text)[0]) {
        law_plain_words_name_no_agent(text);
    }
    if inline_delegate(text) is Some {
        law_only_runs_are_runs(text);
    }
}

// Addressing agents.
/// A message sent to an agent is for the first one that is addressed, however its name is
/// written; one to no agent that there is is refused, and changes nothing.
pub proof fn law_messages_are_for_whom_they_address(
    o: OrchestratorView,
    input: MessageView,
    run_id: Seq<char>,
    now: Timestamp,
    home: Option<Seq<char>>,
    word: Seq<char>,
    ats: Seq<char>,
    spelled: Seq<char>,
    tail: Seq<char>,
    name: Seq<char>,
    i: int,
)
    requires
        addresses(word, ats, spelled, tail, name),
        input.agent_id == Some(word),
    ensures
        first_named(o.config.agents, name, i) ==> (begun(o, input, run_id, now, home).1
            matches StepView::SaveState(turn) && turn.context.agent == o.config.agents[i]
            && turn.context.model == o.config.brain.model),
        first_named(o.config.agents, name, i) && settled(o.config, i) ==> (begun(
            o,
            input,
            run_id,
            now,
            home,
        ).1 matches StepView::SaveState(turn) && turn.context == context_of(o.config, i, home)),
        none_named(o.config.agents, name) ==> begun(o, input, run_id, now, home) == (
            o,
            StepView::Fail(TurnErrorView::UnknownAgent(name)),
        ),
{
    law_addresses(word, ats, spelled, tail, name);
    lemma_first_named(o.config.agents, name, i);
    if first_named(o.config.agents, name, i) && settled(o.config, i) {
        crate::command_laws::lemma_context_of(o.config, i, home);
    }
}

proof fn lemma_delegation_of(word: Seq<char>, gap: Seq<char>, task: Seq<char>)
    requires
        word.len() > 0,
        forall|i: int| 0 <= i < word.len() ==> !is_space(#[trigger] word[i]),
        all_in(gap, CharSet::Space),
        bare(task, CharSet::Space),
    ensures
        delegation(word + " "@ + gap + task) == (normalized_id(word), task),
        bare(word + " "@ + gap + task, CharSet::Space),
{
    reveal_strlit(" ");
    let set = CharSet::OneOf(" ");
    assert(" "@ =~= seq![' ']);
    assert(" "@[0] == ' ');
    let rest = word + " "@ + gap + task;
    assert(rest[0] == word[0] && rest.last() == task.last());
    law_bare_stays(rest, CharSet::Space);
    let n = span_until(rest, set) as int;
    lemma_span_until(rest, set);
    assert(rest[word.len() as int] == ' ');
    assert(set.has(rest[word.len() as int]));
    if n < word.len() {
        assert(rest[n] == word[n]);
        assert(rest[n] == ' ');
        assert(is_space(' '));
    }
    assert(n == word.len());
    assert(rest.take(n) =~= word);
    assert(rest.skip(n + 1) =~= gap + task);
    crate::text_laws::law_trim_around(gap, task, seq![], CharSet::Space);
    assert(gap + task + seq![] =~= gap + task);
}

/// `/delegate` runs the agent that it addresses, however its name is written and whatever
/// white space stands before the task. Where there is no such agent it is refused.
pub proof fn law_delegate_runs_whom_it_addresses(
    o: OrchestratorView,
    context: ContextView,
    session: Seq<char>,
    word: Seq<char>,
    ats: Seq<char>,
    spelled: Seq<char>,
    tail: Seq<char>,
    name: Seq<char>,
    gap: Seq<char>,
    task: Seq<char>,
    i: int,
    now: Timestamp,
    home: Option<Seq<char>>,
)
    requires
        addresses(word, ats, spelled, tail, name),
        all_in(gap, CharSet::Space),
        bare(task, CharSet::Space),
    ensures
        ({
            let text = "/delegate "@ + (word + " "@ + gap + task);
            &&& first_named(o.config.agents, name, i) && settled(o.config, i) ==> routed(
                o,
                context,
                session,
                text,
                now,
                home,
            ) == (
                o,
                OutcomeView::Think(
                    thought(o.state, context_of(o.config, i, home), session, task, true),
                ),
            )
            &&& none_named(o.config.agents, name) ==> routed(
                o,
                context,
                session,
                text,
                now,
                home,
            ) == (o, OutcomeView::Fail(TurnErrorView::UnknownAgent(name)))
        }),
{
    law_addresses(word, ats, spelled, tail, name);
    crate::agents::law_valid_ids_are_normal(name);
    lemma_delegation_of(word, gap, task);
    crate::command_laws::lemma_delegate_command(word + " "@ + gap + task);
    lemma_first_named(o.config.agents, name, i);
    if first_named(o.config.agents, name, i) && settled(o.config, i) {
        crate::command_laws::lemma_context_of(o.config, i, home);
    }
}

/// `/spawn` sets up the agent that it addresses, however its name is written.
pub proof fn law_spawn_sets_up_whom_it_addresses(
    o: OrchestratorView,
    context: ContextView,
    session: Seq<char>,
    word: Seq<char>,
    ats: Seq<char>,
    spelled: Seq<char>,
    tail: Seq<char>,
    name: Seq<char>,
    soul: Seq<char>,
    i: int,
    now: Timestamp,
    home: Option<Seq<char>>,
)
    requires
        addresses(word, ats, spelled, tail, name),
        bare(soul, CharSet::Space),
        !soul.contains('|'),
        first_named(o.config.agents, name, i) || (i == o.config.agents.len() && none_named(
            o.config.agents,
            name,
        )),
    ensures
        routed(o, context, session, "/spawn "@ + (word + " | "@ + soul), now, home) == (
            OrchestratorView {
                config: ConfigView {
                    agents: with_agent(o.config.agents, i, name, soul, None),
                    ..o.config
                },
                ..o
            },
            OutcomeView::SaveConfig(
                "agent '"@ + name + "' is ready (workspace: "@ + shown_workspace(
                    with_agent(o.config.agents, i, name, soul, None)[i].workspace,
                ) + ")"@,
            ),
        ),
{
    law_addresses(word, ats, spelled, tail, name);
    assert(!word.contains('|')) by {
        if word.contains('|') {
            let k = choose|k: int| 0 <= k < word.len() && word[k] == '|';
            let n = ats.len() as int;
            let m = spelled.len() as int;
            if k < n {
                assert(word[k] == ats[k]);
            } else if k < n + m {
                assert(word[k] == spelled[k - n]);
                lemma_spelled(spelled, name, k - n);
            } else {
                assert(word[k] == tail[k - n - m]);
            }
        }
    }
    law_bare_stays(soul, CharSet::Space);
    crate::command_laws::lemma_request_of(word, soul);
    let rest = word + " | "@ + soul;
    assert(rest[0] == word[0] && rest.last() == soul.last());
    reveal_strlit(" | ");
    crate::command_laws::lemma_spawn_is_routed(o, context, session, rest, now, home);
    crate::command_laws::lemma_set_up(o.config, name, soul, None, home, i);
}

/// Whether a sign is no small letter, digit, hyphen or underscore.
pub open spec fn other_sign(c: char) -> bool {
    !('a' <= c <= 'z' || '0' <= c <= '9' || c == '-' || c == '_')
}

/// A name with such a sign anywhere in it is not a valid one; every other one is.
pub proof fn law_names_are_spelled(name: Seq<char>)
    ensures
        forall|k: int| 0 <= k < name.len() && other_sign(#[trigger] name[k]) ==> !valid_id(name),
        (forall|k: int| 0 <= k < name.len() ==> !other_sign(#[trigger] name[k])) ==> valid_id(name),
{
}

/// A message whose first word, as a name, has such a sign in it asks no agent for a run
/// and wishes for no agent.
pub proof fn law_other_names_are_not_heard(
    raw: Seq<char>,
    word: Seq<char>,
    rest: Seq<char>,
    k: int,
)
    requires
        first_word(raw) == Some((word, rest)),
        0 <= k < normalized_id(word).len(),
        other_sign(normalized_id(word)[k]),
    ensures
        inline_delegate(raw) is None,
        inline_spawn(raw) is None,
{
    law_names_are_spelled(normalized_id(word));
}

/// `/spawn` with a name that has other signs in it is refused, and changes nothing.
pub proof fn law_spawn_needs_a_good_name(
    o: OrchestratorView,
    context: ContextView,
    session: Seq<char>,
    word: Seq<char>,
    k: int,
    soul: Seq<char>,
    now: Timestamp,
    home: Option<Seq<char>>,
)
    requires
        bare(soul, CharSet::Space),
        !soul.contains('|'),
        word.len() > 0,
        !word.contains('|'),
        bare(word, CharSet::Space),
        word[0] != '`' && word[0] != '@' && word[0] != ':' && word[0] != ',' && word[0] != ';',
        word.last() != '`' && word.last() != '@' && word.last() != ':' && word.last() != ','
            && word.last() != ';',
        0 <= k < word.len(),
        other_sign(word[k]) && !('A' <= word[k] <= 'Z'),
    ensures
        routed(o, context, session, "/spawn "@ + (word + " | "@ + soul), now, home) == (
            o,
            OutcomeView::Fail(TurnErrorView::BadAgentId),
        ),
{
    reveal_strlit("`");
    reveal_strlit("@");
    reveal_strlit(":,;");
    assert("`"@ =~= seq!['`']);
    assert("@"@ =~= seq!['@']);
    assert(":,;"@ =~= seq![':', ',', ';']);
    law_bare_stays(word, CharSet::Space);
    law_bare_stays(word, CharSet::OneOf("`"));
    law_bare_stays(word, CharSet::OneOf("@"));
    law_bare_stays(word, CharSet::OneOf(":,;"));
    assert(normalized_id(word) == ascii_lower(word));
    assert(!is_id_char(ascii_lower(word)[k]));
    crate::command_laws::lemma_request_of(word, soul);
    let rest = word + " | "@ + soul;
    assert(rest[0] == word[0] && rest.last() == soul.last());
    reveal_strlit(" | ");
    crate::command_laws::lemma_spawn_command(rest);
}

} // verus!
