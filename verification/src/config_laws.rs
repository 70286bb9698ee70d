//! What holds of the configuration as a whole: where things are, what becomes of
//! workspaces in the old place, and what setting a value sets.
use crate::config::{
    default_config, legacy_suffix, migrated, normalized_binding, not_empty, path_keys,
    typed_value, AgentView, ConfigView,
};
use crate::json::{get_at, law_set_then_get, set_at, JsonView};
use crate::message_laws::lemma_not_legacy;
use crate::outside::json_of_text;
use crate::paths::{
    config_dir, config_path, joined_path, resolved, resolved_text, FilePathView,
};
use crate::text::{
    contains_text, has_prefix, joined, lemma_find_text, lemma_span_until, matches_at, replaced,
    span_until, split_on, trimmed, CharSet,
};
use crate::text_laws::{all_in, bare, law_bare_stays, law_first_match, law_trim_around};
use vstd::prelude::*;

verus! {

// Paths.
/// A path from the root stands for itself. Any other is put behind the directory that
/// it is seen from, with one `/` between the two.
pub proof fn law_paths_are_joined(base: Seq<char>, rest: Seq<char>)
    requires
        rest.len() == 0 || rest[0] != '/',
    ensures
        joined_path(base, "/"@ + rest) == "/"@ + rest,
        joined_path(base + "/"@, rest) == base + "/"@ + rest,
        base.len() > 0 && base.last() != '/' ==> joined_path(base, rest) == base + "/"@ + rest,
        joined_path(seq![], rest) == rest,
{
    reveal_strlit("/");
    assert(("/"@ + rest).take(1) =~= "/"@);
    if has_prefix(rest, "/"@) {
        assert(rest.take(1)[0] == '/');
    }
    assert((base + "/"@).last() == '/');
    assert(Seq::<char>::empty() + rest =~= rest);
}

/// What follows `~/` is under the home directory, where there is one; any other path is
/// as it is written.
pub proof fn law_home_is_resolved(rest: Seq<char>, other: Seq<char>, home: Seq<char>)
    requires
        rest.len() == 0 || rest[0] != '/',
        home.len() > 0 && home.last() != '/',
        other.len() < 2 || other[0] != '~' || other[1] != '/',
    ensures
        resolved("~/"@ + rest, true) == FilePathView::UnderHome(rest),
        resolved("~/"@ + rest, false) == FilePathView::Plain("~/"@ + rest),
        resolved(other, true) == FilePathView::Plain(other),
        resolved(other, false) == FilePathView::Plain(other),
        resolved_text("~/"@ + rest, Some(home)) == home + "/"@ + rest,
        resolved_text("~/"@ + rest, None) == "~/"@ + rest,
        resolved_text(other, Some(home)) == other,
        resolved_text(other, None) == other,
        FilePathView::UnderHome(rest).shown(Some(home)) == home + "/"@ + rest,
        FilePathView::UnderHome(rest).shown(None) == "~/"@ + rest,
        FilePathView::Plain(other).shown(Some(home)) == other,
        FilePathView::Plain(other).shown(None) == other,
{
    reveal_strlit("~/");
    let w = "~/"@ + rest;
    assert(w.take(2) =~= "~/"@);
    assert(w.skip(2) =~= rest);
    if has_prefix(other, "~/"@) {
        assert(other.take(2)[0] == '~' && other.take(2)[1] == '/');
    }
    law_paths_are_joined(home, rest);
}

/// The configuration is in its own directory under the home directory, or here where
/// there is none, unless another file is named.
pub proof fn law_configuration_has_its_place(named: Seq<char>, has_home: bool)
    ensures
        config_dir(true) == FilePathView::UnderHome(".openorchestrator"@),
        config_dir(false) == FilePathView::Plain(".openorchestrator"@),
        config_path(Some(named), has_home) == FilePathView::Plain(named),
        config_path(None, true) == FilePathView::UnderHome(
            ".openorchestrator/openorchestrator.json"@,
        ),
        config_path(None, false) == FilePathView::Plain(
            ".openorchestrator/openorchestrator.json"@,
        ),
{
    reveal_strlit(".openorchestrator");
    reveal_strlit("openorchestrator.json");
    reveal_strlit(".openorchestrator/openorchestrator.json");
    reveal_strlit("/");
    law_paths_are_joined(".openorchestrator"@, "openorchestrator.json"@);
    assert(".openorchestrator"@ + "/"@ + "openorchestrator.json"@
        =~= ".openorchestrator/openorchestrator.json"@);
}

/// What there is before anything is configured: one agent, the brain, which works under
/// the home directory or here; a gateway that only this machine reaches; no Slack; and a
/// memory of bounded size next to the configuration.
pub proof fn law_defaults(home: Seq<char>)
    requires
        home.len() > 0 && home.last() != '/',
    ensures
        ({
            let cfg = default_config(Some(home));
            let bare = default_config(None);
            &&& cfg.version == 1
            &&& cfg.brain.provider == "codex-cli"@
            &&& cfg.brain.model is None
            &&& cfg.brain.workspace == home + "/work"@
            &&& cfg.memory.state_path == home + "/.openorchestrator/state.json"@
            &&& cfg.memory.max_conversation_items == 10_000
            &&& cfg.memory.max_memory_items == 5_000
            &&& cfg.gateway.host == "127.0.0.1"@
            &&& cfg.gateway.port == 3769
            &&& !cfg.slack.enabled
            &&& cfg.slack.bot_token is None
            &&& cfg.slack.signing_secret is None
            &&& cfg.slack.app_token is None
            &&& cfg.slack.default_channel is None
            &&& cfg.slack.bot_user_id is None
            &&& cfg.slack.mode == crate::config::SlackMode::EventsApi
            &&& cfg.agents == seq![
                AgentView {
                    id: "main"@,
                    name: "Main Brain"@,
                    soul:
                        "You are the primary OpenOrchestrator brain. Be concise, pragmatic, and action-oriented."@,
                    workspace: None,
                },
            ]
            &&& bare.brain.workspace == "./work"@
            &&& bare.memory.state_path == ".openorchestrator/state.json"@
            &&& bare.agents == cfg.agents
            &&& bare.gateway == cfg.gateway
            &&& bare.slack == cfg.slack
        }),
{
    reveal_strlit("work");
    reveal_strlit("/work");
    reveal_strlit("./work");
    reveal_strlit(".");
    reveal_strlit("/");
    reveal_strlit("state.json");
    reveal_strlit(".openorchestrator");
    reveal_strlit("/.openorchestrator/state.json");
    reveal_strlit(".openorchestrator/state.json");
    law_paths_are_joined(home, "work"@);
    law_paths_are_joined("."@, "work"@);
    assert(home + "/"@ + "work"@ =~= home + "/work"@);
    assert("."@ + "/"@ + "work"@ =~= "./work"@);
    law_paths_are_joined(home, ".openorchestrator"@);
    let dir = home + "/"@ + ".openorchestrator"@;
    law_paths_are_joined(dir, "state.json"@);
    law_paths_are_joined(".openorchestrator"@, "state.json"@);
    assert(dir + "/"@ + "state.json"@ =~= home + "/.openorchestrator/state.json"@);
    assert(".openorchestrator"@ + "/"@ + "state.json"@ =~= ".openorchestrator/state.json"@);
}

// The old place.
/// Whether a workspace is the place `rest` in the old directory of workspaces, which
/// may be written in full, from home or from here.
pub open spec fn in_old_place(w: Seq<char>, head: Seq<char>, rest: Seq<char>) -> bool {
    &&& w == head + ".openclaw/workspace/"@ + rest
    &&& head.len() == 0 || head.last() == '/'
    &&& !contains_text(head, ".openclaw"@)
    &&& bare(w, CharSet::Space)
}

proof fn lemma_old_place(w: Seq<char>, head: Seq<char>, rest: Seq<char>)
    requires
        in_old_place(w, head, rest),
    ensures
        legacy_suffix(w) == Some(rest),
{
    let mid = ".openclaw/workspace/"@;
    let slash = "/.openclaw/workspace/"@;
    reveal_strlit(".openclaw");
    reveal_strlit(".openclaw/workspace/");
    reveal_strlit("/.openclaw/workspace/");
    reveal_strlit("~/.openclaw/workspace/");
    reveal_strlit("~/.openclaw/workspace");
    reveal_strlit(".openclaw/workspace");
    law_bare_stays(w, CharSet::Space);
    let n = head.len() as int;
    assert(w.skip(n + 20) =~= rest);
    if n == 0 {
        assert(w.take(20) =~= mid);
        if has_prefix(w, "~/.openclaw/workspace/"@) {
            assert(w.take(22)[0] == '~');
            assert(w.take(20)[0] == '.');
        }
        assert(w[0] == mid[0]);
        assert(w.len() > 19);
        if w == "~/.openclaw/workspace"@ {
            assert(w[0] == '~');
        }
    } else {
        let tilde = "~/.openclaw/workspace/"@;
        assert(w[n - 1] == '/');
        assert(w[n] == '.');
        assert forall|j: int| 0 <= j < n - 1 implies !matches_at(w, slash, j) by {
            if matches_at(w, slash, j) {
                let at = w.subrange(j, j + 21);
                if j + 10 <= n {
                    assert(head.subrange(j + 1, j + 10) =~= at.subrange(1, 10));
                    assert(slash.subrange(1, 10) =~= ".openclaw"@);
                    assert(matches_at(head, ".openclaw"@, j + 1));
                } else {
                    assert(at[n - 1 - j] == w[n - 1]);
                    assert(slash[n - 1 - j] == '/');
                }
            }
        }
        assert(w.subrange(n - 1, n + 20) =~= slash);
        law_first_match(w, slash, n - 1);
        if has_prefix(w, tilde) {
            assert(w.subrange(1, 22) =~= w.take(22).subrange(1, 22));
            assert(tilde.subrange(1, 22) =~= slash);
            assert(matches_at(w, slash, 1));
            assert(w[0] == w.take(22)[0]);
            if n == 1 {
                assert(w[0] == head[0]);
            }
            assert(n == 2);
        }
        if has_prefix(w, mid) {
            if n >= 9 {
                assert(head.subrange(0, 9) =~= w.take(20).subrange(0, 9));
                assert(mid.subrange(0, 9) =~= ".openclaw"@);
                assert(matches_at(head, ".openclaw"@, 0));
            } else {
                assert(w.take(20)[n - 1] == '/');
                assert(mid[n - 1] == '/');
            }
        }
        if w == "~/.openclaw/workspace"@ {
            assert(w[n + 19] == '/');
            assert(n + 20 <= 21);
            assert(n == 1);
            assert(w[0] == '/');
        }
        if w == ".openclaw/workspace"@ {
            assert(w.len() == 19);
        }
    }
}

/// A workspace in the old place is moved to the same place where the brain works.
pub proof fn law_old_workspaces_are_moved(
    w: Seq<char>,
    head: Seq<char>,
    rest: Seq<char>,
    brain: Seq<char>,
    home: Option<Seq<char>>,
)
    requires
        in_old_place(w, head, rest),
        rest.len() > 0 && rest[0] != '/',
        brain.len() > 0 && brain.last() != '/',
        brain.len() < 2 || brain[0] != '~' || brain[1] != '/',
    ensures
        normalized_binding(w, brain, home) == brain + "/"@ + rest,
{
    lemma_old_place(w, head, rest);
    law_paths_are_joined(brain, rest);
    reveal_strlit("~/");
    if has_prefix(brain, "~/"@) {
        assert(brain.take(2)[0] == '~' && brain.take(2)[1] == '/');
    }
}

/// Where the brain works may be written from home; a workspace in the old place is then
/// moved below the home directory.
pub proof fn law_old_workspaces_are_moved_home(
    w: Seq<char>,
    head: Seq<char>,
    rest: Seq<char>,
    below: Seq<char>,
    home: Seq<char>,
)
    requires
        in_old_place(w, head, rest),
        rest.len() > 0 && rest[0] != '/',
        below.len() > 0 && below[0] != '/' && below.last() != '/',
        home.len() > 0 && home.last() != '/',
    ensures
        normalized_binding(w, "~/"@ + below, Some(home)) == home + "/"@ + below + "/"@ + rest,
        normalized_binding(w, "~/"@ + below, None) == "~/"@ + below + "/"@ + rest,
{
    lemma_old_place(w, head, rest);
    lemma_resolved_home(below, home);
    law_paths_are_joined(home + "/"@ + below, rest);
    law_paths_are_joined("~/"@ + below, rest);
}

/// The old directory of workspaces itself is moved to where the brain works; where the
/// brain works may be written from home.
pub proof fn law_the_old_place_is_moved(
    w: Seq<char>,
    before: Seq<char>,
    after: Seq<char>,
    below: Seq<char>,
    home: Seq<char>,
)
    requires
        w == "~/.openclaw/workspace"@ || w == ".openclaw/workspace"@ || w
            == "~/.openclaw/workspace/"@,
        all_in(before, CharSet::Space),
        all_in(after, CharSet::Space),
        below.len() > 0 && below[0] != '/',
        home.len() > 0 && home.last() != '/',
    ensures
        normalized_binding(before + w + after, "~/"@ + below, Some(home)) == home + "/"@ + below,
        normalized_binding(before + w + after, "~/"@ + below, None) == "~/"@ + below,
{
    reveal_strlit("~/.openclaw/workspace");
    reveal_strlit(".openclaw/workspace");
    reveal_strlit("~/.openclaw/workspace/");
    reveal_strlit(".openclaw/workspace/");
    law_trim_around(before, w, after, CharSet::Space);
    lemma_resolved_home(below, home);
    let t = trimmed(before + w + after);
    assert(t == w);
    if w == "~/.openclaw/workspace/"@ {
        assert(w.take(22) =~= w);
        assert(w.skip(22) =~= seq![]);
    } else {
        assert(w.len() < 22);
        assert(w == ".openclaw/workspace"@ ==> w.len() == 19 && w[0] == '.');
    }
}

proof fn lemma_resolved_home(rest: Seq<char>, home: Seq<char>)
    requires
        rest.len() > 0 && rest[0] != '/',
        home.len() > 0 && home.last() != '/',
    ensures
        resolved_text("~/"@ + rest, Some(home)) == home + "/"@ + rest,
        resolved_text("~/"@ + rest, None) == "~/"@ + rest,
{
    law_home_is_resolved(rest, seq![], home);
}

/// A workspace in which the old place is not named stays as it is written.
pub proof fn law_new_workspaces_stay(w: Seq<char>, brain: Seq<char>, home: Option<Seq<char>>)
    requires
        !contains_text(w, ".openclaw/workspace"@),
    ensures
        normalized_binding(w, brain, home) == w,
{
    lemma_not_legacy(w);
}

proof fn lemma_replaced_none(s: Seq<char>, from: Seq<char>, to: Seq<char>)
    requires
        !contains_text(s, from),
    ensures
        replaced(s, from, to) == s,
{
    lemma_find_text(s, from);
}

/// What stands in a text is replaced where it stands first, and then in what follows.
pub proof fn law_replaced_in_turn(
    a: Seq<char>,
    from: Seq<char>,
    b: Seq<char>,
    to: Seq<char>,
)
    requires
        from.len() > 0,
        forall|j: int| 0 <= j < a.len() ==> !matches_at(a + from + b, from, j),
    ensures
        replaced(a + from + b, from, to) == a + to + replaced(b, from, to),
{
    let s = a + from + b;
    let n = a.len() as int;
    assert(s.subrange(n, n + from.len()) =~= from);
    law_first_match(s, from, n);
    assert(s.take(n) =~= a);
    assert(s.skip(n + from.len()) =~= b);
}

/// What stands once in a text is replaced there, and nothing else is.
pub proof fn law_replaced_once(
    a: Seq<char>,
    from: Seq<char>,
    b: Seq<char>,
    to: Seq<char>,
)
    requires
        from.len() > 0,
        forall|j: int| matches_at(a + from + b, from, j) ==> j == a.len(),
    ensures
        replaced(a + from + b, from, to) == a + to + b,
{
    let s = a + from + b;
    let n = a.len() as int;
    assert(s.subrange(n, n + from.len()) =~= from);
    law_first_match(s, from, n);
    assert(s.take(n) =~= a);
    assert(s.skip(n + from.len()) =~= b);
    if contains_text(b, from) {
        let j = choose|j: int| matches_at(b, from, j);
        let k = n + from.len() + j;
        assert(s.subrange(k, k + from.len()) =~= b.subrange(j, j + from.len()));
        assert(matches_at(s, from, k));
    }
    lemma_replaced_none(b, from, to);
}

/// Migration moves an agent's workspace out of the old place to the same place where the
/// brain works, and its soul speaks of the new place where it spoke of the old one.
/// Everything else about the agent stays, and so does all else in the configuration.
pub proof fn law_migration_moves_agents(
    cfg: ConfigView,
    home: Option<Seq<char>>,
    i: int,
    head: Seq<char>,
    rest: Seq<char>,
    a: Seq<char>,
    b: Seq<char>,
)
    requires
        0 <= i < cfg.agents.len(),
        cfg.agents[i].workspace is Some,
        in_old_place(cfg.agents[i].workspace->0, head, rest),
        rest.len() > 0 && rest[0] != '/',
        cfg.brain.workspace.len() > 0 && cfg.brain.workspace[0] == '/'
            && cfg.brain.workspace.last() != '/',
        cfg.brain.workspace + "/"@ + rest != cfg.agents[i].workspace->0,
    ensures
        ({
            let w = cfg.agents[i].workspace->0;
            let n = cfg.brain.workspace + "/"@ + rest;
            let after = migrated(cfg, home);
            &&& after.agents.len() == cfg.agents.len()
            &&& after.agents[i].workspace == Some(n)
            &&& after.agents[i].id == cfg.agents[i].id
            &&& after.agents[i].name == cfg.agents[i].name
            &&& !contains_text(cfg.agents[i].soul, w) ==> after.agents[i].soul
                == cfg.agents[i].soul
            &&& (cfg.agents[i].soul == a + w + b && forall|j: int|
                #[trigger] matches_at(a + w + b, w, j) ==> j == a.len()) ==> after.agents[i].soul
                == a + n + b
            &&& after == (ConfigView { agents: after.agents, ..cfg })
        }),
{
    let w = cfg.agents[i].workspace->0;
    let brain = cfg.brain.workspace;
    law_old_workspaces_are_moved(w, head, rest, brain, home);
    lemma_old_place(w, head, rest);
    let n = brain + "/"@ + rest;
    if !contains_text(cfg.agents[i].soul, w) {
        lemma_replaced_none(cfg.agents[i].soul, w, n);
    }
    if cfg.agents[i].soul == a + w + b && forall|j: int|
        #[trigger] matches_at(a + w + b, w, j) ==> j == a.len() {
        law_replaced_once(a, w, b, n);
    }
}

/// Migration leaves an agent as it is that has no workspace, or one in which the old
/// place is not named.
pub proof fn law_migration_leaves_other_agents(cfg: ConfigView, home: Option<Seq<char>>, i: int)
    requires
        0 <= i < cfg.agents.len(),
        cfg.agents[i].workspace matches Some(w) ==> !contains_text(w, ".openclaw/workspace"@),
    ensures
        migrated(cfg, home).agents[i] == cfg.agents[i],
{
    if let Some(w) = cfg.agents[i].workspace {
        lemma_not_legacy(w);
    }
}

// Setting values.
proof fn lemma_split_append(s: Seq<char>, last: Seq<char>)
    requires
        !last.contains('.'),
    ensures
        split_on(s + "."@ + last, CharSet::OneOf(".")) == split_on(s, CharSet::OneOf(".")).push(
            last,
        ),
    decreases s.len(),
{
    let set = CharSet::OneOf(".");
    reveal_strlit(".");
    assert("."@ =~= seq!['.']);
    assert("."@[0] == '.');
    let whole = s + "."@ + last;
    let n = span_until(s, set) as int;
    let m = span_until(whole, set) as int;
    lemma_span_until(s, set);
    lemma_span_until(whole, set);
    assert(whole[s.len() as int] == '.');
    assert(set.has(whole[s.len() as int]));
    if m < n {
        assert(whole[m] == s[m]);
    }
    if n < m {
        if n < s.len() {
            assert(whole[n] == s[n]);
        }
    }
    assert(m == n);
    assert(whole.take(n) =~= s.take(n));
    if n >= s.len() {
        assert(s.take(n) =~= s);
        assert(whole.skip(n + 1) =~= last);
        lemma_span_until(last, set);
        let k = span_until(last, set) as int;
        if k < last.len() {
            assert(last[k] == '.');
            assert(last.contains('.'));
        }
        assert(split_on(last, set) =~= seq![last]);
        assert(split_on(whole, set) =~= split_on(s, set).push(last));
    } else {
        assert(whole.skip(n + 1) =~= s.skip(n + 1) + "."@ + last);
        lemma_split_append(s.skip(n + 1), last);
        assert(split_on(whole, set) =~= split_on(s, set).push(last));
    }
}

proof fn lemma_split_joined(keys: Seq<Seq<char>>)
    requires
        keys.len() > 0,
        forall|i: int| 0 <= i < keys.len() ==> !(#[trigger] keys[i]).contains('.'),
    ensures
        split_on(joined(keys, "."@), CharSet::OneOf(".")) == keys,
    decreases keys.len(),
{
    let set = CharSet::OneOf(".");
    reveal_strlit(".");
    assert("."@ =~= seq!['.']);
    if keys.len() == 1 {
        let s = keys[0];
        lemma_span_until(s, set);
        let k = span_until(s, set) as int;
        if k < s.len() {
            assert(s[k] == '.');
            assert(s.contains('.'));
        }
        assert(split_on(s, set) =~= keys);
    } else {
        let front = keys.drop_last();
        assert forall|i: int| 0 <= i < front.len() implies !(#[trigger] front[i]).contains(
            '.',
        ) by {
            assert(front[i] == keys[i]);
        }
        lemma_split_joined(front);
        assert(!keys[keys.len() - 1].contains('.'));
        lemma_split_append(joined(front, "."@), keys.last());
        assert(front.push(keys.last()) =~= keys);
    }
}

proof fn lemma_none_empty(keys: Seq<Seq<char>>)
    requires
        forall|i: int| 0 <= i < keys.len() ==> (#[trigger] keys[i]).len() > 0,
    ensures
        not_empty(keys) == keys,
    decreases keys.len(),
{
    if keys.len() > 0 {
        let front = keys.drop_last();
        assert forall|i: int| 0 <= i < front.len() implies (#[trigger] front[i]).len() > 0 by {
            assert(front[i] == keys[i]);
        }
        lemma_none_empty(front);
        assert(keys[keys.len() - 1].len() > 0);
        assert(front.push(keys.last()) =~= keys);
    } else {
        assert(not_empty(keys) =~= keys);
    }
}

proof fn lemma_filled_keys(keys: Seq<Seq<char>>)
    ensures
        not_empty(keys) == keys.filter(|k: Seq<char>| k.len() > 0),
    decreases keys.len(),
{
    reveal(Seq::filter);
    if keys.len() > 0 {
        lemma_filled_keys(keys.drop_last());
    }
}

/// The keys of a path are what stands between its dots, as far as something does.
pub proof fn law_keys_stand_between_dots(parts: Seq<Seq<char>>)
    requires
        parts.len() > 0,
        forall|i: int| 0 <= i < parts.len() ==> !(#[trigger] parts[i]).contains('.'),
    ensures
        path_keys(joined(parts, "."@)) == parts.filter(|k: Seq<char>| k.len() > 0),
{
    lemma_split_joined(parts);
    lemma_filled_keys(parts);
}

/// A value that is set under keys with dots between them is found under these keys: the
/// value that is written, or the text itself where it is written as no value.
pub proof fn law_set_values_are_found(root: JsonView, keys: Seq<Seq<char>>, value: Seq<char>)
    requires
        keys.len() > 0,
        forall|i: int|
            0 <= i < keys.len() ==> (#[trigger] keys[i]).len() > 0 && !keys[i].contains('.'),
    ensures
        path_keys(joined(keys, "."@)) == keys,
        json_of_text(value) is None ==> get_at(
            set_at(root, path_keys(joined(keys, "."@)), typed_value(value)),
            keys,
        ) == Some(JsonView::Text(value)),
        json_of_text(value) matches Some(v) ==> get_at(
            set_at(root, path_keys(joined(keys, "."@)), typed_value(value)),
            keys,
        ) == Some(v),
{
    lemma_split_joined(keys);
    lemma_none_empty(keys);
    law_set_then_get(root, keys, typed_value(value));
}

/// Dots alone are no path.
pub proof fn law_dots_are_no_path(n: nat)
    ensures
        path_keys(Seq::new(n, |i: int| '.')).len() == 0,
    decreases n,
{
    reveal_strlit(".");
    assert("."@ =~= seq!['.']);
    let set = CharSet::OneOf(".");
    let s = Seq::new(n, |i: int| '.');
    if n == 0 {
        assert(split_on(s, set) =~= seq![s]);
        let parts = split_on(s, set);
        assert(parts.drop_last() =~= seq![]);
        assert(not_empty(parts.drop_last()) =~= seq![]);
    } else {
        let less = Seq::new((n - 1) as nat, |i: int| '.');
        law_dots_are_no_path((n - 1) as nat);
        let none = Seq::<char>::empty();
        lemma_split_append(less, none);
        assert(less + "."@ + none =~= s);
        let parts = split_on(s, set);
        assert(parts.drop_last() =~= split_on(less, set));
        assert(parts.last().len() == 0);
    }
}

} // verus!
