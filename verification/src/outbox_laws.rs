//! Which output files a reply names: what is read of its words, and what is sent of
//! them.
use crate::request_laws::lemma_trim_end_keeps;
use crate::slack_files::{output_paths, output_token, output_tokens, upload_plan};
use crate::text::{
    contains_text, distinct, find_text, has_prefix, is_space, law_distinct, lemma_find_text,
    lemma_trim_end, matches_at, trim_end_of, trim_set, trim_start_of, words_of, CharSet,
};
use crate::text_laws::{
    all_in, bare, law_bare_stays, law_containing_passes_on, law_first_match,
    law_middle_is_contained, law_trim_end_run, law_trim_start_run, law_words_around,
};
use vstd::prelude::*;

verus! {

// Words of a reply.
/// The signs that may stand around the path of a file: quotes, brackets and the signs
/// inside a sentence.
pub open spec fn around(c: char) -> bool {
    c == '`' || c == '"' || c == '\'' || c == ',' || c == ';' || c == ':' || c == '(' || c == ')'
        || c == '[' || c == ']' || c == '<' || c == '>'
}

/// The signs that end a sentence, or lead on.
pub open spec fn ending(c: char) -> bool {
    c == '.' || c == '-'
}

proof fn lemma_output_signs(c: char)
    ensures
        CharSet::OneOf("`\"',;:()[]<>").has(c) <==> around(c),
        CharSet::OneOf(".-").has(c) <==> ending(c),
{
    reveal_strlit("`\"',;:()[]<>");
    reveal_strlit(".-");
    let w = "`\"',;:()[]<>"@;
    let s = ".-"@;
    assert(w =~= seq!['`', '"', '\'', ',', ';', ':', '(', ')', '[', ']', '<', '>']);
    assert(s =~= seq!['.', '-']);
    assert(w[0] == '`' && w[1] == '"' && w[2] == '\'' && w[3] == ',' && w[4] == ';' && w[5] == ':'
        && w[6] == '(' && w[7] == ')' && w[8] == '[' && w[9] == ']' && w[10] == '<' && w[11]
        == '>');
    assert(s[0] == '.' && s[1] == '-');
}

/// Whether all of a text stands around a path.
pub open spec fn all_around(s: Seq<char>) -> bool {
    forall|i: int| 0 <= i < s.len() ==> around(#[trigger] s[i])
}

/// Whether all of a text ends a sentence.
pub open spec fn all_ending(s: Seq<char>) -> bool {
    forall|i: int| 0 <= i < s.len() ==> ending(#[trigger] s[i])
}

/// The core of a word with signs around it.
proof fn lemma_core(before: Seq<char>, core: Seq<char>, stop: Seq<char>, after: Seq<char>)
    requires
        all_around(before),
        all_ending(stop),
        all_around(after),
        core.len() > 0,
        !around(core[0]),
        !around(core.last()),
        !ending(core.last()),
    ensures
        trim_end_of(
            trim_set(before + core + stop + after, CharSet::OneOf("`\"',;:()[]<>")),
            CharSet::OneOf(".-"),
        ) == core,
{
    let wrap = CharSet::OneOf("`\"',;:()[]<>");
    let ends = CharSet::OneOf(".-");
    let token = before + core + stop + after;
    assert forall|i: int| 0 <= i < before.len() implies wrap.has(#[trigger] before[i]) by {
        lemma_output_signs(before[i]);
    }
    assert forall|i: int| 0 <= i < after.len() implies wrap.has(#[trigger] after[i]) by {
        lemma_output_signs(after[i]);
    }
    assert forall|i: int| 0 <= i < stop.len() implies ends.has(#[trigger] stop[i]) && !wrap.has(
        stop[i],
    ) by {
        lemma_output_signs(stop[i]);
        assert(ending(stop[i]));
    }
    lemma_output_signs(core[0]);
    lemma_output_signs(core.last());
    let inner = core + stop + after;
    assert(token =~= before + inner);
    assert(inner[0] == core[0]);
    law_trim_start_run(before, inner, wrap);
    law_trim_end_run(core + stop, after, wrap);
    lemma_trim_end_keeps(core, stop, wrap);
    if stop.len() > 0 {
        assert(!wrap.has(stop[stop.len() - 1]));
    }
    assert(trim_end_of(stop, wrap) == stop);
    law_trim_end_run(core, stop, ends);
}

/// The path of a file in an outbox, from the root on, is read out of a word whatever
/// signs stand around it, be they of a sentence, quotes or brackets, and whatever label
/// stands before it.
pub proof fn law_output_files_are_read(
    before: Seq<char>,
    label: Seq<char>,
    path: Seq<char>,
    stop: Seq<char>,
    after: Seq<char>,
)
    requires
        all_around(before),
        all_ending(stop),
        all_around(after),
        label.len() > 0 ==> !around(label[0]),
        !label.contains('/'),
        path.len() > 0 && path[0] == '/',
        contains_text(path, "/.openorchestrator/outbox/"@),
        !around(path.last()) && !ending(path.last()),
        !contains_text(label + path, "://"@),
    ensures
        output_token(before + (label + path) + stop + after) == Some(path),
{
    let core = label + path;
    if label.len() > 0 {
        assert(core[0] == label[0]);
    } else {
        assert(core[0] == path[0]);
    }
    assert(core.last() == path.last());
    lemma_core(before, core, stop, after);
    lemma_root(label, path);
}

proof fn lemma_root(label: Seq<char>, path: Seq<char>)
    requires
        !label.contains('/'),
        path.len() > 0 && path[0] == '/',
        contains_text(path, "/.openorchestrator/outbox/"@),
    ensures
        contains_text(label + path, "/.openorchestrator/outbox/"@),
        find_text(label + path, "/"@) == Some(label.len() as int),
        (label + path).skip(label.len() as int) == path,
{
    let core = label + path;
    let n = label.len() as int;
    law_middle_is_contained(label, path, seq![]);
    assert(label + path + seq![] =~= core);
    law_containing_passes_on(core, path, "/.openorchestrator/outbox/"@);
    assert(core.skip(n) =~= path);
    lemma_first_slash(label, path);
}

proof fn lemma_first_slash(label: Seq<char>, path: Seq<char>)
    requires
        !label.contains('/'),
        path.len() > 0 && path[0] == '/',
    ensures
        find_text(label + path, "/"@) == Some(label.len() as int),
{
    let core = label + path;
    let slash = "/"@;
    reveal_strlit("/");
    let n = label.len() as int;
    assert(core.subrange(n, n + 1) =~= slash);
    assert forall|j: int| 0 <= j < n implies !matches_at(core, slash, j) by {
        if matches_at(core, slash, j) {
            assert(core.subrange(j, j + 1)[0] == label[j]);
            assert(label.contains('/'));
        }
    }
    law_first_match(core, slash, n);
}

/// The path of a file in the outbox here is read out of a word in the same way.
pub proof fn law_output_files_here_are_read(
    before: Seq<char>,
    label: Seq<char>,
    path: Seq<char>,
    stop: Seq<char>,
    after: Seq<char>,
)
    requires
        all_around(before),
        all_ending(stop),
        all_around(after),
        label.len() > 0 ==> !around(label[0]),
        !label.contains('.'),
        has_prefix(path, ".openorchestrator/outbox/"@),
        !around(path.last()) && !ending(path.last()),
        !contains_text(label + path, "://"@),
        !contains_text(label + path, "/.openorchestrator/outbox/"@),
    ensures
        output_token(before + (label + path) + stop + after) == Some(path),
{
    let short = ".openorchestrator/outbox/"@;
    reveal_strlit(".openorchestrator/outbox/");
    let core = label + path;
    assert(path[0] == path.take(short.len() as int)[0]);
    if label.len() > 0 {
        assert(core[0] == label[0]);
    } else {
        assert(core[0] == path[0]);
    }
    assert(core.last() == path.last());
    lemma_core(before, core, stop, after);
    lemma_find_text(core, short);
    let n = label.len() as int;
    assert(core.subrange(n, n + short.len()) =~= path.take(short.len() as int));
    assert(matches_at(core, short, n));
    let k = find_text(core, short)->0;
    assert(k <= n);
    assert(core.subrange(k, k + short.len())[0] == '.');
    if k < n {
        assert(label[k] == '.');
        assert(label.contains('.'));
    }
    assert(core.skip(n) =~= path);
}

/// A path that is read out of a word stands in the word and in an outbox, starts at the
/// root or at the outbox, and does not end as a sentence does. It ends in no sign that
/// stands around paths either, unless one stood before the end of a sentence.
pub proof fn law_output_files_are_clean(token: Seq<char>)
    requires
        output_token(token) is Some,
    ensures
        ({
            let path = output_token(token)->0;
            let core = trim_set(token, CharSet::OneOf("`\"',;:()[]<>"));
            &&& path.len() > 0
            &&& path[0] == '/' || has_prefix(path, ".openorchestrator/outbox/"@)
            &&& contains_text(path, ".openorchestrator/outbox/"@)
            &&& contains_text(token, path)
            &&& !contains_text(path, "://"@)
            &&& path.last() != '.' && path.last() != '-'
            &&& core.len() > 0
            &&& !ending(core.last()) ==> !around(path.last())
        }),
{
    let wrap = CharSet::OneOf("`\"',;:()[]<>");
    let ends = CharSet::OneOf(".-");
    let lead = trim_start_of(token, wrap);
    let core = trim_set(token, wrap);
    let t = trim_end_of(core, ends);
    crate::slack_files_laws::lemma_output_token(token);
    crate::text::lemma_trim_start_skips(token, wrap);
    lemma_trim_end(lead, wrap);
    lemma_trim_end(core, ends);
    let path = output_token(token)->0;
    reveal_strlit("/");
    reveal_strlit("/.openorchestrator/outbox/");
    reveal_strlit(".openorchestrator/outbox/");
    let long = "/.openorchestrator/outbox/"@;
    let short = ".openorchestrator/outbox/"@;
    lemma_find_text(t, "/"@);
    lemma_find_text(t, short);
    let start: int = if contains_text(t, long) {
        find_text(t, "/"@)->0
    } else {
        find_text(t, short)->0
    };
    if contains_text(t, long) {
        let i = choose|i: int| matches_at(t, long, i);
        assert(t.subrange(i, i + long.len())[0] == long[0]);
        assert(t.subrange(i, i + 1) =~= "/"@);
        assert(matches_at(t, "/"@, i));
        assert(t.subrange(start, start + 1)[0] == '/');
        assert(path[0] == '/');
    } else {
        assert(path.take(short.len() as int) =~= t.subrange(start, start + short.len()));
    }
    assert(path == t.skip(start));
    assert(path.len() > 0);
    assert(path.last() == t.last());
    lemma_output_signs(t.last());
    let at = token.len() - lead.len() + start;
    assert(token.subrange(at, at + path.len()) =~= path);
    assert(matches_at(token, path, at));
    if !ending(core.last()) {
        lemma_output_signs(core.last());
        assert(t == core);
        assert(!wrap.has(core.last()));
    }
}

/// An address on a network names no output file.
pub proof fn law_addresses_are_no_output_files(scheme: Seq<char>, rest: Seq<char>)
    requires
        scheme.len() > 0,
        !around(scheme[0]),
    ensures
        output_token(scheme + "://"@ + rest) is None,
{
    let wrap = CharSet::OneOf("`\"',;:()[]<>");
    let ends = CharSet::OneOf(".-");
    reveal_strlit("://");
    let head = scheme + "://"@;
    let token = head + rest;
    assert(token[0] == scheme[0] && head.last() == '/');
    lemma_output_signs(scheme[0]);
    lemma_output_signs('/');
    assert(trim_start_of(token, wrap) == token);
    lemma_trim_end_keeps(head, rest, wrap);
    lemma_trim_end_keeps(head, trim_end_of(rest, wrap), ends);
    let left = trim_end_of(trim_end_of(rest, wrap), ends);
    law_middle_is_contained(scheme, "://"@, left);
}

/// A word in which no outbox is named names no output file.
pub proof fn law_other_words_are_no_output_files(token: Seq<char>)
    requires
        !contains_text(token, ".openorchestrator/outbox/"@),
    ensures
        output_token(token) is None,
{
    if output_token(token) is Some {
        law_output_files_are_clean(token);
        law_containing_passes_on(
            token,
            output_token(token)->0,
            ".openorchestrator/outbox/"@,
        );
    }
}

// Replies.
proof fn lemma_output_tokens_append(a: Seq<Seq<char>>, b: Seq<Seq<char>>)
    ensures
        output_tokens(a + b) == output_tokens(a) + output_tokens(b),
    decreases b.len(),
{
    if b.len() == 0 {
        assert(a + b =~= a);
        assert(output_tokens(a) + output_tokens(b) =~= output_tokens(a));
    } else {
        assert((a + b).drop_last() =~= a + b.drop_last());
        assert((a + b).last() == b.last());
        lemma_output_tokens_append(a, b.drop_last());
        match output_token(b.last()) {
            Some(path) => {
                assert(output_tokens(a) + output_tokens(b) =~= (output_tokens(a) + output_tokens(
                    b.drop_last(),
                )).push(path));
            },
            None => {},
        }
    }
}

proof fn lemma_distinct_starts(x: Seq<Seq<char>>, y: Seq<Seq<char>>)
    ensures
        distinct(x).len() <= distinct(x + y).len(),
        distinct(x + y).take(distinct(x).len() as int) == distinct(x),
    decreases y.len(),
{
    if y.len() == 0 {
        assert(x + y =~= x);
        assert(distinct(x).take(distinct(x).len() as int) =~= distinct(x));
    } else {
        assert((x + y).drop_last() =~= x + y.drop_last());
        lemma_distinct_starts(x, y.drop_last());
        let d = distinct(x + y.drop_last());
        let n = distinct(x).len() as int;
        assert(distinct(x + y).take(n) =~= d.take(n));
    }
}

/// The output files that a reply names are in the order in which it names them, each
/// once: first those that what stands before a word names, then that of the word unless
/// it was named before.
pub proof fn law_output_files_are_in_order(
    before: Seq<char>,
    word: Seq<char>,
    after: Seq<char>,
    path: Seq<char>,
)
    requires
        word.len() > 0,
        forall|i: int| 0 <= i < word.len() ==> !is_space(#[trigger] word[i]),
        before.len() > 0 ==> is_space(before.last()),
        after.len() > 0 ==> is_space(after[0]),
        output_token(word) == Some(path),
    ensures
        ({
            let first = output_paths(before);
            let all = output_paths(before + word + after);
            &&& first.len() <= all.len()
            &&& all.take(first.len() as int) == first
            &&& all.contains(path)
            &&& !first.contains(path) ==> first.len() < all.len() && all[first.len() as int]
                == path
        }),
{
    let reply = before + word + after;
    let a = words_of(before);
    let b = words_of(after);
    law_words_around(before, word, after);
    lemma_output_tokens_append(a, seq![word]);
    lemma_output_tokens_append(a + seq![word], b);
    let one = seq![word];
    assert(one.drop_last() =~= seq![]);
    assert(one.last() == word);
    assert(output_tokens(one.drop_last()) =~= seq![]);
    assert(output_tokens(one) =~= seq![path]);
    let x = output_tokens(a);
    let z = output_tokens(b);
    assert(output_tokens(words_of(reply)) == x + seq![path] + z);
    lemma_distinct_starts(x + seq![path], z);
    let mid = distinct(x + seq![path]);
    assert((x + seq![path]).drop_last() =~= x);
    assert((x + seq![path]).last() == path);
    let all = output_paths(reply);
    let first = output_paths(before);
    assert(mid.take(first.len() as int) =~= first);
    assert(all.take(first.len() as int) =~= all.take(mid.len() as int).take(first.len() as int));
    law_distinct(x + seq![path] + z);
    assert((x + seq![path] + z)[x.len() as int] == path);
    assert((x + seq![path] + z).contains(path));
    if !first.contains(path) {
        assert(mid == first.push(path));
        assert(all.take(mid.len() as int)[first.len() as int] == path);
    }
}

/// The first three output files that a reply names are sent to the channel of its
/// message, or to the default one where that has no name; none is where there is no
/// file or no channel.
pub proof fn law_output_files_are_sent(
    channel: Seq<char>,
    default_channel: Option<Seq<char>>,
    reply: Seq<char>,
    target: Seq<char>,
)
    requires
        bare(target, CharSet::Space),
        channel == target || (all_in(channel, CharSet::Space) && default_channel == Some(target)),
    ensures
        ({
            let all = output_paths(reply);
            &&& all.len() == 0 ==> upload_plan(channel, default_channel, reply) is None
            &&& 0 < all.len() <= 3 ==> upload_plan(channel, default_channel, reply) == Some(
                (target, all),
            )
            &&& all.len() > 3 ==> upload_plan(channel, default_channel, reply) == Some(
                (target, all.take(3)),
            )
        }),
{
    law_bare_stays(target, CharSet::Space);
    if all_in(channel, CharSet::Space) {
        crate::message_laws::lemma_blank(channel);
    }
}

/// Nothing is sent where neither the message nor the configuration names a channel.
pub proof fn law_nothing_is_sent_nowhere(
    channel: Seq<char>,
    default_channel: Option<Seq<char>>,
    reply: Seq<char>,
)
    requires
        all_in(channel, CharSet::Space),
        default_channel matches Some(c) ==> all_in(c, CharSet::Space),
    ensures
        upload_plan(channel, default_channel, reply) is None,
{
    crate::message_laws::lemma_blank(channel);
    if let Some(c) = default_channel {
        crate::message_laws::lemma_blank(c);
    }
}

} // verus!
