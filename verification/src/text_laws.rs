//! What holds of texts as a whole: what trimming takes away, what the words of a text
//! are, and what a text that is put together contains.
use crate::text::{
    contains_text, find_text, first_places, joined, lemma_find_text, lemma_span_until,
    lemma_trim_end, lemma_trim_start, matches_at, span_until, trim_end_of, trim_set,
    trim_start_of, trimmed, words_of, CharSet,
};
use vstd::prelude::*;

verus! {

// Trimming.
/// Whether all characters of a text are in a set.
pub open spec fn all_in(s: Seq<char>, set: CharSet) -> bool {
    forall|i: int| 0 <= i < s.len() ==> set.has(#[trigger] s[i])
}

/// Whether a text is there, and neither starts nor ends with a character in a set.
pub open spec fn bare(s: Seq<char>, set: CharSet) -> bool {
    s.len() > 0 && !set.has(s[0]) && !set.has(s.last())
}

/// Leading characters in the set are taken, and nothing behind them.
pub proof fn law_trim_start_run(before: Seq<char>, s: Seq<char>, set: CharSet)
    requires
        all_in(before, set),
        s.len() == 0 || !set.has(s[0]),
    ensures
        trim_start_of(before + s, set) == s,
    decreases before.len(),
{
    if before.len() == 0 {
        assert(before + s =~= s);
    } else {
        assert((before + s)[0] == before[0]);
        assert((before + s).skip(1) =~= before.skip(1) + s);
        assert(all_in(before.skip(1), set)) by {
            assert forall|i: int| 0 <= i < before.skip(1).len() implies set.has(
                #[trigger] before.skip(1)[i],
            ) by {
                assert(before.skip(1)[i] == before[i + 1]);
            }
        }
        law_trim_start_run(before.skip(1), s, set);
    }
}

/// Trailing characters in the set make no difference.
pub proof fn law_trim_end_run(s: Seq<char>, after: Seq<char>, set: CharSet)
    requires
        all_in(after, set),
    ensures
        trim_end_of(s + after, set) == trim_end_of(s, set),
    decreases after.len(),
{
    if after.len() == 0 {
        assert(s + after =~= s);
    } else {
        assert((s + after).last() == after.last());
        assert(set.has(after[after.len() - 1]));
        assert((s + after).drop_last() =~= s + after.drop_last());
        assert(all_in(after.drop_last(), set)) by {
            assert forall|i: int| 0 <= i < after.drop_last().len() implies set.has(
                #[trigger] after.drop_last()[i],
            ) by {
                assert(after.drop_last()[i] == after[i]);
            }
        }
        law_trim_end_run(s, after.drop_last(), set);
    }
}

/// Trimming takes what stands around a text, and leaves the text.
pub proof fn law_trim_around(before: Seq<char>, s: Seq<char>, after: Seq<char>, set: CharSet)
    requires
        all_in(before, set),
        all_in(after, set),
        bare(s, set),
    ensures
        trim_set(before + s + after, set) == s,
{
    assert(before + s + after =~= before + (s + after));
    assert((s + after)[0] == s[0]);
    law_trim_start_run(before, s + after, set);
    law_trim_end_run(s, after, set);
}

/// A text with nothing to trim around it stays as it is.
pub proof fn law_bare_stays(s: Seq<char>, set: CharSet)
    requires
        bare(s, set),
    ensures
        trim_set(s, set) == s,
        trim_start_of(s, set) == s,
        trim_end_of(s, set) == s,
{
}

/// Trimming what is trimmed changes nothing, and what is left is bare or empty.
pub proof fn law_trim_twice(s: Seq<char>, set: CharSet)
    ensures
        trim_set(trim_set(s, set), set) == trim_set(s, set),
        trim_set(s, set).len() > 0 ==> bare(trim_set(s, set), set),
{
    let t = trim_start_of(s, set);
    lemma_trim_start(s, set);
    lemma_trim_end(t, set);
    if trim_set(s, set).len() > 0 {
        assert(trim_set(s, set)[0] == t[0]);
    }
}

// Words.
/// The words of a text, a word and another text are the words of the one, the word,
/// and the words of the other, where white space parts them.
pub proof fn law_words_around(before: Seq<char>, word: Seq<char>, after: Seq<char>)
    requires
        word.len() > 0,
        forall|i: int| 0 <= i < word.len() ==> !CharSet::Space.has(#[trigger] word[i]),
        before.len() > 0 ==> CharSet::Space.has(before.last()),
        after.len() > 0 ==> CharSet::Space.has(after[0]),
    ensures
        words_of(before + word + after) == words_of(before) + seq![word] + words_of(after),
    decreases before.len(),
{
    let set = CharSet::Space;
    let s = before + word + after;
    if before.len() == 0 {
        assert(s =~= word + after);
        assert(s[0] == word[0]);
        assert(trim_start_of(s, set) == s);
        let n = span_until(s, set) as int;
        lemma_span_until(s, set);
        if n < word.len() {
            assert(s[n] == word[n]);
        } else if n > word.len() {
            assert(s[word.len() as int] == after[0]);
        }
        assert(s.take(n) =~= word);
        assert(s.skip(n) =~= after);
        assert(trim_start_of(before, set) =~= before);
        assert(words_of(before) =~= seq![]);
        assert(words_of(s) =~= words_of(before) + seq![word] + words_of(after));
    } else if set.has(before[0]) {
        let rest = before.skip(1);
        assert(s[0] == before[0]);
        assert(s.skip(1) =~= rest + word + after);
        if rest.len() > 0 {
            assert(rest.last() == before.last());
        }
        law_words_around(rest, word, after);
        lemma_words_skip_space(s);
        lemma_words_skip_space(before);
    } else {
        let n = span_until(before, set) as int;
        lemma_span_until(before, set);
        assert(n < before.len()) by {
            if n >= before.len() {
                assert(!set.has(before[before.len() - 1]));
            }
        }
        assert(n > 0);
        assert(trim_start_of(before, set) == before);
        assert(s[0] == before[0]);
        assert(trim_start_of(s, set) == s);
        let m = span_until(s, set) as int;
        lemma_span_until(s, set);
        if m < n {
            assert(s[m] == before[m]);
        } else if m > n {
            assert(s[n] == before[n]);
        }
        let rest = before.skip(n);
        assert(s.skip(n) =~= rest + word + after);
        assert(s.take(n) =~= before.take(n));
        assert(rest.last() == before.last());
        law_words_around(rest, word, after);
        assert(words_of(s) =~= seq![before.take(n)] + words_of(rest + word + after));
        assert(words_of(before) =~= seq![before.take(n)] + words_of(rest));
        assert(words_of(s) =~= words_of(before) + seq![word] + words_of(after));
    }
}

proof fn lemma_words_skip_space(s: Seq<char>)
    requires
        s.len() > 0,
        CharSet::Space.has(s[0]),
    ensures
        words_of(s) == words_of(s.skip(1)),
{
    assert(trim_start_of(s, CharSet::Space) == trim_start_of(s.skip(1), CharSet::Space));
}

/// The words of a text are not empty, hold no white space, and stand in the text.
pub proof fn law_words_are_words(s: Seq<char>, k: int)
    requires
        0 <= k < words_of(s).len(),
    ensures
        words_of(s)[k].len() > 0,
        forall|i: int|
            0 <= i < words_of(s)[k].len() ==> !CharSet::Space.has(#[trigger] words_of(s)[k][i]),
        contains_text(s, words_of(s)[k]),
    decreases s.len(),
{
    let set = CharSet::Space;
    let t = trim_start_of(s, set);
    lemma_trim_start(s, set);
    crate::text::lemma_trim_start_skips(s, set);
    let n = span_until(t, set) as int;
    lemma_span_until(t, set);
    assert(n > 0);
    let start = s.len() - t.len();
    let w = words_of(s)[k];
    if k == 0 {
        assert(w == t.take(n));
        assert forall|i: int| 0 <= i < w.len() implies !set.has(#[trigger] w[i]) by {
            assert(w[i] == t[i]);
        }
        assert(s.subrange(start, start + n) =~= w);
        assert(matches_at(s, w, start));
    } else {
        assert(w == words_of(t.skip(n))[k - 1]);
        law_words_are_words(t.skip(n), k - 1);
        let i = choose|i: int| matches_at(t.skip(n), w, i);
        assert(s.subrange(start + n + i, start + n + i + w.len()) =~= t.skip(n).subrange(
            i,
            i + w.len(),
        ));
        assert(matches_at(s, w, start + n + i));
    }
}

// Repeated texts.
/// Whether the text at a place does not occur earlier.
pub open spec fn is_new(s: Seq<Seq<char>>, i: int) -> bool {
    0 <= i < s.len() && forall|j: int| 0 <= j < i ==> #[trigger] s[j] != s[i]
}

/// Whether `places` are those of the texts that do not occur earlier, in rising order.
pub open spec fn new_places(s: Seq<Seq<char>>, places: Seq<int>) -> bool {
    &&& forall|k: int| 0 <= k < places.len() ==> is_new(s, #[trigger] places[k])
    &&& forall|k: int, l: int|
        0 <= k < l < places.len() ==> #[trigger] places[k] < #[trigger] places[l]
    &&& forall|i: int| #[trigger] is_new(s, i) ==> places.contains(i)
}

proof fn lemma_is_new(s: Seq<Seq<char>>, i: int)
    requires
        0 <= i < s.len() - 1,
    ensures
        is_new(s.drop_last(), i) == is_new(s, i),
{
    let rest = s.drop_last();
    assert(forall|j: int| 0 <= j <= i ==> rest[j] == s[j]);
    if is_new(s, i) {
        assert forall|j: int| 0 <= j < i implies #[trigger] rest[j] != rest[i] by {
            assert(s[j] != s[i]);
        }
    }
    if is_new(rest, i) {
        assert forall|j: int| 0 <= j < i implies #[trigger] s[j] != s[i] by {
            assert(rest[j] != rest[i]);
        }
    }
}

/// The first places are the places of the texts that do not occur earlier.
pub proof fn law_new_places(s: Seq<Seq<char>>, places: Seq<int>)
    requires
        new_places(s, places),
    ensures
        first_places(s) == places,
    decreases s.len(),
{
    if s.len() == 0 {
        if places.len() > 0 {
            assert(is_new(s, places[0]));
        }
        assert(first_places(s) =~= places);
    } else {
        let rest = s.drop_last();
        let last = s.len() - 1;
        let again = rest.contains(s.last());
        let fewer = if again {
            places
        } else {
            places.drop_last()
        };
        if again {
            let j = choose|j: int| 0 <= j < rest.len() && rest[j] == s.last();
            assert(s[j] == s[last]);
            assert(!is_new(s, last));
        } else {
            assert forall|j: int| 0 <= j < last implies #[trigger] s[j] != s[last] by {
                assert(rest[j] == s[j]);
            }
            assert(is_new(s, last));
            let k = choose|k: int| 0 <= k < places.len() && places[k] == last;
            assert(is_new(s, places[places.len() - 1]));
            assert(k == places.len() - 1);
        }
        assert forall|k: int| 0 <= k < fewer.len() implies is_new(rest, #[trigger] fewer[k]) by {
            assert(fewer[k] == places[k]);
            assert(is_new(s, places[k]));
            if !again {
                assert(places[k] < places[places.len() - 1]);
            }
            lemma_is_new(s, places[k]);
        }
        assert forall|i: int| #[trigger] is_new(rest, i) implies fewer.contains(i) by {
            lemma_is_new(s, i);
            let m = choose|m: int| 0 <= m < places.len() && places[m] == i;
            assert(fewer[m] == i);
        }
        law_new_places(rest, fewer);
        assert(first_places(s) =~= places);
    }
}

// Containing.
/// The first place at which a text stands in another is where it is found.
pub proof fn law_first_match(s: Seq<char>, t: Seq<char>, n: int)
    requires
        matches_at(s, t, n),
        forall|j: int| 0 <= j < n ==> !matches_at(s, t, j),
    ensures
        find_text(s, t) == Some(n),
{
    lemma_find_text(s, t);
    assert(contains_text(s, t));
    let k = find_text(s, t)->0;
    if k < n {
        assert(!matches_at(s, t, k));
    }
    if n < k {
        assert(!matches_at(s, t, n));
    }
}

/// A text that is put between two others is contained in the whole.
pub proof fn law_middle_is_contained(a: Seq<char>, b: Seq<char>, c: Seq<char>)
    ensures
        contains_text(a + b + c, b),
{
    assert((a + b + c).subrange(a.len() as int, a.len() as int + b.len()) =~= b);
    assert(matches_at(a + b + c, b, a.len() as int));
}

/// What a part of a text contains, the text contains.
pub proof fn law_containing_passes_on(s: Seq<char>, part: Seq<char>, t: Seq<char>)
    requires
        contains_text(s, part),
        contains_text(part, t),
    ensures
        contains_text(s, t),
{
    let i = choose|i: int| matches_at(s, part, i);
    let j = choose|j: int| matches_at(part, t, j);
    assert(s.subrange(i + j, i + j + t.len()) =~= s.subrange(i, i + part.len()).subrange(
        j,
        j + t.len(),
    ));
    assert(matches_at(s, t, i + j));
}

/// Each of the parts is contained in what they are joined to.
pub proof fn law_joined_contains(parts: Seq<Seq<char>>, sep: Seq<char>, k: int)
    requires
        0 <= k < parts.len(),
    ensures
        contains_text(joined(parts, sep), parts[k]),
    decreases parts.len(),
{
    let whole = joined(parts, sep);
    if parts.len() == 1 {
        law_middle_is_contained(seq![], parts[0], seq![]);
        assert(seq![] + parts[0] + seq![] =~= whole);
    } else if k == parts.len() - 1 {
        law_middle_is_contained(joined(parts.drop_last(), sep) + sep, parts[k], seq![]);
        assert(joined(parts.drop_last(), sep) + sep + parts[k] + seq![] =~= whole);
    } else {
        law_joined_contains(parts.drop_last(), sep, k);
        let front = joined(parts.drop_last(), sep);
        law_middle_is_contained(seq![], front, sep + parts.last());
        assert(seq![] + front + (sep + parts.last()) =~= whole);
        law_containing_passes_on(whole, front, parts[k]);
    }
}

} // verus!
