//! What a search in the memory finds, and in which order, said of the notes and turns
//! themselves.
use crate::number::decimal;
use crate::outside::unicode_lower;
use crate::state::{
    lines_at, long_tail, ranking, score, scores, searched_lines, searched_texts, StateView,
};
use crate::state_laws::{law_ranking, law_score};
use crate::text::{contains_text, words_of};
use vstd::prelude::*;
use vstd::set_lib::{lemma_int_range, set_int_range};

verus! {

// What is searched.
/// How many notes and turns there are. They are counted through: the notes first, then
/// the turns, whoever said them.
pub open spec fn entries(s: StateView) -> nat {
    s.memories.len() + s.conversations.len()
}

/// What was noted or said.
pub open spec fn entry_text(s: StateView, x: int) -> Seq<char> {
    if x < s.memories.len() {
        s.memories[x].text
    } else {
        s.conversations[x - s.memories.len()].text
    }
}

/// How a note or a turn is shown.
pub open spec fn entry_line(s: StateView, x: int) -> Seq<char> {
    if x < s.memories.len() {
        let m = s.memories[x];
        "memory#"@ + decimal(m.id as nat) + " ["@ + m.source + "] "@ + m.text
    } else {
        let c = s.conversations[x - s.memories.len()];
        "conversation#"@ + decimal(c.id as nat) + " ["@ + c.session + ":"@ + c.agent_id + ":"@
            + c.role + "] "@ + c.text
    }
}

/// Whether the `t`-th word of a query stands in a note or turn, in any case of letters.
pub open spec fn has_word(s: StateView, query: Seq<char>, x: int, t: int) -> bool {
    contains_text(unicode_lower(entry_text(s, x)), words_of(unicode_lower(query))[t])
}

/// How many words of a query stand in a note or turn.
pub open spec fn words_in(s: StateView, query: Seq<char>, x: int) -> nat {
    set_int_range(0, words_of(unicode_lower(query)).len() as int).filter(
        |t: int| has_word(s, query, x, t),
    ).len()
}

/// The notes and turns that go before another: those with more words of the query, and
/// of those with as many the earlier ones.
pub open spec fn going_before(s: StateView, query: Seq<char>, x: int) -> Set<int> {
    set_int_range(0, entries(s) as int).filter(
        |y: int|
            words_in(s, query, y) > words_in(s, query, x) || (words_in(s, query, y) == words_in(
                s,
                query,
                x,
            ) && y < x),
    )
}

/// The notes and turns in which some word of the query stands.
pub open spec fn matching(s: StateView, query: Seq<char>) -> Set<int> {
    set_int_range(0, entries(s) as int).filter(|x: int| words_in(s, query, x) > 0)
}

proof fn lemma_score_counts(text: Seq<char>, terms: Seq<Seq<char>>)
    ensures
        set_int_range(0, terms.len() as int).filter(
            |t: int| contains_text(text, terms[t]),
        ).len() == score(text, terms),
    decreases terms.len(),
{
    let n = terms.len() as int;
    let all = set_int_range(0, n).filter(|t: int| contains_text(text, terms[t]));
    lemma_int_range(0, n);
    if n == 0 {
        assert(all =~= Set::empty());
    } else {
        let rest = terms.drop_last();
        let below = set_int_range(0, n - 1).filter(|t: int| contains_text(text, rest[t]));
        lemma_int_range(0, n - 1);
        lemma_score_counts(text, rest);
        assert forall|t: int| 0 <= t < n - 1 implies rest[t] == #[trigger] terms[t] by {}
        if contains_text(text, terms.last()) {
            assert(all =~= below.insert(n - 1));
        } else {
            assert(all =~= below);
        }
    }
}

proof fn lemma_words_in(s: StateView, query: Seq<char>, x: int)
    requires
        0 <= x < entries(s),
    ensures
        words_in(s, query, x) == scores(searched_texts(s), words_of(unicode_lower(query)))[x],
        searched_lines(s)[x] == entry_line(s, x),
        searched_texts(s)[x] == unicode_lower(entry_text(s, x)),
{
    let terms = words_of(unicode_lower(query));
    let text = unicode_lower(entry_text(s, x));
    lemma_score_counts(text, terms);
    assert(set_int_range(0, terms.len() as int).filter(|t: int| has_word(s, query, x, t))
        =~= set_int_range(0, terms.len() as int).filter(|t: int| contains_text(text, terms[t])));
}

proof fn lemma_some_word(s: StateView, query: Seq<char>, x: int, t: int)
    requires
        0 <= t < words_of(unicode_lower(query)).len(),
        has_word(s, query, x, t),
    ensures
        words_in(s, query, x) > 0,
{
    let n = words_of(unicode_lower(query)).len() as int;
    let all = set_int_range(0, n).filter(|t: int| has_word(s, query, x, t));
    lemma_int_range(0, n);
    assert(all.contains(t));
    if all.len() == 0 {
        assert(all =~= Set::empty());
    }
}

proof fn lemma_order(s: StateView, query: Seq<char>)
    ensures
        ({
            let order = ranking(
                scores(searched_texts(s), words_of(unicode_lower(query))),
                words_of(unicode_lower(query)).len(),
            );
            &&& forall|i: int|
                0 <= i < order.len() ==> 0 <= #[trigger] order[i] < entries(s) && words_in(
                    s,
                    query,
                    order[i],
                ) > 0
            &&& forall|x: int|
                0 <= x < entries(s) && #[trigger] words_in(s, query, x) > 0 ==> order.contains(x)
            &&& forall|i: int, j: int|
                0 <= i < j < order.len() ==> going_before(s, query, #[trigger] order[j]).contains(
                    #[trigger] order[i],
                )
        }),
{
    let terms = words_of(unicode_lower(query));
    let marks = scores(searched_texts(s), terms);
    let order = ranking(marks, terms.len());
    law_ranking(marks, terms.len());
    assert(marks.len() == entries(s));
    assert forall|i: int| 0 <= i < order.len() implies 0 <= #[trigger] order[i] < entries(s)
        && words_in(s, query, order[i]) > 0 by {
        lemma_words_in(s, query, order[i]);
    }
    assert forall|x: int|
        0 <= x < entries(s) && #[trigger] words_in(s, query, x) > 0 implies order.contains(x) by {
        lemma_words_in(s, query, x);
        law_score(searched_texts(s)[x], terms);
        assert(1 <= marks[x] <= terms.len());
    }
    assert forall|i: int, j: int| 0 <= i < j < order.len() implies going_before(
        s,
        query,
        #[trigger] order[j],
    ).contains(#[trigger] order[i]) by {
        lemma_words_in(s, query, order[i]);
        lemma_words_in(s, query, order[j]);
    }
}

// What is found.
/// A note or turn in which a word of the query stands is found at the place after all
/// those that go before it, unless that place is past the limit.
pub proof fn law_search_puts_matches_in_place(
    s: StateView,
    query: Seq<char>,
    limit: nat,
    x: int,
    t: int,
)
    requires
        0 <= x < entries(s),
        0 <= t < words_of(unicode_lower(query)).len(),
        has_word(s, query, x, t),
    ensures
        going_before(s, query, x).finite(),
        going_before(s, query, x).len() < limit ==> going_before(s, query, x).len() < long_tail(
            s,
            query,
            limit,
        ).len() && long_tail(s, query, limit)[going_before(s, query, x).len() as int]
            == entry_line(s, x),
{
    let terms = words_of(unicode_lower(query));
    let order = ranking(scores(searched_texts(s), terms), terms.len());
    lemma_order(s, query);
    lemma_some_word(s, query, x, t);
    lemma_words_in(s, query, x);
    lemma_int_range(0, entries(s) as int);
    let i = choose|i: int| 0 <= i < order.len() && order[i] == x;
    let above = going_before(s, query, x);
    let first = order.take(i);
    assert(above =~= first.to_set()) by {
        assert forall|y: int| above.contains(y) implies first.to_set().contains(y) by {
            assert(words_in(s, query, y) > 0);
            let j = choose|j: int| 0 <= j < order.len() && order[j] == y;
            if j > i {
                assert(going_before(s, query, order[j]).contains(order[i]));
            }
            assert(j < i);
            assert(first[j] == y);
        }
        assert forall|y: int| first.to_set().contains(y) implies above.contains(y) by {
            let j = choose|j: int| 0 <= j < first.len() && first[j] == y;
            assert(order[j] == y);
            assert(going_before(s, query, order[i]).contains(order[j]));
        }
    }
    assert(first.no_duplicates()) by {
        assert forall|a: int, b: int| 0 <= a < b < first.len() implies first[a] != first[b] by {
            assert(going_before(s, query, order[b]).contains(order[a]));
        }
    }
    first.unique_seq_to_set();
    assert(above.len() == i);
    let lines = lines_at(searched_lines(s), order);
    assert(lines[i] == entry_line(s, x));
}

/// A search finds as many notes and turns as there are with a word of the query in
/// them, or as many as the limit says where there are more.
pub proof fn law_search_finds_so_many(s: StateView, query: Seq<char>, limit: nat)
    ensures
        matching(s, query).finite(),
        long_tail(s, query, limit).len() == if matching(s, query).len() > limit {
            limit
        } else {
            matching(s, query).len()
        },
{
    let terms = words_of(unicode_lower(query));
    let order = ranking(scores(searched_texts(s), terms), terms.len());
    lemma_order(s, query);
    lemma_int_range(0, entries(s) as int);
    assert(matching(s, query) =~= order.to_set()) by {
        assert forall|x: int| matching(s, query).contains(x) implies order.to_set().contains(
            x,
        ) by {
            assert(words_in(s, query, x) > 0);
        }
        assert forall|x: int| order.to_set().contains(x) implies matching(s, query).contains(
            x,
        ) by {
            let i = choose|i: int| 0 <= i < order.len() && order[i] == x;
            assert(0 <= order[i] < entries(s));
        }
    }
    assert(order.no_duplicates()) by {
        assert forall|a: int, b: int| 0 <= a < b < order.len() implies order[a] != order[b] by {
            assert(going_before(s, query, order[b]).contains(order[a]));
        }
    }
    order.unique_seq_to_set();
}

/// Every turn in whose text a word of the query stands, in any case of letters, is
/// found where the limit leaves room for all, whatever the turn's role, session and
/// agent are.
pub proof fn law_turns_are_found(s: StateView, query: Seq<char>, limit: nat, i: int, t: int)
    requires
        0 <= i < s.conversations.len(),
        0 <= t < words_of(unicode_lower(query)).len(),
        contains_text(
            unicode_lower(s.conversations[i].text),
            words_of(unicode_lower(query))[t],
        ),
        s.memories.len() + s.conversations.len() <= limit,
    ensures
        ({
            let c = s.conversations[i];
            long_tail(s, query, limit).contains(
                "conversation#"@ + decimal(c.id as nat) + " ["@ + c.session + ":"@ + c.agent_id
                    + ":"@ + c.role + "] "@ + c.text,
            )
        }),
{
    let x = s.memories.len() + i;
    assert(has_word(s, query, x, t));
    lemma_room(s, query, x);
    law_search_puts_matches_in_place(s, query, limit, x, t);
    assert(entry_line(s, x) == long_tail(s, query, limit)[going_before(s, query, x).len() as int]);
}

/// Every note in whose text a word of the query stands, in any case of letters, is
/// found where the limit leaves room for all.
pub proof fn law_notes_are_found(s: StateView, query: Seq<char>, limit: nat, i: int, t: int)
    requires
        0 <= i < s.memories.len(),
        0 <= t < words_of(unicode_lower(query)).len(),
        contains_text(unicode_lower(s.memories[i].text), words_of(unicode_lower(query))[t]),
        s.memories.len() + s.conversations.len() <= limit,
    ensures
        ({
            let m = s.memories[i];
            long_tail(s, query, limit).contains(
                "memory#"@ + decimal(m.id as nat) + " ["@ + m.source + "] "@ + m.text,
            )
        }),
{
    assert(has_word(s, query, i, t));
    lemma_room(s, query, i);
    law_search_puts_matches_in_place(s, query, limit, i, t);
    assert(entry_line(s, i) == long_tail(s, query, limit)[going_before(s, query, i).len() as int]);
}

proof fn lemma_room(s: StateView, query: Seq<char>, x: int)
    requires
        0 <= x < entries(s),
    ensures
        going_before(s, query, x).len() < entries(s),
{
    let all = set_int_range(0, entries(s) as int);
    lemma_int_range(0, entries(s) as int);
    let above = going_before(s, query, x);
    assert(above.subset_of(all.remove(x)));
    vstd::set_lib::lemma_len_subset(above, all.remove(x));
}

/// Nothing is found but notes and turns in which a word of the query stands.
pub proof fn law_nothing_else_is_found(s: StateView, query: Seq<char>, limit: nat, k: int)
    requires
        0 <= k < long_tail(s, query, limit).len(),
    ensures
        exists|x: int, t: int|
            0 <= x < entries(s) && 0 <= t < words_of(unicode_lower(query)).len()
                && #[trigger] has_word(s, query, x, t) && long_tail(s, query, limit)[k]
                == entry_line(s, x),
{
    let terms = words_of(unicode_lower(query));
    let order = ranking(scores(searched_texts(s), terms), terms.len());
    lemma_order(s, query);
    let x = order[k];
    lemma_words_in(s, query, x);
    assert(long_tail(s, query, limit)[k] == lines_at(searched_lines(s), order)[k]);
    law_score(searched_texts(s)[x], terms);
    let t = choose|t: int|
        0 <= t < terms.len() && contains_text(searched_texts(s)[x], #[trigger] terms[t]);
    assert(has_word(s, query, x, t));
}

/// A smaller limit gives the start of what a larger one gives.
pub proof fn law_limits_cut_the_end(s: StateView, query: Seq<char>, less: nat, more: nat)
    requires
        less <= more,
    ensures
        long_tail(s, query, less) == long_tail(s, query, more).take(
            if long_tail(s, query, more).len() < less {
                long_tail(s, query, more).len() as int
            } else {
                less as int
            },
        ),
{
    let a = long_tail(s, query, less);
    let b = long_tail(s, query, more);
    assert(a =~= b.take(
        if b.len() < less {
            b.len() as int
        } else {
            less as int
        },
    ));
}

} // verus!
