//! Texts as sequences of characters, and the operations on them that the rest
//! of the library is written with.
use vstd::prelude::*;

verus! {

/// `String::push` appends the given character to the end of the string.
pub assume_specification[ String::push ](s: &mut String, ch: char)
    ensures
        final(s)@ == old(s)@.push(ch),
;

/// The characters with the Unicode property White_Space.
pub open spec fn is_space(c: char) -> bool {
    let n = c as u32;
    ||| 0x09 <= n <= 0x0d
    ||| n == 0x20
    ||| n == 0x85
    ||| n == 0xa0
    ||| n == 0x1680
    ||| 0x2000 <= n <= 0x200a
    ||| n == 0x2028
    ||| n == 0x2029
    ||| n == 0x202f
    ||| n == 0x205f
    ||| n == 0x3000
}

/// Whether `c` is white space.
pub fn char_is_space(c: char) -> (r: bool)
    ensures
        r == is_space(c),
{
    let n: u32 = c as u32;
    (0x09 <= n && n <= 0x0d) || n == 0x20 || n == 0x85 || n == 0xa0 || n == 0x1680 || (0x2000 <= n
        && n <= 0x200a) || n == 0x2028 || n == 0x2029 || n == 0x202f || n == 0x205f || n == 0x3000
}

/// A set of characters to trim by or to look for.
pub enum CharSet<'a> {
    /// White space.
    Space,
    /// The characters of a text.
    OneOf(&'a str),
}

impl<'a> CharSet<'a> {
    pub open spec fn has(self, c: char) -> bool {
        match self {
            CharSet::Space => is_space(c),
            CharSet::OneOf(s) => s@.contains(c),
        }
    }

    /// Whether `c` is in the set.
    pub fn includes(&self, c: char) -> (r: bool)
        ensures
            r == self.has(c),
    {
        match self {
            CharSet::Space => char_is_space(c),
            CharSet::OneOf(s) => holds_char(s, c),
        }
    }
}

/// The views of a list of strings.
pub open spec fn texts(v: Seq<String>) -> Seq<Seq<char>> {
    Seq::new(v.len(), |i: int| v[i]@)
}

/// The view of an optional string.
pub open spec fn opt_text(o: Option<String>) -> Option<Seq<char>> {
    match o {
        Some(s) => Some(s@),
        None => None,
    }
}

/// The view of an optional string slice.
pub open spec fn opt_str(o: Option<&str>) -> Option<Seq<char>> {
    match o {
        Some(s) => Some(s@),
        None => None,
    }
}

/// The characters of a text.
pub fn chars_of(s: &str) -> (r: Vec<char>)
    ensures
        r@ == s@,
{
    let mut out: Vec<char> = Vec::new();
    for c in it: s.chars()
        invariant
            it.seq() == s@,
            out@ == it.seq().take(it.index()),
    {
        out.push(c);
        assert(it.seq().take(it.index() + 1) == it.seq().take(it.index()).push(c));
    }
    assert(s@.take(s@.len() as int) == s@);
    out
}

/// Whether `c` occurs in `s`.
pub fn holds_char(s: &str, c: char) -> (r: bool)
    ensures
        r == s@.contains(c),
{
    let chars = chars_of(s);
    let mut i: usize = 0;
    while i < chars.len()
        invariant
            i <= chars@.len(),
            chars@ == s@,
            forall|j: int| 0 <= j < i ==> chars@[j] != c,
        decreases chars@.len() - i,
    {
        if chars[i] == c {
            assert(s@[i as int] == c);
            return true;
        }
        i += 1;
    }
    false
}

/// A copy of a text.
pub fn copy_text(s: &str) -> (r: String)
    ensures
        r@ == s@,
{
    s.to_owned()
}

/// A copy of an optional text.
pub fn copy_opt(o: &Option<String>) -> (r: Option<String>)
    ensures
        r == *o,
        opt_text(r) == opt_text(*o),
{
    match o {
        Some(s) => Some(s.clone()),
        None => None,
    }
}

/// An optional string as an optional slice.
pub fn as_opt_str(o: &Option<String>) -> (r: Option<&str>)
    ensures
        opt_str(r) == opt_text(*o),
{
    match o {
        Some(s) => Some(s.as_str()),
        None => None,
    }
}

/// Whether two texts are the same.
pub fn same_text(a: &str, b: &str) -> (r: bool)
    ensures
        r == (a@ == b@),
{
    let x = chars_of(a);
    let y = chars_of(b);
    if x.len() != y.len() {
        return false;
    }
    let mut i: usize = 0;
    while i < x.len()
        invariant
            i <= x@.len(),
            x@.len() == y@.len(),
            x@ == a@,
            y@ == b@,
            forall|j: int| 0 <= j < i ==> x@[j] == y@[j],
        decreases x@.len() - i,
    {
        if x[i] != y[i] {
            assert(a@[i as int] != b@[i as int]);
            return false;
        }
        i += 1;
    }
    assert(a@ =~= b@);
    true
}

/// Whether `list` holds the text `s`.
pub fn holds_text(list: &Vec<String>, s: &str) -> (r: bool)
    ensures
        r == texts(list@).contains(s@),
{
    let mut i: usize = 0;
    while i < list.len()
        invariant
            i <= list@.len(),
            forall|j: int| 0 <= j < i ==> list@[j]@ != s@,
        decreases list@.len() - i,
    {
        if same_text(list[i].as_str(), s) {
            assert(texts(list@)[i as int] == s@);
            return true;
        }
        i += 1;
    }
    false
}

// Case.
/// `c` with an ASCII capital made small.
pub open spec fn lower_char(c: char) -> char {
    if 'A' <= c <= 'Z' {
        ((c as u8) + 32) as u8 as char
    } else {
        c
    }
}

/// A text with its ASCII capitals made small.
pub open spec fn ascii_lower(s: Seq<char>) -> Seq<char> {
    Seq::new(s.len(), |i: int| lower_char(s[i]))
}

fn char_to_lower(c: char) -> (r: char)
    ensures
        r == lower_char(c),
{
    if 'A' <= c && c <= 'Z' {
        let n: u8 = c as u8;
        (n + 32) as char
    } else {
        c
    }
}

/// A text with its ASCII capitals made small.
pub fn to_ascii_lower(s: &str) -> (r: String)
    ensures
        r@ == ascii_lower(s@),
{
    let chars = chars_of(s);
    let mut out = String::new();
    let mut i: usize = 0;
    while i < chars.len()
        invariant
            i <= chars@.len(),
            chars@ == s@,
            out@ == ascii_lower(s@).take(i as int),
        decreases chars@.len() - i,
    {
        out.push(char_to_lower(chars[i]));
        assert(ascii_lower(s@).take(i + 1) == ascii_lower(s@).take(i as int).push(
            ascii_lower(s@)[i as int],
        ));
        i += 1;
    }
    assert(ascii_lower(s@).take(s@.len() as int) == ascii_lower(s@));
    out
}

/// Whether two texts differ at most in the case of ASCII letters.
pub open spec fn same_but_case(a: Seq<char>, b: Seq<char>) -> bool {
    ascii_lower(a) == ascii_lower(b)
}

/// Whether two texts differ at most in the case of ASCII letters.
pub fn eq_ignore_case(a: &str, b: &str) -> (r: bool)
    ensures
        r == same_but_case(a@, b@),
{
    same_text(to_ascii_lower(a).as_str(), to_ascii_lower(b).as_str())
}

// Trimming.
/// `s` without its leading characters that are in `set`.
pub open spec fn trim_start_of(s: Seq<char>, set: CharSet) -> Seq<char>
    decreases s.len(),
{
    if s.len() > 0 && set.has(s[0]) {
        trim_start_of(s.skip(1), set)
    } else {
        s
    }
}

/// `s` without its trailing characters that are in `set`.
pub open spec fn trim_end_of(s: Seq<char>, set: CharSet) -> Seq<char>
    decreases s.len(),
{
    if s.len() > 0 && set.has(s.last()) {
        trim_end_of(s.drop_last(), set)
    } else {
        s
    }
}

/// `s` without its leading and trailing characters that are in `set`.
pub open spec fn trim_set(s: Seq<char>, set: CharSet) -> Seq<char> {
    trim_end_of(trim_start_of(s, set), set)
}

/// `s` without white space around it.
pub open spec fn trimmed(s: Seq<char>) -> Seq<char> {
    trim_set(s, CharSet::Space)
}

/// `s` without its leading characters that are in `set`.
pub fn trim_start_matches<'a>(s: &'a str, set: &CharSet) -> (r: &'a str)
    ensures
        r@ == trim_start_of(s@, *set),
{
    let chars = chars_of(s);
    let n: usize = chars.len();
    let mut i: usize = 0;
    assert(s@.skip(0) == s@);
    while i < n && set.includes(chars[i])
        invariant
            i <= n,
            n == chars@.len(),
            chars@ == s@,
            trim_start_of(s@, *set) == trim_start_of(s@.skip(i as int), *set),
        decreases n - i,
    {
        assert(s@.skip(i as int).skip(1) == s@.skip(i + 1));
        i += 1;
    }
    assert(s@.skip(i as int) == s@.subrange(i as int, n as int));
    s.substring_char(i, n)
}

/// `s` without its trailing characters that are in `set`.
pub fn trim_end_matches<'a>(s: &'a str, set: &CharSet) -> (r: &'a str)
    ensures
        r@ == trim_end_of(s@, *set),
{
    let chars = chars_of(s);
    let mut n: usize = chars.len();
    assert(s@.take(n as int) == s@);
    while n > 0 && set.includes(chars[n - 1])
        invariant
            n <= chars@.len(),
            chars@ == s@,
            trim_end_of(s@, *set) == trim_end_of(s@.take(n as int), *set),
        decreases n,
    {
        assert(s@.take(n as int).drop_last() == s@.take(n - 1));
        n -= 1;
    }
    assert(s@.take(n as int) == s@.subrange(0, n as int));
    s.substring_char(0, n)
}

/// `s` without its leading and trailing characters that are in `set`.
pub fn trim_matches<'a>(s: &'a str, set: &CharSet) -> (r: &'a str)
    ensures
        r@ == trim_set(s@, *set),
{
    trim_end_matches(trim_start_matches(s, set), set)
}

/// `s` without white space around it.
pub fn trim<'a>(s: &'a str) -> (r: &'a str)
    ensures
        r@ == trimmed(s@),
{
    trim_matches(s, &CharSet::Space)
}

/// An optional text without white space around it, where something is left.
pub open spec fn present(o: Option<Seq<char>>) -> Option<Seq<char>> {
    match o {
        Some(s) => if trimmed(s).len() == 0 {
            None
        } else {
            Some(trimmed(s))
        },
        None => None,
    }
}

/// An optional text without white space around it, where something is left.
pub fn trim_present<'a>(o: Option<&'a str>) -> (r: Option<&'a str>)
    ensures
        opt_str(r) == present(opt_str(o)),
{
    match o {
        Some(s) => {
            let t = trim(s);
            if t.is_empty() {
                None
            } else {
                Some(t)
            }
        },
        None => None,
    }
}

// Parts of a text.
/// Whether `p` stands at the start of `s`.
pub open spec fn has_prefix(s: Seq<char>, p: Seq<char>) -> bool {
    p.len() <= s.len() && s.take(p.len() as int) == p
}

/// What follows `p` at the start of `s`.
pub open spec fn after_prefix(s: Seq<char>, p: Seq<char>) -> Option<Seq<char>> {
    if has_prefix(s, p) {
        Some(s.skip(p.len() as int))
    } else {
        None
    }
}

/// Whether `t` stands in `s` at index `i`.
pub open spec fn matches_at(s: Seq<char>, t: Seq<char>, i: int) -> bool {
    0 <= i && i + t.len() <= s.len() && s.subrange(i, i + t.len()) == t
}

/// Whether `t` occurs in `s`.
pub open spec fn contains_text(s: Seq<char>, t: Seq<char>) -> bool {
    exists|i: int| matches_at(s, t, i)
}

/// The least index from `i` on at which `t` stands in `s`.
pub open spec fn find_from(s: Seq<char>, t: Seq<char>, i: int) -> Option<int>
    decreases s.len() - i + 1,
{
    if i < 0 || i + t.len() > s.len() {
        None
    } else if matches_at(s, t, i) {
        Some(i)
    } else {
        find_from(s, t, i + 1)
    }
}

/// The least index at which `t` stands in `s`.
pub open spec fn find_text(s: Seq<char>, t: Seq<char>) -> Option<int> {
    find_from(s, t, 0)
}

proof fn lemma_find_from(s: Seq<char>, t: Seq<char>, i: int)
    requires
        0 <= i,
    ensures
        match find_from(s, t, i) {
            Some(k) => i <= k && matches_at(s, t, k) && forall|j: int|
                i <= j < k ==> !matches_at(s, t, j),
            None => forall|j: int| i <= j ==> !matches_at(s, t, j),
        },
    decreases s.len() - i + 1,
{
    if i + t.len() <= s.len() && !matches_at(s, t, i) {
        lemma_find_from(s, t, i + 1);
    }
}

/// `find_text` gives the first occurrence, and nothing where there is none.
pub proof fn lemma_find_text(s: Seq<char>, t: Seq<char>)
    ensures
        match find_text(s, t) {
            Some(k) => matches_at(s, t, k) && forall|j: int|
                0 <= j < k ==> !matches_at(s, t, j),
            None => !contains_text(s, t),
        },
        find_text(s, t) is Some <==> contains_text(s, t),
{
    lemma_find_from(s, t, 0);
}

fn slice_matches_at(s: &Vec<char>, t: &Vec<char>, i: usize) -> (r: bool)
    requires
        i + t@.len() <= s@.len(),
    ensures
        r == matches_at(s@, t@, i as int),
{
    let n: usize = s.len();
    let mut j: usize = 0;
    while j < t.len()
        invariant
            n == s@.len(),
            i + t@.len() <= s@.len(),
            j <= t@.len(),
            forall|k: int| 0 <= k < j ==> s@[i + k] == t@[k],
        decreases t@.len() - j,
    {
        if s[i + j] != t[j] {
            assert(s@.subrange(i as int, i + t@.len())[j as int] != t@[j as int]);
            return false;
        }
        j += 1;
    }
    assert(s@.subrange(i as int, i + t@.len()) =~= t@);
    true
}

/// The least index at which `t` stands in `s`, counted in characters.
pub fn find(s: &str, t: &str) -> (r: Option<usize>)
    ensures
        match r {
            Some(i) => find_text(s@, t@) == Some(i as int),
            None => find_text(s@, t@) is None,
        },
        r matches Some(i) ==> i + t@.len() <= s@.len() && matches_at(s@, t@, i as int),
        r is Some <==> contains_text(s@, t@),
{
    let a = chars_of(s);
    let b = chars_of(t);
    proof {
        lemma_find_text(s@, t@);
    }
    if a.len() < b.len() {
        return None;
    }
    let last: usize = a.len() - b.len();
    let mut i: usize = 0;
    while i <= last
        invariant
            a@ == s@,
            b@ == t@,
            last == a@.len() - b@.len(),
            i <= last + 1,
            find_text(s@, t@) == find_from(s@, t@, i as int),
            find_text(s@, t@) is Some <==> contains_text(s@, t@),
        decreases last + 1 - i,
    {
        if slice_matches_at(&a, &b, i) {
            return Some(i);
        }
        if i == last {
            assert(find_from(s@, t@, i + 1) is None);
            return None;
        }
        i += 1;
    }
    None
}

/// Whether `t` occurs in `s`.
pub fn contains(s: &str, t: &str) -> (r: bool)
    ensures
        r == contains_text(s@, t@),
{
    find(s, t).is_some()
}

/// Whether `p` stands at the start of `s`.
pub fn starts_with(s: &str, p: &str) -> (r: bool)
    ensures
        r == has_prefix(s@, p@),
{
    let a = chars_of(s);
    let b = chars_of(p);
    if a.len() < b.len() {
        return false;
    }
    assert(s@.take(p@.len() as int) == s@.subrange(0, p@.len() as int));
    slice_matches_at(&a, &b, 0)
}

/// What follows `p` at the start of `s`.
pub fn strip_prefix<'a>(s: &'a str, p: &str) -> (r: Option<&'a str>)
    ensures
        opt_str(r) == after_prefix(s@, p@),
{
    if starts_with(s, p) {
        let n: usize = p.unicode_len();
        let m: usize = s.unicode_len();
        assert(s@.skip(n as int) == s@.subrange(n as int, m as int));
        Some(s.substring_char(n, m))
    } else {
        None
    }
}

/// `s` from index `i` on.
pub fn text_from<'a>(s: &'a str, i: usize) -> (r: &'a str)
    requires
        i <= s@.len(),
    ensures
        r@ == s@.skip(i as int),
{
    let n: usize = s.unicode_len();
    assert(s@.skip(i as int) == s@.subrange(i as int, n as int));
    s.substring_char(i, n)
}

/// `s` up to index `i`.
pub fn text_to<'a>(s: &'a str, i: usize) -> (r: &'a str)
    requires
        i <= s@.len(),
    ensures
        r@ == s@.take(i as int),
{
    assert(s@.take(i as int) == s@.subrange(0, i as int));
    s.substring_char(0, i)
}

/// `s` with each occurrence of `from` replaced by `to`, from the left on and
/// without overlap.
pub open spec fn replaced(s: Seq<char>, from: Seq<char>, to: Seq<char>) -> Seq<char>
    decreases s.len(),
{
    match find_text(s, from) {
        Some(i) => if from.len() > 0 && 0 <= i && i + from.len() <= s.len() {
            s.take(i) + to + replaced(s.skip(i + from.len()), from, to)
        } else {
            s
        },
        None => s,
    }
}

/// `s` with each occurrence of `from` replaced by `to`.
pub fn replace(s: &str, from: &str, to: &str) -> (r: String)
    requires
        from@.len() > 0,
    ensures
        r@ == replaced(s@, from@, to@),
{
    let n: usize = from.unicode_len();
    let mut out = String::new();
    let mut rest: &str = s;
    assert(out@ + replaced(s@, from@, to@) == replaced(s@, from@, to@));
    loop
        invariant
            n == from@.len(),
            n > 0,
            out@ + replaced(rest@, from@, to@) == replaced(s@, from@, to@),
        decreases rest@.len(),
    {
        match find(rest, from) {
            Some(i) => {
                let m: usize = rest.unicode_len();
                assert(i + n <= m);
                let ghost before = out@;
                let ghost tail = replaced(rest@.skip(i + n), from@, to@);
                out.append(text_to(rest, i));
                out.append(to);
                assert(out@ + tail == before + (rest@.take(i as int) + to@ + tail));
                rest = text_from(rest, i + n);
            },
            None => {
                out.append(rest);
                return out;
            },
        }
    }
}

// Splitting.
/// How many characters stand before the first that is in `set`.
pub open spec fn span_until(s: Seq<char>, set: CharSet) -> nat
    decreases s.len(),
{
    if s.len() == 0 || set.has(s[0]) {
        0
    } else {
        1 + span_until(s.skip(1), set)
    }
}

/// `span_until` is the index of the first character in `set`, or the length.
pub proof fn lemma_span_until(s: Seq<char>, set: CharSet)
    ensures
        span_until(s, set) <= s.len(),
        span_until(s, set) < s.len() ==> set.has(s[span_until(s, set) as int]),
        forall|i: int| 0 <= i < span_until(s, set) ==> !set.has(#[trigger] s[i]),
    decreases s.len(),
{
    if s.len() > 0 && !set.has(s[0]) {
        lemma_span_until(s.skip(1), set);
        assert forall|i: int| 0 <= i < span_until(s, set) implies !set.has(#[trigger] s[i]) by {
            if i > 0 {
                assert(s[i] == s.skip(1)[i - 1]);
            }
        }
    }
}

/// How many characters stand before the first that is in `set`.
pub fn span(s: &str, set: &CharSet) -> (r: usize)
    ensures
        r == span_until(s@, *set),
        r <= s@.len(),
        r < s@.len() ==> set.has(s@[r as int]),
{
    let chars = chars_of(s);
    let n: usize = chars.len();
    let mut i: usize = 0;
    assert(s@.skip(0) == s@);
    while i < n && !set.includes(chars[i])
        invariant
            i <= n,
            n == chars@.len(),
            chars@ == s@,
            span_until(s@, *set) == i + span_until(s@.skip(i as int), *set),
        decreases n - i,
    {
        assert(s@.skip(i as int).skip(1) == s@.skip(i + 1));
        i += 1;
    }
    i
}

/// The parts of `s` between the characters that are in `set`; a part may be
/// empty, and there is always one more of them than of those characters.
pub open spec fn split_on(s: Seq<char>, set: CharSet) -> Seq<Seq<char>>
    decreases s.len(),
{
    let n = span_until(s, set) as int;
    if n >= s.len() {
        seq![s]
    } else {
        seq![s.take(n)] + split_on(s.skip(n + 1), set)
    }
}

/// The parts of `s` between the characters that are in `set`.
pub fn split(s: &str, set: &CharSet) -> (r: Vec<String>)
    ensures
        texts(r@) == split_on(s@, *set),
        r@.len() >= 1,
{
    let mut out: Vec<String> = Vec::new();
    let mut rest: &str = s;
    assert(texts(out@) + split_on(s@, *set) == split_on(s@, *set));
    loop
        invariant
            texts(out@) + split_on(rest@, *set) == split_on(s@, *set),
        decreases rest@.len(),
    {
        let n: usize = span(rest, set);
        let m: usize = rest.unicode_len();
        let ghost before = out@;
        if n >= m {
            out.push(copy_text(rest));
            assert(texts(out@) == texts(before) + seq![rest@]);
            return out;
        }
        out.push(copy_text(text_to(rest, n)));
        assert(texts(out@) == texts(before) + seq![rest@.take(n as int)]);
        assert(texts(out@) + split_on(rest@.skip(n + 1), *set) == texts(before) + (seq![
            rest@.take(n as int),
        ] + split_on(rest@.skip(n + 1), *set)));
        rest = text_from(rest, n + 1);
    }
}

/// Trimming at the start takes nothing but leading characters in `set`.
pub proof fn lemma_trim_start(s: Seq<char>, set: CharSet)
    ensures
        trim_start_of(s, set).len() <= s.len(),
        trim_start_of(s, set).len() > 0 ==> !set.has(trim_start_of(s, set)[0]),
    decreases s.len(),
{
    if s.len() > 0 && set.has(s[0]) {
        lemma_trim_start(s.skip(1), set);
    }
}

/// The maximal runs of characters of `s` that are not white space.
pub open spec fn words_of(s: Seq<char>) -> Seq<Seq<char>>
    decreases s.len(),
{
    let t = trim_start_of(s, CharSet::Space);
    if t.len() == 0 {
        seq![]
    } else {
        let n = span_until(t, CharSet::Space) as int;
        proof {
            lemma_trim_start(s, CharSet::Space);
            lemma_span_until(t, CharSet::Space);
        }
        seq![t.take(n)] + words_of(t.skip(n))
    }
}

/// The maximal runs of characters of `s` that are not white space.
pub fn words(s: &str) -> (r: Vec<String>)
    ensures
        texts(r@) == words_of(s@),
{
    let mut out: Vec<String> = Vec::new();
    let mut rest: &str = s;
    assert(texts(out@) + words_of(s@) == words_of(s@));
    loop
        invariant
            texts(out@) + words_of(rest@) == words_of(s@),
        decreases rest@.len(),
    {
        let t = trim_start_matches(rest, &CharSet::Space);
        proof {
            lemma_trim_start(rest@, CharSet::Space);
        }
        if t.is_empty() {
            assert(texts(out@) + words_of(rest@) == texts(out@));
            return out;
        }
        let n: usize = span(t, &CharSet::Space);
        let ghost before = out@;
        out.push(copy_text(text_to(t, n)));
        assert(texts(out@) == texts(before) + seq![t@.take(n as int)]);
        assert(texts(out@) + words_of(t@.skip(n as int)) == texts(before) + (seq![
            t@.take(n as int),
        ] + words_of(t@.skip(n as int))));
        rest = text_from(t, n);
    }
}

// Putting together.
/// `parts` with `sep` between each two of them.
pub open spec fn joined(parts: Seq<Seq<char>>, sep: Seq<char>) -> Seq<char>
    decreases parts.len(),
{
    if parts.len() == 0 {
        seq![]
    } else if parts.len() == 1 {
        parts[0]
    } else {
        joined(parts.drop_last(), sep) + sep + parts.last()
    }
}

/// `parts` with `sep` between each two of them.
pub fn join(parts: &Vec<String>, sep: &str) -> (r: String)
    ensures
        r@ == joined(texts(parts@), sep@),
{
    let mut out = String::new();
    let mut i: usize = 0;
    while i < parts.len()
        invariant
            i <= parts@.len(),
            out@ == joined(texts(parts@).take(i as int), sep@),
        decreases parts@.len() - i,
    {
        if i == 0 {
            out = copy_text(parts[i].as_str());
        } else {
            out.append(sep);
            out.append(parts[i].as_str());
        }
        assert(texts(parts@).take(i + 1).drop_last() == texts(parts@).take(i as int));
        i += 1;
    }
    assert(texts(parts@).take(parts@.len() as int) == texts(parts@));
    out
}

/// The items of `s` without those that occur earlier in it.
pub open spec fn distinct(s: Seq<Seq<char>>) -> Seq<Seq<char>>
    decreases s.len(),
{
    if s.len() == 0 {
        seq![]
    } else {
        let d = distinct(s.drop_last());
        if d.contains(s.last()) {
            d
        } else {
            d.push(s.last())
        }
    }
}

/// `distinct` keeps each item once, and drops none.
pub proof fn law_distinct(s: Seq<Seq<char>>)
    ensures
        distinct(s).no_duplicates(),
        distinct(s).len() <= s.len(),
        s.len() > 0 ==> distinct(s).len() > 0,
        forall|x: Seq<char>|
            #![trigger distinct(s).contains(x)]
            #![trigger s.contains(x)]
            distinct(s).contains(x) <==> s.contains(x),
    decreases s.len(),
{
    if s.len() > 0 {
        let rest = s.drop_last();
        let before = distinct(rest);
        let all = distinct(s);
        law_distinct(rest);
        assert forall|x: Seq<char>|
            #![trigger all.contains(x)]
            #![trigger s.contains(x)]
            all.contains(x) <==> s.contains(x) by {
            if s.contains(x) {
                let i = choose|i: int| 0 <= i < s.len() && s[i] == x;
                if i < rest.len() {
                    assert(rest[i] == x);
                    assert(rest.contains(x) && before.contains(x));
                    let k = choose|k: int| 0 <= k < before.len() && before[k] == x;
                    assert(all[k] == x);
                } else if !before.contains(s.last()) {
                    assert(all[before.len() as int] == x);
                } else {
                    assert(all.contains(x));
                }
            }
            if all.contains(x) {
                let k = choose|k: int| 0 <= k < all.len() && all[k] == x;
                if k < before.len() {
                    assert(before[k] == x);
                    assert(before.contains(x) && rest.contains(x));
                    let i = choose|i: int| 0 <= i < rest.len() && rest[i] == x;
                    assert(s[i] == x);
                } else {
                    assert(s[s.len() - 1] == x);
                }
            }
        }
        if !before.contains(s.last()) {
            assert forall|i: int, j: int| 0 <= i < all.len() && 0 <= j < all.len() && i
                != j implies all[i] != all[j] by {
                if i < before.len() {
                    assert(before[i] == all[i]);
                }
                if j < before.len() {
                    assert(before[j] == all[j]);
                }
            }
        }
        assert(all.contains(s.last())) by {
            assert(s[s.len() - 1] == s.last());
        }
    }
}

/// Trimming leaves only characters that were there, and none in `set` at the
/// ends.
pub proof fn law_trim_set(s: Seq<char>, set: CharSet)
    ensures
        trim_set(s, set).len() <= s.len(),
        forall|i: int| 0 <= i < trim_set(s, set).len() ==> s.contains(#[trigger] trim_set(s, set)[i]),
        trim_set(s, set).len() > 0 ==> !set.has(trim_set(s, set)[0]) && !set.has(
            trim_set(s, set).last(),
        ),
{
    let t = trim_start_of(s, set);
    lemma_trim_start(s, set);
    lemma_trim_start_chars(s, set);
    lemma_trim_end(t, set);
    assert forall|i: int| 0 <= i < trim_set(s, set).len() implies s.contains(
        #[trigger] trim_set(s, set)[i],
    ) by {
        assert(trim_set(s, set)[i] == t[i]);
    }
}

proof fn lemma_trim_start_chars(s: Seq<char>, set: CharSet)
    ensures
        forall|i: int|
            0 <= i < trim_start_of(s, set).len() ==> s.contains(#[trigger] trim_start_of(s, set)[i]),
    decreases s.len(),
{
    let t = trim_start_of(s, set);
    if s.len() > 0 && set.has(s[0]) {
        lemma_trim_start_chars(s.skip(1), set);
        assert forall|i: int| 0 <= i < t.len() implies s.contains(#[trigger] t[i]) by {
            assert(s.skip(1).contains(trim_start_of(s.skip(1), set)[i]));
            let k = choose|k: int| 0 <= k < s.skip(1).len() && s.skip(1)[k] == t[i];
            assert(s[k + 1] == t[i]);
        }
    }
}

/// Trimming at the start leaves an end of the text.
pub proof fn lemma_trim_start_skips(s: Seq<char>, set: CharSet)
    ensures
        trim_start_of(s, set).len() <= s.len(),
        trim_start_of(s, set) == s.skip(s.len() - trim_start_of(s, set).len()),
    decreases s.len(),
{
    if s.len() > 0 && set.has(s[0]) {
        lemma_trim_start_skips(s.skip(1), set);
        let n = trim_start_of(s, set).len();
        assert(s.skip(1).skip(s.skip(1).len() - n) =~= s.skip(s.len() - n));
    } else {
        assert(s.skip(0) =~= s);
    }
}

/// Trimming at the end leaves a start of the text that does not end in `set`.
pub proof fn lemma_trim_end(s: Seq<char>, set: CharSet)
    ensures
        trim_end_of(s, set).len() <= s.len(),
        trim_end_of(s, set) == s.take(trim_end_of(s, set).len() as int),
        trim_end_of(s, set).len() > 0 ==> !set.has(trim_end_of(s, set).last()),
        s.len() > 0 && !set.has(s[0]) ==> trim_end_of(s, set).len() > 0,
    decreases s.len(),
{
    if s.len() > 0 && set.has(s.last()) {
        lemma_trim_end(s.drop_last(), set);
        let n = trim_end_of(s, set).len() as int;
        assert(s.drop_last().take(n) =~= s.take(n));
    } else {
        assert(s.take(s.len() as int) =~= s);
    }
}

/// The places in `s` of the items that do not occur earlier in it.
pub open spec fn first_places(s: Seq<Seq<char>>) -> Seq<int>
    decreases s.len(),
{
    if s.len() == 0 {
        seq![]
    } else {
        let before = first_places(s.drop_last());
        if s.drop_last().contains(s.last()) {
            before
        } else {
            before.push(s.len() - 1)
        }
    }
}

/// The first places are places, and what stands there is what `distinct` keeps.
pub proof fn law_first_places(s: Seq<Seq<char>>)
    ensures
        forall|k: int|
            0 <= k < first_places(s).len() ==> 0 <= #[trigger] first_places(s)[k] < s.len(),
        Seq::new(first_places(s).len(), |k: int| s[first_places(s)[k]]) == distinct(s),
    decreases s.len(),
{
    let places = first_places(s);
    if s.len() > 0 {
        let rest = s.drop_last();
        let before = first_places(rest);
        law_first_places(rest);
        law_distinct(rest);
        let kept = Seq::new(before.len(), |k: int| rest[before[k]]);
        assert(kept == distinct(rest));
        assert forall|k: int| 0 <= k < before.len() implies s[#[trigger] before[k]]
            == distinct(rest)[k] by {
            assert(kept[k] == rest[before[k]]);
        }
        assert forall|k: int| 0 <= k < places.len() implies 0 <= #[trigger] places[k]
            < s.len() by {
            if k < before.len() {
                assert(places[k] == before[k]);
            }
        }
        assert(distinct(rest).contains(s.last()) <==> rest.contains(s.last()));
        assert forall|k: int| 0 <= k < places.len() implies s[places[k]] == distinct(s)[k] by {
            if k < before.len() {
                assert(places[k] == before[k]);
            }
        }
    }
    assert(Seq::new(places.len(), |k: int| s[places[k]]) =~= distinct(s));
}

/// The places in `list` of the texts that do not occur earlier in it.
pub fn find_first_places(list: &Vec<String>) -> (r: Vec<usize>)
    ensures
        Seq::new(r@.len(), |k: int| r@[k] as int) == first_places(texts(list@)),
{
    let ghost all = texts(list@);
    let mut seen: Vec<String> = Vec::new();
    let mut places: Vec<usize> = Vec::new();
    let mut i: usize = 0;
    assert(texts(seen@) =~= all.take(0));
    assert(Seq::new(places@.len(), |k: int| places@[k] as int) =~= first_places(all.take(0)));
    while i < list.len()
        invariant
            i <= list@.len(),
            all == texts(list@),
            texts(seen@) == all.take(i as int),
            Seq::new(places@.len(), |k: int| places@[k] as int) == first_places(
                all.take(i as int),
            ),
        decreases list@.len() - i,
    {
        let ghost before = places@;
        assert(all.take(i + 1).drop_last() =~= all.take(i as int));
        assert(all.take(i + 1).last() == list@[i as int]@);
        if !holds_text(&seen, list[i].as_str()) {
            places.push(i);
            assert(Seq::new(places@.len(), |k: int| places@[k] as int) =~= Seq::new(
                before.len(),
                |k: int| before[k] as int,
            ).push(i as int));
        }
        let ghost held = seen@;
        seen.push(list[i].clone());
        assert(texts(seen@) =~= texts(held).push(list@[i as int]@));
        assert(all.take(i + 1) =~= all.take(i as int).push(all[i as int]));
        i += 1;
    }
    assert(all.take(all.len() as int) =~= all);
    places
}

/// Adds `s` to `list` unless it is there already.
pub fn push_distinct(list: &mut Vec<String>, s: String)
    ensures
        texts(final(list)@) == (if texts(old(list)@).contains(s@) {
            texts(old(list)@)
        } else {
            texts(old(list)@).push(s@)
        }),
{
    if !holds_text(list, s.as_str()) {
        list.push(s);
        assert(texts(list@) =~= texts(old(list)@).push(s@));
    }
}

} // verus!
