//! JSON values as the library reads and builds them.
use crate::text::{copy_text, opt_str, same_text, texts};
use vstd::prelude::*;

verus! {

/// A JSON value. A number that is not whole is kept as it is written; the
/// entries of an object are looked up by the first that has the key.
#[derive(Debug)]
pub enum Json {
    Null,
    Bool(bool),
    Unsigned(u64),
    Signed(i64),
    Float(String),
    Text(String),
    List(Vec<Json>),
    Object(Vec<(String, Json)>),
}

/// A JSON value in contracts.
pub enum JsonView {
    Null,
    Bool(bool),
    Unsigned(u64),
    Signed(i64),
    Float(Seq<char>),
    Text(Seq<char>),
    List(Seq<JsonView>),
    Object(Seq<(Seq<char>, JsonView)>),
}

impl View for Json {
    type V = JsonView;

    open spec fn view(&self) -> JsonView
        decreases self,
    {
        match self {
            Json::Null => JsonView::Null,
            Json::Bool(b) => JsonView::Bool(*b),
            Json::Unsigned(n) => JsonView::Unsigned(*n),
            Json::Signed(n) => JsonView::Signed(*n),
            Json::Float(s) => JsonView::Float(s@),
            Json::Text(s) => JsonView::Text(s@),
            Json::List(v) => JsonView::List(
                Seq::new(
                    v@.len(),
                    |i: int|
                        if 0 <= i < v@.len() {
                            v@[i].view()
                        } else {
                            arbitrary()
                        },
                ),
            ),
            Json::Object(v) => JsonView::Object(
                Seq::new(
                    v@.len(),
                    |i: int|
                        if 0 <= i < v@.len() {
                            (v@[i].0@, v@[i].1.view())
                        } else {
                            arbitrary()
                        },
                ),
            ),
        }
    }
}

// Reading.
/// The first value that stands in `entries` under `key`.
pub open spec fn entry(entries: Seq<(Seq<char>, JsonView)>, key: Seq<char>) -> Option<JsonView>
    decreases entries.len(),
{
    if entries.len() == 0 {
        None
    } else if entries[0].0 == key {
        Some(entries[0].1)
    } else {
        entry(entries.skip(1), key)
    }
}

impl JsonView {
    /// The entries of an object; none for any other value.
    pub open spec fn entries(self) -> Seq<(Seq<char>, JsonView)> {
        match self {
            JsonView::Object(e) => e,
            _ => seq![],
        }
    }

    /// The value under `key`, where this is an object that has one.
    pub open spec fn get(self, key: Seq<char>) -> Option<JsonView> {
        entry(self.entries(), key)
    }

    /// The text, where this is one.
    pub open spec fn text(self) -> Option<Seq<char>> {
        match self {
            JsonView::Text(s) => Some(s),
            _ => None,
        }
    }

    /// The text under `key`, where there is one.
    pub open spec fn text_at(self, key: Seq<char>) -> Option<Seq<char>> {
        match self.get(key) {
            Some(v) => v.text(),
            None => None,
        }
    }

    /// Whether the value under `key` is `true`.
    pub open spec fn true_at(self, key: Seq<char>) -> bool {
        self.get(key) == Some(JsonView::Bool(true))
    }

    /// The items under `key`, where a list stands there.
    pub open spec fn list_at(self, key: Seq<char>) -> Option<Seq<JsonView>> {
        match self.get(key) {
            Some(JsonView::List(v)) => Some(v),
            _ => None,
        }
    }

    /// The whole number without a sign under `key`, where there is one.
    pub open spec fn unsigned_at(self, key: Seq<char>) -> Option<u64> {
        match self.get(key) {
            Some(JsonView::Unsigned(n)) => Some(n),
            _ => None,
        }
    }
}

/// The view of an optional value.
pub open spec fn opt_json(o: Option<&Json>) -> Option<JsonView> {
    match o {
        Some(v) => Some(v@),
        None => None,
    }
}

/// The views of a list of values.
pub open spec fn json_list(v: Seq<Json>) -> Seq<JsonView> {
    Seq::new(v.len(), |i: int| v[i]@)
}

/// The views of the entries of an object.
pub open spec fn json_entries(v: Seq<(String, Json)>) -> Seq<(Seq<char>, JsonView)> {
    Seq::new(v.len(), |i: int| (v[i].0@, v[i].1@))
}

proof fn lemma_json_object(v: Vec<(String, Json)>)
    ensures
        Json::Object(v)@ == JsonView::Object(json_entries(v@)),
{
    reveal_with_fuel(<Json as View>::view, 2);
    assert(Json::Object(v)@->Object_0 =~= json_entries(v@));
}

proof fn lemma_json_list(v: Vec<Json>)
    ensures
        Json::List(v)@ == JsonView::List(json_list(v@)),
{
    reveal_with_fuel(<Json as View>::view, 2);
    assert(Json::List(v)@->List_0 =~= json_list(v@));
}

/// The index of the first entry under `key`.
fn entry_index(v: &Vec<(String, Json)>, key: &str) -> (r: Option<usize>)
    ensures
        match r {
            Some(i) => i < v@.len() && v@[i as int].0@ == key@ && (forall|j: int|
                0 <= j < i ==> v@[j].0@ != key@) && entry(json_entries(v@), key@) == Some(
                v@[i as int].1@,
            ),
            None => (forall|j: int| 0 <= j < v@.len() ==> v@[j].0@ != key@) && entry(
                json_entries(v@),
                key@,
            ) is None,
        },
{
    let ghost all = json_entries(v@);
    assert(all.skip(0) == all);
    let mut i: usize = 0;
    while i < v.len()
        invariant
            i <= v@.len(),
            all == json_entries(v@),
            forall|j: int| 0 <= j < i ==> v@[j].0@ != key@,
            entry(all, key@) == entry(all.skip(i as int), key@),
        decreases v@.len() - i,
    {
        assert(all.skip(i as int)[0] == all[i as int]);
        if same_text(v[i].0.as_str(), key) {
            return Some(i);
        }
        assert(all.skip(i as int).skip(1) == all.skip(i + 1));
        i += 1;
    }
    None
}

impl Json {
    /// The value under `key`, where this is an object that has one.
    pub fn get(&self, key: &str) -> (r: Option<&Json>)
        ensures
            opt_json(r) == self@.get(key@),
    {
        match self {
            Json::Object(v) => {
                proof {
                    lemma_json_object(*v);
                }
                match entry_index(v, key) {
                    Some(i) => Some(&v[i].1),
                    None => None,
                }
            },
            _ => None,
        }
    }

    /// The text, where this is one.
    pub fn as_text(&self) -> (r: Option<&str>)
        ensures
            opt_str(r) == self@.text(),
    {
        match self {
            Json::Text(s) => Some(s.as_str()),
            _ => None,
        }
    }

    /// The text under `key`, where there is one.
    pub fn text_at(&self, key: &str) -> (r: Option<&str>)
        ensures
            opt_str(r) == self@.text_at(key@),
    {
        match self.get(key) {
            Some(v) => v.as_text(),
            None => None,
        }
    }

    /// Whether the value under `key` is `true`.
    pub fn true_at(&self, key: &str) -> (r: bool)
        ensures
            r == self@.true_at(key@),
    {
        match self.get(key) {
            Some(Json::Bool(b)) => *b,
            _ => false,
        }
    }

    /// The items under `key`, where a list stands there.
    pub fn list_at(&self, key: &str) -> (r: Option<&Vec<Json>>)
        ensures
            match r {
                Some(v) => self@.list_at(key@) == Some(json_list(v@)),
                None => self@.list_at(key@) is None,
            },
    {
        match self.get(key) {
            Some(Json::List(v)) => {
                proof {
                    lemma_json_list(*v);
                }
                Some(v)
            },
            _ => None,
        }
    }

    /// The whole number without a sign under `key`, where there is one.
    pub fn unsigned_at(&self, key: &str) -> (r: Option<u64>)
        ensures
            r == self@.unsigned_at(key@),
    {
        match self.get(key) {
            Some(Json::Unsigned(n)) => Some(*n),
            _ => None,
        }
    }

    /// The value under `key`, taken out of an object; `Null` where there is none.
    pub fn into_entry(self, key: &str) -> (r: Json)
        ensures
            r@ == (match self@.get(key@) {
                Some(v) => v,
                None => JsonView::Null,
            }),
    {
        match self {
            Json::Object(v) => {
                proof {
                    lemma_json_object(v);
                }
                let mut v = v;
                match entry_index(&v, key) {
                    Some(i) => {
                        let (_, value) = v.remove(i);
                        value
                    },
                    None => Json::Null,
                }
            },
            _ => Json::Null,
        }
    }
}

// Building.
/// A text as a JSON value.
pub fn json_text(s: &str) -> (r: Json)
    ensures
        r@ == JsonView::Text(s@),
{
    Json::Text(copy_text(s))
}

/// An object of one entry.
pub fn json_object1(key: &str, value: Json) -> (r: Json)
    ensures
        r@ == JsonView::Object(seq![(key@, value@)]),
{
    let mut v: Vec<(String, Json)> = Vec::new();
    v.push((copy_text(key), value));
    proof {
        lemma_json_object(v);
        assert(json_entries(v@) =~= seq![(key@, value@)]);
    }
    Json::Object(v)
}

/// An object of some entries.
pub fn json_object(entries: Vec<(String, Json)>) -> (r: Json)
    ensures
        r@ == JsonView::Object(json_entries(entries@)),
{
    proof {
        lemma_json_object(entries);
    }
    Json::Object(entries)
}

/// A list of some values.
pub fn json_array(items: Vec<Json>) -> (r: Json)
    ensures
        r@ == JsonView::List(json_list(items@)),
{
    proof {
        lemma_json_list(items);
    }
    Json::List(items)
}

/// `entries` with `value` under `key`: in the place of the first entry under
/// `key`, or behind the others.
pub open spec fn put(
    entries: Seq<(Seq<char>, JsonView)>,
    key: Seq<char>,
    value: JsonView,
) -> Seq<(Seq<char>, JsonView)>
    decreases entries.len(),
{
    if entries.len() == 0 {
        seq![(key, value)]
    } else if entries[0].0 == key {
        seq![(key, value)] + entries.skip(1)
    } else {
        seq![entries[0]] + put(entries.skip(1), key, value)
    }
}

/// `node` with `value` at the end of `path`. What stands on the way and is not
/// an object gives way to one; a key that is missing on the way is added.
pub open spec fn set_at(node: JsonView, path: Seq<Seq<char>>, value: JsonView) -> JsonView
    decreases path.len(),
{
    if path.len() == 0 {
        value
    } else {
        let below = match node.get(path[0]) {
            Some(v) => v,
            None => JsonView::Object(seq![]),
        };
        JsonView::Object(put(node.entries(), path[0], set_at(below, path.skip(1), value)))
    }
}

/// What stands at the end of `path`.
pub open spec fn get_at(node: JsonView, path: Seq<Seq<char>>) -> Option<JsonView>
    decreases path.len(),
{
    if path.len() == 0 {
        Some(node)
    } else {
        match node.get(path[0]) {
            Some(v) => get_at(v, path.skip(1)),
            None => None,
        }
    }
}

proof fn lemma_put_at(entries: Seq<(Seq<char>, JsonView)>, key: Seq<char>, value: JsonView, i: int)
    requires
        0 <= i <= entries.len(),
        forall|j: int| 0 <= j < i ==> (#[trigger] entries[j]).0 != key,
        i < entries.len() ==> entries[i].0 == key,
    ensures
        put(entries, key, value) == if i < entries.len() {
            entries.update(i, (key, value))
        } else {
            entries.push((key, value))
        },
    decreases entries.len(),
{
    if i == 0 {
        if entries.len() > 0 {
            assert(seq![(key, value)] + entries.skip(1) =~= entries.update(0, (key, value)));
        } else {
            assert(seq![(key, value)] =~= entries.push((key, value)));
        }
    } else {
        assert(entries[0].0 != key);
        assert forall|j: int| 0 <= j < i - 1 implies (#[trigger] entries.skip(1)[j]).0 != key by {
            assert(entries[j + 1].0 != key);
        }
        lemma_put_at(entries.skip(1), key, value, i - 1);
        if i < entries.len() {
            assert(seq![entries[0]] + entries.skip(1).update(i - 1, (key, value))
                =~= entries.update(i, (key, value)));
        } else {
            assert(seq![entries[0]] + entries.skip(1).push((key, value)) =~= entries.push(
                (key, value),
            ));
        }
    }
}

/// Puts `value` at the end of the path that `keys` holds from index `from` on.
pub fn set_json(node: Json, keys: &Vec<String>, from: usize, value: Json) -> (r: Json)
    requires
        from <= keys@.len(),
    ensures
        r@ == set_at(node@, texts(keys@).skip(from as int), value@),
    decreases keys@.len() - from,
{
    let ghost path = texts(keys@).skip(from as int);
    if from == keys.len() {
        return value;
    }
    assert(path[0] == keys@[from as int]@);
    assert(path.skip(1) == texts(keys@).skip(from + 1));
    let key: &str = keys[from].as_str();
    let ghost outer = node@;
    let mut entries: Vec<(String, Json)> = match node {
        Json::Object(v) => {
            proof {
                lemma_json_object(v);
            }
            v
        },
        _ => Vec::new(),
    };
    let ghost before = json_entries(entries@);
    assert(before =~= outer.entries());
    match entry_index(&entries, key) {
        Some(i) => {
            proof {
                assert forall|j: int| 0 <= j < i implies (#[trigger] before[j]).0 != key@ by {
                    assert(entries@[j].0@ != key@);
                }
            }
            let (name, below) = entries.remove(i);
            let inner = set_json(below, keys, from + 1, value);
            proof {
                lemma_put_at(before, key@, inner@, i as int);
            }
            entries.insert(i, (name, inner));
            assert(json_entries(entries@) =~= before.update(i as int, (key@, inner@)));
        },
        None => {
            proof {
                assert forall|j: int| 0 <= j < before.len() implies (#[trigger] before[j]).0
                    != key@ by {
                    assert(entries@[j].0@ != key@);
                }
            }
            let empty: Vec<(String, Json)> = Vec::new();
            proof {
                lemma_json_object(empty);
                assert(json_entries(empty@) =~= seq![]);
            }
            let inner = set_json(Json::Object(empty), keys, from + 1, value);
            proof {
                lemma_put_at(before, key@, inner@, before.len() as int);
            }
            entries.push((copy_text(key), inner));
            assert(json_entries(entries@) =~= before.push((key@, inner@)));
        },
    }
    proof {
        lemma_json_object(entries);
    }
    Json::Object(entries)
}

// Laws.
proof fn lemma_put_entry(
    entries: Seq<(Seq<char>, JsonView)>,
    key: Seq<char>,
    value: JsonView,
    other: Seq<char>,
)
    ensures
        entry(put(entries, key, value), key) == Some(value),
        other != key ==> entry(put(entries, key, value), other) == entry(entries, other),
    decreases entries.len(),
{
    let after = put(entries, key, value);
    if entries.len() == 0 {
        assert(after.skip(1) =~= entries);
    } else if entries[0].0 == key {
        assert(after.skip(1) =~= entries.skip(1));
    } else {
        lemma_put_entry(entries.skip(1), key, value, other);
        assert(after.skip(1) =~= put(entries.skip(1), key, value));
    }
}

/// A value that was set at a path is read back at that path.
pub proof fn law_set_then_get(node: JsonView, path: Seq<Seq<char>>, value: JsonView)
    ensures
        get_at(set_at(node, path, value), path) == Some(value),
    decreases path.len(),
{
    if path.len() > 0 {
        let below = match node.get(path[0]) {
            Some(v) => v,
            None => JsonView::Object(seq![]),
        };
        let inner = set_at(below, path.skip(1), value);
        lemma_put_entry(node.entries(), path[0], inner, path[0]);
        law_set_then_get(below, path.skip(1), value);
    }
}

/// Setting a value at a path leaves what stands at every path that leaves it
/// at some key.
pub proof fn law_set_leaves_other_paths(
    node: JsonView,
    path: Seq<Seq<char>>,
    value: JsonView,
    other: Seq<Seq<char>>,
    fork: int,
)
    requires
        0 <= fork < path.len(),
        fork < other.len(),
        path.take(fork) == other.take(fork),
        path[fork] != other[fork],
    ensures
        get_at(set_at(node, path, value), other) == get_at(node, other),
    decreases path.len(),
{
    let below = match node.get(path[0]) {
        Some(v) => v,
        None => JsonView::Object(seq![]),
    };
    let inner = set_at(below, path.skip(1), value);
    lemma_put_entry(node.entries(), path[0], inner, other[0]);
    if fork > 0 {
        assert(path[0] == path.take(fork)[0]);
        assert(other[0] == other.take(fork)[0]);
        assert(path.skip(1).take(fork - 1) =~= path.take(fork).skip(1));
        assert(other.skip(1).take(fork - 1) =~= other.take(fork).skip(1));
        lemma_put_entry(node.entries(), path[0], inner, path[0]);
        law_set_leaves_other_paths(below, path.skip(1), value, other.skip(1), fork - 1);
        if node.get(path[0]) is None {
            assert(get_at(below, other.skip(1)) is None);
        }
    }
}

/// What stands under a key is the first entry with that key; nothing does where there is
/// none, or where the value is no object.
pub proof fn law_entries_are_found(
    entries: Seq<(Seq<char>, JsonView)>,
    key: Seq<char>,
    i: int,
)
    requires
        0 <= i <= entries.len(),
        i < entries.len() ==> entries[i].0 == key,
        forall|j: int| 0 <= j < i ==> (#[trigger] entries[j]).0 != key,
    ensures
        i < entries.len() ==> JsonView::Object(entries).get(key) == Some(entries[i].1),
        i == entries.len() ==> JsonView::Object(entries).get(key) is None,
    decreases i,
{
    if i > 0 {
        assert(entries[0].0 != key);
        let rest = entries.skip(1);
        assert forall|j: int| 0 <= j < i - 1 implies (#[trigger] rest[j]).0 != key by {
            assert(rest[j] == entries[j + 1]);
        }
        if i < entries.len() {
            assert(rest[i - 1] == entries[i]);
        }
        law_entries_are_found(rest, key, i - 1);
    }
}

/// What is read under a key is read as what it is, and as nothing else.
pub proof fn law_values_are_read(value: JsonView, key: Seq<char>)
    ensures
        value.get(key) is None ==> value.text_at(key) is None && value.list_at(key) is None
            && value.unsigned_at(key) is None && !value.true_at(key),
        value.get(key) matches Some(v) ==> {
            &&& value.text_at(key) == (match v {
                JsonView::Text(s) => Some(s),
                _ => None,
            })
            &&& value.list_at(key) == (match v {
                JsonView::List(items) => Some(items),
                _ => None,
            })
            &&& value.unsigned_at(key) == (match v {
                JsonView::Unsigned(n) => Some(n),
                _ => None,
            })
            &&& value.true_at(key) == (v == JsonView::Bool(true))
        },
        !(value is Object) ==> value.get(key) is None,
{
}

} // verus!
