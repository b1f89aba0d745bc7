//! JSON values as the runtime reads them.

use vstd::prelude::*;

use crate::text::{
    lemma_text_less_irreflexive, lemma_text_less_total, lemma_text_less_transitive, same_text, strictly_sorted, text_before,
    text_less,
};

verus! {

/// A JSON value. The fields of an object are kept in order.
pub enum Json {
    Null,
    Bool(bool),
    /// A whole number that fits in 64 bits.
    Uint(u64),
    /// The numeral of any other number.
    Other(String),
    Str(String),
    Array(Vec<Json>),
    Object(Vec<(String, Json)>),
}

/// What a JSON value says.
pub enum JsonView {
    Null,
    Bool(bool),
    Uint(u64),
    Other(Seq<char>),
    Str(Seq<char>),
    Array(Seq<JsonView>),
    Object(Seq<(Seq<char>, JsonView)>),
}

/// What a JSON value says, node by node.
pub open spec fn json_view(j: Json) -> JsonView
    decreases j,
{
    match j {
        Json::Null => JsonView::Null,
        Json::Bool(b) => JsonView::Bool(b),
        Json::Uint(n) => JsonView::Uint(n),
        Json::Other(s) => JsonView::Other(s@),
        Json::Str(s) => JsonView::Str(s@),
        Json::Array(v) => JsonView::Array(
            Seq::new(
                v@.len(),
                |i: int|
                    if 0 <= i < v@.len() {
                        json_view(v@[i])
                    } else {
                        JsonView::Null
                    },
            ),
        ),
        Json::Object(v) => JsonView::Object(
            Seq::new(
                v@.len(),
                |i: int|
                    if 0 <= i < v@.len() {
                        (v@[i].0@, json_view(v@[i].1))
                    } else {
                        (Seq::empty(), JsonView::Null)
                    },
            ),
        ),
    }
}

impl View for Json {
    type V = JsonView;

    open spec fn view(&self) -> JsonView {
        json_view(*self)
    }
}

/// The views of a sequence of JSON values.
pub open spec fn json_views(v: Seq<Json>) -> Seq<JsonView> {
    v.map_values(|j: Json| j@)
}

/// The views of an object's fields.
pub open spec fn field_views(v: Seq<(String, Json)>) -> Seq<(Seq<char>, JsonView)> {
    v.map_values(|f: (String, Json)| (f.0@, f.1@))
}

/// An array says what its items say.
pub proof fn lemma_array_view(v: Vec<Json>)
    ensures
        Json::Array(v)@ == JsonView::Array(json_views(v@)),
{
    assert(Json::Array(v)@->Array_0 =~= json_views(v@));
}

/// An object says what its fields say.
pub proof fn lemma_object_view(v: Vec<(String, Json)>)
    ensures
        Json::Object(v)@ == JsonView::Object(field_views(v@)),
{
    assert(Json::Object(v)@->Object_0 =~= field_views(v@));
}

/// The field `key` stands first at place `i`.
pub open spec fn first_key_at(fields: Seq<(Seq<char>, JsonView)>, key: Seq<char>, i: int) -> bool {
    &&& 0 <= i < fields.len()
    &&& fields[i].0 == key
    &&& forall|k: int| 0 <= k < i ==> (#[trigger] fields[k]).0 != key
}

impl JsonView {
    /// The field `key` of an object.
    pub open spec fn get(self, key: Seq<char>) -> Option<JsonView> {
        match self {
            JsonView::Object(fields) => if exists|i: int| first_key_at(fields, key, i) {
                let i = choose|i: int| first_key_at(fields, key, i);
                Some(fields[i].1)
            } else {
                None
            },
            _ => None,
        }
    }

    /// The text of a string.
    pub open spec fn text(self) -> Option<Seq<char>> {
        match self {
            JsonView::Str(s) => Some(s),
            _ => None,
        }
    }

    /// The truth value of a boolean.
    pub open spec fn truth(self) -> Option<bool> {
        match self {
            JsonView::Bool(b) => Some(b),
            _ => None,
        }
    }

    /// The items of an array.
    pub open spec fn items(self) -> Option<Seq<JsonView>> {
        match self {
            JsonView::Array(s) => Some(s),
            _ => None,
        }
    }

    /// The text of the field `key`, where the value is an object that has it and it is a string.
    pub open spec fn text_at(self, key: Seq<char>) -> Option<Seq<char>> {
        match self.get(key) {
            Some(v) => v.text(),
            None => None,
        }
    }

    /// The items of the field `key`, where the value is an object that has it and it is an array.
    pub open spec fn items_at(self, key: Seq<char>) -> Option<Seq<JsonView>> {
        match self.get(key) {
            Some(v) => v.items(),
            None => None,
        }
    }

    /// Whole numbers only, object keys in strictly ascending order, and no deeper than `depth`.
    pub open spec fn canonical(self, depth: nat) -> bool
        decreases self,
    {
        match self {
            JsonView::Other(_) => false,
            JsonView::Array(s) => depth > 0 && forall|i: int|
                0 <= i < s.len() ==> (#[trigger] s[i]).canonical((depth - 1) as nat),
            JsonView::Object(s) => {
                &&& depth > 0
                &&& strictly_sorted(keys_of(s))
                &&& forall|i: int| 0 <= i < s.len() ==> (#[trigger] s[i]).1.canonical((depth - 1) as nat)
            },
            _ => true,
        }
    }
}

/// The keys of an object's fields.
pub open spec fn keys_of(fields: Seq<(Seq<char>, JsonView)>) -> Seq<Seq<char>> {
    fields.map_values(|f: (Seq<char>, JsonView)| f.0)
}

/// The first field of that key determines what `get` gives.
pub proof fn lemma_get(fields: Seq<(Seq<char>, JsonView)>, key: Seq<char>, i: int)
    requires
        first_key_at(fields, key, i),
    ensures
        JsonView::Object(fields).get(key) == Some(fields[i].1),
{
    let j = choose|j: int| first_key_at(fields, key, j);
    assert(first_key_at(fields, key, j));
    if j < i {
        assert(fields[j].0 != key);
    }
    if i < j {
        assert(fields[i].0 != key);
    }
}

/// The first place from `from` on whose key comes after `key`, or the end.
pub open spec fn place_from(fields: Seq<(Seq<char>, JsonView)>, key: Seq<char>, from: int) -> int
    decreases fields.len() - from,
{
    if from >= fields.len() {
        fields.len() as int
    } else if text_less(key, fields[from].0) {
        from
    } else {
        place_from(fields, key, from + 1)
    }
}

/// The fields with `key` set to `value`: in its place where it is there, and otherwise before the
/// first key that comes after it.
pub open spec fn put(fields: Seq<(Seq<char>, JsonView)>, key: Seq<char>, value: JsonView) -> Seq<
    (Seq<char>, JsonView),
> {
    if exists|i: int| first_key_at(fields, key, i) {
        let i = choose|i: int| first_key_at(fields, key, i);
        fields.update(i, (key, value))
    } else {
        fields.insert(place_from(fields, key, 0), (key, value))
    }
}

/// The keys before the place do not come after `key`, and the one at it does.
proof fn lemma_place(fields: Seq<(Seq<char>, JsonView)>, key: Seq<char>, from: int)
    requires
        0 <= from <= fields.len(),
    ensures
        from <= place_from(fields, key, from) <= fields.len(),
        forall|k: int|
            from <= k < place_from(fields, key, from) ==> !text_less(
                key,
                (#[trigger] fields[k]).0,
            ),
        place_from(fields, key, from) < fields.len() ==> text_less(
            key,
            fields[place_from(fields, key, from)].0,
        ),
    decreases fields.len() - from,
{
    if from < fields.len() && !text_less(key, fields[from].0) {
        lemma_place(fields, key, from + 1);
    }
}

/// Where a key that is not there yet is put.
fn place_index(fields: &Vec<(String, Json)>, key: &str) -> (r: usize)
    ensures
        r == place_from(field_views(fields@), key@, 0),
        r <= fields@.len(),
{
    let mut i: usize = 0;
    while i < fields.len()
        invariant
            i <= fields@.len(),
            place_from(field_views(fields@), key@, i as int) == place_from(
                field_views(fields@),
                key@,
                0,
            ),
        decreases fields@.len() - i,
    {
        if text_before(key, fields[i].0.as_str()) {
            return i;
        }
        i += 1;
    }
    i
}

/// An object with `key` set to `value`. Anything else is left as it is.
pub open spec fn with_field(v: JsonView, key: Seq<char>, value: JsonView) -> JsonView {
    match v {
        JsonView::Object(fields) => JsonView::Object(put(fields, key, value)),
        _ => v,
    }
}

/// Where the field `key` stands first.
pub fn key_index(fields: &Vec<(String, Json)>, key: &str) -> (r: Option<usize>)
    ensures
        match r {
            Some(i) => first_key_at(field_views(fields@), key@, i as int),
            None => forall|i: int| !first_key_at(field_views(fields@), key@, i),
        },
{
    let mut i: usize = 0;
    while i < fields.len()
        invariant
            i <= fields@.len(),
            forall|k: int| 0 <= k < i ==> (#[trigger] field_views(fields@)[k]).0 != key@,
        decreases fields@.len() - i,
    {
        if same_text(fields[i].0.as_str(), key) {
            return Some(i);
        }
        i += 1;
    }
    None
}

proof fn lemma_first_unique(fields: Seq<(Seq<char>, JsonView)>, key: Seq<char>, i: int, j: int)
    requires
        first_key_at(fields, key, i),
        first_key_at(fields, key, j),
    ensures
        i == j,
{
    if i < j {
        assert(fields[i].0 != key);
    }
    if j < i {
        assert(fields[j].0 != key);
    }
}

/// Putting at a key that is there.
pub proof fn lemma_put_at(fields: Seq<(Seq<char>, JsonView)>, key: Seq<char>, value: JsonView, i: int)
    requires
        first_key_at(fields, key, i),
    ensures
        put(fields, key, value) == fields.update(i, (key, value)),
{
    let j = choose|j: int| first_key_at(fields, key, j);
    lemma_first_unique(fields, key, i, j);
}

proof fn lemma_put_first(fields: Seq<(Seq<char>, JsonView)>, key: Seq<char>, value: JsonView) -> (i:
    int)
    ensures
        first_key_at(put(fields, key, value), key, i),
        put(fields, key, value)[i].1 == value,
        JsonView::Object(put(fields, key, value)).get(key) == Some(value),
        (forall|j: int| !first_key_at(fields, key, j)) ==> i == place_from(fields, key, 0),
{
    let p = put(fields, key, value);
    if exists|i: int| first_key_at(fields, key, i) {
        let i = choose|i: int| first_key_at(fields, key, i);
        assert(first_key_at(p, key, i));
        lemma_get(p, key, i);
        i
    } else {
        let n = place_from(fields, key, 0);
        lemma_place(fields, key, 0);
        assert forall|k: int| 0 <= k < n implies (#[trigger] p[k]).0 != key by {
            if fields[k].0 == key {
                lemma_some_first(fields, key, k);
            }
        }
        assert(first_key_at(p, key, n));
        lemma_get(p, key, n);
        n
    }
}

proof fn lemma_some_first(fields: Seq<(Seq<char>, JsonView)>, key: Seq<char>, k: int)
    requires
        0 <= k < fields.len(),
        fields[k].0 == key,
    ensures
        exists|i: int| first_key_at(fields, key, i),
    decreases k,
{
    if exists|m: int| 0 <= m < k && (#[trigger] fields[m]).0 == key {
        let m = choose|m: int| 0 <= m < k && (#[trigger] fields[m]).0 == key;
        lemma_some_first(fields, key, m);
    } else {
        assert(first_key_at(fields, key, k));
    }
}

/// What is put last counts.
proof fn lemma_put_put(
    fields: Seq<(Seq<char>, JsonView)>,
    key: Seq<char>,
    a: JsonView,
    b: JsonView,
)
    ensures
        put(put(fields, key, a), key, b) == put(fields, key, b),
{
    let i = lemma_put_first(fields, key, a);
    lemma_put_at(put(fields, key, a), key, b, i);
    if exists|j: int| first_key_at(fields, key, j) {
        let j = choose|j: int| first_key_at(fields, key, j);
        assert(first_key_at(put(fields, key, a), key, j));
        lemma_first_unique(put(fields, key, a), key, i, j);
    } else {
        lemma_place(fields, key, 0);
    }
    assert(put(put(fields, key, a), key, b) =~= put(fields, key, b));
}

/// Putting at one key leaves what is at another.
pub proof fn lemma_put_other(v: JsonView, key: Seq<char>, value: JsonView, other: Seq<char>)
    requires
        key != other,
    ensures
        with_field(v, key, value).get(other) == v.get(other),
{
    if let JsonView::Object(fields) = v {
        let p = put(fields, key, value);
        let there = exists|j: int| first_key_at(fields, key, j);
        let at = if there {
            choose|j: int| first_key_at(fields, key, j)
        } else {
            place_from(fields, key, 0)
        };
        lemma_place(fields, key, 0);
        if exists|i: int| first_key_at(fields, other, i) {
            let i = choose|i: int| first_key_at(fields, other, i);
            let moved = if !there && at <= i {
                i + 1
            } else {
                i
            };
            assert forall|k: int| 0 <= k < moved implies (#[trigger] p[k]).0 != other by {
                if k != at {
                    let back = if !there && at < k {
                        k - 1
                    } else {
                        k
                    };
                    assert(p[k] == fields[back]);
                    assert(fields[back].0 != other);
                }
            }
            assert(p[moved] == fields[i]);
            assert(first_key_at(p, other, moved));
            lemma_get(p, other, moved);
            lemma_get(fields, other, i);
        } else {
            assert forall|i: int| !first_key_at(p, other, i) by {
                if first_key_at(p, other, i) {
                    assert(i != at);
                    let back = if !there && at < i {
                        i - 1
                    } else {
                        i
                    };
                    assert(p[i] == fields[back]);
                    lemma_some_first(fields, other, back);
                }
            }
        }
    }
}

/// Ascending keys stay ascending.
proof fn lemma_put_sorted(fields: Seq<(Seq<char>, JsonView)>, key: Seq<char>, value: JsonView)
    requires
        strictly_sorted(keys_of(fields)),
    ensures
        strictly_sorted(keys_of(put(fields, key, value))),
{
    let p = put(fields, key, value);
    let old_keys = keys_of(fields);
    let new_keys = keys_of(p);
    if exists|i: int| first_key_at(fields, key, i) {
        assert(new_keys =~= old_keys);
    } else {
        let at = place_from(fields, key, 0);
        lemma_place(fields, key, 0);
        assert(new_keys =~= old_keys.insert(at, key));
        assert forall|i: int, j: int| 0 <= i < j < new_keys.len() implies text_less(
            #[trigger] new_keys[i],
            #[trigger] new_keys[j],
        ) by {
            if j == at {
                assert(new_keys[i] == old_keys[i] && old_keys[i] == fields[i].0);
                if fields[i].0 == key {
                    lemma_some_first(fields, key, i);
                }
                lemma_text_less_total(fields[i].0, key);
            } else if i == at {
                assert(new_keys[j] == old_keys[j - 1]);
                assert(old_keys[at] == fields[at].0);
                if at < j - 1 {
                    assert(text_less(old_keys[at], old_keys[j - 1]));
                    lemma_text_less_transitive(key, old_keys[at], old_keys[j - 1]);
                }
            } else {
                let x = if i < at {
                    i
                } else {
                    i - 1
                };
                let y = if j < at {
                    j
                } else {
                    j - 1
                };
                assert(new_keys[i] == old_keys[x] && new_keys[j] == old_keys[y]);
            }
        }
    }
}

/// A canonical object that is given a canonical value stays canonical.
pub proof fn lemma_with_field_canonical(v: JsonView, key: Seq<char>, value: JsonView, depth: nat)
    requires
        v.canonical(depth),
        v is Object ==> value.canonical((depth - 1) as nat),
    ensures
        with_field(v, key, value).canonical(depth),
{
    if let JsonView::Object(fields) = v {
        let p = put(fields, key, value);
        lemma_put_sorted(fields, key, value);
        lemma_place(fields, key, 0);
        let there = exists|j: int| first_key_at(fields, key, j);
        let at = if there {
            choose|j: int| first_key_at(fields, key, j)
        } else {
            place_from(fields, key, 0)
        };
        assert forall|i: int| 0 <= i < p.len() implies (#[trigger] p[i]).1.canonical(
            (depth - 1) as nat,
        ) by {
            if i != at {
                let back = if !there && at < i {
                    i - 1
                } else {
                    i
                };
                assert(p[i] == fields[back]);
            }
        }
    }
}

/// The fields put one after the other: in ascending order of their keys, and of those with the
/// same key the last.
pub open spec fn in_key_order(fields: Seq<(Seq<char>, JsonView)>) -> Seq<(Seq<char>, JsonView)>
    decreases fields.len(),
{
    if fields.len() == 0 {
        Seq::empty()
    } else {
        put(in_key_order(fields.drop_last()), fields.last().0, fields.last().1)
    }
}

/// Fields that are in order are left so.
proof fn lemma_in_key_order(fields: Seq<(Seq<char>, JsonView)>)
    requires
        strictly_sorted(keys_of(fields)),
    ensures
        in_key_order(fields) == fields,
    decreases fields.len(),
{
    if fields.len() > 0 {
        let front = fields.drop_last();
        let (key, value) = fields.last();
        let n = front.len() as int;
        let keys = keys_of(fields);
        assert forall|i: int, j: int| 0 <= i < j < keys_of(front).len() implies text_less(
            #[trigger] keys_of(front)[i],
            #[trigger] keys_of(front)[j],
        ) by {
            assert(keys_of(front)[i] == keys[i] && keys_of(front)[j] == keys[j]);
        }
        lemma_in_key_order(front);
        assert forall|k: int| 0 <= k < n implies text_less((#[trigger] front[k]).0, key)
            && front[k].0 != key && !text_less(key, front[k].0) by {
            assert(keys[k] == front[k].0 && keys[n] == key);
            lemma_text_less_irreflexive(key);
            if text_less(key, front[k].0) {
                lemma_text_less_transitive(key, front[k].0, key);
            }
        }
        assert forall|i: int| !first_key_at(front, key, i) by {}
        lemma_place(front, key, 0);
        assert(put(front, key, value) =~= fields);
    } else {
        assert(in_key_order(fields) =~= fields);
    }
}

/// A tree as `serde_json` builds it: objects in ascending order of their keys, each key once, and
/// in place of a numeral the number that `serde_json` reads in it.
pub open spec fn rebuilt(v: JsonView) -> JsonView
    decreases v,
{
    match v {
        JsonView::Other(s) => match parsed_json(s) {
            Some(t) => t,
            None => JsonView::Null,
        },
        JsonView::Array(items) => JsonView::Array(
            Seq::new(
                items.len(),
                |i: int|
                    if 0 <= i < items.len() {
                        rebuilt(items[i])
                    } else {
                        JsonView::Null
                    },
            ),
        ),
        JsonView::Object(fields) => JsonView::Object(in_key_order(rebuilt_fields(fields))),
        _ => v,
    }
}

/// The fields of an object, each value as `serde_json` builds it.
pub open spec fn rebuilt_fields(fields: Seq<(Seq<char>, JsonView)>) -> Seq<(Seq<char>, JsonView)>
    decreases fields,
{
    Seq::new(
        fields.len(),
        |i: int|
            if 0 <= i < fields.len() {
                (fields[i].0, rebuilt(fields[i].1))
            } else {
                (Seq::empty(), JsonView::Null)
            },
    )
}

/// A canonical tree is built as it is.
pub proof fn lemma_rebuilt_canonical(v: JsonView, depth: nat)
    requires
        v.canonical(depth),
    ensures
        rebuilt(v) == v,
    decreases depth,
{
    match v {
        JsonView::Array(items) => {
            assert forall|i: int| 0 <= i < items.len() implies rebuilt(#[trigger] items[i])
                == items[i] by {
                lemma_rebuilt_canonical(items[i], (depth - 1) as nat);
            }
            assert(rebuilt(v)->Array_0 =~= items);
        },
        JsonView::Object(fields) => {
            assert forall|i: int| 0 <= i < fields.len() implies rebuilt((#[trigger] fields[i]).1)
                == fields[i].1 by {
                lemma_rebuilt_canonical(fields[i].1, (depth - 1) as nat);
            }
            assert(rebuilt_fields(fields) =~= fields);
            lemma_in_key_order(fields);
        },
        _ => {},
    }
}

/// Putting what is there already changes nothing.
pub proof fn lemma_put_same(v: JsonView, key: Seq<char>, value: JsonView)
    requires
        v.get(key) == Some(value),
    ensures
        with_field(v, key, value) == v,
{
    if let JsonView::Object(fields) = v {
        let i = choose|i: int| first_key_at(fields, key, i);
        assert(put(fields, key, value) =~= fields);
    }
}

/// What is put last counts, and what is put is there.
pub proof fn lemma_with_field_twice(v: JsonView, key: Seq<char>, a: JsonView, b: JsonView)
    ensures
        with_field(with_field(v, key, a), key, b) == with_field(v, key, b),
        v is Object ==> with_field(v, key, a).get(key) == Some(a),
{
    if let JsonView::Object(fields) = v {
        lemma_put_put(fields, key, a, b);
        let _ = lemma_put_first(fields, key, a);
    }
}

impl Json {
    /// The field `key` of an object.
    pub fn get(&self, key: &str) -> (r: Option<&Json>)
        ensures
            match r {
                Some(v) => self@.get(key@) == Some(v@),
                None => self@.get(key@) is None,
            },
    {
        if let Json::Object(fields) = self {
            proof {
                lemma_object_view(*fields);
            }
            let mut i: usize = 0;
            while i < fields.len()
                invariant
                    i <= fields@.len(),
                    self@ == JsonView::Object(field_views(fields@)),
                    forall|k: int| 0 <= k < i ==> (#[trigger] field_views(fields@)[k]).0 != key@,
                decreases fields@.len() - i,
            {
                if same_text(fields[i].0.as_str(), key) {
                    proof {
                        lemma_get(field_views(fields@), key@, i as int);
                    }
                    return Some(&fields[i].1);
                }
                i += 1;
            }
            assert forall|k: int| !first_key_at(field_views(fields@), key@, k) by {}
        }
        None
    }

    /// The text of a string.
    pub fn as_text(&self) -> (r: Option<&String>)
        ensures
            match r {
                Some(s) => self@.text() == Some(s@),
                None => self@.text() is None,
            },
    {
        match self {
            Json::Str(s) => Some(s),
            _ => None,
        }
    }

    /// The truth value of a boolean.
    pub fn as_truth(&self) -> (r: Option<bool>)
        ensures
            r == self@.truth(),
    {
        match self {
            Json::Bool(b) => Some(*b),
            _ => None,
        }
    }

    /// The items of an array.
    pub fn as_items(&self) -> (r: Option<&Vec<Json>>)
        ensures
            match r {
                Some(v) => self@ == JsonView::Array(json_views(v@)) && self@.items() == Some(
                    json_views(v@),
                ),
                None => self@.items() is None,
            },
    {
        match self {
            Json::Array(v) => {
                proof {
                    lemma_array_view(*v);
                }
                Some(v)
            },
            _ => None,
        }
    }

    /// The text of the field `key`.
    pub fn text_at(&self, key: &str) -> (r: Option<&String>)
        ensures
            match r {
                Some(s) => self@.text_at(key@) == Some(s@),
                None => self@.text_at(key@) is None,
            },
    {
        match self.get(key) {
            Some(v) => v.as_text(),
            None => None,
        }
    }

    /// An object with `key` set to `value`. Anything else is left as it is.
    pub fn with_field(self, key: &str, value: Json) -> (r: Json)
        ensures
            r@ == with_field(self@, key@, value@),
    {
        match self {
            Json::Object(fields) => {
                let mut fields = fields;
                let ghost before = field_views(fields@);
                let ghost set_to = value@;
                proof {
                    lemma_object_view(fields);
                }
                match key_index(&fields, key) {
                    Some(i) => {
                        proof {
                            lemma_put_at(before, key@, set_to, i as int);
                        }
                        fields.set(i, (key.to_owned(), value));
                        assert(field_views(fields@) =~= before.update(i as int, (key@, set_to)));
                    },
                    None => {
                        let at: usize = place_index(&fields, key);
                        fields.insert(at, (key.to_owned(), value));
                        assert(field_views(fields@) =~= before.insert(at as int, (key@, set_to)));
                    },
                }
                proof {
                    lemma_object_view(fields);
                }
                Json::Object(fields)
            },
            other => other,
        }
    }

    /// The items of the field `key`.
    pub fn items_at(&self, key: &str) -> (r: Option<&Vec<Json>>)
        ensures
            match r {
                Some(v) => self@.items_at(key@) == Some(json_views(v@)),
                None => self@.items_at(key@) is None,
            },
    {
        match self.get(key) {
            Some(v) => v.as_items(),
            None => None,
        }
    }
}

impl Clone for Json {
    fn clone(&self) -> (r: Self)
        ensures
            r@ == self@,
        decreases self,
    {
        match self {
            Json::Null => Json::Null,
            Json::Bool(b) => Json::Bool(*b),
            Json::Uint(n) => Json::Uint(*n),
            Json::Other(s) => Json::Other(s.clone()),
            Json::Str(s) => Json::Str(s.clone()),
            Json::Array(v) => {
                let mut out: Vec<Json> = Vec::new();
                let mut i: usize = 0;
                while i < v.len()
                    invariant
                        i <= v@.len(),
                        out@.len() == i,
                        self == Json::Array(*v),
                        forall|k: int| 0 <= k < i ==> (#[trigger] out@[k])@ == v@[k]@,
                    decreases v@.len() - i,
                {
                    assert(decreases_to!(self => self->Array_0));
                    assert(decreases_to!(self->Array_0 => v@));
                    assert(decreases_to!(v@ => v@[i as int]));
                    out.push(v[i].clone());
                    i += 1;
                }
                proof {
                    lemma_array_view(out);
                    lemma_array_view(*v);
                    assert(json_views(out@) =~= json_views(v@));
                }
                Json::Array(out)
            },
            Json::Object(v) => {
                let mut out: Vec<(String, Json)> = Vec::new();
                let mut i: usize = 0;
                while i < v.len()
                    invariant
                        i <= v@.len(),
                        out@.len() == i,
                        self == Json::Object(*v),
                        forall|k: int|
                            0 <= k < i ==> (#[trigger] out@[k]).0@ == v@[k].0@ && out@[k].1@
                                == v@[k].1@,
                    decreases v@.len() - i,
                {
                    assert(decreases_to!(self => self->Object_0));
                    assert(decreases_to!(self->Object_0 => v@));
                    assert(decreases_to!(v@ => v@[i as int]));
                    assert(decreases_to!(v@[i as int] => v@[i as int].1));
                    out.push((v[i].0.clone(), v[i].1.clone()));
                    i += 1;
                }
                proof {
                    lemma_object_view(out);
                    lemma_object_view(*v);
                    assert(field_views(out@) =~= field_views(v@));
                }
                Json::Object(out)
            },
        }
    }
}

/// A JSON tree of `serde_json`.
#[verifier::external_type_specification]
#[verifier::external_body]
pub struct ExValue(serde_json::Value);

/// What a `serde_json` tree holds.
pub uninterp spec fn tree_of(v: serde_json::Value) -> JsonView;

/// What `serde_json::from_str` reads in a text, where it reads a JSON value in it.
pub uninterp spec fn parsed_json(text: Seq<char>) -> Option<JsonView>;

/// What `serde_json::to_string_pretty` writes for a tree.
pub uninterp spec fn pretty_text(tree: JsonView) -> Seq<char>;

/// What `serde_json::to_vec` writes for a tree.
pub uninterp spec fn compact_bytes(tree: JsonView) -> Seq<u8>;

/// `serde_json::from_str` for a tree: what it reads, and whether it reads one, depends on the text
/// alone.
#[verifier::external_body]
pub(crate) fn parse_value(text: &str) -> (r: Option<serde_json::Value>)
    ensures
        match r {
            Some(v) => parsed_json(text@) == Some(tree_of(v)),
            None => parsed_json(text@) is None,
        },
{
    serde_json::from_str(text).ok()
}

/// The tree of a `serde_json::Value`, node by node: a number that `as_u64` gives is a whole number,
/// any other is kept as the numeral that `Number` displays.
#[verifier::external_body]
pub(crate) fn json_of(v: &serde_json::Value) -> (r: Json)
    ensures
        r@ == tree_of(*v),
{
    match v {
        serde_json::Value::Null => Json::Null,
        serde_json::Value::Bool(b) => Json::Bool(*b),
        serde_json::Value::Number(n) => n.as_u64().map_or(Json::Other(n.to_string()), Json::Uint),
        serde_json::Value::String(s) => Json::Str(s.clone()),
        serde_json::Value::Array(a) => Json::Array(a.iter().map(json_of).collect()),
        serde_json::Value::Object(o) => {
            Json::Object(o.iter().map(|(k, x)| (k.clone(), json_of(x))).collect())
        },
    }
}

/// The `serde_json::Value` of a tree, node by node. A numeral becomes the number that
/// `serde_json::from_str` reads in it. The fields of an object are put with
/// `serde_json::Map::insert` one after the other: the map keeps its keys in ascending order, and
/// for a key that it has already the value is replaced.
#[verifier::external_body]
pub(crate) fn value_of(j: &Json) -> (r: serde_json::Value)
    ensures
        tree_of(r) == rebuilt(j@),
{
    match j {
        Json::Null => serde_json::Value::Null,
        Json::Bool(b) => serde_json::Value::Bool(*b),
        Json::Uint(n) => serde_json::Value::from(*n),
        Json::Other(s) => serde_json::from_str(s).unwrap_or_default(),
        Json::Str(s) => serde_json::Value::String(s.clone()),
        Json::Array(a) => serde_json::Value::Array(a.iter().map(value_of).collect()),
        Json::Object(o) => {
            let mut m = serde_json::Map::new();
            o.iter().for_each(|f| drop(m.insert(f.0.clone(), value_of(&f.1))));
            serde_json::Value::Object(m)
        },
    }
}

/// `serde_json::to_string_pretty` of a tree: the text depends on the tree alone, and
/// `serde_json::from_str` reads the tree back from it where its numbers are whole and it is no
/// deeper than the reader goes, 127 containers. Serialising a tree does not fail.
#[verifier::external_body]
pub(crate) fn pretty_value(v: &serde_json::Value) -> (r: String)
    ensures
        r@ == pretty_text(tree_of(*v)),
        tree_of(*v).canonical(127) ==> parsed_json(r@) == Some(tree_of(*v)),
{
    serde_json::to_string_pretty(v).unwrap_or_default()
}

/// `serde_json::to_vec` of a tree: the bytes depend on the tree alone. Serialising a tree does not
/// fail.
#[verifier::external_body]
pub(crate) fn compact_value(v: &serde_json::Value) -> (r: Vec<u8>)
    ensures
        r@ == compact_bytes(tree_of(*v)),
{
    serde_json::to_vec(v).unwrap_or_default()
}

/// Reads a JSON text.
pub fn parse_json(text: &str) -> (r: Option<Json>)
    ensures
        match r {
            Some(j) => parsed_json(text@) == Some(j@),
            None => parsed_json(text@) is None,
        },
{
    match parse_value(text) {
        Some(v) => Some(json_of(&v)),
        None => None,
    }
}

/// A field is the first one of its key, and only an object has fields.
pub proof fn law_a_field_is_the_first_of_its_key(
    j: Json,
    fields: Vec<(String, Json)>,
    key: &str,
    r: Option<&Json>,
    i: int,
)
    requires
        call_ensures(Json::get, (&j, key), r),
    ensures
        j !is Object ==> r is None,
        j == Json::Object(fields) && (forall|k: int|
            0 <= k < fields@.len() ==> (#[trigger] fields@[k]).0@ != key@) ==> r is None,
        j == Json::Object(fields) && 0 <= i < fields@.len() && fields@[i].0@ == key@ && (forall|
            k: int,
        |
            0 <= k < i ==> (#[trigger] fields@[k]).0@ != key@) ==> r is Some && r->0@
            == fields@[i].1@,
{
    if j == Json::Object(fields) {
        lemma_object_view(fields);
        let f = field_views(fields@);
        assert(f.len() == fields@.len());
        assert forall|k: int| 0 <= k < f.len() implies (#[trigger] f[k]).0 == fields@[k].0@ by {}
        if 0 <= i < fields@.len() && fields@[i].0@ == key@ && (forall|k: int|
            0 <= k < i ==> (#[trigger] fields@[k]).0@ != key@) {
            assert forall|k: int| 0 <= k < i implies (#[trigger] f[k]).0 != key@ by {
                assert(fields@[k].0@ != key@);
            }
            assert(first_key_at(f, key@, i));
            lemma_get(f, key@, i);
            assert(f[i].1 == fields@[i].1@);
        }
        if (forall|k: int| 0 <= k < fields@.len() ==> (#[trigger] fields@[k]).0@ != key@)
            && exists|k: int| first_key_at(f, key@, k) {
            let k = choose|k: int| first_key_at(f, key@, k);
            assert(fields@[k].0@ == key@);
        }
    }
}

/// A value is read as what it is and as nothing else: a string as its text, a boolean as its truth
/// value, an array as its items.
pub proof fn law_a_value_is_read_as_what_it_is(
    j: Json,
    text: Option<&String>,
    truth: Option<bool>,
    items: Option<&Vec<Json>>,
    copy: Json,
    i: int,
)
    requires
        call_ensures(Json::as_text, (&j,), text),
        call_ensures(Json::as_truth, (&j,), truth),
        call_ensures(Json::as_items, (&j,), items),
        call_ensures(<Json as Clone>::clone, (&j,), copy),
    ensures
        text is Some <==> j is Str,
        j matches Json::Str(s) ==> text->0@ == s@,
        truth is Some <==> j is Bool,
        j matches Json::Bool(b) ==> truth == Some(b),
        items is Some <==> j is Array,
        j matches Json::Array(v) ==> items->0@.len() == v@.len() && (0 <= i < v@.len()
            ==> items->0@[i]@ == v@[i]@),
        copy@ == j@,
{
    if let Json::Array(v) = j {
        lemma_array_view(v);
        let a = json_views(v@);
        let b = json_views(items->0@);
        assert(a == b);
        assert(a.len() == v@.len() && b.len() == items->0@.len());
        if 0 <= i < v@.len() {
            assert(a[i] == v@[i]@ && b[i] == items->0@[i]@);
        }
    }
}

/// The text and the items of a field are those of the field's value.
pub proof fn law_a_field_is_read_as_what_its_value_is(
    j: Json,
    key: &str,
    field: Option<&Json>,
    text: Option<&String>,
    items: Option<&Vec<Json>>,
)
    requires
        call_ensures(Json::get, (&j, key), field),
        call_ensures(Json::text_at, (&j, key), text),
        call_ensures(Json::items_at, (&j, key), items),
    ensures
        text is Some <==> field is Some && field->0@ is Str,
        text is Some ==> field->0@ == JsonView::Str(text->0@),
        items is Some <==> field is Some && field->0@ is Array,
        items is Some ==> field->0@ == JsonView::Array(json_views(items->0@)),
{
}

/// A field that is set is there with its value and every other field is as it was; keys that are in
/// order stay so, and what is no object is left as it is.
pub proof fn law_setting_a_field_changes_that_field(
    j: Json,
    key: &str,
    value: Json,
    r: Json,
    set: Option<&Json>,
    other: &str,
    before: Option<&Json>,
    after: Option<&Json>,
)
    requires
        call_ensures(Json::with_field, (j, key, value), r),
        call_ensures(Json::get, (&r, key), set),
        call_ensures(Json::get, (&j, other), before),
        call_ensures(Json::get, (&r, other), after),
    ensures
        j@ !is Object ==> r@ == j@,
        j@ is Object ==> r@ is Object && set is Some && set->0@ == value@,
        other@ != key@ ==> (before is Some <==> after is Some) && (before is Some ==> before->0@
            == after->0@),
        j@ is Object && strictly_sorted(keys_of(j@->Object_0)) ==> strictly_sorted(
            keys_of(r@->Object_0),
        ),
{
    lemma_with_field_twice(j@, key@, value@, value@);
    if other@ != key@ {
        lemma_put_other(j@, key@, value@, other@);
    }
    if j@ is Object && strictly_sorted(keys_of(j@->Object_0)) {
        lemma_put_sorted(j@->Object_0, key@, value@);
    }
}

/// A text is read as the value that it holds, and as nothing exactly where it holds none.
pub proof fn law_a_text_is_read_as_its_value(text: &str, r: Option<Json>)
    requires
        call_ensures(parse_json, (text,), r),
    ensures
        r is Some <==> parsed_json(text@) is Some,
        r is Some ==> Some(r->0@) == parsed_json(text@),
{
}

} // verus!
