//! A JSON document model with the shape of `serde_json::Value`.

use vstd::prelude::*;
use vstd::std_specs::cmp::PartialEqSpecImpl;
use vstd::utf8::{decode_utf8, encode_utf8};

verus! {

/// A JSON number as `serde_json` keeps it: a non-negative integer, a negative
/// integer, or a finite double given by its IEEE-754 bit pattern.
#[derive(Clone, Copy, Debug, Eq)]
pub enum JsonNumber {
    PosInt(u64),
    NegInt(i64),
    Float(u64),
}

/// Two JSON numbers are equal as `serde_json` compares them: integers of the
/// same kind by value, doubles by value (the two zeros are equal; a JSON
/// double is never NaN, so otherwise equal values have equal bits), and an
/// integer never equals a double.
pub open spec fn same_number(a: JsonNumber, b: JsonNumber) -> bool {
    match (a, b) {
        (JsonNumber::PosInt(x), JsonNumber::PosInt(y)) => x == y,
        (JsonNumber::NegInt(x), JsonNumber::NegInt(y)) => x == y,
        (JsonNumber::Float(x), JsonNumber::Float(y)) => x == y || (x & 0x7fff_ffff_ffff_ffffu64 == 0
            && y & 0x7fff_ffff_ffff_ffffu64 == 0),
        _ => false,
    }
}

impl PartialEq for JsonNumber {
    fn eq(&self, other: &Self) -> (r: bool) {
        match (self, other) {
            (JsonNumber::PosInt(x), JsonNumber::PosInt(y)) => *x == *y,
            (JsonNumber::NegInt(x), JsonNumber::NegInt(y)) => *x == *y,
            (JsonNumber::Float(x), JsonNumber::Float(y)) => *x == *y || (*x & 0x7fff_ffff_ffff_ffffu64
                == 0 && *y & 0x7fff_ffff_ffff_ffffu64 == 0),
            _ => false,
        }
    }
}

impl PartialEqSpecImpl for JsonNumber {
    open spec fn obeys_eq_spec() -> bool {
        true
    }

    open spec fn eq_spec(&self, other: &JsonNumber) -> bool {
        same_number(*self, *other)
    }
}

/// A JSON value. A well-formed object holds its members in increasing order
/// of their keys, each key once, as `serde_json`'s map does (see `wf`).
#[derive(Debug, PartialEq)]
pub enum Json {
    Null,
    Bool(bool),
    Number(JsonNumber),
    Str(String),
    Array(Vec<Json>),
    Object(Vec<(String, Json)>),
}

/// The mathematical value of a `Json`.
pub enum JsonView {
    Null,
    Bool(bool),
    Number(JsonNumber),
    Str(Seq<char>),
    Array(Seq<JsonView>),
    Object(Seq<(Seq<char>, JsonView)>),
}

pub open spec fn json_view(j: Json) -> JsonView
    decreases j,
{
    match j {
        Json::Null => JsonView::Null,
        Json::Bool(b) => JsonView::Bool(b),
        Json::Number(n) => JsonView::Number(n),
        Json::Str(s) => JsonView::Str(s@),
        Json::Array(items) => JsonView::Array(
            Seq::new(
                items.len() as nat,
                |i: int|
                    if 0 <= i < items.len() {
                        json_view(items@[i])
                    } else {
                        JsonView::Null
                    },
            ),
        ),
        Json::Object(entries) => JsonView::Object(
            Seq::new(
                entries.len() as nat,
                |i: int|
                    if 0 <= i < entries.len() {
                        (entries@[i].0@, json_view(entries@[i].1))
                    } else {
                        (Seq::empty(), JsonView::Null)
                    },
            ),
        ),
    }
}

/// The mathematical value of a sequence of object members.
pub open spec fn members_view(e: Seq<(String, Json)>) -> Seq<(Seq<char>, JsonView)> {
    Seq::new(e.len(), |i: int| (e[i].0@, json_view(e[i].1)))
}

/// `i` is the position of the first member of `m` whose key is `key`.
pub open spec fn is_first_key(m: Seq<(Seq<char>, JsonView)>, key: Seq<char>, i: int) -> bool {
    &&& 0 <= i < m.len()
    &&& m[i].0 == key
    &&& forall|j: int| 0 <= j < i ==> m[j].0 != key
}

/// The position of the first member of `m` whose key is `key`, if any.
pub open spec fn key_index(m: Seq<(Seq<char>, JsonView)>, key: Seq<char>) -> Option<int> {
    if exists|i: int| is_first_key(m, key, i) {
        Some(choose|i: int| is_first_key(m, key, i))
    } else {
        None
    }
}

/// What `Value::get` with a string index gives: the member `key` of an object.
pub open spec fn field(v: JsonView, key: Seq<char>) -> Option<JsonView> {
    match v {
        JsonView::Object(m) => match key_index(m, key) {
            Some(i) => Some(m[i].1),
            None => None,
        },
        _ => None,
    }
}

/// What `Value::get` with a position gives: the element `i` of an array.
pub open spec fn element(v: JsonView, i: int) -> Option<JsonView> {
    match v {
        JsonView::Array(a) => if 0 <= i < a.len() {
            Some(a[i])
        } else {
            None
        },
        _ => None,
    }
}

/// The order of keys in an object: `a` comes before `b` in the lexicographic
/// order of their characters (for UTF-8 text the order of its bytes, which
/// is how `String` orders and `serde_json`'s map sorts its keys).
pub open spec fn key_lt(a: Seq<char>, b: Seq<char>) -> bool
    decreases a.len(),
{
    if a.len() == 0 {
        b.len() > 0
    } else if b.len() == 0 {
        false
    } else if a[0] != b[0] {
        a[0] < b[0]
    } else {
        key_lt(a.drop_first(), b.drop_first())
    }
}

/// The keys of `m` are strictly increasing (so each occurs once).
pub open spec fn sorted_keys(m: Seq<(Seq<char>, JsonView)>) -> bool {
    forall|i: int, j: int| 0 <= i < j < m.len() ==> key_lt(#[trigger] m[i].0, #[trigger] m[j].0)
}

/// No key comes before itself.
pub proof fn lemma_key_lt_irreflexive(a: Seq<char>)
    ensures
        !key_lt(a, a),
    decreases a.len(),
{
    if a.len() > 0 {
        lemma_key_lt_irreflexive(a.drop_first());
    }
}

/// Two keys are not each before the other.
pub proof fn lemma_key_lt_asymmetric(a: Seq<char>, b: Seq<char>)
    ensures
        !(key_lt(a, b) && key_lt(b, a)),
    decreases a.len(),
{
    if a.len() > 0 && b.len() > 0 && a[0] == b[0] {
        lemma_key_lt_asymmetric(a.drop_first(), b.drop_first());
    }
}

/// The order of keys is transitive.
pub proof fn lemma_key_lt_transitive(a: Seq<char>, b: Seq<char>, c: Seq<char>)
    requires
        key_lt(a, b),
        key_lt(b, c),
    ensures
        key_lt(a, c),
    decreases a.len(),
{
    if a.len() > 0 && b.len() > 0 && c.len() > 0 && a[0] == b[0] && b[0] == c[0] {
        lemma_key_lt_transitive(a.drop_first(), b.drop_first(), c.drop_first());
    }
}

/// Two different keys are ordered one way or the other.
pub proof fn lemma_key_lt_total(a: Seq<char>, b: Seq<char>)
    requires
        a != b,
    ensures
        key_lt(a, b) || key_lt(b, a),
    decreases a.len(),
{
    if a.len() > 0 && b.len() > 0 && a[0] == b[0] {
        if a.drop_first() == b.drop_first() {
            assert(a =~= seq![a[0]] + a.drop_first());
            assert(b =~= seq![b[0]] + b.drop_first());
        }
        lemma_key_lt_total(a.drop_first(), b.drop_first());
    } else if a.len() == 0 && b.len() == 0 {
        assert(a =~= b);
    }
}

/// Sorted keys are distinct.
pub proof fn lemma_sorted_distinct(m: Seq<(Seq<char>, JsonView)>)
    requires
        sorted_keys(m),
    ensures
        distinct_keys(m),
{
    assert forall|i: int, j: int| 0 <= i < j < m.len() implies #[trigger] m[i].0 != #[trigger] m[j].0 by {
        if m[i].0 == m[j].0 {
            lemma_key_lt_irreflexive(m[i].0);
        }
    }
}

/// Every object in `v`, at any depth, holds its keys in increasing order (so
/// each at most once), and every `NegInt` is negative: the invariant that
/// `serde_json::Value` keeps, whose map holds its keys sorted.
pub open spec fn wf(v: JsonView) -> bool
    decreases v,
{
    match v {
        JsonView::Number(JsonNumber::NegInt(n)) => n < 0,
        JsonView::Array(a) => forall|i: int| 0 <= i < a.len() ==> wf(#[trigger] a[i]),
        JsonView::Object(m) => members_wf(m),
        _ => true,
    }
}

/// The members of a well-formed object: distinct keys and well-formed values.
pub open spec fn members_wf(m: Seq<(Seq<char>, JsonView)>) -> bool
    decreases m,
{
    &&& sorted_keys(m)
    &&& forall|i: int| 0 <= i < m.len() ==> wf(#[trigger] m[i].1)
}

/// Viewing an object is viewing its members.
pub proof fn lemma_object_view(e: Vec<(String, Json)>)
    ensures
        json_view(Json::Object(e)) == JsonView::Object(members_view(e@)),
{
    let v = json_view(Json::Object(e));
    assert(v is Object);
    let m = v->Object_0;
    assert(m.len() == e@.len());
    assert forall|i: int| 0 <= i < m.len() implies m[i] == members_view(e@)[i] by {}
    assert(m =~= members_view(e@));
}

/// There is at most one first position of a key.
pub proof fn lemma_first_key_unique(m: Seq<(Seq<char>, JsonView)>, key: Seq<char>, i: int, j: int)
    requires
        is_first_key(m, key, i),
        is_first_key(m, key, j),
    ensures
        i == j,
{
}

/// The first position of a key is what `key_index` gives.
pub proof fn lemma_key_index_found(m: Seq<(Seq<char>, JsonView)>, key: Seq<char>, i: int)
    requires
        is_first_key(m, key, i),
    ensures
        key_index(m, key) == Some(i),
{
    let c = choose|c: int| is_first_key(m, key, c);
    lemma_first_key_unique(m, key, i, c);
}

/// A key that no member holds has no position.
pub proof fn lemma_key_index_absent(m: Seq<(Seq<char>, JsonView)>, key: Seq<char>)
    requires
        forall|j: int| 0 <= j < m.len() ==> m[j].0 != key,
    ensures
        key_index(m, key) is None,
{
}

/// The value of the member `key` in `m`: the first one that has this key.
pub open spec fn member(m: Seq<(Seq<char>, JsonView)>, key: Seq<char>) -> Option<JsonView> {
    field(JsonView::Object(m), key)
}

/// No key occurs twice in `m`.
pub open spec fn distinct_keys(m: Seq<(Seq<char>, JsonView)>) -> bool {
    forall|i: int, j: int| 0 <= i < j < m.len() ==> #[trigger] m[i].0 != #[trigger] m[j].0
}

/// `i` is where a member of the key `key` goes among the members `m`: after
/// every member whose key does not come after `key`, before the first whose
/// key does.
pub open spec fn is_insert_pos(m: Seq<(Seq<char>, JsonView)>, key: Seq<char>, i: int) -> bool {
    &&& 0 <= i <= m.len()
    &&& forall|j: int| 0 <= j < i ==> !key_lt(key, #[trigger] m[j].0)
    &&& i < m.len() ==> key_lt(key, m[i].0)
}

/// Where a member of the key `key` goes among the members `m`.
pub open spec fn insert_pos(m: Seq<(Seq<char>, JsonView)>, key: Seq<char>) -> int {
    choose|i: int| is_insert_pos(m, key, i)
}

/// There is one place to insert a key, and `insert_pos` gives it.
pub proof fn lemma_insert_pos_found(m: Seq<(Seq<char>, JsonView)>, key: Seq<char>, i: int)
    requires
        is_insert_pos(m, key, i),
    ensures
        insert_pos(m, key) == i,
{
    let c = insert_pos(m, key);
    assert(is_insert_pos(m, key, c));
    if c < i {
        assert(!key_lt(key, m[c].0));
    } else if i < c {
        assert(!key_lt(key, m[i].0));
    }
}

/// A place to insert a key exists at or before `j`, when the key comes
/// before the key at `j`.
proof fn lemma_insert_pos_before(m: Seq<(Seq<char>, JsonView)>, key: Seq<char>, j: int)
    requires
        0 <= j < m.len(),
        key_lt(key, m[j].0),
    ensures
        is_insert_pos(m, key, insert_pos(m, key)),
        insert_pos(m, key) <= j,
    decreases j,
{
    if forall|i: int| 0 <= i < j ==> !key_lt(key, #[trigger] m[i].0) {
        lemma_insert_pos_found(m, key, j);
    } else {
        let i = choose|i: int| 0 <= i < j && key_lt(key, #[trigger] m[i].0);
        lemma_insert_pos_before(m, key, i);
    }
}

/// `insert_pos` gives a place to insert the key.
pub proof fn lemma_insert_pos(m: Seq<(Seq<char>, JsonView)>, key: Seq<char>)
    ensures
        is_insert_pos(m, key, insert_pos(m, key)),
{
    if exists|j: int| 0 <= j < m.len() && key_lt(key, #[trigger] m[j].0) {
        let j = choose|j: int| 0 <= j < m.len() && key_lt(key, #[trigger] m[j].0);
        lemma_insert_pos_before(m, key, j);
    } else {
        lemma_insert_pos_found(m, key, m.len() as int);
    }
}

/// Inserting a member of a new key at its place keeps the keys sorted.
pub proof fn lemma_insert_sorted(m: Seq<(Seq<char>, JsonView)>, e: (Seq<char>, JsonView))
    requires
        sorted_keys(m),
        forall|j: int| 0 <= j < m.len() ==> m[j].0 != e.0,
    ensures
        sorted_keys(m.insert(insert_pos(m, e.0), e)),
{
    lemma_insert_pos(m, e.0);
    let p = insert_pos(m, e.0);
    let r = m.insert(p, e);
    m.insert_ensures(p, e);
    assert forall|j: int| 0 <= j < p implies key_lt(#[trigger] m[j].0, e.0) by {
        assert(!key_lt(e.0, m[j].0));
        assert(m[j].0 != e.0);
        lemma_key_lt_total(m[j].0, e.0);
    }
    assert forall|j: int| p <= j < m.len() implies key_lt(e.0, #[trigger] m[j].0) by {
        if j > p {
            lemma_key_lt_transitive(e.0, m[p].0, m[j].0);
        }
    }
    assert forall|a: int, b: int| 0 <= a < b < r.len() implies key_lt(#[trigger] r[a].0, #[trigger] r[b].0) by {
        if b < p {
            assert(r[a] == m[a] && r[b] == m[b]);
        } else if b == p {
            assert(r[a] == m[a]);
        } else if a < p {
            assert(r[a] == m[a] && r[b] == m[b - 1]);
            lemma_key_lt_transitive(m[a].0, e.0, m[b - 1].0);
        } else if a == p {
            assert(r[b] == m[b - 1]);
        } else {
            assert(r[a] == m[a - 1] && r[b] == m[b - 1]);
        }
    }
}

/// Inserting a member of another key leaves the member of a key as it was.
pub proof fn lemma_member_insert_other(
    m: Seq<(Seq<char>, JsonView)>,
    p: int,
    e: (Seq<char>, JsonView),
    key: Seq<char>,
)
    requires
        0 <= p <= m.len(),
        e.0 != key,
    ensures
        member(m.insert(p, e), key) == member(m, key),
        key_index(m.insert(p, e), key) is Some <==> key_index(m, key) is Some,
{
    let r = m.insert(p, e);
    m.insert_ensures(p, e);
    if key_index(m, key) is Some {
        lemma_key_index_some(m, key);
        let i = key_index(m, key)->0;
        let i2 = if i < p {
            i
        } else {
            i + 1
        };
        assert forall|j: int| 0 <= j < i2 implies r[j].0 != key by {
            if j < p {
                assert(r[j] == m[j]);
            } else if j > p {
                assert(r[j] == m[j - 1]);
            }
        }
        assert(r[i2] == m[i]);
        lemma_key_index_found(r, key, i2);
    } else {
        lemma_key_index_none(m, key);
        assert forall|j: int| 0 <= j < r.len() implies r[j].0 != key by {
            if j < p {
                assert(r[j] == m[j]);
            } else if j > p {
                assert(r[j] == m[j - 1]);
            }
        }
        lemma_key_index_none(r, key);
    }
}

/// Inserting a member of a new key makes its value the member of that key.
pub proof fn lemma_member_insert_new(m: Seq<(Seq<char>, JsonView)>, p: int, e: (Seq<char>, JsonView))
    requires
        0 <= p <= m.len(),
        key_index(m, e.0) is None,
    ensures
        member(m.insert(p, e), e.0) == Some(e.1),
{
    let r = m.insert(p, e);
    m.insert_ensures(p, e);
    lemma_key_index_none(m, e.0);
    assert forall|j: int| 0 <= j < p implies r[j].0 != e.0 by {
        assert(r[j] == m[j]);
    }
    lemma_key_index_found(r, e.0, p);
}

/// What `key_index` gives is a first position of the key.
pub proof fn lemma_key_index_some(m: Seq<(Seq<char>, JsonView)>, key: Seq<char>)
    requires
        key_index(m, key) is Some,
    ensures
        is_first_key(m, key, key_index(m, key)->0),
{
}

/// A key held at position `j` has a first position, at or before `j`.
pub proof fn lemma_key_has_first(m: Seq<(Seq<char>, JsonView)>, key: Seq<char>, j: int)
    requires
        0 <= j < m.len(),
        m[j].0 == key,
    ensures
        key_index(m, key) matches Some(i) && i <= j,
    decreases j,
{
    if forall|i: int| 0 <= i < j ==> m[i].0 != key {
        lemma_key_index_found(m, key, j);
    } else {
        let i = choose|i: int| 0 <= i < j && m[i].0 == key;
        lemma_key_has_first(m, key, i);
    }
}

/// `key_index` is `None` exactly when no member holds the key.
pub proof fn lemma_key_index_none(m: Seq<(Seq<char>, JsonView)>, key: Seq<char>)
    ensures
        key_index(m, key) is None <==> forall|j: int| 0 <= j < m.len() ==> m[j].0 != key,
{
    if key_index(m, key) is None {
        assert forall|j: int| 0 <= j < m.len() implies m[j].0 != key by {
            if m[j].0 == key {
                lemma_key_has_first(m, key, j);
            }
        }
    } else {
        lemma_key_index_some(m, key);
    }
}

/// Two member sequences with the same keys at the same positions find a key
/// at the same position.
pub proof fn lemma_key_index_same_keys(
    m1: Seq<(Seq<char>, JsonView)>,
    m2: Seq<(Seq<char>, JsonView)>,
    key: Seq<char>,
)
    requires
        m1.len() == m2.len(),
        forall|i: int| 0 <= i < m1.len() ==> #[trigger] m1[i].0 == m2[i].0,
    ensures
        key_index(m1, key) == key_index(m2, key),
{
    assert forall|i: int| 0 <= i < m1.len() implies m2[i].0 == key <==> m1[i].0 == key by {
        assert(m1[i].0 == m2[i].0);
    }
    if key_index(m1, key) is Some {
        lemma_key_index_some(m1, key);
        lemma_key_index_found(m2, key, key_index(m1, key)->0);
    } else if key_index(m2, key) is Some {
        lemma_key_index_some(m2, key);
        lemma_key_index_found(m1, key, key_index(m2, key)->0);
    }
}

/// Appending a member of another key leaves where a key is found.
pub proof fn lemma_key_index_push_other(
    m: Seq<(Seq<char>, JsonView)>,
    e: (Seq<char>, JsonView),
    key: Seq<char>,
)
    requires
        e.0 != key,
    ensures
        key_index(m.push(e), key) == key_index(m, key),
{
    let m2 = m.push(e);
    if key_index(m, key) is Some {
        lemma_key_index_some(m, key);
        lemma_key_index_found(m2, key, key_index(m, key)->0);
    } else if key_index(m2, key) is Some {
        lemma_key_index_some(m2, key);
        let i = key_index(m2, key)->0;
        assert(m2[m.len() as int].0 != key);
        assert forall|j: int| 0 <= j < i implies m[j].0 != key by {
            assert(m2[j] == m[j]);
        }
        lemma_key_index_found(m, key, i);
    }
}

/// Appending a member of a new key finds it at the end.
pub proof fn lemma_key_index_push_new(m: Seq<(Seq<char>, JsonView)>, e: (Seq<char>, JsonView))
    requires
        key_index(m, e.0) is None,
    ensures
        key_index(m.push(e), e.0) == Some(m.len() as int),
{
    lemma_key_index_none(m, e.0);
    lemma_key_index_found(m.push(e), e.0, m.len() as int);
}

/// What an optional reference to a value is, as a mathematical value.
pub open spec fn opt_view(o: Option<&Json>) -> Option<JsonView> {
    match o {
        Some(v) => Some(v@),
        None => None,
    }
}

/// Whether two strings hold the same text, compared byte by byte.
pub fn text_eq(a: &str, b: &str) -> (r: bool)
    ensures
        r == (a@ == b@),
{
    let x = a.as_bytes();
    let y = b.as_bytes();
    proof {
        vstd::utf8::encode_utf8_decode_utf8(a@);
        vstd::utf8::encode_utf8_decode_utf8(b@);
    }
    if x.len() != y.len() {
        return false;
    }
    let mut i: usize = 0;
    while i < x.len()
        invariant
            x@.len() == y@.len(),
            x@ == encode_utf8(a@),
            y@ == encode_utf8(b@),
            decode_utf8(encode_utf8(a@)) == a@,
            decode_utf8(encode_utf8(b@)) == b@,
            i <= x@.len(),
            forall|j: int| 0 <= j < i ==> x@[j] == y@[j],
        decreases x@.len() - i,
    {
        if x[i] != y[i] {
            return false;
        }
        i += 1;
    }
    assert(x@ =~= y@);
    true
}

/// The characters of `s`, in order.
pub fn chars_of(s: &str) -> (r: Vec<char>)
    ensures
        r@ == s@,
{
    let mut r: Vec<char> = Vec::new();
    for c in it: s.chars()
        invariant
            r@ == it.seq().take(it.index() as int),
    {
        r.push(c);
    }
    r
}

/// Whether `a` comes before `b` in the order of keys (see `key_lt`).
pub fn key_before(a: &str, b: &str) -> (r: bool)
    ensures
        r == key_lt(a@, b@),
{
    let x = chars_of(a);
    let y = chars_of(b);
    let mut i: usize = 0;
    assert(x@.skip(0) =~= x@ && y@.skip(0) =~= y@);
    while i < x.len() && i < y.len()
        invariant
            i <= x@.len(),
            i <= y@.len(),
            x@ == a@,
            y@ == b@,
            key_lt(x@, y@) == key_lt(x@.skip(i as int), y@.skip(i as int)),
        decreases x@.len() - i,
    {
        if x[i] != y[i] {
            return x[i] < y[i];
        }
        assert(x@.skip(i as int).drop_first() =~= x@.skip(i + 1));
        assert(y@.skip(i as int).drop_first() =~= y@.skip(i + 1));
        i += 1;
    }
    i == x.len() && i < y.len()
}

impl Json {
    /// The member `key` of an object; `None` for a missing key or a value
    /// that is not an object (`Value::get` with a string index).
    pub fn get(&self, key: &str) -> (r: Option<&Json>)
        ensures
            opt_view(r) == field(self@, key@),
    {
        match self {
            Json::Object(members) => {
                proof {
                    lemma_object_view(*members);
                    assert(self@ == JsonView::Object(members_view(members@)));
                }
                let mut i: usize = 0;
                while i < members.len()
                    invariant
                        i <= members@.len(),
                        self@ == JsonView::Object(members_view(members@)),
                        forall|j: int| 0 <= j < i ==> members@[j].0@ != key@,
                    decreases members@.len() - i,
                {
                    if text_eq(members[i].0.as_str(), key) {
                        proof {
                            lemma_key_index_found(members_view(members@), key@, i as int);
                            assert(members_view(members@)[i as int].1 == members@[i as int].1@);
                        }
                        return Some(&members[i].1);
                    }
                    i += 1;
                }
                proof {
                    lemma_key_index_absent(members_view(members@), key@);
                }
                None
            },
            _ => None,
        }
    }

    /// The element at `index` of an array; `None` past its end or for a value
    /// that is not an array (`Value::get` with a position).
    pub fn get_index(&self, index: usize) -> (r: Option<&Json>)
        ensures
            opt_view(r) == element(self@, index as int),
    {
        match self {
            Json::Array(items) => {
                if index < items.len() {
                    Some(&items[index])
                } else {
                    None
                }
            },
            _ => None,
        }
    }
}

impl View for Json {
    type V = JsonView;

    open spec fn view(&self) -> JsonView {
        json_view(*self)
    }
}

} // verus!
