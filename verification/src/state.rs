//! Deep merge of a state delta into the full snapshot.

use vstd::prelude::*;

use crate::fields::{is_row_of, PrinterRow};
use crate::json::{
    distinct_keys, field, insert_pos, is_insert_pos, key_before, key_index, key_lt,
    lemma_insert_pos, lemma_insert_pos_found, lemma_insert_sorted, lemma_key_lt_asymmetric,
    lemma_key_lt_irreflexive, lemma_member_insert_new, lemma_member_insert_other,
    lemma_sorted_distinct, sorted_keys, lemma_key_index_absent,
    lemma_key_index_found, lemma_key_index_none, lemma_key_index_push_new,
    lemma_key_index_push_other, lemma_key_index_same_keys, lemma_key_index_some, lemma_object_view,
    member, members_view, members_wf, wf, Json, JsonView,
};

verus! {

/// The member `(key, value)` of a delta applied to the members `acc`: an
/// existing member `key` is merged with `value` in place, a new one goes in
/// at its place in the order of keys.
pub open spec fn apply_member(acc: Seq<(Seq<char>, JsonView)>, key: Seq<char>, value: JsonView) -> Seq<
    (Seq<char>, JsonView),
>
    decreases value, 1int,
{
    match key_index(acc, key) {
        Some(i) => acc.update(i, (key, merged(acc[i].1, value))),
        None => acc.insert(insert_pos(acc, key), (key, value)),
    }
}

/// The members of `base` after the members of `delta` were applied one by one, in order.
pub open spec fn merge_members(base: Seq<(Seq<char>, JsonView)>, delta: Seq<(Seq<char>, JsonView)>) -> Seq<
    (Seq<char>, JsonView),
>
    decreases delta, 0int,
{
    if delta.len() == 0 {
        base
    } else {
        apply_member(merge_members(base, delta.drop_last()), delta.last().0, delta.last().1)
    }
}

/// The snapshot `base` after the delta `delta`: where both are objects, each
/// member of the delta is merged into the member of the same key (a new key
/// is added); anything else in the delta replaces the base wholesale.
pub open spec fn merged(base: JsonView, delta: JsonView) -> JsonView
    decreases delta, 0int,
{
    match delta {
        JsonView::Object(d) => match base {
            JsonView::Object(b) => JsonView::Object(merge_members(b, d)),
            _ => delta,
        },
        _ => delta,
    }
}

/// What a lookup found, or null where it found nothing.
pub open spec fn or_null(v: Option<JsonView>) -> JsonView {
    match v {
        Some(x) => x,
        None => JsonView::Null,
    }
}

/// Applying a member of a key already present changes no key; applying one
/// of a new key inserts it at its place.
proof fn lemma_apply_member_keys(acc: Seq<(Seq<char>, JsonView)>, key: Seq<char>, value: JsonView)
    ensures
        ({
            let r = apply_member(acc, key, value);
            &&& key_index(acc, key) is Some ==> r.len() == acc.len() && forall|i: int|
                0 <= i < acc.len() ==> #[trigger] r[i].0 == acc[i].0
            &&& key_index(acc, key) is None ==> r == acc.insert(insert_pos(acc, key), (key, value))
                && is_insert_pos(acc, key, insert_pos(acc, key))
        }),
{
    lemma_insert_pos(acc, key);
    if key_index(acc, key) is Some {
        lemma_key_index_some(acc, key);
    }
}

/// Applying a member of one key leaves the member of any other key as it was.
proof fn lemma_apply_member_other(
    acc: Seq<(Seq<char>, JsonView)>,
    other: Seq<char>,
    value: JsonView,
    key: Seq<char>,
)
    requires
        other != key,
    ensures
        member(apply_member(acc, other, value), key) == member(acc, key),
{
    let r = apply_member(acc, other, value);
    lemma_apply_member_keys(acc, other, value);
    match key_index(acc, other) {
        Some(i) => {
            lemma_key_index_same_keys(r, acc, key);
            if key_index(acc, key) is Some {
                lemma_key_index_some(acc, key);
                lemma_key_index_some(acc, other);
            }
        },
        None => {
            lemma_member_insert_other(acc, insert_pos(acc, other), (other, value), key);
        },
    }
}

/// Applying a member of a key merges its value into what that key held (or into null).
proof fn lemma_apply_member_same(acc: Seq<(Seq<char>, JsonView)>, key: Seq<char>, value: JsonView)
    ensures
        member(apply_member(acc, key, value), key) == Some(merged(or_null(member(acc, key)), value)),
        key_index(apply_member(acc, key, value), key) is Some,
{
    let r = apply_member(acc, key, value);
    lemma_apply_member_keys(acc, key, value);
    match key_index(acc, key) {
        Some(i) => {
            lemma_key_index_same_keys(r, acc, key);
            lemma_key_index_some(acc, key);
        },
        None => {
            lemma_member_insert_new(acc, insert_pos(acc, key), (key, value));
        },
    }
}

/// With distinct keys in the delta, each key after the members are merged holds
/// what `law_merge_member` says.
proof fn lemma_merge_members_member(
    base: Seq<(Seq<char>, JsonView)>,
    delta: Seq<(Seq<char>, JsonView)>,
    key: Seq<char>,
)
    requires
        distinct_keys(delta),
    ensures
        member(merge_members(base, delta), key) == match member(delta, key) {
            Some(d) => Some(merged(or_null(member(base, key)), d)),
            None => member(base, key),
        },
    decreases delta.len(),
{
    if delta.len() == 0 {
        lemma_key_index_none(delta, key);
    } else {
        let prefix = delta.drop_last();
        let last = delta.last();
        assert(delta =~= prefix.push(last));
        assert(distinct_keys(prefix));
        lemma_merge_members_member(base, prefix, key);
        let acc = merge_members(base, prefix);
        if last.0 == key {
            assert forall|j: int| 0 <= j < prefix.len() implies prefix[j].0 != key by {
                assert(delta[j].0 != delta[delta.len() - 1].0);
            }
            lemma_key_index_none(prefix, key);
            lemma_key_index_push_new(prefix, last);
            lemma_apply_member_same(acc, key, last.1);
        } else {
            lemma_key_index_push_other(prefix, last, key);
            if key_index(prefix, key) is Some {
                lemma_key_index_some(prefix, key);
            }
            lemma_apply_member_other(acc, last.0, last.1, key);
        }
    }
}

/// Applying the members of `delta` to `m` changes nothing when each of them
/// is already present in `m` with a value that it leaves unchanged.
proof fn lemma_merge_members_fixed(m: Seq<(Seq<char>, JsonView)>, delta: Seq<(Seq<char>, JsonView)>)
    requires
        forall|n: int|
            0 <= n < delta.len() ==> (#[trigger] key_index(m, delta[n].0) matches Some(i) && merged(
                m[i].1,
                delta[n].1,
            ) == m[i].1),
    ensures
        merge_members(m, delta) == m,
    decreases delta.len(),
{
    if delta.len() > 0 {
        let prefix = delta.drop_last();
        assert forall|n: int| 0 <= n < prefix.len() implies (#[trigger] key_index(
            m,
            prefix[n].0,
        ) matches Some(i) && merged(m[i].1, prefix[n].1) == m[i].1) by {
            assert(prefix[n] == delta[n]);
        }
        lemma_merge_members_fixed(m, prefix);
        let last = delta.last();
        assert(key_index(m, delta[delta.len() - 1].0) is Some);
        let i = key_index(m, last.0)->0;
        lemma_key_index_some(m, last.0);
        assert(apply_member(m, last.0, last.1) =~= m);
    }
}

/// Applying the members of a well-formed delta to well-formed members keeps them well-formed.
proof fn lemma_merge_members_wf(base: Seq<(Seq<char>, JsonView)>, delta: Seq<(Seq<char>, JsonView)>)
    requires
        members_wf(base),
        members_wf(delta),
    ensures
        members_wf(merge_members(base, delta)),
    decreases delta, 0int,
{
    if delta.len() > 0 {
        let prefix = delta.drop_last();
        assert(members_wf(prefix)) by {
            assert forall|i: int| 0 <= i < prefix.len() implies wf(#[trigger] prefix[i].1) by {
                assert(prefix[i] == delta[i]);
            }
        }
        lemma_merge_members_wf(base, prefix);
        let acc = merge_members(base, prefix);
        let last = delta.last();
        assert(wf(delta[delta.len() - 1].1));
        lemma_apply_member_keys(acc, last.0, last.1);
        let r = apply_member(acc, last.0, last.1);
        match key_index(acc, last.0) {
            Some(i) => {
                lemma_key_index_some(acc, last.0);
                assert(wf(acc[i].1));
                law_merge_wf(acc[i].1, last.1);
                assert forall|j: int| 0 <= j < r.len() implies wf(#[trigger] r[j].1) by {
                    if j != i {
                        assert(r[j] == acc[j]);
                    }
                }
                assert forall|a: int, b: int| 0 <= a < b < r.len() implies key_lt(
                    #[trigger] r[a].0,
                    #[trigger] r[b].0,
                ) by {
                    assert(r[a].0 == acc[a].0 && r[b].0 == acc[b].0);
                }
            },
            None => {
                lemma_key_index_none(acc, last.0);
                let p = insert_pos(acc, last.0);
                acc.insert_ensures(p, (last.0, last.1));
                lemma_insert_sorted(acc, (last.0, last.1));
                assert forall|j: int| 0 <= j < r.len() implies wf(#[trigger] r[j].1) by {
                    if j < p {
                        assert(r[j] == acc[j]);
                    } else if j > p {
                        assert(r[j] == acc[j - 1]);
                    }
                }
            },
        }
    }
}

/// Law: merging a well-formed delta into a well-formed snapshot gives a
/// well-formed snapshot (in particular, no object ends up with a key twice).
pub proof fn law_merge_wf(base: JsonView, delta: JsonView)
    requires
        wf(base),
        wf(delta),
    ensures
        wf(merged(base, delta)),
    decreases delta, 1int,
{
    match delta {
        JsonView::Object(d) => match base {
            JsonView::Object(b) => {
                lemma_merge_members_wf(b, d);
            },
            _ => {},
        },
        _ => {},
    }
}

/// Law: a delta that is not an object (a scalar, a string, an array, null)
/// replaces the snapshot wholesale, and so does any delta where the snapshot
/// is not an object.
pub proof fn law_merge_replaces(base: JsonView, delta: JsonView)
    requires
        !(base is Object && delta is Object),
    ensures
        merged(base, delta) == delta,
{
}

/// Law: where the snapshot and a well-formed delta are both objects, each key
/// that the delta names holds, after the merge, what it held before (null if
/// it was absent) merged with the delta's value; every other key holds what it
/// held before, or stays absent.
pub proof fn law_merge_member(base: JsonView, delta: JsonView, key: Seq<char>)
    requires
        base is Object,
        delta is Object,
        wf(delta),
    ensures
        field(merged(base, delta), key) == match field(delta, key) {
            Some(d) => Some(merged(or_null(field(base, key)), d)),
            None => field(base, key),
        },
        field(merged(base, delta), key) is Some <==> (field(base, key) is Some || field(
            delta,
            key,
        ) is Some),
{
    assert(members_wf(delta->Object_0));
    lemma_sorted_distinct(delta->Object_0);
    lemma_merge_members_member(base->Object_0, delta->Object_0, key);
}

/// Law: applying the same well-formed delta twice is applying it once.
pub proof fn law_merge_idempotent(base: JsonView, delta: JsonView)
    requires
        wf(delta),
    ensures
        merged(merged(base, delta), delta) == merged(base, delta),
    decreases delta,
{
    match delta {
        JsonView::Object(d) => {
            let m = match base {
                JsonView::Object(b) => merge_members(b, d),
                _ => d,
            };
            assert(merged(base, delta) == JsonView::Object(m));
            assert forall|n: int| 0 <= n < d.len() implies (#[trigger] key_index(
                m,
                d[n].0,
            ) matches Some(i) && merged(m[i].1, d[n].1) == m[i].1) by {
                let k = d[n].0;
                let v = d[n].1;
                assert(members_wf(d));
                lemma_sorted_distinct(d);
                assert(wf(v));
                assert forall|j: int| 0 <= j < n implies d[j].0 != k by {
                    assert(d[j].0 != d[n].0);
                }
                lemma_key_index_found(d, k, n);
                match base {
                    JsonView::Object(b) => {
                        lemma_merge_members_member(b, d, k);
                        let y = or_null(member(b, k));
                        lemma_key_index_some(m, k);
                        law_merge_idempotent(y, v);
                    },
                    _ => {
                        law_merge_idempotent(JsonView::Null, v);
                    },
                }
            }
            lemma_merge_members_fixed(m, d);
        },
        _ => {},
    }
}

/// Law: a member that a well-formed delta does not name keeps its value. For
/// the snapshot's `section` (such as `print`), a member `key` of that section
/// reads the same after the merge when the delta has no such section, or its
/// section does not name `key`.
pub proof fn law_untouched_member_persists(
    base: JsonView,
    delta: JsonView,
    section: Seq<char>,
    key: Seq<char>,
)
    requires
        base is Object,
        delta is Object,
        wf(delta),
        field(base, section) matches Some(p) && p is Object,
        match field(delta, section) {
            None => true,
            Some(q) => q is Object && field(q, key) is None,
        },
    ensures
        field(or_null(field(merged(base, delta), section)), key) == field(
            or_null(field(base, section)),
            key,
        ),
{
    law_merge_member(base, delta, section);
    if let Some(q) = field(delta, section) {
        let d = delta->Object_0;
        assert(members_wf(d));
        lemma_key_index_some(d, section);
        assert(wf(d[key_index(d, section)->0].1));
        law_merge_member(field(base, section)->0, q, key);
    }
}

/// Applying members of sorted keys to no members gives those members.
proof fn lemma_merge_members_into_empty(delta: Seq<(Seq<char>, JsonView)>)
    requires
        sorted_keys(delta),
    ensures
        merge_members(Seq::empty(), delta) == delta,
    decreases delta.len(),
{
    if delta.len() > 0 {
        let prefix = delta.drop_last();
        let last = delta.last();
        assert(sorted_keys(prefix));
        lemma_merge_members_into_empty(prefix);
        assert forall|j: int| 0 <= j < prefix.len() implies prefix[j].0 != last.0 && !key_lt(
            last.0,
            #[trigger] prefix[j].0,
        ) by {
            assert(key_lt(delta[j].0, delta[delta.len() - 1].0));
            lemma_key_lt_asymmetric(prefix[j].0, last.0);
            lemma_key_lt_irreflexive(last.0);
        }
        lemma_key_index_none(prefix, last.0);
        lemma_insert_pos_found(prefix, last.0, prefix.len() as int);
        assert(apply_member(prefix, last.0, last.1) == prefix.insert(
            prefix.len() as int,
            (last.0, last.1),
        ));
        assert(prefix.insert(prefix.len() as int, (last.0, last.1)) =~= delta);
        assert(merge_members(Seq::empty(), delta) == apply_member(
            merge_members(Seq::empty(), prefix),
            last.0,
            last.1,
        ));
    } else {
        assert(delta =~= Seq::empty());
    }
}

/// Law: the empty object is a left identity: merging a well-formed delta into
/// it gives the delta. (Null is one for every delta, by `law_merge_replaces`.)
pub proof fn law_merge_left_identity(delta: JsonView)
    requires
        wf(delta),
    ensures
        merged(JsonView::Object(Seq::empty()), delta) == delta,
        merged(JsonView::Null, delta) == delta,
{
    if delta is Object {
        assert(members_wf(delta->Object_0));
        lemma_merge_members_into_empty(delta->Object_0);
    }
}

/// Law: the empty object is a right identity for objects: merging it into an
/// object changes nothing.
pub proof fn law_merge_right_identity(base: JsonView)
    requires
        base is Object,
    ensures
        merged(base, JsonView::Object(Seq::empty())) == base,
{
}

/// Dropping the first of members with distinct keys drops the member of its key alone.
proof fn lemma_member_drop_first(m: Seq<(Seq<char>, JsonView)>, key: Seq<char>)
    requires
        m.len() > 0,
        distinct_keys(m),
    ensures
        member(m.drop_first(), key) == if key == m[0].0 {
            None
        } else {
            member(m, key)
        },
{
    let t = m.drop_first();
    if key == m[0].0 {
        assert forall|j: int| 0 <= j < t.len() implies t[j].0 != key by {
            assert(m[0].0 != m[j + 1].0);
        }
        lemma_key_index_none(t, key);
    } else if key_index(m, key) is Some {
        lemma_key_index_some(m, key);
        let i = key_index(m, key)->0;
        lemma_key_index_found(t, key, i - 1);
    } else {
        lemma_key_index_none(m, key);
        assert forall|j: int| 0 <= j < t.len() implies t[j].0 != key by {
            assert(t[j] == m[j + 1]);
        }
        lemma_key_index_none(t, key);
    }
}

/// Two member sequences with sorted keys that hold the same member for every
/// key are the same sequence.
proof fn lemma_sorted_members_equal(m1: Seq<(Seq<char>, JsonView)>, m2: Seq<(Seq<char>, JsonView)>)
    requires
        sorted_keys(m1),
        sorted_keys(m2),
        forall|k: Seq<char>| #[trigger] member(m1, k) == member(m2, k),
    ensures
        m1 == m2,
    decreases m1.len() + m2.len(),
{
    lemma_sorted_distinct(m1);
    lemma_sorted_distinct(m2);
    if m1.len() == 0 && m2.len() == 0 {
        assert(m1 =~= m2);
    } else if m1.len() == 0 {
        lemma_key_index_found(m2, m2[0].0, 0);
        lemma_key_index_none(m1, m2[0].0);
        assert(member(m1, m2[0].0) == member(m2, m2[0].0));
    } else if m2.len() == 0 {
        lemma_key_index_found(m1, m1[0].0, 0);
        lemma_key_index_none(m2, m1[0].0);
        assert(member(m1, m1[0].0) == member(m2, m1[0].0));
    } else {
        let k1 = m1[0].0;
        let k2 = m2[0].0;
        lemma_key_index_found(m1, k1, 0);
        lemma_key_index_found(m2, k2, 0);
        assert(member(m1, k1) == member(m2, k1));
        assert(member(m1, k2) == member(m2, k2));
        lemma_key_index_some(m2, k1);
        lemma_key_index_some(m1, k2);
        let j = key_index(m2, k1)->0;
        let i = key_index(m1, k2)->0;
        if j > 0 {
            assert(key_lt(m2[0].0, m2[j].0));
            if i > 0 {
                assert(key_lt(m1[0].0, m1[i].0));
                lemma_key_lt_asymmetric(k1, k2);
            } else {
                lemma_key_lt_irreflexive(k1);
            }
        }
        assert(m1[0] == m2[0]);
        let t1 = m1.drop_first();
        let t2 = m2.drop_first();
        assert(sorted_keys(t1) && sorted_keys(t2));
        assert forall|k: Seq<char>| #[trigger] member(t1, k) == member(t2, k) by {
            lemma_member_drop_first(m1, k);
            lemma_member_drop_first(m2, k);
            assert(member(m1, k) == member(m2, k));
        }
        lemma_sorted_members_equal(t1, t2);
        assert(m1 =~= seq![m1[0]] + t1);
        assert(m2 =~= seq![m2[0]] + t2);
    }
}

/// No key is a member of both `d1` and `d2`.
pub open spec fn disjoint_keys(d1: JsonView, d2: JsonView) -> bool {
    forall|k: Seq<char>| !(#[trigger] field(d1, k) is Some && #[trigger] field(d2, k) is Some)
}

/// Law: two well-formed object deltas that name disjoint keys commute: applied
/// in either order they give objects whose every key holds the same value,
/// and on a well-formed snapshot the very same object.
pub proof fn law_disjoint_deltas_commute(base: JsonView, d1: JsonView, d2: JsonView)
    requires
        d1 is Object,
        d2 is Object,
        wf(d1),
        wf(d2),
        disjoint_keys(d1, d2),
    ensures
        merged(merged(base, d1), d2) is Object,
        merged(merged(base, d2), d1) is Object,
        forall|k: Seq<char>|
            #[trigger] field(merged(merged(base, d1), d2), k) == field(
                merged(merged(base, d2), d1),
                k,
            ),
        wf(base) ==> merged(merged(base, d1), d2) == merged(merged(base, d2), d1),
{
    let b = if base is Object {
        base
    } else {
        JsonView::Object(Seq::empty())
    };
    law_merge_left_identity(d1);
    law_merge_left_identity(d2);
    assert(merged(base, d1) == merged(b, d1));
    assert(merged(base, d2) == merged(b, d2));
    let m1 = merged(b, d1);
    let m2 = merged(b, d2);
    assert forall|k: Seq<char>| #[trigger]
        field(merged(m1, d2), k) == field(merged(m2, d1), k) by {
        law_merge_member(b, d1, k);
        law_merge_member(b, d2, k);
        law_merge_member(m1, d2, k);
        law_merge_member(m2, d1, k);
        assert(!(field(d1, k) is Some && field(d2, k) is Some));
    }
    if wf(base) {
        assert(wf(b)) by {
            if !(base is Object) {
                assert(members_wf(Seq::<(Seq<char>, JsonView)>::empty()));
            }
        }
        law_merge_wf(b, d1);
        law_merge_wf(b, d2);
        law_merge_wf(m1, d2);
        law_merge_wf(m2, d1);
        let x = merged(m1, d2);
        let y = merged(m2, d1);
        assert(members_wf(x->Object_0) && members_wf(y->Object_0));
        assert forall|k: Seq<char>| #[trigger] member(x->Object_0, k) == member(y->Object_0, k) by {
            assert(field(x, k) == field(y, k));
        }
        lemma_sorted_members_equal(x->Object_0, y->Object_0);
    }
}

/// The position of the member `key` in `members`, if there is one.
fn find_member(members: &Vec<(String, Json)>, key: &String) -> (r: Option<usize>)
    ensures
        r matches Some(i) ==> key_index(members_view(members@), key@) == Some(i as int),
        r is None ==> key_index(members_view(members@), key@) is None,
{
    let mut i: usize = 0;
    while i < members.len()
        invariant
            i <= members.len(),
            forall|j: int| 0 <= j < i ==> members@[j].0@ != key@,
        decreases members.len() - i,
    {
        if members[i].0 == *key {
            proof {
                lemma_key_index_found(members_view(members@), key@, i as int);
            }
            return Some(i);
        }
        i += 1;
    }
    proof {
        lemma_key_index_absent(members_view(members@), key@);
    }
    None
}

/// Where a member of the key `key` goes among `members` (see `insert_pos`).
fn find_insert_pos(members: &Vec<(String, Json)>, key: &String) -> (r: usize)
    ensures
        r as int == insert_pos(members_view(members@), key@),
        r <= members@.len(),
{
    let ghost m = members_view(members@);
    let mut i: usize = 0;
    while i < members.len()
        invariant
            i <= members@.len(),
            m == members_view(members@),
            forall|j: int| 0 <= j < i ==> !key_lt(key@, #[trigger] m[j].0),
        decreases members@.len() - i,
    {
        if key_before(key.as_str(), members[i].0.as_str()) {
            proof {
                lemma_insert_pos_found(m, key@, i as int);
            }
            return i;
        }
        i += 1;
    }
    proof {
        lemma_insert_pos_found(m, key@, i as int);
    }
    i
}

/// `base` with `delta` merged into it (see `merged`).
fn merged_value(base: Json, delta: Json) -> (r: Json)
    ensures
        r@ == merged(base@, delta@),
    decreases delta,
{
    match delta {
        Json::Object(d) => match base {
            Json::Object(b) => {
                let ghost dd = d;
                let ghost bv = members_view(b@);
                let ghost dv = members_view(d@);
                proof {
                    lemma_object_view(b);
                    lemma_object_view(d);
                    assert(dv.take(0) =~= Seq::<(Seq<char>, JsonView)>::empty());
                }
                let mut acc = b;
                let mut rest = d;
                let mut n: usize = 0;
                while rest.len() > 0
                    invariant
                        n <= dd@.len(),
                        n + rest@.len() == dd.len(),
                        delta == Json::Object(dd),
                        rest@ == dd@.skip(n as int),
                        dv == members_view(dd@),
                        members_view(acc@) == merge_members(bv, dv.take(n as int)),
                    decreases rest.len(),
                {
                    let ghost acc0 = acc@;
                    let (k, v) = rest.remove(0);
                    assert(k == dd@[n as int].0 && v == dd@[n as int].1);
                    assert(dv.take(n + 1).drop_last() =~= dv.take(n as int));
                    assert(dv.take(n + 1).last() == (k@, v@));
                    assert(merge_members(bv, dv.take(n + 1)) == apply_member(
                        members_view(acc0),
                        k@,
                        v@,
                    ));
                    match find_member(&acc, &k) {
                        Some(i) => {
                            let (key, old_value) = acc.remove(i);
                            proof {
                                assert(delta->Object_0 == dd);
                                assert(decreases_to!(delta => delta->Object_0));
                                assert(decreases_to!(dd => dd@));
                                assert(decreases_to!(dd@ => dd@[n as int]));
                                assert(decreases_to!(dd@[n as int] => dd@[n as int].1));
                            }
                            let m = merged_value(old_value, v);
                            acc.insert(i, (key, m));
                            assert(members_view(acc@) =~= members_view(acc0).update(
                                i as int,
                                (k@, merged(members_view(acc0)[i as int].1, v@)),
                            ));
                        },
                        None => {
                            let p = find_insert_pos(&acc, &k);
                            acc.insert(p, (k, v));
                            assert(members_view(acc@) =~= members_view(acc0).insert(
                                p as int,
                                (k@, v@),
                            ));
                        },
                    }
                    n += 1;
                    assert(rest@ =~= dd@.skip(n as int));
                }
                assert(dv.take(n as int) =~= dv);
                proof {
                    lemma_object_view(acc);
                }
                Json::Object(acc)
            },
            _ => Json::Object(d),
        },
        other => other,
    }
}

/// Merges the delta `delta` into the snapshot `base`, as `merged` says.
pub fn deep_merge(base: &mut Json, delta: Json)
    ensures
        final(base)@ == merged(old(base)@, delta@),
        wf(old(base)@) && wf(delta@) ==> wf(final(base)@),
{
    let mut current = Json::Null;
    std::mem::swap(&mut current, base);
    proof {
        if wf(current@) && wf(delta@) {
            law_merge_wf(current@, delta@);
        }
    }
    *base = merged_value(current, delta);
}

/// The printer's full state, kept current by the deltas it reports.
pub struct Snapshot {
    pub state: Json,
}

impl Snapshot {
    /// An empty snapshot: the empty object.
    pub fn new() -> (s: Snapshot)
        ensures
            s.state@ == JsonView::Object(Seq::empty()),
            wf(s.state@),
    {
        let members: Vec<(String, Json)> = Vec::new();
        proof {
            lemma_object_view(members);
            assert(members_view(members@) =~= Seq::empty());
            assert(members_wf(Seq::empty()));
        }
        Snapshot { state: Json::Object(members) }
    }

    /// Merges the report `delta` into the snapshot (see `merged`).
    pub fn merge_report(&mut self, delta: Json)
        ensures
            final(self).state@ == merged(old(self).state@, delta@),
            wf(old(self).state@) && wf(delta@) ==> wf(final(self).state@),
    {
        deep_merge(&mut self.state, delta);
    }

    /// The telemetry row at the given time, read from the snapshot's `print`
    /// section (from null where there is none).
    pub fn row_at(&self, ts_ms: i64, ts_ns: i32) -> (row: PrinterRow)
        ensures
            is_row_of(row, or_null(field(self.state@, "print"@)), ts_ms, ts_ns),
    {
        let null = Json::Null;
        let print_state = match self.state.get("print") {
            Some(p) => p,
            None => &null,
        };
        PrinterRow::extract(print_state, ts_ms, ts_ns)
    }

    /// Merges the report `delta` into the snapshot, then reads the telemetry
    /// row at the given time from the snapshot's `print` section (from null
    /// where there is none).
    pub fn apply_report(&mut self, delta: Json, ts_ms: i64, ts_ns: i32) -> (row: PrinterRow)
        ensures
            final(self).state@ == merged(old(self).state@, delta@),
            wf(old(self).state@) && wf(delta@) ==> wf(final(self).state@),
            is_row_of(row, or_null(field(final(self).state@, "print"@)), ts_ms, ts_ns),
    {
        self.merge_report(delta);
        self.row_at(ts_ms, ts_ns)
    }
}

} // verus!
