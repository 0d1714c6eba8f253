//! JSON values as the protocol carries them, their mathematical model, and
//! the recursive merge used to build capabilities.
use vstd::prelude::*;

verus! {

broadcast use {vstd::std_specs::vec::group_vec_axioms, vstd::seq::group_seq_axioms};

/// A JSON value. Numbers keep their decimal text; objects keep their
/// entries in insertion order.
#[derive(Debug, PartialEq, Eq)]
pub enum JsonValue {
    Null,
    Bool(bool),
    Number(String),
    String(String),
    Array(Vec<JsonValue>),
    Object(Vec<(String, JsonValue)>),
}

/// The mathematical model of a JSON value.
pub enum Json {
    Null,
    Bool(bool),
    Number(Seq<char>),
    Str(Seq<char>),
    Array(Seq<Json>),
    Object(Seq<(Seq<char>, Json)>),
}

/// The entries of an object, as (key, value) pairs.
pub type Entries = Seq<(Seq<char>, Json)>;

pub open spec fn json_of(v: JsonValue) -> Json
    decreases v, 1nat,
{
    match v {
        JsonValue::Null => Json::Null,
        JsonValue::Bool(b) => Json::Bool(b),
        JsonValue::Number(n) => Json::Number(n@),
        JsonValue::String(s) => Json::Str(s@),
        JsonValue::Array(items) => Json::Array(items_of(items@)),
        JsonValue::Object(entries) => Json::Object(entries_of(entries@)),
    }
}

pub open spec fn items_of(s: Seq<JsonValue>) -> Seq<Json>
    decreases s, 0nat,
{
    if s.len() == 0 {
        Seq::empty()
    } else {
        items_of(s.drop_last()).push(json_of(s.last()))
    }
}

pub open spec fn entries_of(s: Seq<(String, JsonValue)>) -> Entries
    decreases s, 0nat,
{
    if s.len() == 0 {
        Seq::empty()
    } else {
        entries_of(s.drop_last()).push((s.last().0@, json_of(s.last().1)))
    }
}

impl View for JsonValue {
    type V = Json;

    open spec fn view(&self) -> Json {
        json_of(*self)
    }
}

/// The position of the first entry with key `k`, or the number of entries
/// when there is none.
pub open spec fn key_index(s: Entries, k: Seq<char>) -> int
    decreases s.len(),
{
    if s.len() == 0 {
        0
    } else {
        let p = key_index(s.drop_last(), k);
        if p < s.len() - 1 {
            p
        } else if s.last().0 == k {
            s.len() - 1
        } else {
            s.len() as int
        }
    }
}

/// The value under key `k` (its first occurrence).
pub open spec fn entry_get(s: Entries, k: Seq<char>) -> Option<Json> {
    let i = key_index(s, k);
    if i < s.len() {
        Some(s[i].1)
    } else {
        None
    }
}

/// The value under key `k` of an object; `None` for other values.
pub open spec fn get(v: Json, k: Seq<char>) -> Option<Json> {
    match v {
        Json::Object(e) => entry_get(e, k),
        _ => None,
    }
}

/// No key occurs twice.
pub open spec fn unique_keys(s: Entries) -> bool {
    forall|i: int, j: int| 0 <= i < j < s.len() ==> s[i].0 != s[j].0
}

/// Merge of `b` into `a`: two objects merge key by key, recursively;
/// otherwise `b` wins.
pub open spec fn merged(a: Json, b: Json) -> Json
    decreases b, 1nat,
{
    match b {
        Json::Object(eb) => match a {
            Json::Object(ea) => Json::Object(merge_entries(ea, eb)),
            _ => b,
        },
        _ => b,
    }
}

/// The entries of `eb`, taken in order, merged into `ea`.
pub open spec fn merge_entries(ea: Entries, eb: Entries) -> Entries
    decreases eb, 0nat,
{
    if eb.len() == 0 {
        ea
    } else {
        merge_step(merge_entries(ea, eb.drop_last()), eb.last().0, eb.last().1)
    }
}

/// One entry `(k, v)` merged into `acc`: an existing key merges its value
/// with `v`, a new key is appended.
pub open spec fn merge_step(acc: Entries, k: Seq<char>, v: Json) -> Entries
    decreases v, 2nat,
{
    let i = key_index(acc, k);
    if i < acc.len() {
        acc.update(i, (k, merged(acc[i].1, v)))
    } else {
        acc.push((k, v))
    }
}

pub proof fn lemma_key_index(s: Entries, k: Seq<char>)
    ensures
        ({
            let i = key_index(s, k);
            &&& 0 <= i <= s.len()
            &&& i < s.len() ==> s[i].0 == k
            &&& forall|j: int| 0 <= j < i ==> s[j].0 != k
        }),
    decreases s.len(),
{
    if s.len() > 0 {
        lemma_key_index(s.drop_last(), k);
        assert(forall|j: int| 0 <= j < s.len() - 1 ==> s.drop_last()[j] == s[j]);
    }
}

pub proof fn lemma_items_of(s: Seq<JsonValue>)
    ensures
        items_of(s).len() == s.len(),
        forall|i: int| 0 <= i < s.len() ==> #[trigger] items_of(s)[i] == json_of(s[i]),
    decreases s.len(),
{
    if s.len() > 0 {
        lemma_items_of(s.drop_last());
    }
}

pub proof fn lemma_entries_of(s: Seq<(String, JsonValue)>)
    ensures
        entries_of(s).len() == s.len(),
        forall|i: int|
            0 <= i < s.len() ==> #[trigger] entries_of(s)[i] == (s[i].0@, json_of(s[i].1)),
    decreases s.len(),
{
    if s.len() > 0 {
        lemma_entries_of(s.drop_last());
    }
}

/// `key_index` is the one position that meets its description.
pub proof fn lemma_key_index_is(s: Entries, k: Seq<char>, i: int)
    requires
        0 <= i <= s.len(),
        i < s.len() ==> s[i].0 == k,
        forall|j: int| 0 <= j < i ==> s[j].0 != k,
    ensures
        key_index(s, k) == i,
{
    lemma_key_index(s, k);
}

/// Merging the entries of `eb` (whose keys are unique) into `ea`: under each
/// key the result holds the merge of both values, the value of the side that
/// has the key, or nothing.
pub proof fn lemma_merge_entries_get(ea: Entries, eb: Entries, k: Seq<char>)
    requires
        unique_keys(eb),
    ensures
        entry_get(merge_entries(ea, eb), k) == match (entry_get(ea, k), entry_get(eb, k)) {
            (Some(x), Some(y)) => Some(merged(x, y)),
            (None, Some(y)) => Some(y),
            (x, None) => x,
        },
    decreases eb.len(),
{
    if eb.len() > 0 {
        let p = eb.drop_last();
        let k2 = eb.last().0;
        let v = eb.last().1;
        assert(forall|j: int| 0 <= j < p.len() ==> p[j] == eb[j]);
        assert(unique_keys(p));
        lemma_merge_entries_get(ea, p, k);
        let acc = merge_entries(ea, p);
        let res = merge_step(acc, k2, v);
        assert(res == merge_entries(ea, eb));
        lemma_key_index(p, k);
        lemma_key_index(acc, k);
        lemma_key_index(acc, k2);
        let i = key_index(acc, k2);
        let ik = key_index(acc, k);
        if k2 == k {
            assert(key_index(p, k) == p.len());
            assert(entry_get(eb, k) == Some(v));
            if i < acc.len() {
                lemma_key_index_is(res, k, i);
            } else {
                lemma_key_index_is(res, k, i);
            }
        } else {
            assert(entry_get(eb, k) == entry_get(p, k));
            if i < acc.len() {
                lemma_key_index_is(res, k, ik);
            } else if ik < acc.len() {
                lemma_key_index_is(res, k, ik);
            } else {
                lemma_key_index_is(res, k, ik + 1);
            }
        }
    }
}

/// A well-formed value: no object, at any depth, holds a key twice.
pub open spec fn well_formed(j: Json) -> bool
    decreases j, 1nat,
{
    match j {
        Json::Array(items) => items_well_formed(items),
        Json::Object(e) => unique_keys(e) && values_well_formed(e),
        _ => true,
    }
}

/// Every item is well formed.
pub open spec fn items_well_formed(s: Seq<Json>) -> bool
    decreases s, 0nat,
{
    s.len() == 0 || (items_well_formed(s.drop_last()) && well_formed(s.last()))
}

/// Every value of the entries is well formed.
pub open spec fn values_well_formed(e: Entries) -> bool
    decreases e, 0nat,
{
    e.len() == 0 || (values_well_formed(e.drop_last()) && well_formed(e.last().1))
}

pub proof fn lemma_values_well_formed(e: Entries)
    ensures
        values_well_formed(e) <==> forall|i: int| 0 <= i < e.len() ==> #[trigger] well_formed(e[i].1),
    decreases e.len(),
{
    if e.len() > 0 {
        let p = e.drop_last();
        lemma_values_well_formed(p);
        if values_well_formed(e) {
            assert forall|i: int| 0 <= i < e.len() implies #[trigger] well_formed(e[i].1) by {
                if i < p.len() {
                    assert(p[i] == e[i]);
                }
            }
        }
        if forall|i: int| 0 <= i < e.len() ==> #[trigger] well_formed(e[i].1) {
            assert forall|i: int| 0 <= i < p.len() implies #[trigger] well_formed(p[i].1) by {
                assert(p[i] == e[i]);
            }
            assert(well_formed(e[e.len() - 1].1));
        }
    }
}

pub proof fn lemma_items_well_formed(s: Seq<Json>)
    ensures
        items_well_formed(s) <==> forall|i: int| 0 <= i < s.len() ==> #[trigger] well_formed(s[i]),
    decreases s.len(),
{
    if s.len() > 0 {
        let p = s.drop_last();
        lemma_items_well_formed(p);
        if items_well_formed(s) {
            assert forall|i: int| 0 <= i < s.len() implies #[trigger] well_formed(s[i]) by {
                if i < p.len() {
                    assert(p[i] == s[i]);
                }
            }
        }
        if forall|i: int| 0 <= i < s.len() ==> #[trigger] well_formed(s[i]) {
            assert forall|i: int| 0 <= i < p.len() implies #[trigger] well_formed(p[i]) by {
                assert(p[i] == s[i]);
            }
            assert(well_formed(s[s.len() - 1]));
        }
    }
}

/// Entries of a well-formed object.
pub open spec fn entries_well_formed(e: Entries) -> bool {
    unique_keys(e) && forall|i: int| 0 <= i < e.len() ==> #[trigger] well_formed(e[i].1)
}

/// Merging well-formed values gives a well-formed value.
pub proof fn lemma_merged_well_formed(a: Json, b: Json)
    requires
        well_formed(a),
        well_formed(b),
    ensures
        well_formed(merged(a, b)),
    decreases b, 1nat,
{
    match b {
        Json::Object(eb) => match a {
            Json::Object(ea) => {
                assert(a == Json::Object(ea));
                assert(b == Json::Object(eb));
                lemma_values_well_formed(ea);
                lemma_values_well_formed(eb);
                lemma_merge_entries_well_formed(ea, eb);
                lemma_values_well_formed(merge_entries(ea, eb));
                assert(merged(a, b) == Json::Object(merge_entries(ea, eb)));
            },
            _ => {},
        },
        _ => {},
    }
}

/// Merging the entries of a well-formed object into those of another keeps
/// them well formed.
pub proof fn lemma_merge_entries_well_formed(ea: Entries, eb: Entries)
    requires
        entries_well_formed(ea),
        forall|i: int| 0 <= i < eb.len() ==> #[trigger] well_formed(eb[i].1),
    ensures
        entries_well_formed(merge_entries(ea, eb)),
    decreases eb, 0nat,
{
    if eb.len() > 0 {
        let p = eb.drop_last();
        assert(forall|j: int| 0 <= j < p.len() ==> p[j] == eb[j]);
        assert forall|j: int| 0 <= j < p.len() implies #[trigger] well_formed(p[j].1) by {
            assert(p[j] == eb[j]);
        }
        lemma_merge_entries_well_formed(ea, p);
        let acc = merge_entries(ea, p);
        let k = eb.last().0;
        let v = eb.last().1;
        assert(well_formed(eb[eb.len() - 1].1));
        lemma_key_index(acc, k);
        let i = key_index(acc, k);
        let res = merge_step(acc, k, v);
        assert(res == merge_entries(ea, eb));
        if i < acc.len() {
            assert(decreases_to!(eb => eb[eb.len() - 1]));
            assert(decreases_to!(eb[eb.len() - 1] => eb[eb.len() - 1].1));
            lemma_merged_well_formed(acc[i].1, v);
            assert(forall|j: int| 0 <= j < res.len() ==> (#[trigger] res[j]).0 == acc[j].0);
        } else {
            assert(forall|j: int| 0 <= j < acc.len() ==> (#[trigger] res[j]) == acc[j]);
        }
        assert(entries_well_formed(res));
    }
}

/// Merge recursion, for well-formed objects `a` and `b`: under a key present
/// in both, the result holds the merge of the two values; under a key only
/// one of them has, that value; where `b`'s value under the key is not an
/// object, exactly `b`'s value, whatever `a` held. The result is well formed.
pub proof fn lemma_merge_get(a: Json, b: Json, k: Seq<char>)
    requires
        a is Object,
        b is Object,
        well_formed(a),
        well_formed(b),
    ensures
        get(merged(a, b), k) == match (get(a, k), get(b, k)) {
            (Some(x), Some(y)) => Some(merged(x, y)),
            (None, Some(y)) => Some(y),
            (x, None) => x,
        },
        get(b, k) is Some && !(get(b, k)->0 is Object) ==> get(merged(a, b), k) == get(b, k),
        well_formed(merged(a, b)),
{
    lemma_merge_entries_get(a->Object_0, b->Object_0, k);
    lemma_merged_well_formed(a, b);
}

impl JsonValue {
    /// A copy of this value, as deep as the value goes.
    pub fn deep_clone(&self) -> (r: JsonValue)
        ensures
            r@ == self@,
        decreases self,
    {
        match self {
            JsonValue::Null => JsonValue::Null,
            JsonValue::Bool(b) => JsonValue::Bool(*b),
            JsonValue::Number(n) => JsonValue::Number(n.clone()),
            JsonValue::String(s) => JsonValue::String(s.clone()),
            JsonValue::Array(items) => {
                let mut out: Vec<JsonValue> = Vec::new();
                let mut i: usize = 0;
                while i < items.len()
                    invariant
                        *self == JsonValue::Array(*items),
                        i <= items.len(),
                        out@.len() == i,
                        forall|j: int| 0 <= j < i ==> (#[trigger] out@[j])@ == items@[j]@,
                    decreases items.len() - i,
                {
                    proof {
                        assert(decreases_to!(*self => self->Array_0));
                        assert(decreases_to!(self->Array_0 => self->Array_0[i as int]));
                    }
                    let c = items[i].deep_clone();
                    out.push(c);
                    i += 1;
                }
                proof {
                    lemma_items_of(out@);
                    lemma_items_of(items@);
                    assert(items_of(out@) =~= items_of(items@));
                }
                JsonValue::Array(out)
            },
            JsonValue::Object(entries) => {
                let mut out: Vec<(String, JsonValue)> = Vec::new();
                let mut i: usize = 0;
                while i < entries.len()
                    invariant
                        *self == JsonValue::Object(*entries),
                        i <= entries.len(),
                        out@.len() == i,
                        forall|j: int|
                            0 <= j < i ==> (#[trigger] out@[j]).0@ == entries@[j].0@ && out@[j].1@
                                == entries@[j].1@,
                    decreases entries.len() - i,
                {
                    let k = entries[i].0.clone();
                    proof {
                        assert(decreases_to!(*self => self->Object_0));
                        assert(decreases_to!(self->Object_0 => self->Object_0[i as int]));
                        assert(decreases_to!(self->Object_0[i as int] => self->Object_0[i as int].1));
                    }
                    let c = entries[i].1.deep_clone();
                    out.push((k, c));
                    i += 1;
                }
                proof {
                    lemma_entries_of(out@);
                    lemma_entries_of(entries@);
                    assert(entries_of(out@) =~= entries_of(entries@));
                }
                JsonValue::Object(out)
            },
        }
    }
}

/// The position of the first entry with key `k`, or the number of entries.
pub fn find_key(entries: &Vec<(String, JsonValue)>, k: &String) -> (r: usize)
    ensures
        r == key_index(entries_of(entries@), k@),
{
    let mut i: usize = 0;
    while i < entries.len()
        invariant
            i <= entries.len(),
            forall|j: int| 0 <= j < i ==> (#[trigger] entries@[j]).0@ != k@,
        decreases entries.len() - i,
    {
        if entries[i].0 == *k {
            proof {
                lemma_entries_of(entries@);
                lemma_key_index_is(entries_of(entries@), k@, i as int);
            }
            return i;
        }
        i += 1;
    }
    proof {
        lemma_entries_of(entries@);
        lemma_key_index_is(entries_of(entries@), k@, i as int);
    }
    i
}

/// Merges `b` into `a`, taking `a` by value.
fn merge_owned(a: JsonValue, b: &JsonValue) -> (r: JsonValue)
    ensures
        r@ == merged(a@, b@),
    decreases b,
{
    match b {
        JsonValue::Object(eb) => match a {
            JsonValue::Object(ea) => {
                let ghost ea_m = entries_of(ea@);
                let ghost eb_m = entries_of(eb@);
                let mut acc = ea;
                let mut idx: usize = 0;
                proof {
                    lemma_entries_of(eb@);
                    assert(eb_m.subrange(0, 0) =~= Seq::<(Seq<char>, Json)>::empty());
                }
                while idx < eb.len()
                    invariant
                        *b == JsonValue::Object(*eb),
                        idx <= eb.len(),
                        eb_m == entries_of(eb@),
                        eb_m.len() == eb@.len(),
                        entries_of(acc@) == merge_entries(ea_m, eb_m.subrange(0, idx as int)),
                    decreases eb.len() - idx,
                {
                    proof {
                        lemma_entries_of(eb@);
                        lemma_entries_of(acc@);
                        assert(eb_m.subrange(0, idx + 1).drop_last() =~= eb_m.subrange(
                            0,
                            idx as int,
                        ));
                    }
                    let ghost before = entries_of(acc@);
                    let k = &eb[idx].0;
                    let v = &eb[idx].1;
                    let pos = find_key(&acc, k);
                    proof {
                        lemma_key_index(before, k@);
                        assert(decreases_to!(*b => b->Object_0));
                        assert(decreases_to!(b->Object_0 => b->Object_0[idx as int]));
                        assert(decreases_to!(b->Object_0[idx as int] => b->Object_0[idx as int].1));
                        assert(eb_m.subrange(0, idx + 1).last() == (k@, v@));
                        assert(merge_entries(ea_m, eb_m.subrange(0, idx + 1)) == merge_step(
                            before,
                            k@,
                            v@,
                        ));
                    }
                    if pos < acc.len() {
                        let (key, cur) = acc.remove(pos);
                        let m = merge_owned(cur, v);
                        acc.insert(pos, (key, m));
                        proof {
                            lemma_entries_of(acc@);
                            assert(entries_of(acc@) =~= before.update(
                                pos as int,
                                (k@, merged(before[pos as int].1, v@)),
                            ));
                        }
                    } else {
                        acc.push((k.clone(), v.deep_clone()));
                        proof {
                            lemma_entries_of(acc@);
                            assert(entries_of(acc@) =~= before.push((k@, v@)));
                        }
                    }
                    idx += 1;
                }
                proof {
                    assert(eb_m.subrange(0, eb@.len() as int) =~= eb_m) by {
                        lemma_entries_of(eb@);
                    }
                }
                JsonValue::Object(acc)
            },
            _ => b.deep_clone(),
        },
        _ => b.deep_clone(),
    }
}

/// Recursively merges `a` then `b` into a new value: objects merge key by
/// key, and where the two are not both objects `b` wins.
pub fn merge_json(a: &JsonValue, b: &JsonValue) -> (r: JsonValue)
    ensures
        r@ == merged(a@, b@),
        well_formed(a@) && well_formed(b@) ==> well_formed(r@),
{
    proof {
        if well_formed(a@) && well_formed(b@) {
            lemma_merged_well_formed(a@, b@);
        }
    }
    merge_owned(a.deep_clone(), b)
}

/// Recursively merges `b` into `a`, in place.
pub fn merge_json_mut(a: &mut JsonValue, b: &JsonValue)
    ensures
        final(a)@ == merged(old(a)@, b@),
        well_formed(old(a)@) && well_formed(b@) ==> well_formed(final(a)@),
{
    proof {
        if well_formed(a@) && well_formed(b@) {
            lemma_merged_well_formed(a@, b@);
        }
    }
    let mut cur = JsonValue::Null;
    std::mem::swap(a, &mut cur);
    *a = merge_owned(cur, b);
}

impl DeepView for JsonValue {
    type V = Json;

    open spec fn deep_view(&self) -> Json {
        json_of(*self)
    }
}

/// A JSON string holding `s`.
pub fn json_str(s: &str) -> (r: JsonValue)
    ensures
        r@ == Json::Str(s@),
        well_formed(r@),
{
    JsonValue::String(String::from_str(s))
}

/// A JSON array of the given items.
pub fn json_array(items: Vec<JsonValue>) -> (r: JsonValue)
    ensures
        r@ == Json::Array(items_of(items@)),
        (forall|i: int| 0 <= i < items@.len() ==> #[trigger] well_formed(items@[i]@)) ==> well_formed(r@),
{
    proof {
        lemma_items_of(items@);
        lemma_items_well_formed(items_of(items@));
        if forall|i: int| 0 <= i < items@.len() ==> #[trigger] well_formed(items@[i]@) {
            assert forall|i: int| 0 <= i < items@.len() implies #[trigger] well_formed(
                items_of(items@)[i],
            ) by {
                assert(well_formed(items@[i]@));
            }
        }
    }
    JsonValue::Array(items)
}

/// An object with the single entry `k: v`.
pub fn object1(k: &str, v: JsonValue) -> (r: JsonValue)
    ensures
        r@ == Json::Object(seq![(k@, v@)]),
        well_formed(v@) ==> well_formed(r@),
{
    let ghost vm = v@;
    let mut e: Vec<(String, JsonValue)> = Vec::new();
    e.push((String::from_str(k), v));
    proof {
        lemma_entries_of(e@);
        assert(entries_of(e@) =~= seq![(k@, vm)]);
        lemma_values_well_formed(seq![(k@, vm)]);
    }
    JsonValue::Object(e)
}

/// An object with the entries `k1: v1` and `k2: v2`, in that order.
pub fn object2(k1: &str, v1: JsonValue, k2: &str, v2: JsonValue) -> (r: JsonValue)
    ensures
        r@ == Json::Object(seq![(k1@, v1@), (k2@, v2@)]),
        k1@ != k2@ && well_formed(v1@) && well_formed(v2@) ==> well_formed(r@),
{
    let ghost vm1 = v1@;
    let ghost vm2 = v2@;
    let mut e: Vec<(String, JsonValue)> = Vec::new();
    e.push((String::from_str(k1), v1));
    e.push((String::from_str(k2), v2));
    proof {
        lemma_entries_of(e@);
        assert(entries_of(e@) =~= seq![(k1@, vm1), (k2@, vm2)]);
        lemma_values_well_formed(seq![(k1@, vm1), (k2@, vm2)]);
    }
    JsonValue::Object(e)
}

/// The value under key `k` of an object; `None` for a missing key or a value
/// that is no object.
pub fn get_key<'a>(v: &'a JsonValue, k: &str) -> (r: Option<&'a JsonValue>)
    ensures
        r is Some <==> get(v@, k@) is Some,
        r is Some ==> r->0@ == get(v@, k@)->0,
{
    match v {
        JsonValue::Object(entries) => {
            let key = String::from_str(k);
            let i = find_key(entries, &key);
            proof {
                lemma_entries_of(entries@);
                lemma_key_index(entries_of(entries@), k@);
            }
            if i < entries.len() {
                Some(&entries[i].1)
            } else {
                None
            }
        },
        _ => None,
    }
}

/// The text of a JSON string.
pub fn as_string(v: &JsonValue) -> (r: Option<String>)
    ensures
        match v@ {
            Json::Str(s) => r is Some && r->0@ == s,
            _ => r is None,
        },
{
    match v {
        JsonValue::String(s) => Some(s.clone()),
        _ => None,
    }
}

/// The value of a JSON boolean.
pub fn as_bool(v: &JsonValue) -> (r: Option<bool>)
    ensures
        match v@ {
            Json::Bool(b) => r == Some(b),
            _ => r is None,
        },
{
    match v {
        JsonValue::Bool(b) => Some(*b),
        _ => None,
    }
}

} // verus!
