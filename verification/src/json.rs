//! A JSON document model: the values that the payload validators read and build.
use vstd::prelude::*;

use crate::text::str_equal;

verus! {

/// One `key: value` member of a JSON object, in document order.
#[derive(Debug)]
pub struct JsonEntry {
    pub key: String,
    pub value: JsonValue,
}

/// A JSON value. Integers are held exactly; other numbers keep their decimal text.
#[derive(Debug)]
pub enum JsonValue {
    Null,
    Bool(bool),
    Int(i64),
    Decimal(String),
    Str(String),
    Array(Vec<JsonValue>),
    Object(Vec<JsonEntry>),
}

/// The value bound to `key` among `entries`: the first member with that key.
pub open spec fn entries_lookup(entries: Seq<JsonEntry>, key: Seq<char>) -> Option<JsonValue>
    decreases entries.len(),
{
    if entries.len() == 0 {
        None
    } else if entries[0].key@ == key {
        Some(entries[0].value)
    } else {
        entries_lookup(entries.drop_first(), key)
    }
}

/// `v.get(key)`: the member `key` of an object, `None` for a missing key or a non-object.
pub open spec fn json_get(v: JsonValue, key: Seq<char>) -> Option<JsonValue> {
    match v {
        JsonValue::Object(entries) => entries_lookup(entries@, key),
        _ => None,
    }
}

/// `v[key]`: the member `key`, or `null` where it is missing.
pub open spec fn json_at(v: JsonValue, key: Seq<char>) -> JsonValue {
    match json_get(v, key) {
        Some(x) => x,
        None => JsonValue::Null,
    }
}

/// The text of a string value.
pub open spec fn json_str(v: JsonValue) -> Option<Seq<char>> {
    match v {
        JsonValue::Str(s) => Some(s@),
        _ => None,
    }
}

/// The items of an array value.
pub open spec fn json_arr(v: JsonValue) -> Option<Seq<JsonValue>> {
    match v {
        JsonValue::Array(items) => Some(items@),
        _ => None,
    }
}

/// The integer of an integer value.
pub open spec fn json_int(v: JsonValue) -> Option<i64> {
    match v {
        JsonValue::Int(n) => Some(n),
        _ => None,
    }
}

/// The flag of a boolean value.
pub open spec fn json_bool(v: JsonValue) -> Option<bool> {
    match v {
        JsonValue::Bool(b) => Some(b),
        _ => None,
    }
}

/// `v.get(key).and_then(as_str)`.
pub open spec fn field_str(v: JsonValue, key: Seq<char>) -> Option<Seq<char>> {
    json_str(json_at(v, key))
}

/// `v.get(key).and_then(as_array)`.
pub open spec fn field_arr(v: JsonValue, key: Seq<char>) -> Option<Seq<JsonValue>> {
    json_arr(json_at(v, key))
}

/// The length of the array `v[key]`, 0 where it is no array.
pub open spec fn field_arr_len(v: JsonValue, key: Seq<char>) -> nat {
    match field_arr(v, key) {
        Some(items) => items.len(),
        None => 0,
    }
}

/// The value that an optional reference points to.
pub open spec fn opt_deref(r: Option<&JsonValue>) -> Option<JsonValue> {
    match r {
        Some(v) => Some(*v),
        None => None,
    }
}

/// The text of an optional string slice.
pub open spec fn opt_view(o: Option<&str>) -> Option<Seq<char>> {
    match o {
        Some(s) => Some(s@),
        None => None,
    }
}

/// Structural equality of two JSON values, strings compared by their characters and
/// objects compared as maps (same number of members, each key bound to an equal value).
pub open spec fn json_equiv(a: JsonValue, b: JsonValue) -> bool
    decreases a,
{
    match (a, b) {
        (JsonValue::Null, JsonValue::Null) => true,
        (JsonValue::Bool(x), JsonValue::Bool(y)) => x == y,
        (JsonValue::Int(x), JsonValue::Int(y)) => x == y,
        (JsonValue::Decimal(x), JsonValue::Decimal(y)) => x@ == y@,
        (JsonValue::Str(x), JsonValue::Str(y)) => x@ == y@,
        (JsonValue::Array(xs), JsonValue::Array(ys)) => {
            &&& xs@.len() == ys@.len()
            &&& forall|i: int| 0 <= i < xs@.len() ==> json_equiv(xs@[i], ys@[i])
        },
        (JsonValue::Object(xs), JsonValue::Object(ys)) => {
            &&& xs@.len() == ys@.len()
            &&& forall|i: int|
                0 <= i < xs@.len() ==> match entries_lookup(ys@, (#[trigger] xs@[i]).key@) {
                    Some(w) => json_equiv(xs@[i].value, w),
                    None => false,
                }
        },
        _ => false,
    }
}

/// The member found for a key is the first one that carries it.
pub proof fn lemma_lookup_first(entries: Seq<JsonEntry>, i: int, key: Seq<char>)
    requires
        0 <= i < entries.len(),
        entries[i].key@ == key,
        forall|j: int| 0 <= j < i ==> (#[trigger] entries[j]).key@ != key,
    ensures
        entries_lookup(entries, key) == Some(entries[i].value),
    decreases i,
{
    if i > 0 {
        assert forall|j: int| 0 <= j < i - 1 implies (#[trigger] entries.drop_first()[j]).key@ != key by {
            assert(entries.drop_first()[j] == entries[j + 1]);
        }
        lemma_lookup_first(entries.drop_first(), i - 1, key);
    }
}

proof fn lemma_lookup_step(entries: Seq<JsonEntry>, key: Seq<char>, i: int)
    requires
        0 <= i < entries.len(),
        entries[i].key@ != key,
    ensures
        entries_lookup(entries.subrange(i, entries.len() as int), key) == entries_lookup(
            entries.subrange(i + 1, entries.len() as int),
            key,
        ),
{
    assert(entries.subrange(i, entries.len() as int).drop_first() =~= entries.subrange(
        i + 1,
        entries.len() as int,
    ));
}

/// The value bound to `key` among `entries`, scanning them in order.
pub fn lookup_entry<'a>(entries: &'a Vec<JsonEntry>, key: &str) -> (r: Option<&'a JsonValue>)
    ensures
        opt_deref(r) == entries_lookup(entries@, key@),
{
    let n = entries.len();
    let mut i: usize = 0;
    proof {
        assert(entries@.subrange(0, n as int) =~= entries@);
    }
    while i < n
        invariant
            n == entries@.len(),
            i <= n,
            entries_lookup(entries@.subrange(i as int, n as int), key@) == entries_lookup(
                entries@,
                key@,
            ),
        decreases n - i,
    {
        if str_equal(entries[i].key.as_str(), key) {
            proof {
                assert(entries@.subrange(i as int, n as int)[0] == entries@[i as int]);
            }
            return Some(&entries[i].value);
        }
        proof {
            lemma_lookup_step(entries@, key@, i as int);
        }
        i = i + 1;
    }
    None
}

impl JsonValue {
    /// `self.get(key)`.
    pub fn get(&self, key: &str) -> (r: Option<&JsonValue>)
        ensures
            opt_deref(r) == json_get(*self, key@),
    {
        match self {
            JsonValue::Object(entries) => lookup_entry(entries, key),
            _ => None,
        }
    }

    /// `self.as_str()`.
    pub fn as_str(&self) -> (r: Option<&str>)
        ensures
            opt_view(r) == json_str(*self),
    {
        match self {
            JsonValue::Str(s) => Some(s.as_str()),
            _ => None,
        }
    }

    /// `self.as_array()`.
    pub fn as_array(&self) -> (r: Option<&Vec<JsonValue>>)
        ensures
            match r {
                Some(items) => json_arr(*self) == Some(items@),
                None => json_arr(*self) is None,
            },
    {
        match self {
            JsonValue::Array(items) => Some(items),
            _ => None,
        }
    }

    /// `self.as_i64()`.
    pub fn as_i64(&self) -> (r: Option<i64>)
        ensures
            r == json_int(*self),
    {
        match self {
            JsonValue::Int(n) => Some(*n),
            _ => None,
        }
    }

    /// `self.as_bool()`.
    pub fn as_bool(&self) -> (r: Option<bool>)
        ensures
            r == json_bool(*self),
    {
        match self {
            JsonValue::Bool(b) => Some(*b),
            _ => None,
        }
    }

    /// `self.get(key).and_then(as_str)`.
    pub fn field_str(&self, key: &str) -> (r: Option<&str>)
        ensures
            opt_view(r) == field_str(*self, key@),
    {
        match self.get(key) {
            Some(v) => v.as_str(),
            None => None,
        }
    }

    /// `self.get(key).and_then(as_array)`.
    pub fn field_arr(&self, key: &str) -> (r: Option<&Vec<JsonValue>>)
        ensures
            match r {
                Some(items) => field_arr(*self, key@) == Some(items@),
                None => field_arr(*self, key@) is None,
            },
    {
        match self.get(key) {
            Some(v) => v.as_array(),
            None => None,
        }
    }

    /// The length of the array `self[key]`, 0 where it is no array.
    pub fn field_arr_len(&self, key: &str) -> (r: usize)
        ensures
            r as nat == field_arr_len(*self, key@),
    {
        match self.field_arr(key) {
            Some(items) => items.len(),
            None => 0,
        }
    }
}

/// Structural equality, as `==` on `serde_json::Value`.
pub fn json_equal(a: &JsonValue, b: &JsonValue) -> (r: bool)
    ensures
        r == json_equiv(*a, *b),
    decreases a,
{
    match a {
        JsonValue::Null => match b {
            JsonValue::Null => true,
            _ => false,
        },
        JsonValue::Bool(x) => match b {
            JsonValue::Bool(y) => *x == *y,
            _ => false,
        },
        JsonValue::Int(x) => match b {
            JsonValue::Int(y) => *x == *y,
            _ => false,
        },
        JsonValue::Decimal(x) => match b {
            JsonValue::Decimal(y) => str_equal(x.as_str(), y.as_str()),
            _ => false,
        },
        JsonValue::Str(x) => match b {
            JsonValue::Str(y) => str_equal(x.as_str(), y.as_str()),
            _ => false,
        },
        JsonValue::Array(xs) => match b {
            JsonValue::Array(ys) => {
                if xs.len() != ys.len() {
                    return false;
                }
                let n = xs.len();
                let mut i: usize = 0;
                while i < n
                    invariant
                        *a == JsonValue::Array(*xs),
                        *b == JsonValue::Array(*ys),
                        n == xs@.len(),
                        n == ys@.len(),
                        i <= n,
                        forall|j: int| 0 <= j < i ==> json_equiv(xs@[j], ys@[j]),
                    decreases n - i,
                {
                    proof {
                        assert(decreases_to!(*a => (*a)->Array_0));
                        assert(decreases_to!(*xs => xs@));
                        assert(decreases_to!(xs@ => xs@[i as int]));
                    }
                    if !json_equal(&xs[i], &ys[i]) {
                        assert(!json_equiv(xs@[i as int], ys@[i as int]));
                        return false;
                    }
                    i = i + 1;
                }
                true
            },
            _ => false,
        },
        JsonValue::Object(xs) => match b {
            JsonValue::Object(ys) => {
                if xs.len() != ys.len() {
                    return false;
                }
                let n = xs.len();
                let mut i: usize = 0;
                while i < n
                    invariant
                        *a == JsonValue::Object(*xs),
                        *b == JsonValue::Object(*ys),
                        n == xs@.len(),
                        n == ys@.len(),
                        i <= n,
                        forall|j: int|
                            0 <= j < i ==> match entries_lookup(ys@, (#[trigger] xs@[j]).key@) {
                                Some(w) => json_equiv(xs@[j].value, w),
                                None => false,
                            },
                    decreases n - i,
                {
                    proof {
                        assert(decreases_to!(*a => (*a)->Object_0));
                        assert(decreases_to!(*xs => xs@));
                        assert(decreases_to!(xs@ => xs@[i as int]));
                        assert(decreases_to!(xs@[i as int] => xs@[i as int].value));
                    }
                    let ghost xi = xs@[i as int];
                    match lookup_entry(ys, xs[i].key.as_str()) {
                        Some(w) => {
                            if !json_equal(&xs[i].value, w) {
                                assert(!json_equiv(xi.value, *w));
                                assert(!match entries_lookup(ys@, xs@[i as int].key@) {
                                    Some(w) => json_equiv(xs@[i as int].value, w),
                                    None => false,
                                });
                                return false;
                            }
                        },
                        None => {
                            assert(entries_lookup(ys@, xi.key@) is None);
                            return false;
                        },
                    }
                    i = i + 1;
                }
                true
            },
            _ => false,
        },
    }
}

/// A count as a JSON integer, capped at `i64::MAX`.
pub open spec fn count_json(n: nat) -> JsonValue {
    if n <= i64::MAX {
        JsonValue::Int(n as i64)
    } else {
        JsonValue::Int(i64::MAX)
    }
}

/// `json!(n)` for a count.
pub fn json_count(n: usize) -> (r: JsonValue)
    ensures
        r == count_json(n as nat),
{
    let wide = n as u64;
    if wide <= 0x7fff_ffff_ffff_ffffu64 {
        JsonValue::Int(wide as i64)
    } else {
        JsonValue::Int(0x7fff_ffff_ffff_ffffi64)
    }
}

// ---------------------------------------------------------------------------------------------
// Copies and edits
// ---------------------------------------------------------------------------------------------

/// Two values with the same structure: same kinds, same scalars and texts, same items in
/// order, and same members in order under the same keys.
pub open spec fn json_same(a: JsonValue, b: JsonValue) -> bool
    decreases a,
{
    match (a, b) {
        (JsonValue::Null, JsonValue::Null) => true,
        (JsonValue::Bool(x), JsonValue::Bool(y)) => x == y,
        (JsonValue::Int(x), JsonValue::Int(y)) => x == y,
        (JsonValue::Decimal(x), JsonValue::Decimal(y)) => x@ == y@,
        (JsonValue::Str(x), JsonValue::Str(y)) => x@ == y@,
        (JsonValue::Array(xs), JsonValue::Array(ys)) => {
            &&& xs@.len() == ys@.len()
            &&& forall|i: int| 0 <= i < xs@.len() ==> json_same(#[trigger] xs@[i], ys@[i])
        },
        (JsonValue::Object(xs), JsonValue::Object(ys)) => {
            &&& xs@.len() == ys@.len()
            &&& forall|i: int|
                0 <= i < xs@.len() ==> (#[trigger] xs@[i]).key@ == ys@[i].key@ && json_same(xs@[i].value, ys@[i].value)
        },
        _ => false,
    }
}

/// Every value is the same as itself.
pub proof fn lemma_json_same_refl(a: JsonValue)
    ensures
        json_same(a, a),
    decreases a,
{
    match a {
        JsonValue::Array(xs) => {
            assert forall|i: int| 0 <= i < xs@.len() implies json_same(#[trigger] xs@[i], xs@[i]) by {
                assert(decreases_to!(a => xs));
                assert(decreases_to!(xs => xs@));
                lemma_json_same_refl(xs@[i]);
            }
        },
        JsonValue::Object(es) => {
            assert forall|i: int| 0 <= i < es@.len() implies (#[trigger] es@[i]).key@ == es@[i].key@ && json_same(
                es@[i].value,
                es@[i].value,
            ) by {
                assert(decreases_to!(a => es));
                assert(decreases_to!(es => es@));
                assert(decreases_to!(es@ => es@[i]));
                lemma_json_same_refl(es@[i].value);
            }
        },
        _ => {},
    }
}

/// A copy of a value (`clone`).
pub fn json_clone(v: &JsonValue) -> (r: JsonValue)
    ensures
        json_same(r, *v),
    decreases v,
{
    match v {
        JsonValue::Null => JsonValue::Null,
        JsonValue::Bool(b) => JsonValue::Bool(*b),
        JsonValue::Int(n) => JsonValue::Int(*n),
        JsonValue::Decimal(d) => JsonValue::Decimal(d.clone()),
        JsonValue::Str(s) => JsonValue::Str(s.clone()),
        JsonValue::Array(xs) => {
            let n = xs.len();
            let mut out: Vec<JsonValue> = Vec::new();
            let mut i: usize = 0;
            while i < n
                invariant
                    *v == JsonValue::Array(*xs),
                    n == xs@.len(),
                    i <= n,
                    out@.len() == i,
                    forall|j: int| 0 <= j < i ==> json_same(#[trigger] out@[j], xs@[j]),
                decreases n - i,
            {
                proof {
                    assert(decreases_to!(*v => (*v)->Array_0));
                    assert(decreases_to!(*xs => xs@));
                    assert(decreases_to!(xs@ => xs@[i as int]));
                }
                out.push(json_clone(&xs[i]));
                i = i + 1;
            }
            JsonValue::Array(out)
        },
        JsonValue::Object(xs) => {
            let n = xs.len();
            let mut out: Vec<JsonEntry> = Vec::new();
            let mut i: usize = 0;
            while i < n
                invariant
                    *v == JsonValue::Object(*xs),
                    n == xs@.len(),
                    i <= n,
                    out@.len() == i,
                    forall|j: int|
                        0 <= j < i ==> (#[trigger] out@[j]).key@ == xs@[j].key@ && json_same(out@[j].value, xs@[j].value),
                decreases n - i,
            {
                proof {
                    assert(decreases_to!(*v => (*v)->Object_0));
                    assert(decreases_to!(*xs => xs@));
                    assert(decreases_to!(xs@ => xs@[i as int]));
                    assert(decreases_to!(xs@[i as int] => xs@[i as int].value));
                }
                let value = json_clone(&xs[i].value);
                out.push(JsonEntry { key: xs[i].key.clone(), value });
                i = i + 1;
            }
            JsonValue::Object(out)
        },
    }
}

proof fn lemma_lookup_push(entries: Seq<JsonEntry>, e: JsonEntry, key: Seq<char>)
    ensures
        entries_lookup(entries.push(e), key) == match entries_lookup(entries, key) {
            Some(x) => Some(x),
            None => if e.key@ == key {
                Some(e.value)
            } else {
                None
            },
        },
    decreases entries.len(),
{
    if entries.len() > 0 {
        let p = entries.push(e);
        assert(p[0] == entries[0]);
        assert(p.drop_first() =~= entries.drop_first().push(e));
        lemma_lookup_push(entries.drop_first(), e, key);
        if entries[0].key@ == key {
            assert(entries_lookup(p, key) == Some(entries[0].value));
            assert(entries_lookup(entries, key) == Some(entries[0].value));
        } else {
            assert(entries_lookup(p, key) == entries_lookup(p.drop_first(), key));
            assert(entries_lookup(entries, key) == entries_lookup(entries.drop_first(), key));
        }
    } else {
        let p = entries.push(e);
        assert(p[0] == e);
        assert(p.drop_first() =~= Seq::<JsonEntry>::empty());
        assert(entries_lookup(Seq::<JsonEntry>::empty(), key) is None);
        assert(entries_lookup(entries, key) is None);
        if e.key@ != key {
            assert(entries_lookup(p, key) == entries_lookup(p.drop_first(), key));
        }
    }
}

proof fn lemma_lookup_update(entries: Seq<JsonEntry>, i: int, e: JsonEntry, key: Seq<char>)
    requires
        0 <= i < entries.len(),
        e.key@ == entries[i].key@,
        forall|j: int| 0 <= j < i ==> (#[trigger] entries[j]).key@ != entries[i].key@,
    ensures
        entries_lookup(entries.update(i, e), key) == if key == e.key@ {
            Some(e.value)
        } else {
            entries_lookup(entries, key)
        },
    decreases i,
{
    if i > 0 {
        assert(entries.update(i, e).drop_first() =~= entries.drop_first().update(i - 1, e));
        assert forall|j: int| 0 <= j < i - 1 implies (#[trigger] entries.drop_first()[j]).key@ != entries.drop_first()[i - 1].key@ by {
            assert(entries.drop_first()[j] == entries[j + 1]);
        }
        lemma_lookup_update(entries.drop_first(), i - 1, e, key);
    } else {
        assert(entries.update(i, e).drop_first() =~= entries.drop_first());
    }
}

fn find_member(entries: &Vec<JsonEntry>, key: &str) -> (r: Option<usize>)
    ensures
        match r {
            Some(i) => i < entries@.len() && entries@[i as int].key@ == key@ && forall|j: int|
                0 <= j < i ==> (#[trigger] entries@[j]).key@ != key@,
            None => forall|j: int| 0 <= j < entries@.len() ==> (#[trigger] entries@[j]).key@ != key@,
        },
{
    let n = entries.len();
    let mut i: usize = 0;
    while i < n
        invariant
            n == entries@.len(),
            i <= n,
            forall|j: int| 0 <= j < i ==> (#[trigger] entries@[j]).key@ != key@,
        decreases n - i,
    {
        if str_equal(entries[i].key.as_str(), key) {
            return Some(i);
        }
        i = i + 1;
    }
    None
}

proof fn lemma_lookup_none(entries: Seq<JsonEntry>, key: Seq<char>)
    requires
        forall|j: int| 0 <= j < entries.len() ==> (#[trigger] entries[j]).key@ != key,
    ensures
        entries_lookup(entries, key) is None,
    decreases entries.len(),
{
    if entries.len() > 0 {
        assert forall|j: int| 0 <= j < entries.drop_first().len() implies (#[trigger] entries.drop_first()[j]).key@ != key by {
            assert(entries.drop_first()[j] == entries[j + 1]);
        }
        lemma_lookup_none(entries.drop_first(), key);
    }
}

/// `v[key] = value` on an object or on `null` (which becomes an object): the member takes the
/// value where the key is there, else is added at the end.
pub fn set_member(v: &mut JsonValue, key: &str, value: JsonValue)
    requires
        *old(v) is Object || *old(v) is Null,
    ensures
        *final(v) is Object,
        json_get(*final(v), key@) == Some(value),
        forall|k: Seq<char>| k != key@ ==> #[trigger] json_get(*final(v), k) == json_get(*old(v), k),
{
    let mut taken = JsonValue::Null;
    std::mem::swap(&mut taken, v);
    match taken {
        JsonValue::Object(mut entries) => {
            let ghost before = entries@;
            match find_member(&entries, key) {
                Some(i) => {
                    let e = JsonEntry { key: key.to_owned(), value };
                    proof {
                        assert forall|k: Seq<char>| #[trigger] entries_lookup(before.update(i as int, e), k) == if k == key@ {
                            Some(e.value)
                        } else {
                            entries_lookup(before, k)
                        } by {
                            lemma_lookup_update(before, i as int, e, k);
                        }
                    }
                    entries.set(i, e);
                },
                None => {
                    let e = JsonEntry { key: key.to_owned(), value };
                    proof {
                        lemma_lookup_none(before, key@);
                        assert forall|k: Seq<char>| #[trigger] entries_lookup(before.push(e), k) == if k == key@ {
                            Some(e.value)
                        } else {
                            entries_lookup(before, k)
                        } by {
                            lemma_lookup_push(before, e, k);
                            if k == key@ {
                                lemma_lookup_none(before, k);
                            }
                        }
                    }
                    entries.push(e);
                },
            }
            *v = JsonValue::Object(entries);
        },
        _ => {
            let mut entries: Vec<JsonEntry> = Vec::new();
            let e = JsonEntry { key: key.to_owned(), value };
            proof {
                assert forall|k: Seq<char>| #[trigger] entries_lookup(seq![].push(e), k) == if k == key@ {
                    Some(e.value)
                } else {
                    None
                } by {
                    lemma_lookup_push(seq![], e, k);
                }
            }
            entries.push(e);
            *v = JsonValue::Object(entries);
        },
    }
}

/// The entries without those under `key`, in order.
pub open spec fn without_key(entries: Seq<JsonEntry>, key: Seq<char>) -> Seq<JsonEntry>
    decreases entries.len(),
{
    if entries.len() == 0 {
        seq![]
    } else if entries.last().key@ == key {
        without_key(entries.drop_last(), key)
    } else {
        without_key(entries.drop_last(), key).push(entries.last())
    }
}

proof fn lemma_without_key(entries: Seq<JsonEntry>, key: Seq<char>, k: Seq<char>)
    ensures
        entries_lookup(without_key(entries, key), k) == if k == key {
            None
        } else {
            entries_lookup(entries, k)
        },
    decreases entries.len(),
{
    if entries.len() > 0 {
        lemma_without_key(entries.drop_last(), key, k);
        lemma_lookup_push(entries.drop_last(), entries.last(), k);
        assert(entries.drop_last().push(entries.last()) =~= entries);
        if entries.last().key@ != key {
            lemma_lookup_push(without_key(entries.drop_last(), key), entries.last(), k);
        }
    }
}

/// `v.as_object_mut().map(|m| m.remove(key))`: an object loses its members under `key`; any
/// other value is left as it is.
pub fn remove_member(v: &mut JsonValue, key: &str)
    ensures
        *old(v) is Object ==> *final(v) is Object && json_get(*final(v), key@) is None && forall|k: Seq<char>|
            k != key@ ==> #[trigger] json_get(*final(v), k) == json_get(*old(v), k),
        !(*old(v) is Object) ==> *final(v) == *old(v),
{
    let mut taken = JsonValue::Null;
    std::mem::swap(&mut taken, v);
    match taken {
        JsonValue::Object(entries) => {
            let n = entries.len();
            let mut kept: Vec<JsonEntry> = Vec::new();
            let mut rest = entries;
            let ghost all = rest@;
            let mut i: usize = 0;
            let mut placeholder: Vec<JsonEntry> = Vec::new();
            proof {
                assert(all.take(0) =~= Seq::<JsonEntry>::empty());
            }
            while i < n
                invariant
                    n == all.len(),
                    rest@.len() == n,
                    i <= n,
                    forall|j: int| i <= j < n ==> rest@[j] == all[j],
                    kept@ == without_key(all.take(i as int), key@),
                decreases n - i,
            {
                let mut slot = JsonEntry { key: String::new(), value: JsonValue::Null };
                rest.set_and_swap(i, &mut slot);
                proof {
                    assert(all.take(i + 1).drop_last() =~= all.take(i as int));
                    assert(all.take(i + 1).last() == all[i as int]);
                }
                if !str_equal(slot.key.as_str(), key) {
                    kept.push(slot);
                }
                i = i + 1;
            }
            proof {
                assert(all.take(n as int) =~= all);
                assert forall|k: Seq<char>| k != key@ implies #[trigger] entries_lookup(kept@, k) == entries_lookup(all, k) by {
                    lemma_without_key(all, key@, k);
                }
                lemma_without_key(all, key@, key@);
            }
            let _ = placeholder;
            *v = JsonValue::Object(kept);
        },
        other => {
            *v = other;
        },
    }
}

/// Takes the value of the member `key` out of an object, leaving `null` in its place; `None`
/// (and the value untouched) where there is no such member.
pub fn take_member(v: &mut JsonValue, key: &str) -> (r: Option<JsonValue>)
    ensures
        r == json_get(*old(v), key@),
        match json_get(*old(v), key@) {
            Some(_) => {
                &&& *final(v) is Object
                &&& json_get(*final(v), key@) == Some(JsonValue::Null)
                &&& forall|k: Seq<char>| k != key@ ==> #[trigger] json_get(*final(v), k) == json_get(*old(v), k)
            },
            None => *final(v) == *old(v),
        },
{
    let mut taken = JsonValue::Null;
    std::mem::swap(&mut taken, v);
    match taken {
        JsonValue::Object(mut entries) => {
            let ghost before = entries@;
            match find_member(&entries, key) {
                Some(i) => {
                    let mut slot = JsonEntry { key: key.to_owned(), value: JsonValue::Null };
                    let ghost e = slot;
                    proof {
                        lemma_lookup_first(before, i as int, key@);
                        assert forall|k: Seq<char>| #[trigger] entries_lookup(before.update(i as int, e), k) == if k == key@ {
                            Some(e.value)
                        } else {
                            entries_lookup(before, k)
                        } by {
                            lemma_lookup_update(before, i as int, e, k);
                        }
                    }
                    entries.set_and_swap(i, &mut slot);
                    *v = JsonValue::Object(entries);
                    Some(slot.value)
                },
                None => {
                    proof {
                        lemma_lookup_none(before, key@);
                    }
                    *v = JsonValue::Object(entries);
                    None
                },
            }
        },
        other => {
            *v = other;
            None
        },
    }
}

// ---------------------------------------------------------------------------------------------
// What copies keep
// ---------------------------------------------------------------------------------------------

proof fn lemma_same_lookup(xs: Seq<JsonEntry>, ys: Seq<JsonEntry>, key: Seq<char>)
    requires
        xs.len() == ys.len(),
        forall|i: int| 0 <= i < xs.len() ==> (#[trigger] xs[i]).key@ == ys[i].key@ && json_same(xs[i].value, ys[i].value),
    ensures
        entries_lookup(xs, key) is Some <==> entries_lookup(ys, key) is Some,
        entries_lookup(xs, key) matches Some(x) ==> json_same(x, entries_lookup(ys, key)->0),
    decreases xs.len(),
{
    if xs.len() > 0 {
        assert forall|i: int| 0 <= i < xs.drop_first().len() implies (#[trigger] xs.drop_first()[i]).key@ == ys.drop_first()[i].key@
            && json_same(xs.drop_first()[i].value, ys.drop_first()[i].value) by {
            assert(xs.drop_first()[i] == xs[i + 1]);
            assert(ys.drop_first()[i] == ys[i + 1]);
        }
        lemma_same_lookup(xs.drop_first(), ys.drop_first(), key);
        assert(xs[0].key@ == ys[0].key@ && json_same(xs[0].value, ys[0].value));
    }
}

/// A copy has the same members, each a copy.
pub proof fn lemma_same_get(a: JsonValue, b: JsonValue, key: Seq<char>)
    requires
        json_same(a, b),
    ensures
        json_get(a, key) is Some <==> json_get(b, key) is Some,
        json_get(a, key) matches Some(x) ==> json_same(x, json_get(b, key)->0),
        json_same(json_at(a, key), json_at(b, key)),
{
    if let (JsonValue::Object(xs), JsonValue::Object(ys)) = (a, b) {
        lemma_same_lookup(xs@, ys@, key);
    }
}

/// A copy reads the same text, number and flag under each key.
pub proof fn lemma_same_fields(a: JsonValue, b: JsonValue, key: Seq<char>)
    requires
        json_same(a, b),
    ensures
        field_str(a, key) == field_str(b, key),
        json_int(json_at(a, key)) == json_int(json_at(b, key)),
        json_bool(json_at(a, key)) == json_bool(json_at(b, key)),
        field_arr(a, key) is Some <==> field_arr(b, key) is Some,
{
    lemma_same_get(a, b, key);
}

} // verus!
