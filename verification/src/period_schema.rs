//! The response schema a provider is given for a seven-day reading: the reading schema cut to
//! the offer (required members, removed sections, length bounds), then made strict.
use vstd::prelude::*;

use crate::error::{GenerationError, err_code, horoscope_error};
use crate::json::{JsonValue, json_at, json_get, set_member, take_member};
use crate::period_payload::views;

verus! {

// ---------------------------------------------------------------------------------------------
// Writing at a path, as `v[k1][k2]..[kn] = x` does
// ---------------------------------------------------------------------------------------------

/// The value at a path of members, where every member on the way is there.
pub open spec fn json_path(v: JsonValue, p: Seq<Seq<char>>) -> Option<JsonValue>
    decreases p.len(),
{
    if p.len() == 0 {
        Some(v)
    } else {
        match json_get(v, p[0]) {
            Some(c) => json_path(c, p.drop_first()),
            None => None,
        }
    }
}

/// `v[k1]..[kn] = x` does not panic: every value it indexes on the way is an object or `null`
/// (a missing member reads as `null`).
pub open spec fn settable(v: JsonValue, p: Seq<Seq<char>>) -> bool
    decreases p.len(),
{
    p.len() == 0 || ((v is Object || v is Null) && settable(json_at(v, p[0]), p.drop_first()))
}

/// `new` is `old` after `old[k1]..[kn] = x`: each value on the way becomes an object whose
/// other members stay, and the last member holds `x`.
pub open spec fn path_set(old: JsonValue, new: JsonValue, p: Seq<Seq<char>>, x: JsonValue) -> bool
    decreases p.len(),
{
    if p.len() == 0 {
        new == x
    } else {
        &&& new is Object
        &&& forall|k: Seq<char>| k != p[0] ==> #[trigger] json_get(new, k) == json_get(old, k)
        &&& json_get(new, p[0]) matches Some(c) && path_set(json_at(old, p[0]), c, p.drop_first(), x)
    }
}

/// Two paths part somewhere: neither is a prefix of the other.
pub open spec fn diverge(a: Seq<Seq<char>>, b: Seq<Seq<char>>) -> bool
    decreases a.len(),
{
    a.len() > 0 && b.len() > 0 && (a[0] != b[0] || diverge(a.drop_first(), b.drop_first()))
}

/// Writes `x` at a path, as `v[k1]..[kn] = x` does.
pub fn set_path(v: &mut JsonValue, path: &[&str], x: JsonValue)
    requires
        settable(*old(v), views(path@)),
    ensures
        path_set(*old(v), *final(v), views(path@), x),
    decreases path@.len(),
{
    if path.len() == 0 {
        *v = x;
        return;
    }
    let key = path[0];
    let rest = slice_rest(path);
    proof {
        assert(views(rest@) =~= views(path@).drop_first());
    }
    let ghost before = *v;
    let mut child = match take_member(v, key) {
        Some(c) => c,
        None => JsonValue::Null,
    };
    assert(child == json_at(before, key@));
    set_path(&mut child, rest, x);
    set_member(v, key, child);
}

fn slice_rest<'a>(path: &'a [&'a str]) -> (r: &'a [&'a str])
    requires
        path@.len() > 0,
    ensures
        r@ == path@.drop_first(),
{
    vstd::slice::slice_subrange(path, 1, path.len())
}

/// After a write at a path, the value there is the value written.
pub proof fn lemma_path_set_reads(old: JsonValue, new: JsonValue, p: Seq<Seq<char>>, x: JsonValue)
    requires
        path_set(old, new, p, x),
    ensures
        json_path(new, p) == Some(x),
    decreases p.len(),
{
    if p.len() > 0 {
        let c = json_get(new, p[0])->0;
        lemma_path_set_reads(json_at(old, p[0]), c, p.drop_first(), x);
    }
}

/// A write at a path leaves the value at a path that parts from it as it was.
pub proof fn lemma_path_set_frame(old: JsonValue, new: JsonValue, a: Seq<Seq<char>>, x: JsonValue, b: Seq<Seq<char>>)
    requires
        path_set(old, new, a, x),
        diverge(a, b),
    ensures
        json_path(new, b) == json_path(old, b),
    decreases a.len(),
{
    if a[0] != b[0] {
        assert(json_get(new, b[0]) == json_get(old, b[0]));
    } else {
        let c = json_get(new, a[0])->0;
        assert(diverge(a.drop_first(), b.drop_first()));
        lemma_path_set_frame(json_at(old, a[0]), c, a.drop_first(), x, b.drop_first());
        if json_get(old, a[0]) is None {
            lemma_null_path(b.drop_first());
        }
    }
}

proof fn lemma_null_path(p: Seq<Seq<char>>)
    requires
        p.len() > 0,
    ensures
        json_path(JsonValue::Null, p) is None,
{
}

/// A write at a path keeps another path writable, unless it is a proper prefix of it.
pub proof fn lemma_path_set_settable(old: JsonValue, new: JsonValue, a: Seq<Seq<char>>, x: JsonValue, b: Seq<Seq<char>>)
    requires
        path_set(old, new, a, x),
        settable(old, b),
        !(a.len() < b.len() && b.take(a.len() as int) == a),
    ensures
        settable(new, b),
    decreases a.len(),
{
    if a.len() > 0 && b.len() > 0 {
        let c = json_get(new, a[0])->0;
        if a[0] != b[0] {
            assert(json_get(new, b[0]) == json_get(old, b[0]));
            assert(json_at(new, b[0]) == json_at(old, b[0]));
        } else {
            if a.drop_first().len() < b.drop_first().len() && b.drop_first().take(a.drop_first().len() as int) == a.drop_first() {
                assert(b.take(a.len() as int) =~= seq![a[0]] + b.drop_first().take(a.drop_first().len() as int));
                assert(a =~= seq![a[0]] + a.drop_first());
            }
            lemma_path_set_settable(json_at(old, a[0]), c, a.drop_first(), x, b.drop_first());
            assert(json_at(new, b[0]) == c);
        }
    } else if a.len() == 0 {
        assert(b.len() == 0 || b.take(0) =~= a);
    }
}

// ---------------------------------------------------------------------------------------------
// The required members
// ---------------------------------------------------------------------------------------------

/// The texts of a list, `None` for an item that is no text.
pub open spec fn texts(items: Seq<JsonValue>) -> Seq<Option<Seq<char>>> {
    items.map_values(|v: JsonValue| crate::json::json_str(v))
}

/// The texts with each of `added` appended, in order, where it is not there yet.
pub open spec fn with_added(ts: Seq<Option<Seq<char>>>, added: Seq<Seq<char>>) -> Seq<Option<Seq<char>>>
    decreases added.len(),
{
    if added.len() == 0 {
        ts
    } else {
        let prev = with_added(ts, added.drop_last());
        if prev.contains(Some(added.last())) {
            prev
        } else {
            prev.push(Some(added.last()))
        }
    }
}

/// The texts without those in `dropped`, in order (items that are no text stay).
pub open spec fn without(ts: Seq<Option<Seq<char>>>, dropped: Seq<Seq<char>>) -> Seq<Option<Seq<char>>>
    decreases ts.len(),
{
    if ts.len() == 0 {
        ts
    } else if ts.last() matches Some(t) && dropped.contains(t) {
        without(ts.drop_last(), dropped)
    } else {
        without(ts.drop_last(), dropped).push(ts.last())
    }
}

fn has_text(items: &Vec<JsonValue>, t: &str) -> (r: bool)
    ensures
        r == texts(items@).contains(Some(t@)),
{
    let n = items.len();
    let mut i: usize = 0;
    while i < n
        invariant
            n == items@.len(),
            i <= n,
            forall|k: int| 0 <= k < i ==> texts(items@)[k] != Some(t@),
        decreases n - i,
    {
        match items[i].as_str() {
            Some(s) => {
                if crate::text::str_equal(s, t) {
                    assert(texts(items@)[i as int] == Some(t@));
                    return true;
                }
            },
            None => {},
        }
        i = i + 1;
    }
    false
}

/// Adds the missing fields to a required list, then drops the others, as the paid offers do.
fn edit_required(items: Vec<JsonValue>, added: &[&str], dropped: &[&str]) -> (r: Vec<JsonValue>)
    ensures
        texts(r@) == without(with_added(texts(items@), views(added@)), views(dropped@)),
{
    let mut items = items;
    let n = added.len();
    let mut i: usize = 0;
    let ghost start = texts(items@);
    while i < n
        invariant
            n == added@.len(),
            i <= n,
            texts(items@) == with_added(start, views(added@).take(i as int)),
        decreases n - i,
    {
        proof {
            assert(views(added@).take(i + 1).drop_last() =~= views(added@).take(i as int));
            assert(views(added@).take(i + 1).last() == added@[i as int]@);
        }
        if !has_text(&items, added[i]) {
            let ghost before = texts(items@);
            items.push(JsonValue::Str(added[i].to_owned()));
            assert(texts(items@) =~= before.push(Some(added@[i as int]@)));
        }
        i = i + 1;
    }
    assert(views(added@).take(n as int) =~= views(added@));
    let ghost mid = texts(items@);
    let m = items.len();
    let mut j: usize = 0;
    let rest = items;
    let mut kept: Vec<JsonValue> = Vec::new();
    let ghost all = rest@;
    while j < m
        invariant
            m == all.len(),
            j <= m,
            mid == texts(all),
            rest@ == all,
            texts(kept@) == without(texts(all).take(j as int), views(dropped@)),
        decreases m - j,
    {
        proof {
            assert(texts(all).take(j + 1).drop_last() =~= texts(all).take(j as int));
            assert(texts(all).take(j + 1).last() == texts(all)[j as int]);
        }
        let drop = match rest[j].as_str() {
            Some(s) => {
                let mut found = false;
                let d = dropped.len();
                let mut q: usize = 0;
                while q < d
                    invariant
                        d == dropped@.len(),
                        q <= d,
                        found == views(dropped@).take(q as int).contains(s@),
                    decreases d - q,
                {
                    proof {
                        assert(views(dropped@).take(q + 1) =~= views(dropped@).take(q as int).push(dropped@[q as int]@));
                    }
                    let eq = crate::text::str_equal(s, dropped[q]);
                    proof {
                        let t = views(dropped@).take(q + 1);
                        if eq {
                            assert(t[q as int] == s@);
                        }
                        if t.contains(s@) && !eq && !views(dropped@).take(q as int).contains(s@) {
                            let w = choose|w: int| 0 <= w < t.len() && t[w] == s@;
                            assert(w < q);
                            assert(views(dropped@).take(q as int)[w] == s@);
                        }
                        if views(dropped@).take(q as int).contains(s@) {
                            let w = choose|w: int| 0 <= w < q && views(dropped@).take(q as int)[w] == s@;
                            assert(t[w] == s@);
                        }
                    }
                    if eq {
                        found = true;
                    }
                    q = q + 1;
                }
                assert(views(dropped@).take(d as int) =~= views(dropped@));
                found
            },
            None => false,
        };
        if !drop {
            let ghost before = texts(kept@);
            kept.push(crate::json::json_clone(&rest[j]));
            proof {
                assert(texts(kept@) =~= before.push(texts(all)[j as int]));
            }
        }
        j = j + 1;
    }
    assert(texts(all).take(m as int) =~= texts(all));
    kept
}

// ---------------------------------------------------------------------------------------------
// Edits of the schema
// ---------------------------------------------------------------------------------------------

/// Paths that part are no prefix of each other.
pub proof fn lemma_diverge_not_prefix(a: Seq<Seq<char>>, b: Seq<Seq<char>>)
    requires
        diverge(a, b),
    ensures
        !(a.len() < b.len() && b.take(a.len() as int) == a),
        !(b.len() < a.len() && a.take(b.len() as int) == b),
    decreases a.len(),
{
    if a[0] == b[0] {
        lemma_diverge_not_prefix(a.drop_first(), b.drop_first());
        if a.len() < b.len() && b.take(a.len() as int) == a {
            assert(b.drop_first().take(a.drop_first().len() as int) =~= a.drop_first());
        }
        if b.len() < a.len() && a.take(b.len() as int) == b {
            assert(a.drop_first().take(b.drop_first().len() as int) =~= b.drop_first());
        }
    } else {
        if a.len() < b.len() && b.take(a.len() as int) == a {
            assert(b.take(a.len() as int)[0] == b[0]);
        }
        if b.len() < a.len() && a.take(b.len() as int) == b {
            assert(a.take(b.len() as int)[0] == a[0]);
        }
    }
}

/// A path of two members.
pub proof fn lemma_path_two(v: JsonValue, k1: Seq<char>, k2: Seq<char>)
    ensures
        json_path(v, seq![k1, k2]) == match json_get(v, k1) {
            Some(c) => json_get(c, k2),
            None => None,
        },
        (v is Object && json_at(v, k1) is Object) ==> settable(v, seq![k1, k2]),
{
    let p = seq![k1, k2];
    assert(p.drop_first() =~= seq![k2]);
    assert(p.drop_first().drop_first() =~= Seq::<Seq<char>>::empty());
    reveal_with_fuel(json_path, 3);
    reveal_with_fuel(settable, 3);
}

/// A value whose member is unchanged reads and writes the same below it.
pub proof fn lemma_same_head(old: JsonValue, new: JsonValue, b: Seq<Seq<char>>)
    requires
        b.len() > 0,
        json_get(new, b[0]) == json_get(old, b[0]),
        new is Object,
        old is Object,
    ensures
        json_path(new, b) == json_path(old, b),
        settable(old, b) ==> settable(new, b),
{
}

/// The schema of a text with a length range.
pub open spec fn string_bounds(o: JsonValue, min: i64, max: i64) -> bool {
    &&& o is Object
    &&& crate::json::field_str(o, "type"@) == Some("string"@)
    &&& json_get(o, "minLength"@) == Some(JsonValue::Int(min))
    &&& json_get(o, "maxLength"@) == Some(JsonValue::Int(max))
}

/// The schema of a list of references to a definition, with a size range.
pub open spec fn ref_list(o: JsonValue, min: i64, max: i64, reference: Seq<char>) -> bool {
    &&& o is Object
    &&& crate::json::field_str(o, "type"@) == Some("array"@)
    &&& json_get(o, "minItems"@) == Some(JsonValue::Int(min))
    &&& json_get(o, "maxItems"@) == Some(JsonValue::Int(max))
    &&& json_get(o, "items"@) matches Some(it) && it is Object && crate::json::field_str(it, "$ref"@) == Some(reference)
}

/// The schema of a reference to a definition.
pub open spec fn ref_only(o: JsonValue, reference: Seq<char>) -> bool {
    o is Object && crate::json::field_str(o, "$ref"@) == Some(reference)
}

/// The advice object of the basic offer: its three texts required, nothing else allowed.
pub open spec fn basic_advice(o: JsonValue) -> bool {
    &&& o is Object
    &&& crate::json::field_str(o, "type"@) == Some("object"@)
    &&& crate::json::field_arr(o, "required"@) matches Some(rq) && texts(rq) == seq![Some("main"@), Some("best_use"@), Some("avoid"@)]
    &&& json_get(o, "additionalProperties"@) == Some(JsonValue::Bool(false))
    &&& json_get(o, "properties"@) matches Some(ps) && ps is Object && (json_get(ps, "main"@) matches Some(m) && string_bounds(m, 120, 360))
        && (json_get(ps, "best_use"@) matches Some(b) && string_bounds(b, 70, 220)) && (json_get(ps, "avoid"@) matches Some(a)
        && string_bounds(a, 70, 220))
}

proof fn lemma_schema_words()
    ensures
        "type"@.len() == 4 && "minLength"@.len() == 9 && "maxLength"@.len() == 9 && "minLength"@[1] == 'i' && "maxLength"@[1] == 'a',
        "minItems"@.len() == 8 && "maxItems"@.len() == 8 && "items"@.len() == 5 && "minItems"@[1] == 'i' && "maxItems"@[1] == 'a',
        "required"@.len() == 8 && "additionalProperties"@.len() == 20 && "properties"@.len() == 10 && "required"@[0] == 'r'
            && "properties"@[0] == 'p',
        "main"@.len() == 4 && "best_use"@.len() == 8 && "avoid"@.len() == 5 && "main"@[0] == 'm' && "best_use"@[0] == 'b',
        "$ref"@.len() == 4,
{
    reveal_strlit("type");
    reveal_strlit("minLength");
    reveal_strlit("maxLength");
    reveal_strlit("minItems");
    reveal_strlit("maxItems");
    reveal_strlit("items");
    reveal_strlit("required");
    reveal_strlit("additionalProperties");
    reveal_strlit("properties");
    reveal_strlit("main");
    reveal_strlit("best_use");
    reveal_strlit("avoid");
    reveal_strlit("$ref");
}

fn string_bounds_of(min: i64, max: i64) -> (r: JsonValue)
    ensures
        string_bounds(r, min, max),
{
    proof {
        lemma_schema_words();
    }
    let mut o = JsonValue::Null;
    set_member(&mut o, "type", JsonValue::Str("string".to_owned()));
    set_member(&mut o, "minLength", JsonValue::Int(min));
    set_member(&mut o, "maxLength", JsonValue::Int(max));
    o
}

fn ref_only_of(reference: &str) -> (r: JsonValue)
    ensures
        ref_only(r, reference@),
{
    let mut o = JsonValue::Null;
    set_member(&mut o, "$ref", JsonValue::Str(reference.to_owned()));
    o
}

fn ref_list_of(min: i64, max: i64, reference: &str) -> (r: JsonValue)
    ensures
        ref_list(r, min, max, reference@),
{
    proof {
        lemma_schema_words();
    }
    let mut o = JsonValue::Null;
    set_member(&mut o, "type", JsonValue::Str("array".to_owned()));
    set_member(&mut o, "minItems", JsonValue::Int(min));
    set_member(&mut o, "maxItems", JsonValue::Int(max));
    set_member(&mut o, "items", ref_only_of(reference));
    o
}

fn basic_advice_of() -> (r: JsonValue)
    ensures
        basic_advice(r),
{
    proof {
        lemma_schema_words();
    }
    let mut required: Vec<JsonValue> = Vec::new();
    required.push(JsonValue::Str("main".to_owned()));
    required.push(JsonValue::Str("best_use".to_owned()));
    required.push(JsonValue::Str("avoid".to_owned()));
    assert(texts(required@) =~= seq![Some("main"@), Some("best_use"@), Some("avoid"@)]);
    let mut props = JsonValue::Null;
    set_member(&mut props, "main", string_bounds_of(120, 360));
    set_member(&mut props, "best_use", string_bounds_of(70, 220));
    set_member(&mut props, "avoid", string_bounds_of(70, 220));
    let mut o = JsonValue::Null;
    set_member(&mut o, "type", JsonValue::Str("object".to_owned()));
    set_member(&mut o, "required", JsonValue::Array(required));
    set_member(&mut o, "additionalProperties", JsonValue::Bool(false));
    set_member(&mut o, "properties", props);
    o
}

/// A one-member path of an object is writable.
pub proof fn lemma_path_one(v: JsonValue, k: Seq<char>)
    ensures
        v is Object ==> settable(v, seq![k]),
        json_path(v, seq![k]) == json_get(v, k),
{
    assert(seq![k].drop_first() =~= Seq::<Seq<char>>::empty());
    reveal_with_fuel(settable, 2);
    reveal_with_fuel(json_path, 2);
}

// ---------------------------------------------------------------------------------------------
// Removing at a path, and a table of edits at paths that part
// ---------------------------------------------------------------------------------------------

/// `new` is `old` after the removal of the member a path ends with: each value on the way
/// becomes an object whose other members stay, and the last object loses the member (a last
/// value that is no object stays as it is).
pub open spec fn path_removed(old: JsonValue, new: JsonValue, p: Seq<Seq<char>>) -> bool
    decreases p.len(),
{
    if p.len() <= 1 {
        if p.len() == 1 && old is Object {
            &&& new is Object
            &&& json_get(new, p[0]) is None
            &&& forall|k: Seq<char>| k != p[0] ==> #[trigger] json_get(new, k) == json_get(old, k)
        } else {
            new == old
        }
    } else {
        &&& new is Object
        &&& forall|k: Seq<char>| k != p[0] ==> #[trigger] json_get(new, k) == json_get(old, k)
        &&& json_get(new, p[0]) matches Some(c) && path_removed(json_at(old, p[0]), c, p.drop_first())
    }
}

/// Removes the member a path ends with, as `v[k1]..[kn-1].remove(kn)` does on objects.
pub fn remove_path(v: &mut JsonValue, path: &[&str])
    requires
        path@.len() > 0,
        settable(*old(v), views(path@)),
    ensures
        path_removed(*old(v), *final(v), views(path@)),
    decreases path@.len(),
{
    if path.len() == 1 {
        crate::json::remove_member(v, path[0]);
        return;
    }
    let key = path[0];
    let rest = slice_rest(path);
    proof {
        assert(views(rest@) =~= views(path@).drop_first());
    }
    let ghost before = *v;
    let mut child = match take_member(v, key) {
        Some(c) => c,
        None => JsonValue::Null,
    };
    assert(child == json_at(before, key@));
    remove_path(&mut child, rest);
    set_member(v, key, child);
}

/// After a removal at a path, nothing is found there.
pub proof fn lemma_path_removed_reads(old: JsonValue, new: JsonValue, p: Seq<Seq<char>>)
    requires
        p.len() > 0,
        path_removed(old, new, p),
    ensures
        json_path(new, p) is None,
    decreases p.len(),
{
    reveal_with_fuel(json_path, 2);
    if p.len() > 1 {
        let c = json_get(new, p[0])->0;
        lemma_path_removed_reads(json_at(old, p[0]), c, p.drop_first());
    } else {
        assert(p.drop_first().len() == 0);
    }
}

/// A removal at a path leaves the value at a path that parts from it as it was, and keeps it
/// writable.
pub proof fn lemma_path_removed_frame(old: JsonValue, new: JsonValue, a: Seq<Seq<char>>, b: Seq<Seq<char>>)
    requires
        path_removed(old, new, a),
        diverge(a, b),
    ensures
        json_path(new, b) == json_path(old, b),
        settable(old, b) ==> settable(new, b),
    decreases a.len(),
{
    if a.len() == 1 {
        assert(!diverge(a.drop_first(), b.drop_first()));
        assert(a[0] != b[0]);
        if old is Object {
            assert(json_get(new, b[0]) == json_get(old, b[0]));
        }
    } else if a[0] != b[0] {
        assert(json_get(new, b[0]) == json_get(old, b[0]));
    } else {
        let c = json_get(new, a[0])->0;
        assert(diverge(a.drop_first(), b.drop_first()));
        lemma_path_removed_frame(json_at(old, a[0]), c, a.drop_first(), b.drop_first());
        if json_get(old, a[0]) is None {
            lemma_null_path(b.drop_first());
        }
        assert(json_at(new, b[0]) == c);
    }
}

/// Parting is symmetric.
pub proof fn lemma_diverge_sym(a: Seq<Seq<char>>, b: Seq<Seq<char>>)
    requires
        diverge(a, b),
    ensures
        diverge(b, a),
    decreases a.len(),
{
    if a[0] == b[0] {
        lemma_diverge_sym(a.drop_first(), b.drop_first());
    }
}

/// Paths that part pairwise.
pub open spec fn parted(ps: Seq<Seq<Seq<char>>>) -> bool {
    forall|i: int, j: int| 0 <= i < j < ps.len() ==> diverge(#[trigger] ps[i], #[trigger] ps[j])
}

/// A path that parts from each of the paths.
pub open spec fn parted_from(ps: Seq<Seq<Seq<char>>>, b: Seq<Seq<char>>) -> bool {
    forall|i: int| 0 <= i < ps.len() ==> diverge(#[trigger] ps[i], b)
}

/// The paths of a table of edits.
pub open spec fn slice_views(ps: Seq<&[&str]>) -> Seq<Seq<Seq<char>>> {
    ps.map_values(|p: &[&str]| views(p@))
}

/// `new` is `old` after a table of edits at paths that part: at each path, the value written,
/// or nothing for a removal; elsewhere, away from every path, what `old` held.
pub open spec fn edits_applied(old: JsonValue, new: JsonValue, ps: Seq<Seq<Seq<char>>>, vals: Seq<Option<JsonValue>>) -> bool {
    &&& forall|i: int| 0 <= i < ps.len() ==> #[trigger] json_path(new, ps[i]) == vals[i]
    &&& forall|b: Seq<Seq<char>>| #[trigger] parted_from(ps, b) ==> json_path(new, b) == json_path(old, b)
}

/// `cur` is `start` after the first `k` edits of a table: those edits read back, the paths of
/// the others are still writable, and what parts from the first `k` paths is unchanged.
pub open spec fn edits_upto(start: JsonValue, cur: JsonValue, ps: Seq<Seq<Seq<char>>>, vals: Seq<Option<JsonValue>>, k: int) -> bool {
    &&& forall|i: int| 0 <= i < k ==> #[trigger] json_path(cur, ps[i]) == vals[i]
    &&& forall|j: int| k <= j < ps.len() ==> settable(cur, #[trigger] ps[j])
    &&& forall|b: Seq<Seq<char>>| #[trigger] parted_from(ps.take(k), b) ==> json_path(cur, b) == json_path(start, b)
}

/// One more edit of a table whose paths part keeps the edits before it, and the rest apart.
pub proof fn lemma_edit_step(
    start: JsonValue,
    before: JsonValue,
    after: JsonValue,
    ps: Seq<Seq<Seq<char>>>,
    vals: Seq<Option<JsonValue>>,
    k: int,
)
    requires
        parted(ps),
        0 <= k < ps.len(),
        edits_upto(start, before, ps, vals, k),
        match vals[k] {
            Some(x) => path_set(before, after, ps[k], x),
            None => ps[k].len() > 0 && path_removed(before, after, ps[k]),
        },
    ensures
        edits_upto(start, after, ps, vals, k + 1),
{
    let p = ps[k];
    assert forall|i: int| 0 <= i < k + 1 implies #[trigger] json_path(after, ps[i]) == vals[i] by {
        if i < k {
            assert(diverge(ps[i], p));
            lemma_diverge_sym(ps[i], p);
        }
        match vals[k] {
            Some(x) => {
                if i < k {
                    lemma_path_set_frame(before, after, p, x, ps[i]);
                } else {
                    lemma_path_set_reads(before, after, p, x);
                }
            },
            None => {
                if i < k {
                    lemma_path_removed_frame(before, after, p, ps[i]);
                } else {
                    lemma_path_removed_reads(before, after, p);
                }
            },
        }
    }
    assert forall|j: int| k + 1 <= j < ps.len() implies settable(after, #[trigger] ps[j]) by {
        assert(diverge(p, ps[j]));
        assert(settable(before, ps[j]));
        match vals[k] {
            Some(x) => {
                lemma_diverge_not_prefix(p, ps[j]);
                lemma_path_set_settable(before, after, p, x, ps[j]);
            },
            None => {
                lemma_path_removed_frame(before, after, p, ps[j]);
            },
        }
    }
    assert forall|b: Seq<Seq<char>>| #[trigger] parted_from(ps.take(k + 1), b) implies json_path(after, b) == json_path(start, b) by {
        assert(ps.take(k + 1)[k] == p);
        assert(diverge(p, b));
        assert forall|i: int| 0 <= i < ps.take(k).len() implies diverge(#[trigger] ps.take(k)[i], b) by {
            assert(ps.take(k + 1)[i] == ps.take(k)[i]);
        }
        assert(parted_from(ps.take(k), b));
        match vals[k] {
            Some(x) => lemma_path_set_frame(before, after, p, x, b),
            None => lemma_path_removed_frame(before, after, p, b),
        }
    }
}

/// Applies a table of edits in order: writes the value of each `Some`, removes at each `None`.
pub fn apply_edits(v: &mut JsonValue, paths: &[&[&str]], vals: Vec<Option<JsonValue>>)
    requires
        paths@.len() == vals@.len(),
        forall|i: int| 0 <= i < paths@.len() ==> (#[trigger] paths@[i])@.len() > 0,
        forall|i: int| 0 <= i < paths@.len() ==> settable(*old(v), #[trigger] slice_views(paths@)[i]),
        parted(slice_views(paths@)),
    ensures
        edits_applied(*old(v), *final(v), slice_views(paths@), vals@),
{
    let ghost ps = slice_views(paths@);
    let ghost orig = vals@;
    let ghost start = *v;
    let mut vals = vals;
    let n = paths.len();
    let mut k: usize = 0;
    assert(ps.take(0) =~= Seq::<Seq<Seq<char>>>::empty());
    while k < n
        invariant
            n == paths@.len(),
            ps == slice_views(paths@),
            vals@.len() == n,
            orig.len() == n,
            k <= n,
            forall|j: int| k <= j < n ==> vals@[j] == orig[j],
            forall|i: int| 0 <= i < paths@.len() ==> (#[trigger] paths@[i])@.len() > 0,
            parted(ps),
            edits_upto(start, *v, ps, orig, k as int),
        decreases n - k,
    {
        let ghost before = *v;
        let mut slot: Option<JsonValue> = None;
        vals.set_and_swap(k, &mut slot);
        assert(ps[k as int] == views(paths@[k as int]@));
        match slot {
            Some(x) => set_path(v, paths[k], x),
            None => remove_path(v, paths[k]),
        }
        proof {
            lemma_edit_step(start, before, *v, ps, orig, k as int);
        }
        k = k + 1;
    }
    proof {
        assert(ps.take(n as int) =~= ps);
    }
}

/// Each path of the list parts from `p`.
pub open spec fn parts_from_all(p: Seq<Seq<char>>, ps: Seq<Seq<Seq<char>>>) -> bool
    decreases ps.len(),
{
    ps.len() == 0 || (diverge(ps.last(), p) && parts_from_all(p, ps.drop_last()))
}

/// The paths part pairwise, checked one path against those before it.
pub open spec fn parted_each(ps: Seq<Seq<Seq<char>>>) -> bool
    decreases ps.len(),
{
    ps.len() == 0 || (parts_from_all(ps.last(), ps.drop_last()) && parted_each(ps.drop_last()))
}

/// Each path of the list is writable in `v`.
pub open spec fn settable_all(v: JsonValue, ps: Seq<Seq<Seq<char>>>) -> bool
    decreases ps.len(),
{
    ps.len() == 0 || (settable(v, ps.last()) && settable_all(v, ps.drop_last()))
}

proof fn lemma_parts_from_all(p: Seq<Seq<char>>, ps: Seq<Seq<Seq<char>>>)
    requires
        parts_from_all(p, ps),
    ensures
        parted_from(ps, p),
    decreases ps.len(),
{
    if ps.len() > 0 {
        lemma_parts_from_all(p, ps.drop_last());
        assert forall|i: int| 0 <= i < ps.len() implies diverge(#[trigger] ps[i], p) by {
            if i < ps.len() - 1 {
                assert(ps.drop_last()[i] == ps[i]);
            }
        }
    }
}

proof fn lemma_parted_each(ps: Seq<Seq<Seq<char>>>)
    requires
        parted_each(ps),
    ensures
        parted(ps),
    decreases ps.len(),
{
    if ps.len() > 0 {
        lemma_parted_each(ps.drop_last());
        lemma_parts_from_all(ps.last(), ps.drop_last());
        assert forall|i: int, j: int| 0 <= i < j < ps.len() implies diverge(#[trigger] ps[i], #[trigger] ps[j]) by {
            assert(ps.drop_last()[i] == ps[i]);
            if j < ps.len() - 1 {
                assert(ps.drop_last()[j] == ps[j]);
            }
        }
    }
}

proof fn lemma_settable_all(v: JsonValue, ps: Seq<Seq<Seq<char>>>)
    requires
        settable_all(v, ps),
    ensures
        forall|i: int| 0 <= i < ps.len() ==> settable(v, #[trigger] ps[i]),
    decreases ps.len(),
{
    if ps.len() > 0 {
        lemma_settable_all(v, ps.drop_last());
        assert forall|i: int| 0 <= i < ps.len() implies settable(v, #[trigger] ps[i]) by {
            if i < ps.len() - 1 {
                assert(ps.drop_last()[i] == ps[i]);
            }
        }
    }
}

/// Paths that part pairwise, more than one, are not empty.
proof fn lemma_parted_nonempty(ps: Seq<Seq<Seq<char>>>)
    requires
        parted(ps),
        ps.len() >= 2,
    ensures
        forall|i: int| 0 <= i < ps.len() ==> (#[trigger] ps[i]).len() > 0,
{
    assert forall|i: int| 0 <= i < ps.len() implies (#[trigger] ps[i]).len() > 0 by {
        if i == 0 {
            assert(diverge(ps[0], ps[1]));
        } else {
            assert(diverge(ps[0], ps[i]));
        }
    }
}

/// The member names the schema edits use, each told apart from the others of its length.
proof fn lemma_schema_vocabulary()
    ensures
        "advice"@.len() == 6 && "advice"@[0] == 'a',
        "allOf"@.len() == 5 && "allOf"@[0] == 'a',
        "best_days"@.len() == 9 && "best_days"@[0] == 'b',
        "best_windows"@.len() == 12 && "best_windows"@[0] == 'b',
        "daily_timeline"@.len() == 14 && "daily_timeline"@[1] == 'a',
        "day_marker"@.len() == 10 && "day_marker"@[0] == 'd',
        "definitions"@.len() == 11,
        "domain"@.len() == 6 && "domain"@[0] == 'd',
        "domain_section"@.len() == 14 && "domain_section"@[1] == 'o' && "domain_section"@[3] == 'a',
        "domain_sections"@.len() == 15 && "domain_sections"@[0] == 'd',
        "dominant_theme"@.len() == 14 && "dominant_theme"@[1] == 'o' && "dominant_theme"@[3] == 'i',
        "evidence_summary"@.len() == 16,
        "evidence_summary_item"@.len() == 21,
        "fallback_reason"@.len() == 15 && "fallback_reason"@[0] == 'f',
        "free_watch_summary"@.len() == 18,
        "key_days"@.len() == 8 && "key_days"@[0] == 'k',
        "label"@.len() == 5 && "label"@[0] == 'l',
        "maxItems"@.len() == 8 && "maxItems"@[0] == 'm' && "maxItems"@[1] == 'a',
        "maxLength"@.len() == 9 && "maxLength"@[0] == 'm' && "maxLength"@[1] == 'a',
        "minItems"@.len() == 8 && "minItems"@[0] == 'm' && "minItems"@[1] == 'i',
        "minLength"@.len() == 9 && "minLength"@[0] == 'm' && "minLength"@[1] == 'i',
        "properties"@.len() == 10 && "properties"@[0] == 'p',
        "reason"@.len() == 6 && "reason"@[0] == 'r',
        "required"@.len() == 8 && "required"@[0] == 'r',
        "strategy"@.len() == 8 && "strategy"@[0] == 's',
        "summary"@.len() == 7,
        "text"@.len() == 4 && "text"@[1] == 'e',
        "theme"@.len() == 5 && "theme"@[0] == 't' && "theme"@[1] == 'h',
        "timeline_day"@.len() == 12 && "timeline_day"@[0] == 't',
        "title"@.len() == 5 && "title"@[0] == 't' && "title"@[1] == 'i',
        "tone"@.len() == 4 && "tone"@[1] == 'o',
        "trajectory"@.len() == 10 && "trajectory"@[0] == 't',
        "watch_days"@.len() == 10 && "watch_days"@[0] == 'w',
        "watch_summary"@.len() == 13 && "watch_summary"@[1] == 'a' && "watch_summary"@[6] == 's',
        "watch_windows"@.len() == 13 && "watch_windows"@[1] == 'a' && "watch_windows"@[6] == 'w',
        "week_overview"@.len() == 13 && "week_overview"@[1] == 'e',
{
        reveal_strlit("advice");
        reveal_strlit("allOf");
        reveal_strlit("best_days");
        reveal_strlit("best_windows");
        reveal_strlit("daily_timeline");
        reveal_strlit("day_marker");
        reveal_strlit("definitions");
        reveal_strlit("domain");
        reveal_strlit("domain_section");
        reveal_strlit("domain_sections");
        reveal_strlit("dominant_theme");
        reveal_strlit("evidence_summary");
        reveal_strlit("evidence_summary_item");
        reveal_strlit("fallback_reason");
        reveal_strlit("free_watch_summary");
        reveal_strlit("key_days");
        reveal_strlit("label");
        reveal_strlit("maxItems");
        reveal_strlit("maxLength");
        reveal_strlit("minItems");
        reveal_strlit("minLength");
        reveal_strlit("properties");
        reveal_strlit("reason");
        reveal_strlit("required");
        reveal_strlit("strategy");
        reveal_strlit("summary");
        reveal_strlit("text");
        reveal_strlit("theme");
        reveal_strlit("timeline_day");
        reveal_strlit("title");
        reveal_strlit("tone");
        reveal_strlit("trajectory");
        reveal_strlit("watch_days");
        reveal_strlit("watch_summary");
        reveal_strlit("watch_windows");
        reveal_strlit("week_overview");
}

/// `new` holds what `old` held at every path that parts from each path of the table.
pub open spec fn kept_apart(old: JsonValue, new: JsonValue, ps: Seq<Seq<Seq<char>>>) -> bool {
    forall|b: Seq<Seq<char>>| #[trigger] parted_from(ps, b) ==> json_path(new, b) == json_path(old, b)
}

/// The paths the free offer edits: the required list, the sections it removes, the sections it
/// replaces, and the length bounds it sets.
pub open spec fn free_paths() -> Seq<Seq<Seq<char>>> {
    seq![
        seq!["required"@],
        seq!["properties"@, "week_overview"@],
        seq!["properties"@, "best_days"@],
        seq!["properties"@, "watch_days"@],
        seq!["properties"@, "daily_timeline"@],
        seq!["properties"@, "domain_sections"@],
        seq!["properties"@, "best_windows"@],
        seq!["properties"@, "watch_windows"@],
        seq!["properties"@, "strategy"@],
        seq!["properties"@, "advice"@],
        seq!["properties"@, "key_days"@],
        seq!["properties"@, "evidence_summary"@],
        seq!["properties"@, "watch_summary"@],
        seq!["properties"@, "summary"@, "properties"@, "title"@, "maxLength"@],
        seq!["properties"@, "summary"@, "properties"@, "text"@, "minLength"@],
        seq!["properties"@, "summary"@, "properties"@, "text"@, "maxLength"@],
        seq!["properties"@, "dominant_theme"@, "properties"@, "theme"@, "maxLength"@],
        seq!["properties"@, "dominant_theme"@, "properties"@, "text"@, "minLength"@],
        seq!["properties"@, "dominant_theme"@, "properties"@, "text"@, "maxLength"@],
        seq!["definitions"@, "day_marker"@, "properties"@, "title"@, "maxLength"@],
        seq!["definitions"@, "day_marker"@, "properties"@, "reason"@, "minLength"@],
        seq!["definitions"@, "day_marker"@, "properties"@, "reason"@, "maxLength"@],
        seq!["definitions"@, "day_marker"@, "properties"@, "fallback_reason"@, "maxLength"@],
        seq!["definitions"@, "free_watch_summary"@, "properties"@, "text"@, "minLength"@],
        seq!["definitions"@, "free_watch_summary"@, "properties"@, "text"@, "maxLength"@],
        seq!["definitions"@, "evidence_summary_item"@, "properties"@, "label"@, "maxLength"@],
    ]
}

/// The paths the premium offer edits: the required list and the sections it removes.
pub open spec fn premium_paths() -> Seq<Seq<Seq<char>>> {
    seq![
        seq!["required"@],
        seq!["properties"@, "summary"@],
        seq!["properties"@, "dominant_theme"@],
    ]
}

/// The paths the basic offer edits: the required list, the sections it removes, the advice it
/// replaces, and the length bounds it sets.
pub open spec fn basic_paths() -> Seq<Seq<Seq<char>>> {
    seq![
        seq!["required"@],
        seq!["properties"@, "summary"@],
        seq!["properties"@, "dominant_theme"@],
        seq!["properties"@, "best_windows"@],
        seq!["properties"@, "watch_windows"@],
        seq!["properties"@, "strategy"@],
        seq!["properties"@, "advice"@],
        seq!["properties"@, "domain_sections"@, "minItems"@],
        seq!["properties"@, "domain_sections"@, "maxItems"@],
        seq!["properties"@, "evidence_summary"@, "minItems"@],
        seq!["properties"@, "evidence_summary"@, "maxItems"@],
        seq!["properties"@, "week_overview"@, "properties"@, "title"@, "maxLength"@],
        seq!["properties"@, "week_overview"@, "properties"@, "text"@, "minLength"@],
        seq!["properties"@, "week_overview"@, "properties"@, "text"@, "maxLength"@],
        seq!["properties"@, "week_overview"@, "properties"@, "trajectory"@, "minLength"@],
        seq!["properties"@, "week_overview"@, "properties"@, "trajectory"@, "maxLength"@],
        seq!["definitions"@, "day_marker"@, "properties"@, "title"@, "maxLength"@],
        seq!["definitions"@, "day_marker"@, "properties"@, "reason"@, "minLength"@],
        seq!["definitions"@, "day_marker"@, "properties"@, "reason"@, "maxLength"@],
        seq!["definitions"@, "day_marker"@, "properties"@, "fallback_reason"@, "maxLength"@],
        seq!["definitions"@, "timeline_day"@, "properties"@, "theme"@, "maxLength"@],
        seq!["definitions"@, "timeline_day"@, "properties"@, "tone"@, "maxLength"@],
        seq!["definitions"@, "timeline_day"@, "properties"@, "text"@, "minLength"@],
        seq!["definitions"@, "timeline_day"@, "properties"@, "text"@, "maxLength"@],
        seq!["definitions"@, "timeline_day"@, "properties"@, "advice"@, "minLength"@],
        seq!["definitions"@, "timeline_day"@, "properties"@, "advice"@, "maxLength"@],
        seq!["definitions"@, "domain_section"@, "properties"@, "domain"@, "maxLength"@],
        seq!["definitions"@, "domain_section"@, "properties"@, "title"@, "maxLength"@],
        seq!["definitions"@, "domain_section"@, "properties"@, "text"@, "minLength"@],
        seq!["definitions"@, "domain_section"@, "properties"@, "text"@, "maxLength"@],
        seq!["definitions"@, "watch_summary"@, "properties"@, "text"@, "minLength"@],
        seq!["definitions"@, "watch_summary"@, "properties"@, "text"@, "maxLength"@],
        seq!["definitions"@, "evidence_summary_item"@, "properties"@, "label"@, "maxLength"@],
    ]
}

proof fn lemma_free_paths_parted()
    ensures
        parted(free_paths()),
        parted_from(free_paths(), seq!["allOf"@]),
{
    lemma_schema_vocabulary();
    reveal_with_fuel(parted_each, 27);
    reveal_with_fuel(parts_from_all, 27);
    reveal_with_fuel(diverge, 6);
    assert(parted_each(free_paths()));
    lemma_parted_each(free_paths());
    assert(parts_from_all(seq!["allOf"@], free_paths()));
    lemma_parts_from_all(seq!["allOf"@], free_paths());
}

proof fn lemma_premium_paths_parted()
    ensures
        parted(premium_paths()),
        parted_from(premium_paths(), seq!["allOf"@]),
{
    lemma_schema_vocabulary();
    reveal_with_fuel(parted_each, 4);
    reveal_with_fuel(parts_from_all, 4);
    reveal_with_fuel(diverge, 3);
    assert(parted_each(premium_paths()));
    lemma_parted_each(premium_paths());
    assert(parts_from_all(seq!["allOf"@], premium_paths()));
    lemma_parts_from_all(seq!["allOf"@], premium_paths());
}

proof fn lemma_basic_paths_parted()
    ensures
        parted(basic_paths()),
        parted_from(basic_paths(), seq!["allOf"@]),
{
    lemma_schema_vocabulary();
    reveal_with_fuel(parted_each, 34);
    reveal_with_fuel(parts_from_all, 34);
    reveal_with_fuel(diverge, 6);
    assert(parted_each(basic_paths()));
    lemma_parted_each(basic_paths());
    assert(parts_from_all(seq!["allOf"@], basic_paths()));
    lemma_parts_from_all(seq!["allOf"@], basic_paths());
}

/// The schema cut to the free offer: no `allOf`, the required list `rq`, the detailed sections removed, the advice, key days, evidence summary and watch summary replaced, and the length bounds set.
pub open spec fn free_edits(e: JsonValue, rq: Seq<Option<Seq<char>>>) -> bool {
    &&& e is Object
    &&& (json_path(e, seq!["allOf"@]) is None)
    &&& (json_path(e, seq!["required"@]) matches Some(JsonValue::Array(a)) && texts(a@) == rq)
    &&& (json_path(e, seq!["properties"@, "week_overview"@]) is None)
    &&& (json_path(e, seq!["properties"@, "best_days"@]) is None)
    &&& (json_path(e, seq!["properties"@, "watch_days"@]) is None)
    &&& (json_path(e, seq!["properties"@, "daily_timeline"@]) is None)
    &&& (json_path(e, seq!["properties"@, "domain_sections"@]) is None)
    &&& (json_path(e, seq!["properties"@, "best_windows"@]) is None)
    &&& (json_path(e, seq!["properties"@, "watch_windows"@]) is None)
    &&& (json_path(e, seq!["properties"@, "strategy"@]) is None)
    &&& (json_path(e, seq!["properties"@, "advice"@]) matches Some(o) && string_bounds(o, 120, 360))
    &&& (json_path(e, seq!["properties"@, "key_days"@]) matches Some(o) && ref_list(o, 1, 2, "#/definitions/day_marker"@))
    &&& (json_path(e, seq!["properties"@, "evidence_summary"@]) matches Some(o) && ref_list(o, 1, 3, "#/definitions/evidence_summary_item"@))
    &&& (json_path(e, seq!["properties"@, "watch_summary"@]) matches Some(o) && ref_only(o, "#/definitions/free_watch_summary"@))
    &&& (json_path(e, seq!["properties"@, "summary"@, "properties"@, "title"@, "maxLength"@]) == Some(JsonValue::Int(40)))
    &&& (json_path(e, seq!["properties"@, "summary"@, "properties"@, "text"@, "minLength"@]) == Some(JsonValue::Int(420)))
    &&& (json_path(e, seq!["properties"@, "summary"@, "properties"@, "text"@, "maxLength"@]) == Some(JsonValue::Int(900)))
    &&& (json_path(e, seq!["properties"@, "dominant_theme"@, "properties"@, "theme"@, "maxLength"@]) == Some(JsonValue::Int(40)))
    &&& (json_path(e, seq!["properties"@, "dominant_theme"@, "properties"@, "text"@, "minLength"@]) == Some(JsonValue::Int(120)))
    &&& (json_path(e, seq!["properties"@, "dominant_theme"@, "properties"@, "text"@, "maxLength"@]) == Some(JsonValue::Int(300)))
    &&& (json_path(e, seq!["definitions"@, "day_marker"@, "properties"@, "title"@, "maxLength"@]) == Some(JsonValue::Int(40)))
    &&& (json_path(e, seq!["definitions"@, "day_marker"@, "properties"@, "reason"@, "minLength"@]) == Some(JsonValue::Int(100)))
    &&& (json_path(e, seq!["definitions"@, "day_marker"@, "properties"@, "reason"@, "maxLength"@]) == Some(JsonValue::Int(240)))
    &&& (json_path(e, seq!["definitions"@, "day_marker"@, "properties"@, "fallback_reason"@, "maxLength"@]) == Some(JsonValue::Int(80)))
    &&& (json_path(e, seq!["definitions"@, "free_watch_summary"@, "properties"@, "text"@, "minLength"@]) == Some(JsonValue::Int(110)))
    &&& (json_path(e, seq!["definitions"@, "free_watch_summary"@, "properties"@, "text"@, "maxLength"@]) == Some(JsonValue::Int(300)))
    &&& (json_path(e, seq!["definitions"@, "evidence_summary_item"@, "properties"@, "label"@, "maxLength"@]) == Some(JsonValue::Int(96)))
}

/// The schema cut to the premium offer: no `allOf`, the required list `rq`, and no free summary or dominant theme.
pub open spec fn premium_edits(e: JsonValue, rq: Seq<Option<Seq<char>>>) -> bool {
    &&& e is Object
    &&& (json_path(e, seq!["allOf"@]) is None)
    &&& (json_path(e, seq!["required"@]) matches Some(JsonValue::Array(a)) && texts(a@) == rq)
    &&& (json_path(e, seq!["properties"@, "summary"@]) is None)
    &&& (json_path(e, seq!["properties"@, "dominant_theme"@]) is None)
}

/// The schema cut to the basic offer: no `allOf`, the required list `rq`, no free summary, dominant theme, windows or strategy, a structured advice, and the length bounds set.
pub open spec fn basic_edits(e: JsonValue, rq: Seq<Option<Seq<char>>>) -> bool {
    &&& e is Object
    &&& (json_path(e, seq!["allOf"@]) is None)
    &&& (json_path(e, seq!["required"@]) matches Some(JsonValue::Array(a)) && texts(a@) == rq)
    &&& (json_path(e, seq!["properties"@, "summary"@]) is None)
    &&& (json_path(e, seq!["properties"@, "dominant_theme"@]) is None)
    &&& (json_path(e, seq!["properties"@, "best_windows"@]) is None)
    &&& (json_path(e, seq!["properties"@, "watch_windows"@]) is None)
    &&& (json_path(e, seq!["properties"@, "strategy"@]) is None)
    &&& (json_path(e, seq!["properties"@, "advice"@]) matches Some(o) && basic_advice(o))
    &&& (json_path(e, seq!["properties"@, "domain_sections"@, "minItems"@]) == Some(JsonValue::Int(2)))
    &&& (json_path(e, seq!["properties"@, "domain_sections"@, "maxItems"@]) == Some(JsonValue::Int(3)))
    &&& (json_path(e, seq!["properties"@, "evidence_summary"@, "minItems"@]) == Some(JsonValue::Int(1)))
    &&& (json_path(e, seq!["properties"@, "evidence_summary"@, "maxItems"@]) == Some(JsonValue::Int(5)))
    &&& (json_path(e, seq!["properties"@, "week_overview"@, "properties"@, "title"@, "maxLength"@]) == Some(JsonValue::Int(60)))
    &&& (json_path(e, seq!["properties"@, "week_overview"@, "properties"@, "text"@, "minLength"@]) == Some(JsonValue::Int(260)))
    &&& (json_path(e, seq!["properties"@, "week_overview"@, "properties"@, "text"@, "maxLength"@]) == Some(JsonValue::Int(620)))
    &&& (json_path(e, seq!["properties"@, "week_overview"@, "properties"@, "trajectory"@, "minLength"@]) == Some(JsonValue::Int(120)))
    &&& (json_path(e, seq!["properties"@, "week_overview"@, "properties"@, "trajectory"@, "maxLength"@]) == Some(JsonValue::Int(320)))
    &&& (json_path(e, seq!["definitions"@, "day_marker"@, "properties"@, "title"@, "maxLength"@]) == Some(JsonValue::Int(60)))
    &&& (json_path(e, seq!["definitions"@, "day_marker"@, "properties"@, "reason"@, "minLength"@]) == Some(JsonValue::Int(80)))
    &&& (json_path(e, seq!["definitions"@, "day_marker"@, "properties"@, "reason"@, "maxLength"@]) == Some(JsonValue::Int(220)))
    &&& (json_path(e, seq!["definitions"@, "day_marker"@, "properties"@, "fallback_reason"@, "maxLength"@]) == Some(JsonValue::Int(120)))
    &&& (json_path(e, seq!["definitions"@, "timeline_day"@, "properties"@, "theme"@, "maxLength"@]) == Some(JsonValue::Int(40)))
    &&& (json_path(e, seq!["definitions"@, "timeline_day"@, "properties"@, "tone"@, "maxLength"@]) == Some(JsonValue::Int(40)))
    &&& (json_path(e, seq!["definitions"@, "timeline_day"@, "properties"@, "text"@, "minLength"@]) == Some(JsonValue::Int(180)))
    &&& (json_path(e, seq!["definitions"@, "timeline_day"@, "properties"@, "text"@, "maxLength"@]) == Some(JsonValue::Int(380)))
    &&& (json_path(e, seq!["definitions"@, "timeline_day"@, "properties"@, "advice"@, "minLength"@]) == Some(JsonValue::Int(70)))
    &&& (json_path(e, seq!["definitions"@, "timeline_day"@, "properties"@, "advice"@, "maxLength"@]) == Some(JsonValue::Int(180)))
    &&& (json_path(e, seq!["definitions"@, "domain_section"@, "properties"@, "domain"@, "maxLength"@]) == Some(JsonValue::Int(40)))
    &&& (json_path(e, seq!["definitions"@, "domain_section"@, "properties"@, "title"@, "maxLength"@]) == Some(JsonValue::Int(70)))
    &&& (json_path(e, seq!["definitions"@, "domain_section"@, "properties"@, "text"@, "minLength"@]) == Some(JsonValue::Int(180)))
    &&& (json_path(e, seq!["definitions"@, "domain_section"@, "properties"@, "text"@, "maxLength"@]) == Some(JsonValue::Int(420)))
    &&& (json_path(e, seq!["definitions"@, "watch_summary"@, "properties"@, "text"@, "minLength"@]) == Some(JsonValue::Int(100)))
    &&& (json_path(e, seq!["definitions"@, "watch_summary"@, "properties"@, "text"@, "maxLength"@]) == Some(JsonValue::Int(320)))
    &&& (json_path(e, seq!["definitions"@, "evidence_summary_item"@, "properties"@, "label"@, "maxLength"@]) == Some(JsonValue::Int(96)))
}

/// The length bounds of the free schema can be written where the base schema holds them.
pub open spec fn free_writable(base: JsonValue) -> bool {
    &&& settable(base, seq!["properties"@, "summary"@, "properties"@, "title"@, "maxLength"@])
    &&& settable(base, seq!["properties"@, "summary"@, "properties"@, "text"@, "minLength"@])
    &&& settable(base, seq!["properties"@, "summary"@, "properties"@, "text"@, "maxLength"@])
    &&& settable(base, seq!["properties"@, "dominant_theme"@, "properties"@, "theme"@, "maxLength"@])
    &&& settable(base, seq!["properties"@, "dominant_theme"@, "properties"@, "text"@, "minLength"@])
    &&& settable(base, seq!["properties"@, "dominant_theme"@, "properties"@, "text"@, "maxLength"@])
    &&& settable(base, seq!["definitions"@, "day_marker"@, "properties"@, "title"@, "maxLength"@])
    &&& settable(base, seq!["definitions"@, "day_marker"@, "properties"@, "reason"@, "minLength"@])
    &&& settable(base, seq!["definitions"@, "day_marker"@, "properties"@, "reason"@, "maxLength"@])
    &&& settable(base, seq!["definitions"@, "day_marker"@, "properties"@, "fallback_reason"@, "maxLength"@])
    &&& settable(base, seq!["definitions"@, "free_watch_summary"@, "properties"@, "text"@, "minLength"@])
    &&& settable(base, seq!["definitions"@, "free_watch_summary"@, "properties"@, "text"@, "maxLength"@])
    &&& settable(base, seq!["definitions"@, "evidence_summary_item"@, "properties"@, "label"@, "maxLength"@])
}

/// The length bounds of the basic schema can be written where the base schema holds them.
pub open spec fn basic_writable(base: JsonValue) -> bool {
    &&& settable(base, seq!["properties"@, "domain_sections"@, "minItems"@])
    &&& settable(base, seq!["properties"@, "domain_sections"@, "maxItems"@])
    &&& settable(base, seq!["properties"@, "evidence_summary"@, "minItems"@])
    &&& settable(base, seq!["properties"@, "evidence_summary"@, "maxItems"@])
    &&& settable(base, seq!["properties"@, "week_overview"@, "properties"@, "title"@, "maxLength"@])
    &&& settable(base, seq!["properties"@, "week_overview"@, "properties"@, "text"@, "minLength"@])
    &&& settable(base, seq!["properties"@, "week_overview"@, "properties"@, "text"@, "maxLength"@])
    &&& settable(base, seq!["properties"@, "week_overview"@, "properties"@, "trajectory"@, "minLength"@])
    &&& settable(base, seq!["properties"@, "week_overview"@, "properties"@, "trajectory"@, "maxLength"@])
    &&& settable(base, seq!["definitions"@, "day_marker"@, "properties"@, "title"@, "maxLength"@])
    &&& settable(base, seq!["definitions"@, "day_marker"@, "properties"@, "reason"@, "minLength"@])
    &&& settable(base, seq!["definitions"@, "day_marker"@, "properties"@, "reason"@, "maxLength"@])
    &&& settable(base, seq!["definitions"@, "day_marker"@, "properties"@, "fallback_reason"@, "maxLength"@])
    &&& settable(base, seq!["definitions"@, "timeline_day"@, "properties"@, "theme"@, "maxLength"@])
    &&& settable(base, seq!["definitions"@, "timeline_day"@, "properties"@, "tone"@, "maxLength"@])
    &&& settable(base, seq!["definitions"@, "timeline_day"@, "properties"@, "text"@, "minLength"@])
    &&& settable(base, seq!["definitions"@, "timeline_day"@, "properties"@, "text"@, "maxLength"@])
    &&& settable(base, seq!["definitions"@, "timeline_day"@, "properties"@, "advice"@, "minLength"@])
    &&& settable(base, seq!["definitions"@, "timeline_day"@, "properties"@, "advice"@, "maxLength"@])
    &&& settable(base, seq!["definitions"@, "domain_section"@, "properties"@, "domain"@, "maxLength"@])
    &&& settable(base, seq!["definitions"@, "domain_section"@, "properties"@, "title"@, "maxLength"@])
    &&& settable(base, seq!["definitions"@, "domain_section"@, "properties"@, "text"@, "minLength"@])
    &&& settable(base, seq!["definitions"@, "domain_section"@, "properties"@, "text"@, "maxLength"@])
    &&& settable(base, seq!["definitions"@, "watch_summary"@, "properties"@, "text"@, "minLength"@])
    &&& settable(base, seq!["definitions"@, "watch_summary"@, "properties"@, "text"@, "maxLength"@])
    &&& settable(base, seq!["definitions"@, "evidence_summary_item"@, "properties"@, "label"@, "maxLength"@])
}

/// The base schema holds a required list and an object of properties.
pub open spec fn schema_shape_ok(base: JsonValue) -> bool {
    crate::json::field_arr(base, "required"@) is Some && json_at(base, "properties"@) is Object
}

/// The required members of the free schema.
pub open spec fn free_required() -> Seq<Option<Seq<char>>> {
    seq![Some("contract_version"@), Some("service_code"@), Some("period_resolution"@), Some("summary"@), Some("dominant_theme"@), Some("key_days"@), Some("advice"@), Some("watch_summary"@), Some("evidence_summary"@), Some("quality"@)]
}

/// The fields the premium schema requires besides the base's, and those it drops.
pub open spec fn premium_required(base: JsonValue) -> Seq<Option<Seq<char>>> {
    without(with_added(texts(crate::json::field_arr(base, "required"@)->0), seq!["week_overview"@, "best_days"@, "watch_days"@, "daily_timeline"@, "domain_sections"@, "best_windows"@, "watch_windows"@, "strategy"@]), seq!["summary"@, "dominant_theme"@])
}

/// The fields the basic schema requires besides the base's, and those it drops.
pub open spec fn basic_required(base: JsonValue) -> Seq<Option<Seq<char>>> {
    without(with_added(texts(crate::json::field_arr(base, "required"@)->0), seq!["week_overview"@, "best_days"@, "watch_days"@, "daily_timeline"@, "domain_sections"@]), seq!["summary"@, "dominant_theme"@, "best_windows"@, "watch_windows"@, "strategy"@])
}

/// `e` holds what `base` held at every path, apart from `allOf`, that parts from each path the
/// offer edits.
pub open spec fn kept_outside(base: JsonValue, e: JsonValue, ps: Seq<Seq<Seq<char>>>) -> bool {
    forall|b: Seq<Seq<char>>| b.len() > 0 && b[0] != "allOf"@ && #[trigger] parted_from(ps, b) ==> json_path(e, b) == json_path(base, b)
}

/// The base schema cut to the offer of the request: free, premium, or basic. The edits name
/// their paths (`free_paths`, `premium_paths`, `basic_paths`); every other path keeps its value.
pub open spec fn provider_schema_edits(base: JsonValue, request: JsonValue, e: JsonValue) -> bool {
    if crate::period_metadata::free_period_request(request) {
        free_edits(e, free_required()) && kept_outside(base, e, free_paths())
    } else if crate::period_metadata::premium_period_request(request) {
        premium_edits(e, premium_required(base)) && kept_outside(base, e, premium_paths())
    } else {
        basic_edits(e, basic_required(base)) && kept_outside(base, e, basic_paths())
    }
}

/// The required list of the free schema.
fn free_required_items() -> (r: Vec<JsonValue>)
    ensures
        texts(r@) == free_required(),
{
    let mut r: Vec<JsonValue> = Vec::new();
    r.push(JsonValue::Str("contract_version".to_owned()));
    r.push(JsonValue::Str("service_code".to_owned()));
    r.push(JsonValue::Str("period_resolution".to_owned()));
    r.push(JsonValue::Str("summary".to_owned()));
    r.push(JsonValue::Str("dominant_theme".to_owned()));
    r.push(JsonValue::Str("key_days".to_owned()));
    r.push(JsonValue::Str("advice".to_owned()));
    r.push(JsonValue::Str("watch_summary".to_owned()));
    r.push(JsonValue::Str("evidence_summary".to_owned()));
    r.push(JsonValue::Str("quality".to_owned()));
    assert(texts(r@) =~= free_required());
    r
}

/// Appends `n` removals to a table of edits.
fn push_removals(vals: &mut Vec<Option<JsonValue>>, n: usize)
    ensures
        final(vals)@ == old(vals)@ + Seq::new(n as nat, |i: int| None::<JsonValue>),
{
    let ghost start = vals@;
    let mut i: usize = 0;
    while i < n
        invariant
            i <= n,
            vals@ =~= start + Seq::new(i as nat, |j: int| None::<JsonValue>),
        decreases n - i,
    {
        vals.push(None);
        i = i + 1;
    }
}

/// Appends a write of each bound to a table of edits.
fn push_bounds(vals: &mut Vec<Option<JsonValue>>, bounds: &[i64])
    ensures
        final(vals)@ == old(vals)@ + bounds@.map_values(|b: i64| Some(JsonValue::Int(b))),
{
    let ghost start = vals@;
    let n = bounds.len();
    let mut i: usize = 0;
    while i < n
        invariant
            n == bounds@.len(),
            i <= n,
            vals@ =~= start + bounds@.take(i as int).map_values(|b: i64| Some(JsonValue::Int(b))),
        decreases n - i,
    {
        vals.push(Some(JsonValue::Int(bounds[i])));
        i = i + 1;
    }
    assert(bounds@.take(n as int) =~= bounds@);
}

/// The paths of the free edits, as the code walks them.
fn free_table() -> (r: &'static [&'static [&'static str]])
    ensures
        slice_views(r@) == free_paths(),
{
    let rows: &'static [&'static [&'static str]] = &[
        &["required"],
        &["properties", "week_overview"],
        &["properties", "best_days"],
        &["properties", "watch_days"],
        &["properties", "daily_timeline"],
        &["properties", "domain_sections"],
        &["properties", "best_windows"],
        &["properties", "watch_windows"],
        &["properties", "strategy"],
        &["properties", "advice"],
        &["properties", "key_days"],
        &["properties", "evidence_summary"],
        &["properties", "watch_summary"],
        &["properties", "summary", "properties", "title", "maxLength"],
        &["properties", "summary", "properties", "text", "minLength"],
        &["properties", "summary", "properties", "text", "maxLength"],
        &["properties", "dominant_theme", "properties", "theme", "maxLength"],
        &["properties", "dominant_theme", "properties", "text", "minLength"],
        &["properties", "dominant_theme", "properties", "text", "maxLength"],
        &["definitions", "day_marker", "properties", "title", "maxLength"],
        &["definitions", "day_marker", "properties", "reason", "minLength"],
        &["definitions", "day_marker", "properties", "reason", "maxLength"],
        &["definitions", "day_marker", "properties", "fallback_reason", "maxLength"],
        &["definitions", "free_watch_summary", "properties", "text", "minLength"],
        &["definitions", "free_watch_summary", "properties", "text", "maxLength"],
        &["definitions", "evidence_summary_item", "properties", "label", "maxLength"],
    ];
    assert(slice_views(rows@) =~~= free_paths());
    rows
}

/// The paths of the free edits are writable in a schema with an object of properties whose bounds can be written.
proof fn lemma_free_settable(v: JsonValue)
    requires
        v is Object,
        json_at(v, "properties"@) is Object,
        free_writable(v),
    ensures
        forall|i: int| 0 <= i < free_paths().len() ==> settable(v, #[trigger] free_paths()[i]),
{
    lemma_path_one(v, "required"@);
    assert forall|p: Seq<Seq<char>>| p.len() == 2 && p[0] == "properties"@ implies #[trigger] settable(v, p) by {
        lemma_path_two(v, "properties"@, p[1]);
        assert(p =~= seq!["properties"@, p[1]]);
    }
    reveal_with_fuel(settable_all, 27);
    assert(settable_all(v, free_paths()));
    lemma_settable_all(v, free_paths());
}

/// The paths of the premium edits, as the code walks them.
fn premium_table() -> (r: &'static [&'static [&'static str]])
    ensures
        slice_views(r@) == premium_paths(),
{
    let rows: &'static [&'static [&'static str]] = &[
        &["required"],
        &["properties", "summary"],
        &["properties", "dominant_theme"],
    ];
    assert(slice_views(rows@) =~~= premium_paths());
    rows
}

/// The paths of the premium edits are writable in a schema with an object of properties.
proof fn lemma_premium_settable(v: JsonValue)
    requires
        v is Object,
        json_at(v, "properties"@) is Object,
    ensures
        forall|i: int| 0 <= i < premium_paths().len() ==> settable(v, #[trigger] premium_paths()[i]),
{
    lemma_path_one(v, "required"@);
    assert forall|p: Seq<Seq<char>>| p.len() == 2 && p[0] == "properties"@ implies #[trigger] settable(v, p) by {
        lemma_path_two(v, "properties"@, p[1]);
        assert(p =~= seq!["properties"@, p[1]]);
    }
    reveal_with_fuel(settable_all, 4);
    assert(settable_all(v, premium_paths()));
    lemma_settable_all(v, premium_paths());
}

/// The paths of the basic edits, as the code walks them.
fn basic_table() -> (r: &'static [&'static [&'static str]])
    ensures
        slice_views(r@) == basic_paths(),
{
    let rows: &'static [&'static [&'static str]] = &[
        &["required"],
        &["properties", "summary"],
        &["properties", "dominant_theme"],
        &["properties", "best_windows"],
        &["properties", "watch_windows"],
        &["properties", "strategy"],
        &["properties", "advice"],
        &["properties", "domain_sections", "minItems"],
        &["properties", "domain_sections", "maxItems"],
        &["properties", "evidence_summary", "minItems"],
        &["properties", "evidence_summary", "maxItems"],
        &["properties", "week_overview", "properties", "title", "maxLength"],
        &["properties", "week_overview", "properties", "text", "minLength"],
        &["properties", "week_overview", "properties", "text", "maxLength"],
        &["properties", "week_overview", "properties", "trajectory", "minLength"],
        &["properties", "week_overview", "properties", "trajectory", "maxLength"],
        &["definitions", "day_marker", "properties", "title", "maxLength"],
        &["definitions", "day_marker", "properties", "reason", "minLength"],
        &["definitions", "day_marker", "properties", "reason", "maxLength"],
        &["definitions", "day_marker", "properties", "fallback_reason", "maxLength"],
        &["definitions", "timeline_day", "properties", "theme", "maxLength"],
        &["definitions", "timeline_day", "properties", "tone", "maxLength"],
        &["definitions", "timeline_day", "properties", "text", "minLength"],
        &["definitions", "timeline_day", "properties", "text", "maxLength"],
        &["definitions", "timeline_day", "properties", "advice", "minLength"],
        &["definitions", "timeline_day", "properties", "advice", "maxLength"],
        &["definitions", "domain_section", "properties", "domain", "maxLength"],
        &["definitions", "domain_section", "properties", "title", "maxLength"],
        &["definitions", "domain_section", "properties", "text", "minLength"],
        &["definitions", "domain_section", "properties", "text", "maxLength"],
        &["definitions", "watch_summary", "properties", "text", "minLength"],
        &["definitions", "watch_summary", "properties", "text", "maxLength"],
        &["definitions", "evidence_summary_item", "properties", "label", "maxLength"],
    ];
    assert(slice_views(rows@) =~~= basic_paths());
    rows
}

/// The paths of the basic edits are writable in a schema with an object of properties whose bounds can be written.
proof fn lemma_basic_settable(v: JsonValue)
    requires
        v is Object,
        json_at(v, "properties"@) is Object,
        basic_writable(v),
    ensures
        forall|i: int| 0 <= i < basic_paths().len() ==> settable(v, #[trigger] basic_paths()[i]),
{
    lemma_path_one(v, "required"@);
    assert forall|p: Seq<Seq<char>>| p.len() == 2 && p[0] == "properties"@ implies #[trigger] settable(v, p) by {
        lemma_path_two(v, "properties"@, p[1]);
        assert(p =~= seq!["properties"@, p[1]]);
    }
    reveal_with_fuel(settable_all, 34);
    assert(settable_all(v, basic_paths()));
    lemma_settable_all(v, basic_paths());
}

/// Cuts a schema, whose `allOf` is gone, to the free offer (`free_edits`); every path that parts from
/// each edited path keeps its value.
fn cut_free(schema: &mut JsonValue)
    requires
        *old(schema) is Object,
        json_at(*old(schema), "properties"@) is Object,
        json_path(*old(schema), seq!["allOf"@]) is None,
        free_writable(*old(schema)),
    ensures
        free_edits(*final(schema), free_required()),
        kept_apart(*old(schema), *final(schema), free_paths()),
{
    let table = free_table();
    let mut vals: Vec<Option<JsonValue>> = Vec::new();
    vals.push(Some(JsonValue::Array(free_required_items())));
    push_removals(&mut vals, 8);
    vals.push(Some(string_bounds_of(120, 360)));
    vals.push(Some(ref_list_of(1, 2, "#/definitions/day_marker")));
    vals.push(Some(ref_list_of(1, 3, "#/definitions/evidence_summary_item")));
    vals.push(Some(ref_only_of("#/definitions/free_watch_summary")));
    push_bounds(&mut vals, &[40, 420, 900, 40, 120, 300, 40, 100, 240, 80, 110, 300, 96]);
    let ghost vg = vals@;
    let ghost before = *schema;
    proof {
        lemma_free_paths_parted();
        lemma_parted_nonempty(free_paths());
        lemma_free_settable(before);
        assert forall|i: int| 0 <= i < table@.len() implies (#[trigger] table@[i])@.len() > 0 by {
            assert(slice_views(table@)[i].len() == table@[i]@.len());
        }
    }
    apply_edits(schema, table, vals);
    proof {
        assert(json_path(*schema, free_paths()[0]) == vg[0]);
        assert(json_path(*schema, free_paths()[1]) == vg[1]);
        assert(json_path(*schema, free_paths()[2]) == vg[2]);
        assert(json_path(*schema, free_paths()[3]) == vg[3]);
        assert(json_path(*schema, free_paths()[4]) == vg[4]);
        assert(json_path(*schema, free_paths()[5]) == vg[5]);
        assert(json_path(*schema, free_paths()[6]) == vg[6]);
        assert(json_path(*schema, free_paths()[7]) == vg[7]);
        assert(json_path(*schema, free_paths()[8]) == vg[8]);
        assert(json_path(*schema, free_paths()[9]) == vg[9]);
        assert(json_path(*schema, free_paths()[10]) == vg[10]);
        assert(json_path(*schema, free_paths()[11]) == vg[11]);
        assert(json_path(*schema, free_paths()[12]) == vg[12]);
        assert(json_path(*schema, free_paths()[13]) == vg[13]);
        assert(json_path(*schema, free_paths()[14]) == vg[14]);
        assert(json_path(*schema, free_paths()[15]) == vg[15]);
        assert(json_path(*schema, free_paths()[16]) == vg[16]);
        assert(json_path(*schema, free_paths()[17]) == vg[17]);
        assert(json_path(*schema, free_paths()[18]) == vg[18]);
        assert(json_path(*schema, free_paths()[19]) == vg[19]);
        assert(json_path(*schema, free_paths()[20]) == vg[20]);
        assert(json_path(*schema, free_paths()[21]) == vg[21]);
        assert(json_path(*schema, free_paths()[22]) == vg[22]);
        assert(json_path(*schema, free_paths()[23]) == vg[23]);
        assert(json_path(*schema, free_paths()[24]) == vg[24]);
        assert(json_path(*schema, free_paths()[25]) == vg[25]);
        assert(json_path(*schema, seq!["allOf"@]) == json_path(before, seq!["allOf"@]));
    }
}

/// Cuts a schema, whose `allOf` is gone, to the premium offer (`premium_edits`); every path that parts from
/// each edited path keeps its value.
fn cut_premium(schema: &mut JsonValue, items: Vec<JsonValue>)
    requires
        *old(schema) is Object,
        json_at(*old(schema), "properties"@) is Object,
        json_path(*old(schema), seq!["allOf"@]) is None,
    ensures
        premium_edits(*final(schema), without(with_added(texts(items@), seq!["week_overview"@, "best_days"@, "watch_days"@, "daily_timeline"@, "domain_sections"@, "best_windows"@, "watch_windows"@, "strategy"@]), seq!["summary"@, "dominant_theme"@])),
        kept_apart(*old(schema), *final(schema), premium_paths()),
{
    let table = premium_table();
    let mut vals: Vec<Option<JsonValue>> = Vec::new();
    let added: [&str; 8] = ["week_overview", "best_days", "watch_days", "daily_timeline", "domain_sections", "best_windows", "watch_windows", "strategy"];
    let dropped: [&str; 2] = ["summary", "dominant_theme"];
    proof {
        assert(views(added@) =~= seq!["week_overview"@, "best_days"@, "watch_days"@, "daily_timeline"@, "domain_sections"@, "best_windows"@, "watch_windows"@, "strategy"@]);
        assert(views(dropped@) =~= seq!["summary"@, "dominant_theme"@]);
    }
    vals.push(Some(JsonValue::Array(edit_required(items, &added, &dropped))));
    push_removals(&mut vals, 2);
    let ghost vg = vals@;
    let ghost before = *schema;
    proof {
        lemma_premium_paths_parted();
        lemma_parted_nonempty(premium_paths());
        lemma_premium_settable(before);
        assert forall|i: int| 0 <= i < table@.len() implies (#[trigger] table@[i])@.len() > 0 by {
            assert(slice_views(table@)[i].len() == table@[i]@.len());
        }
    }
    apply_edits(schema, table, vals);
    proof {
        assert(json_path(*schema, premium_paths()[0]) == vg[0]);
        assert(json_path(*schema, premium_paths()[1]) == vg[1]);
        assert(json_path(*schema, premium_paths()[2]) == vg[2]);
        assert(json_path(*schema, seq!["allOf"@]) == json_path(before, seq!["allOf"@]));
    }
}

/// Cuts a schema, whose `allOf` is gone, to the basic offer (`basic_edits`); every path that parts from
/// each edited path keeps its value.
fn cut_basic(schema: &mut JsonValue, items: Vec<JsonValue>)
    requires
        *old(schema) is Object,
        json_at(*old(schema), "properties"@) is Object,
        json_path(*old(schema), seq!["allOf"@]) is None,
        basic_writable(*old(schema)),
    ensures
        basic_edits(*final(schema), without(with_added(texts(items@), seq!["week_overview"@, "best_days"@, "watch_days"@, "daily_timeline"@, "domain_sections"@]), seq!["summary"@, "dominant_theme"@, "best_windows"@, "watch_windows"@, "strategy"@])),
        kept_apart(*old(schema), *final(schema), basic_paths()),
{
    let table = basic_table();
    let mut vals: Vec<Option<JsonValue>> = Vec::new();
    let added: [&str; 5] = ["week_overview", "best_days", "watch_days", "daily_timeline", "domain_sections"];
    let dropped: [&str; 5] = ["summary", "dominant_theme", "best_windows", "watch_windows", "strategy"];
    proof {
        assert(views(added@) =~= seq!["week_overview"@, "best_days"@, "watch_days"@, "daily_timeline"@, "domain_sections"@]);
        assert(views(dropped@) =~= seq!["summary"@, "dominant_theme"@, "best_windows"@, "watch_windows"@, "strategy"@]);
    }
    vals.push(Some(JsonValue::Array(edit_required(items, &added, &dropped))));
    push_removals(&mut vals, 5);
    vals.push(Some(basic_advice_of()));
    push_bounds(&mut vals, &[2, 3, 1, 5, 60, 260, 620, 120, 320, 60, 80, 220, 120, 40, 40, 180, 380, 70, 180, 40, 70, 180, 420, 100, 320, 96]);
    let ghost vg = vals@;
    let ghost before = *schema;
    proof {
        lemma_basic_paths_parted();
        lemma_parted_nonempty(basic_paths());
        lemma_basic_settable(before);
        assert forall|i: int| 0 <= i < table@.len() implies (#[trigger] table@[i])@.len() > 0 by {
            assert(slice_views(table@)[i].len() == table@[i]@.len());
        }
    }
    apply_edits(schema, table, vals);
    proof {
        assert(json_path(*schema, basic_paths()[0]) == vg[0]);
        assert(json_path(*schema, basic_paths()[1]) == vg[1]);
        assert(json_path(*schema, basic_paths()[2]) == vg[2]);
        assert(json_path(*schema, basic_paths()[3]) == vg[3]);
        assert(json_path(*schema, basic_paths()[4]) == vg[4]);
        assert(json_path(*schema, basic_paths()[5]) == vg[5]);
        assert(json_path(*schema, basic_paths()[6]) == vg[6]);
        assert(json_path(*schema, basic_paths()[7]) == vg[7]);
        assert(json_path(*schema, basic_paths()[8]) == vg[8]);
        assert(json_path(*schema, basic_paths()[9]) == vg[9]);
        assert(json_path(*schema, basic_paths()[10]) == vg[10]);
        assert(json_path(*schema, basic_paths()[11]) == vg[11]);
        assert(json_path(*schema, basic_paths()[12]) == vg[12]);
        assert(json_path(*schema, basic_paths()[13]) == vg[13]);
        assert(json_path(*schema, basic_paths()[14]) == vg[14]);
        assert(json_path(*schema, basic_paths()[15]) == vg[15]);
        assert(json_path(*schema, basic_paths()[16]) == vg[16]);
        assert(json_path(*schema, basic_paths()[17]) == vg[17]);
        assert(json_path(*schema, basic_paths()[18]) == vg[18]);
        assert(json_path(*schema, basic_paths()[19]) == vg[19]);
        assert(json_path(*schema, basic_paths()[20]) == vg[20]);
        assert(json_path(*schema, basic_paths()[21]) == vg[21]);
        assert(json_path(*schema, basic_paths()[22]) == vg[22]);
        assert(json_path(*schema, basic_paths()[23]) == vg[23]);
        assert(json_path(*schema, basic_paths()[24]) == vg[24]);
        assert(json_path(*schema, basic_paths()[25]) == vg[25]);
        assert(json_path(*schema, basic_paths()[26]) == vg[26]);
        assert(json_path(*schema, basic_paths()[27]) == vg[27]);
        assert(json_path(*schema, basic_paths()[28]) == vg[28]);
        assert(json_path(*schema, basic_paths()[29]) == vg[29]);
        assert(json_path(*schema, basic_paths()[30]) == vg[30]);
        assert(json_path(*schema, basic_paths()[31]) == vg[31]);
        assert(json_path(*schema, basic_paths()[32]) == vg[32]);
        assert(json_path(*schema, seq!["allOf"@]) == json_path(before, seq!["allOf"@]));
    }
}

/// The schema a provider is given for a seven-day reading: the base response schema without
/// its `allOf`, cut to the offer of the request (see `provider_schema_edits`: the edited paths
/// hold what the offer writes there, every other path what the base schema held), then made
/// strict. A base schema without a required list or an object of properties is refused
/// (`HOROSCOPE_PERIOD_RESPONSE_INVALID`); so is a cut schema whose definitions refer to each
/// other in a cycle, which could not be inlined. Where the required list and the properties are
/// there, the length bounds are written through objects only (`free_writable`,
/// `basic_writable`).
pub fn period_response_provider_schema(base_schema: JsonValue, request: &JsonValue) -> (r: Result<JsonValue, GenerationError>)
    requires
        schema_shape_ok(base_schema) && crate::period_metadata::free_period_request(*request) ==> free_writable(base_schema),
        schema_shape_ok(base_schema) && !crate::period_metadata::free_period_request(*request)
            && !crate::period_metadata::premium_period_request(*request) ==> basic_writable(base_schema),
    ensures
        !schema_shape_ok(base_schema) ==> (r matches Err(x) && err_code(x) == "HOROSCOPE_PERIOD_RESPONSE_INVALID"@),
        schema_shape_ok(base_schema) ==> exists|e: JsonValue|
            #[trigger] provider_schema_edits(base_schema, *request, e) && (crate::schema_compiler::acyclic_definitions(e) ==> (
            r matches Ok(s) && crate::schema_compiler::strict_schema(e, s))) && (!crate::schema_compiler::acyclic_definitions(e)
                ==> (r matches Err(x) && err_code(x) == "HOROSCOPE_PERIOD_RESPONSE_INVALID"@)),
{
    let ghost base = base_schema;
    let mut schema = base_schema;
    crate::json::remove_member(&mut schema, "allOf");
    let ghost sa = schema;
    let taken = take_member(&mut schema, "required");
    let items = match taken {
        Some(JsonValue::Array(items)) => items,
        _ => {
            proof {
                reveal_strlit("allOf");
                reveal_strlit("required");
                assert("allOf"@.len() != "required"@.len());
            }
            return Err(horoscope_error("HOROSCOPE_PERIOD_RESPONSE_INVALID"));
        },
    };
    let props_ok = match schema.get("properties") {
        Some(JsonValue::Object(_)) => true,
        _ => false,
    };
    proof {
        reveal_strlit("allOf");
        reveal_strlit("required");
        reveal_strlit("properties");
        reveal_strlit("definitions");
        assert("allOf"@.len() != "required"@.len());
        assert("allOf"@.len() != "properties"@.len());
        assert("required"@.len() != "properties"@.len());
        assert("allOf"@.len() != "definitions"@.len());
        assert("required"@.len() != "definitions"@.len());
        assert(json_get(schema, "properties"@) == json_get(base, "properties"@));
        assert(crate::json::field_arr(base, "required"@) == Some(items@));
    }
    if !props_ok {
        return Err(horoscope_error("HOROSCOPE_PERIOD_RESPONSE_INVALID"));
    }
    proof {
        assert(json_get(schema, "allOf"@) is None);
        lemma_path_one(schema, "allOf"@);
        assert forall|b: Seq<Seq<char>>| b.len() > 0 && (b[0] == "properties"@ || b[0] == "definitions"@) && settable(base, b)
            implies #[trigger] settable(schema, b) by {
            lemma_same_head(base, sa, b);
            lemma_same_head(sa, schema, b);
        }
    }
    let free = crate::period_metadata::is_free_period_request(request);
    let premium = crate::period_metadata::is_premium_period_request(request);
    let ghost s1 = schema;
    proof {
        assert forall|b: Seq<Seq<char>>| b.len() > 0 && b[0] != "allOf"@ && b[0] != "required"@ implies json_path(s1, b)
            == json_path(base, b) by {
            lemma_same_head(base, s1, b);
        }
        reveal_with_fuel(diverge, 2);
    }
    if free {
        cut_free(&mut schema);
        proof {
            assert(free_paths()[0] == seq!["required"@]);
            assert forall|b: Seq<Seq<char>>| b.len() > 0 && b[0] != "allOf"@ && #[trigger] parted_from(free_paths(), b) implies json_path(
                schema,
                b,
            ) == json_path(base, b) by {
                assert(diverge(free_paths()[0], b));
            }
        }
    } else if premium {
        cut_premium(&mut schema, items);
        proof {
            assert(premium_paths()[0] == seq!["required"@]);
            assert forall|b: Seq<Seq<char>>| b.len() > 0 && b[0] != "allOf"@ && #[trigger] parted_from(premium_paths(), b) implies json_path(
                schema,
                b,
            ) == json_path(base, b) by {
                assert(diverge(premium_paths()[0], b));
            }
        }
    } else {
        cut_basic(&mut schema, items);
        proof {
            assert(basic_paths()[0] == seq!["required"@]);
            assert forall|b: Seq<Seq<char>>| b.len() > 0 && b[0] != "allOf"@ && #[trigger] parted_from(basic_paths(), b) implies json_path(
                schema,
                b,
            ) == json_path(base, b) by {
                assert(diverge(basic_paths()[0], b));
            }
        }
    }
    proof {
        assert(provider_schema_edits(base, *request, schema));
    }
    match crate::schema_compiler::definition_ranks(&schema) {
        Some(_) => Ok(crate::schema_compiler::prepare_strict_json_schema(&schema)),
        None => Err(horoscope_error("HOROSCOPE_PERIOD_RESPONSE_INVALID")),
    }
}

} // verus!
