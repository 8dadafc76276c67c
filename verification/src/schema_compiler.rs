//! Strict JSON schemas for providers: meta fields stripped, local references inlined, and
//! every object closed with all its properties required.
use vstd::prelude::*;

use crate::json::{JsonEntry, JsonValue, entries_lookup, json_clone, json_get, json_same};
use crate::error::{GenerationError, GenerationErrorCode, err_code, err_kind, error_with_kind};
use crate::text::{chars_of, str_equal, string_views};

verus! {

// ---------------------------------------------------------------------------------------------
// Where a schema holds sub-schemas
// ---------------------------------------------------------------------------------------------

/// The members a provider does not take: `$schema`, `$id`, `$defs`, `definitions`, `title`
/// and `description`.
pub open spec fn is_meta_key(k: Seq<char>) -> bool {
    ||| k == "$schema"@
    ||| k == "$id"@
    ||| k == "$defs"@
    ||| k == "definitions"@
    ||| k == "title"@
    ||| k == "description"@
}

/// The members that hold one sub-schema: `items`, `additionalProperties` and
/// `patternProperties`.
pub open spec fn is_schema_key(k: Seq<char>) -> bool {
    k == "items"@ || k == "additionalProperties"@ || k == "patternProperties"@
}

/// The members that hold a list of sub-schemas: `allOf`, `anyOf`, `oneOf` and `prefixItems`.
pub open spec fn is_schema_list_key(k: Seq<char>) -> bool {
    k == "allOf"@ || k == "anyOf"@ || k == "oneOf"@ || k == "prefixItems"@
}

fn meta_key(k: &str) -> (r: bool)
    ensures
        r == is_meta_key(k@),
{
    str_equal(k, "$schema") || str_equal(k, "$id") || str_equal(k, "$defs") || str_equal(k, "definitions")
        || str_equal(k, "title") || str_equal(k, "description")
}

fn schema_key(k: &str) -> (r: bool)
    ensures
        r == is_schema_key(k@),
{
    str_equal(k, "items") || str_equal(k, "additionalProperties") || str_equal(k, "patternProperties")
}

fn schema_list_key(k: &str) -> (r: bool)
    ensures
        r == is_schema_list_key(k@),
{
    str_equal(k, "allOf") || str_equal(k, "anyOf") || str_equal(k, "oneOf") || str_equal(k, "prefixItems")
}

// ---------------------------------------------------------------------------------------------
// Stripping meta fields
// ---------------------------------------------------------------------------------------------

/// `b` is `a` with the meta members of every schema node removed: in an object, the meta
/// members go; each property schema under `properties`, the sub-schema under `items`,
/// `additionalProperties` and `patternProperties`, and each sub-schema of `allOf`, `anyOf`,
/// `oneOf` and `prefixItems` is stripped in turn; other members stay as they are. In an array,
/// each item is stripped. Other values stay as they are.
pub open spec fn stripped(a: JsonValue, b: JsonValue) -> bool
    decreases a, 0int,
{
    match a {
        JsonValue::Object(es) => b matches JsonValue::Object(bs) && stripped_entries(es@, bs@),
        JsonValue::Array(xs) => b matches JsonValue::Array(ys) && stripped_items(xs@, ys@),
        _ => json_same(b, a),
    }
}

/// The members of a stripped object, in order.
pub open spec fn stripped_entries(es: Seq<JsonEntry>, bs: Seq<JsonEntry>) -> bool
    decreases es, 0int,
{
    if es.len() == 0 {
        bs.len() == 0
    } else if is_meta_key(es.last().key@) {
        stripped_entries(es.drop_last(), bs)
    } else {
        &&& bs.len() > 0
        &&& bs.last().key@ == es.last().key@
        &&& stripped_member(es.last().key@, es.last().value, bs.last().value)
        &&& stripped_entries(es.drop_last(), bs.drop_last())
    }
}

/// A member of a stripped object.
pub open spec fn stripped_member(k: Seq<char>, a: JsonValue, b: JsonValue) -> bool
    decreases a, 1int,
{
    if k == "properties"@ {
        match a {
            JsonValue::Object(ps) => b matches JsonValue::Object(qs) && stripped_props(ps@, qs@),
            _ => json_same(b, a),
        }
    } else if is_schema_key(k) {
        stripped(a, b)
    } else if is_schema_list_key(k) {
        match a {
            JsonValue::Array(xs) => b matches JsonValue::Array(ys) && stripped_items(xs@, ys@),
            _ => json_same(b, a),
        }
    } else {
        json_same(b, a)
    }
}

/// The properties of a stripped object: the same names, each schema stripped.
pub open spec fn stripped_props(ps: Seq<JsonEntry>, qs: Seq<JsonEntry>) -> bool
    decreases ps, 0int,
{
    if ps.len() == 0 {
        qs.len() == 0
    } else {
        &&& qs.len() > 0
        &&& qs.last().key@ == ps.last().key@
        &&& stripped(ps.last().value, qs.last().value)
        &&& stripped_props(ps.drop_last(), qs.drop_last())
    }
}

/// The items of a stripped list, each stripped.
pub open spec fn stripped_items(xs: Seq<JsonValue>, ys: Seq<JsonValue>) -> bool
    decreases xs, 0int,
{
    if xs.len() == 0 {
        ys.len() == 0
    } else {
        &&& ys.len() > 0
        &&& stripped(xs.last(), ys.last())
        &&& stripped_items(xs.drop_last(), ys.drop_last())
    }
}

/// Stripping a stripped schema changes nothing: what `strip_provider_meta_fields` leaves is
/// stripped already.
pub proof fn law_strip_idempotent(a: JsonValue, b: JsonValue)
    requires
        stripped(a, b),
    ensures
        stripped(b, b),
    decreases a, 0int,
{
    match a {
        JsonValue::Object(es) => {
            let bs = b->Object_0;
            lemma_stripped_entries_idempotent(es@, bs@);
        },
        JsonValue::Array(xs) => {
            let ys = b->Array_0;
            lemma_stripped_items_idempotent(xs@, ys@);
        },
        _ => {
            crate::json::lemma_json_same_refl(b);
        },
    }
}

proof fn lemma_stripped_entries_idempotent(es: Seq<JsonEntry>, bs: Seq<JsonEntry>)
    requires
        stripped_entries(es, bs),
    ensures
        stripped_entries(bs, bs),
    decreases es, 0int,
{
    if es.len() > 0 {
        if is_meta_key(es.last().key@) {
            lemma_stripped_entries_idempotent(es.drop_last(), bs);
        } else {
            lemma_stripped_member_idempotent(es.last().key@, es.last().value, bs.last().value);
            lemma_stripped_entries_idempotent(es.drop_last(), bs.drop_last());
        }
    }
}

proof fn lemma_stripped_member_idempotent(k: Seq<char>, a: JsonValue, b: JsonValue)
    requires
        stripped_member(k, a, b),
    ensures
        stripped_member(k, b, b),
    decreases a, 1int,
{
    crate::json::lemma_json_same_refl(b);
    if k == "properties"@ {
        if let JsonValue::Object(ps) = a {
            lemma_stripped_props_idempotent(ps@, b->Object_0@);
        }
    } else if is_schema_key(k) {
        law_strip_idempotent(a, b);
    } else if is_schema_list_key(k) {
        if let JsonValue::Array(xs) = a {
            lemma_stripped_items_idempotent(xs@, b->Array_0@);
        }
    }
}

proof fn lemma_stripped_props_idempotent(ps: Seq<JsonEntry>, qs: Seq<JsonEntry>)
    requires
        stripped_props(ps, qs),
    ensures
        stripped_props(qs, qs),
    decreases ps, 0int,
{
    if ps.len() > 0 {
        law_strip_idempotent(ps.last().value, qs.last().value);
        lemma_stripped_props_idempotent(ps.drop_last(), qs.drop_last());
    }
}

proof fn lemma_stripped_items_idempotent(xs: Seq<JsonValue>, ys: Seq<JsonValue>)
    requires
        stripped_items(xs, ys),
    ensures
        stripped_items(ys, ys),
    decreases xs, 0int,
{
    if xs.len() > 0 {
        law_strip_idempotent(xs.last(), ys.last());
        lemma_stripped_items_idempotent(xs.drop_last(), ys.drop_last());
    }
}

/// A copy of a value with its meta members stripped (see `stripped`).
pub fn stripped_copy(v: &JsonValue) -> (r: JsonValue)
    ensures
        stripped(*v, r),
    decreases v, 0int,
{
    match v {
        JsonValue::Object(es) => {
            proof {
                assert(decreases_to!(*v => (*v)->Object_0));
                assert(decreases_to!(*es => es@));
            }
            JsonValue::Object(stripped_entries_copy(es))
        },
        JsonValue::Array(xs) => {
            proof {
                assert(decreases_to!(*v => (*v)->Array_0));
                assert(decreases_to!(*xs => xs@));
            }
            JsonValue::Array(stripped_items_copy(xs))
        },
        _ => json_clone(v),
    }
}

fn stripped_entries_copy(es: &Vec<JsonEntry>) -> (r: Vec<JsonEntry>)
    ensures
        stripped_entries(es@, r@),
    decreases es@, 1int,
{
    let n = es.len();
    let mut out: Vec<JsonEntry> = Vec::new();
    let mut i: usize = 0;
    while i < n
        invariant
            n == es@.len(),
            i <= n,
            stripped_entries(es@.take(i as int), out@),
        decreases n - i,
    {
        proof {
            assert(es@.take(i + 1).drop_last() =~= es@.take(i as int));
            assert(es@.take(i + 1).last() == es@[i as int]);
            assert(decreases_to!(es@ => es@[i as int]));
            assert(decreases_to!(es@[i as int] => es@[i as int].value));
        }
        let e = &es[i];
        if !meta_key(e.key.as_str()) {
            let value = stripped_member_copy(e.key.as_str(), &e.value);
            let ghost before = out@;
            out.push(JsonEntry { key: e.key.clone(), value });
            assert(out@.drop_last() =~= before);
        }
        i = i + 1;
    }
    assert(es@.take(n as int) =~= es@);
    out
}

fn stripped_member_copy(k: &str, a: &JsonValue) -> (r: JsonValue)
    ensures
        stripped_member(k@, *a, r),
    decreases a, 1int,
{
    if str_equal(k, "properties") {
        match a {
            JsonValue::Object(ps) => {
                proof {
                    assert(decreases_to!(*a => (*a)->Object_0));
                    assert(decreases_to!(*ps => ps@));
                }
                JsonValue::Object(stripped_props_copy(ps))
            },
            _ => json_clone(a),
        }
    } else if schema_key(k) {
        stripped_copy(a)
    } else if schema_list_key(k) {
        match a {
            JsonValue::Array(xs) => {
                proof {
                    assert(decreases_to!(*a => (*a)->Array_0));
                    assert(decreases_to!(*xs => xs@));
                }
                JsonValue::Array(stripped_items_copy(xs))
            },
            _ => json_clone(a),
        }
    } else {
        json_clone(a)
    }
}

fn stripped_props_copy(ps: &Vec<JsonEntry>) -> (r: Vec<JsonEntry>)
    ensures
        stripped_props(ps@, r@),
    decreases ps@, 1int,
{
    let n = ps.len();
    let mut out: Vec<JsonEntry> = Vec::new();
    let mut i: usize = 0;
    while i < n
        invariant
            n == ps@.len(),
            i <= n,
            out@.len() == i,
            stripped_props(ps@.take(i as int), out@),
        decreases n - i,
    {
        proof {
            assert(ps@.take(i + 1).drop_last() =~= ps@.take(i as int));
            assert(ps@.take(i + 1).last() == ps@[i as int]);
            assert(decreases_to!(ps@ => ps@[i as int]));
            assert(decreases_to!(ps@[i as int] => ps@[i as int].value));
        }
        let e = &ps[i];
        let value = stripped_copy(&e.value);
        let ghost before = out@;
        out.push(JsonEntry { key: e.key.clone(), value });
        assert(out@.drop_last() =~= before);
        i = i + 1;
    }
    assert(ps@.take(n as int) =~= ps@);
    out
}

fn stripped_items_copy(xs: &Vec<JsonValue>) -> (r: Vec<JsonValue>)
    ensures
        stripped_items(xs@, r@),
    decreases xs@, 1int,
{
    let n = xs.len();
    let mut out: Vec<JsonValue> = Vec::new();
    let mut i: usize = 0;
    while i < n
        invariant
            n == xs@.len(),
            i <= n,
            out@.len() == i,
            stripped_items(xs@.take(i as int), out@),
        decreases n - i,
    {
        proof {
            assert(xs@.take(i + 1).drop_last() =~= xs@.take(i as int));
            assert(xs@.take(i + 1).last() == xs@[i as int]);
            assert(decreases_to!(xs@ => xs@[i as int]));
        }
        let value = stripped_copy(&xs[i]);
        let ghost before = out@;
        out.push(value);
        assert(out@.drop_last() =~= before);
        i = i + 1;
    }
    assert(xs@.take(n as int) =~= xs@);
    out
}

/// Removes the meta members of every schema node (see `stripped`).
pub fn strip_provider_meta_fields(value: &mut JsonValue)
    ensures
        stripped(*old(value), *final(value)),
{
    let out = stripped_copy(value);
    *value = out;
}

// ---------------------------------------------------------------------------------------------
// Closing objects
// ---------------------------------------------------------------------------------------------

/// The JSON type of a value, as a schema names it.
pub open spec fn json_kind(c: JsonValue) -> Seq<char> {
    match c {
        JsonValue::Str(_) => "string"@,
        JsonValue::Int(_) => "number"@,
        JsonValue::Decimal(_) => "number"@,
        JsonValue::Bool(_) => "boolean"@,
        JsonValue::Array(_) => "array"@,
        JsonValue::Object(_) => "object"@,
        JsonValue::Null => "null"@,
    }
}

/// The type a schema node is given: none where it has a `type` member; else that of its
/// `const` member, where it has one.
pub open spec fn inferred_type(es: Seq<JsonEntry>) -> Option<Seq<char>> {
    match entries_lookup(es, "type"@) {
        Some(_) => None,
        None => match entries_lookup(es, "const"@) {
            Some(c) => Some(json_kind(c)),
            None => None,
        },
    }
}

/// The type text of a schema node once its type is inferred.
pub open spec fn node_type(es: Seq<JsonEntry>) -> Option<Seq<char>> {
    match entries_lookup(es, "type"@) {
        Some(t) => crate::json::json_str(t),
        None => inferred_type(es),
    }
}

/// A schema node that describes an object: its type is `object`, or it has properties and no
/// reference.
pub open spec fn is_object_node(es: Seq<JsonEntry>) -> bool {
    node_type(es) == Some("object"@) || (entries_lookup(es, "properties"@) is Some && entries_lookup(es, "$ref"@) is None)
}

/// The names of a node's properties, in order, where they form an object.
pub open spec fn property_names(es: Seq<JsonEntry>) -> Option<Seq<Seq<char>>> {
    match entries_lookup(es, "properties"@) {
        Some(JsonValue::Object(ps)) => Some(ps@.map_values(|e: JsonEntry| e.key@)),
        _ => None,
    }
}

/// The members a closed node gains at its end: its inferred type, `additionalProperties`
/// false and its required property names, each only where the node lacks the member.
pub open spec fn added_keys(es: Seq<JsonEntry>) -> Seq<Seq<char>> {
    (if inferred_type(es) is Some { seq!["type"@] } else { seq![] }) + (if is_object_node(es) && entries_lookup(
        es,
        "additionalProperties"@,
    ) is None {
        seq!["additionalProperties"@]
    } else {
        seq![]
    }) + (if is_object_node(es) && property_names(es) is Some && entries_lookup(es, "required"@) is None {
        seq!["required"@]
    } else {
        seq![]
    })
}

/// The value a closed node gives a member it gains or resets.
pub open spec fn closing_value(es: Seq<JsonEntry>, k: Seq<char>, v: JsonValue) -> bool {
    if k == "type"@ {
        crate::json::json_str(v) == inferred_type(es)
    } else if k == "additionalProperties"@ {
        v == JsonValue::Bool(false)
    } else {
        v matches JsonValue::Array(items) && items@.len() == property_names(es)->0.len() && crate::semantic_brief::strings_in(
            items@,
        ) == property_names(es)->0
    }
}

/// `b` is `a` with every schema node closed: a node without a type takes that of its `const`
/// value; a node describing an object gets `additionalProperties` false and, where its
/// properties form an object, all their names as `required` (members it already has are
/// reset in place, the others are added at its end, in that order); then each property
/// schema, the sub-schema under `items`, `additionalProperties` and `patternProperties`, and
/// each sub-schema of `allOf`, `anyOf`, `oneOf` and `prefixItems` is closed in turn. In an
/// array, each item is closed. Other values stay as they are.
pub open spec fn closed(a: JsonValue, b: JsonValue) -> bool
    decreases a, 0int,
{
    match a {
        JsonValue::Object(es) => b matches JsonValue::Object(bs) && {
            let keep = es@.len();
            let added = added_keys(es@);
            &&& bs@.len() == keep + added.len()
            &&& closed_entries(
                is_object_node(es@),
                property_names(es@),
                es@,
                bs@.take(keep as int),
            )
            &&& forall|i: int|
                0 <= i < added.len() ==> (#[trigger] bs@[keep + i]).key@ == added[i] && closing_value(
                    es@,
                    added[i],
                    bs@[keep + i].value,
                )
        },
        JsonValue::Array(xs) => b matches JsonValue::Array(ys) && closed_items(xs@, ys@),
        _ => json_same(b, a),
    }
}

/// The members of a closed object, in order.
pub open spec fn closed_entries(
    object_node: bool,
    names: Option<Seq<Seq<char>>>,
    es: Seq<JsonEntry>,
    bs: Seq<JsonEntry>,
) -> bool
    decreases es, 0int,
{
    if es.len() == 0 {
        bs.len() == 0
    } else {
        &&& bs.len() == es.len()
        &&& bs.last().key@ == es.last().key@
        &&& closed_member(object_node, names, es.last().key@, es.last().value, bs.last().value)
        &&& closed_entries(object_node, names, es.drop_last(), bs.drop_last())
    }
}

/// A member of a closed object.
pub open spec fn closed_member(object_node: bool, names: Option<Seq<Seq<char>>>, k: Seq<char>, a: JsonValue, b: JsonValue) -> bool
    decreases a, 1int,
{
    if object_node && k == "additionalProperties"@ {
        b == JsonValue::Bool(false)
    } else if object_node && names is Some && k == "required"@ {
        b matches JsonValue::Array(items) && items@.len() == names->0.len() && crate::semantic_brief::strings_in(items@)
            == names->0
    } else if k == "properties"@ {
        match a {
            JsonValue::Object(ps) => b matches JsonValue::Object(qs) && closed_props(ps@, qs@),
            _ => json_same(b, a),
        }
    } else if is_schema_key(k) {
        closed(a, b)
    } else if is_schema_list_key(k) {
        match a {
            JsonValue::Array(xs) => b matches JsonValue::Array(ys) && closed_items(xs@, ys@),
            _ => json_same(b, a),
        }
    } else {
        json_same(b, a)
    }
}

/// The properties of a closed object: the same names, each schema closed.
pub open spec fn closed_props(ps: Seq<JsonEntry>, qs: Seq<JsonEntry>) -> bool
    decreases ps, 0int,
{
    if ps.len() == 0 {
        qs.len() == 0
    } else {
        &&& qs.len() > 0
        &&& qs.last().key@ == ps.last().key@
        &&& closed(ps.last().value, qs.last().value)
        &&& closed_props(ps.drop_last(), qs.drop_last())
    }
}

/// The items of a closed list, each closed.
pub open spec fn closed_items(xs: Seq<JsonValue>, ys: Seq<JsonValue>) -> bool
    decreases xs, 0int,
{
    if xs.len() == 0 {
        ys.len() == 0
    } else {
        &&& ys.len() > 0
        &&& closed(xs.last(), ys.last())
        &&& closed_items(xs.drop_last(), ys.drop_last())
    }
}

fn json_kind_of(c: &JsonValue) -> (r: &'static str)
    ensures
        r@ == json_kind(*c),
{
    match c {
        JsonValue::Str(_) => "string",
        JsonValue::Int(_) => "number",
        JsonValue::Decimal(_) => "number",
        JsonValue::Bool(_) => "boolean",
        JsonValue::Array(_) => "array",
        JsonValue::Object(_) => "object",
        JsonValue::Null => "null",
    }
}

fn names_json(ps: &Vec<JsonEntry>) -> (r: JsonValue)
    ensures
        r matches JsonValue::Array(items) && items@.len() == ps@.len() && crate::semantic_brief::strings_in(items@)
            == ps@.map_values(|e: JsonEntry| e.key@),
{
    let n = ps.len();
    let mut out: Vec<JsonValue> = Vec::new();
    let mut i: usize = 0;
    while i < n
        invariant
            n == ps@.len(),
            i <= n,
            out@.len() == i,
            crate::semantic_brief::strings_in(out@) == ps@.take(i as int).map_values(|e: JsonEntry| e.key@),
        decreases n - i,
    {
        let ghost before = out@;
        out.push(JsonValue::Str(ps[i].key.clone()));
        proof {
            assert(out@.drop_last() =~= before);
            assert(ps@.take(i + 1).map_values(|e: JsonEntry| e.key@) =~= ps@.take(i as int).map_values(|e: JsonEntry| e.key@).push(
                ps@[i as int].key@,
            ));
        }
        i = i + 1;
    }
    assert(ps@.take(n as int) =~= ps@);
    JsonValue::Array(out)
}

/// A copy of a value with every schema node closed (see `closed`).
pub fn closed_copy(v: &JsonValue) -> (r: JsonValue)
    ensures
        closed(*v, r),
    decreases v, 0int,
{
    match v {
        JsonValue::Object(es) => {
            proof {
                assert(decreases_to!(*v => (*v)->Object_0));
                assert(decreases_to!(*es => es@));
            }
            let type_member = crate::json::lookup_entry(es, "type");
            let const_member = crate::json::lookup_entry(es, "const");
            let inferred: Option<&'static str> = match type_member {
                Some(_) => None,
                None => match const_member {
                    Some(c) => Some(json_kind_of(c)),
                    None => None,
                },
            };
            let type_is_object = match type_member {
                Some(t) => match t.as_str() {
                    Some(x) => str_equal(x, "object"),
                    None => false,
                },
                None => match inferred {
                    Some(x) => str_equal(x, "object"),
                    None => false,
                },
            };
            let properties = crate::json::lookup_entry(es, "properties");
            let object_node = type_is_object || (properties.is_some() && crate::json::lookup_entry(es, "$ref").is_none());
            let names: Option<JsonValue> = match properties {
                Some(JsonValue::Object(ps)) => Some(names_json(ps)),
                _ => None,
            };
            let ghost pn = property_names(es@);
            assert(object_node == is_object_node(es@));
            assert(names is Some == pn is Some);
            let mut out = closed_entries_copy(object_node, &names, es);
            let ghost kept = out@;
            let n = es.len();
            proof {
                reveal_strlit("type");
                reveal_strlit("additionalProperties");
                reveal_strlit("required");
            }
            let add_type = inferred.is_some();
            let add_closed = object_node && crate::json::lookup_entry(es, "additionalProperties").is_none();
            let add_required = object_node && crate::json::lookup_entry(es, "required").is_none() && names.is_some();
            assert(inferred is Some == inferred_type(es@) is Some);
            assert(inferred is Some ==> inferred->0@ == inferred_type(es@)->0);
            assert(names matches Some(JsonValue::Array(items)) ==> items@.len() == pn->0.len() && crate::semantic_brief::strings_in(
                items@,
            ) == pn->0);
            assert(names is Some ==> names->0 is Array);
            proof {
                reveal_strlit("type");
                reveal_strlit("additionalProperties");
                reveal_strlit("required");
            }
            let ghost k0 = out@.len();
            if let Some(t) = inferred {
                let tv = JsonValue::Str(t.to_owned());
                assert(crate::json::json_str(tv) == inferred_type(es@));
                out.push(JsonEntry { key: "type".to_owned(), value: tv });
                assert(closing_value(es@, out@.last().key@, out@.last().value));
            }
            let ghost k1 = out@.len();
            let ghost o1 = out@;
            if add_closed {
                out.push(JsonEntry { key: "additionalProperties".to_owned(), value: JsonValue::Bool(false) });
                assert(out@.last().key@ == "additionalProperties"@);
                assert("additionalProperties"@ != "type"@);
                assert(out@.last().value == JsonValue::Bool(false));
                assert(closing_value(es@, out@.last().key@, out@.last().value));
            }
            let ghost k2 = out@.len();
            let ghost o2 = out@;
            if add_required {
                match names {
                    Some(list) => {
                        assert(list matches JsonValue::Array(items) && items@.len() == pn->0.len()
                            && crate::semantic_brief::strings_in(items@) == pn->0);
                        out.push(JsonEntry { key: "required".to_owned(), value: list });
                        assert(out@.last().key@ == "required"@);
                        assert("required"@ != "type"@ && "required"@ != "additionalProperties"@);
                        assert(closing_value(es@, out@.last().key@, out@.last().value));
                    },
                    None => {},
                }
            }
            proof {
                let added = added_keys(es@);
                assert(out@.take(n as int) =~= kept);
                assert(k0 == n);
                assert(o1.take(k0 as int) =~= kept);
                assert(out@.len() == n + added.len());
                assert forall|i: int| 0 <= i < added.len() implies (#[trigger] out@[n + i]).key@ == added[i] && closing_value(
                    es@,
                    added[i],
                    out@[n + i].value,
                ) by {
                    if add_type && i == 0 {
                        assert(out@[n + i] == o1[n + i]);
                        assert(o1[n + i] == o1.last());
                    } else if add_closed && n + i == k1 {
                        assert(out@[n + i] == o2[n + i]);
                        assert(o2[n + i] == o2.last());
                    } else {
                        assert(n + i == k2);
                        assert(out@[n + i] == out@.last());
                    }
                }
            }
            JsonValue::Object(out)
        },
        JsonValue::Array(xs) => {
            proof {
                assert(decreases_to!(*v => (*v)->Array_0));
                assert(decreases_to!(*xs => xs@));
            }
            JsonValue::Array(closed_items_copy(xs))
        },
        _ => json_clone(v),
    }
}

fn closed_entries_copy(object_node: bool, names: &Option<JsonValue>, es: &Vec<JsonEntry>) -> (r: Vec<JsonEntry>)
    requires
        names matches Some(JsonValue::Array(items)) ==> items@.len() == crate::semantic_brief::strings_in(items@).len(),
    ensures
        r@.len() == es@.len(),
        closed_entries(
            object_node,
            match names {
                Some(JsonValue::Array(items)) => Some(crate::semantic_brief::strings_in(items@)),
                _ => None,
            },
            es@,
            r@,
        ),
    decreases es@, 1int,
{
    let ghost nm = match names {
        Some(JsonValue::Array(items)) => Some(crate::semantic_brief::strings_in(items@)),
        _ => None,
    };
    let n = es.len();
    let mut out: Vec<JsonEntry> = Vec::new();
    let mut i: usize = 0;
    while i < n
        invariant
            n == es@.len(),
            i <= n,
            out@.len() == i,
            nm == match names {
                Some(JsonValue::Array(items)) => Some(crate::semantic_brief::strings_in(items@)),
                _ => None,
            },
            names matches Some(JsonValue::Array(items)) ==> items@.len() == crate::semantic_brief::strings_in(items@).len(),
            closed_entries(object_node, nm, es@.take(i as int), out@),
        decreases n - i,
    {
        proof {
            assert(es@.take(i + 1).drop_last() =~= es@.take(i as int));
            assert(es@.take(i + 1).last() == es@[i as int]);
            assert(decreases_to!(es@ => es@[i as int]));
            assert(decreases_to!(es@[i as int] => es@[i as int].value));
        }
        let e = &es[i];
        let value = closed_member_copy(object_node, names, e.key.as_str(), &e.value);
        let ghost before = out@;
        out.push(JsonEntry { key: e.key.clone(), value });
        assert(out@.drop_last() =~= before);
        i = i + 1;
    }
    assert(es@.take(n as int) =~= es@);
    out
}

fn closed_member_copy(object_node: bool, names: &Option<JsonValue>, k: &str, a: &JsonValue) -> (r: JsonValue)
    requires
        names matches Some(JsonValue::Array(items)) ==> items@.len() == crate::semantic_brief::strings_in(items@).len(),
    ensures
        closed_member(
            object_node,
            match names {
                Some(JsonValue::Array(items)) => Some(crate::semantic_brief::strings_in(items@)),
                _ => None,
            },
            k@,
            *a,
            r,
        ),
    decreases a, 1int,
{
    if object_node && str_equal(k, "additionalProperties") {
        return JsonValue::Bool(false);
    }
    if object_node && str_equal(k, "required") {
        match names {
            Some(JsonValue::Array(items)) => {
                return JsonValue::Array(clone_items(items));
            },
            _ => {},
        }
    }
    if str_equal(k, "properties") {
        match a {
            JsonValue::Object(ps) => {
                proof {
                    assert(decreases_to!(*a => (*a)->Object_0));
                    assert(decreases_to!(*ps => ps@));
                }
                JsonValue::Object(closed_props_copy(ps))
            },
            _ => json_clone(a),
        }
    } else if schema_key(k) {
        closed_copy(a)
    } else if schema_list_key(k) {
        match a {
            JsonValue::Array(xs) => {
                proof {
                    assert(decreases_to!(*a => (*a)->Array_0));
                    assert(decreases_to!(*xs => xs@));
                }
                JsonValue::Array(closed_items_copy(xs))
            },
            _ => json_clone(a),
        }
    } else {
        json_clone(a)
    }
}

/// Copies of the string items of a list of strings.
fn clone_items(items: &Vec<JsonValue>) -> (r: Vec<JsonValue>)
    requires
        items@.len() == crate::semantic_brief::strings_in(items@).len(),
    ensures
        r@.len() == items@.len(),
        crate::semantic_brief::strings_in(r@) == crate::semantic_brief::strings_in(items@),
{
    let n = items.len();
    let mut out: Vec<JsonValue> = Vec::new();
    let mut i: usize = 0;
    while i < n
        invariant
            n == items@.len(),
            i <= n,
            out@.len() == i,
            crate::semantic_brief::strings_in(out@) == crate::semantic_brief::strings_in(items@.take(i as int)),
        decreases n - i,
    {
        let ghost before = out@;
        out.push(json_clone(&items[i]));
        proof {
            assert(out@.drop_last() =~= before);
            assert(items@.take(i + 1).drop_last() =~= items@.take(i as int));
            assert(items@.take(i + 1).last() == items@[i as int]);
            crate::period_brief::lemma_same_str_pub(items@[i as int], out@[i as int]);
        }
        i = i + 1;
    }
    assert(items@.take(n as int) =~= items@);
    out
}

fn closed_props_copy(ps: &Vec<JsonEntry>) -> (r: Vec<JsonEntry>)
    ensures
        closed_props(ps@, r@),
    decreases ps@, 1int,
{
    let n = ps.len();
    let mut out: Vec<JsonEntry> = Vec::new();
    let mut i: usize = 0;
    while i < n
        invariant
            n == ps@.len(),
            i <= n,
            out@.len() == i,
            closed_props(ps@.take(i as int), out@),
        decreases n - i,
    {
        proof {
            assert(ps@.take(i + 1).drop_last() =~= ps@.take(i as int));
            assert(ps@.take(i + 1).last() == ps@[i as int]);
            assert(decreases_to!(ps@ => ps@[i as int]));
            assert(decreases_to!(ps@[i as int] => ps@[i as int].value));
        }
        let e = &ps[i];
        let value = closed_copy(&e.value);
        let ghost before = out@;
        out.push(JsonEntry { key: e.key.clone(), value });
        assert(out@.drop_last() =~= before);
        i = i + 1;
    }
    assert(ps@.take(n as int) =~= ps@);
    out
}

fn closed_items_copy(xs: &Vec<JsonValue>) -> (r: Vec<JsonValue>)
    ensures
        closed_items(xs@, r@),
    decreases xs@, 1int,
{
    let n = xs.len();
    let mut out: Vec<JsonValue> = Vec::new();
    let mut i: usize = 0;
    while i < n
        invariant
            n == xs@.len(),
            i <= n,
            out@.len() == i,
            closed_items(xs@.take(i as int), out@),
        decreases n - i,
    {
        proof {
            assert(xs@.take(i + 1).drop_last() =~= xs@.take(i as int));
            assert(xs@.take(i + 1).last() == xs@[i as int]);
            assert(decreases_to!(xs@ => xs@[i as int]));
        }
        let value = closed_copy(&xs[i]);
        let ghost before = out@;
        out.push(value);
        assert(out@.drop_last() =~= before);
        i = i + 1;
    }
    assert(xs@.take(n as int) =~= xs@);
    out
}

/// Closes every schema node (see `closed`).
pub fn enforce_strict_object_rules(value: &mut JsonValue)
    ensures
        closed(*old(value), *final(value)),
{
    let out = closed_copy(value);
    *value = out;
}

// ---------------------------------------------------------------------------------------------
// Local definitions and references
// ---------------------------------------------------------------------------------------------

/// The members of an object member of a value (none where it is missing or no object).
pub open spec fn object_entries(v: JsonValue, key: Seq<char>) -> Seq<JsonEntry> {
    match json_get(v, key) {
        Some(JsonValue::Object(es)) => es@,
        _ => seq![],
    }
}

/// The local definitions of a schema: those under `definitions`, then those under `$defs`.
pub open spec fn defs_of(schema: JsonValue) -> Seq<JsonEntry> {
    object_entries(schema, "definitions"@) + object_entries(schema, "$defs"@)
}

/// The value of the last member with a name (so `$defs` wins over `definitions`).
pub open spec fn last_entry(es: Seq<JsonEntry>, name: Seq<char>) -> Option<JsonValue>
    decreases es.len(),
{
    if es.len() == 0 {
        None
    } else if es.last().key@ == name {
        Some(es.last().value)
    } else {
        last_entry(es.drop_last(), name)
    }
}

/// The name a local reference points to: what follows `#/definitions/` or `#/$defs/`.
pub open spec fn ref_name(r: Seq<char>) -> Option<Seq<char>> {
    if crate::text::starts_with(r, "#/definitions/"@) {
        Some(r.skip("#/definitions/"@.len() as int))
    } else if crate::text::starts_with(r, "#/$defs/"@) {
        Some(r.skip("#/$defs/"@.len() as int))
    } else {
        None
    }
}

/// The definition a schema node's `$ref` resolves to, with its name.
pub open spec fn resolved(es: Seq<JsonEntry>, schema: JsonValue) -> Option<(Seq<char>, JsonValue)> {
    match entries_lookup(es, "$ref"@) {
        Some(JsonValue::Str(r)) => match ref_name(r@) {
            Some(n) => match last_entry(defs_of(schema), n) {
                Some(d) => Some((n, d)),
                None => None,
            },
            None => None,
        },
        _ => None,
    }
}

/// The larger of two numbers.
pub open spec fn nat_max(a: nat, b: nat) -> nat {
    if a < b {
        b
    } else {
        a
    }
}

/// One more than the highest rank of a definition that a value refers to where references
/// are followed (0 where it refers to none).
pub open spec fn ref_bound(v: JsonValue, schema: JsonValue, rank: spec_fn(Seq<char>) -> nat) -> nat
    decreases v, 0int,
{
    match v {
        JsonValue::Object(es) => nat_max(
            match resolved(es@, schema) {
                Some((n, _)) => rank(n) + 1,
                None => 0,
            },
            entries_bound(es@, schema, rank),
        ),
        JsonValue::Array(xs) => items_bound(xs@, schema, rank),
        _ => 0,
    }
}

/// The bound of the members of a schema node.
pub open spec fn entries_bound(es: Seq<JsonEntry>, schema: JsonValue, rank: spec_fn(Seq<char>) -> nat) -> nat
    decreases es, 0int,
{
    if es.len() == 0 {
        0
    } else {
        nat_max(entries_bound(es.drop_last(), schema, rank), member_bound(es.last().key@, es.last().value, schema, rank))
    }
}

/// The bound of a member of a schema node.
pub open spec fn member_bound(k: Seq<char>, v: JsonValue, schema: JsonValue, rank: spec_fn(Seq<char>) -> nat) -> nat
    decreases v, 1int,
{
    if k == "properties"@ {
        match v {
            JsonValue::Object(ps) => props_bound(ps@, schema, rank),
            _ => 0,
        }
    } else if is_schema_key(k) {
        ref_bound(v, schema, rank)
    } else if is_schema_list_key(k) {
        match v {
            JsonValue::Array(xs) => items_bound(xs@, schema, rank),
            _ => 0,
        }
    } else {
        0
    }
}

/// The bound of the property schemas of a node.
pub open spec fn props_bound(ps: Seq<JsonEntry>, schema: JsonValue, rank: spec_fn(Seq<char>) -> nat) -> nat
    decreases ps, 0int,
{
    if ps.len() == 0 {
        0
    } else {
        nat_max(props_bound(ps.drop_last(), schema, rank), ref_bound(ps.last().value, schema, rank))
    }
}

/// The bound of a list of schemas.
pub open spec fn items_bound(xs: Seq<JsonValue>, schema: JsonValue, rank: spec_fn(Seq<char>) -> nat) -> nat
    decreases xs, 0int,
{
    if xs.len() == 0 {
        0
    } else {
        nat_max(items_bound(xs.drop_last(), schema, rank), ref_bound(xs.last(), schema, rank))
    }
}

/// The local definitions refer to each other without a cycle under a rank: the definition of
/// each name only refers to definitions of lower rank.
pub open spec fn acyclic_under(schema: JsonValue, rank: spec_fn(Seq<char>) -> nat) -> bool {
    forall|n: Seq<char>|
        #[trigger] last_entry(defs_of(schema), n) matches Some(d) ==> ref_bound(d, schema, rank) <= rank(n)
}

/// The local definitions refer to each other without a cycle.
pub open spec fn acyclic_definitions(schema: JsonValue) -> bool {
    exists|rank: spec_fn(Seq<char>) -> nat| acyclic_under(schema, rank)
}

/// `b` is `a` with its local references inlined: a schema node whose `$ref` names a local
/// definition is replaced by that definition, itself inlined; otherwise each property schema
/// under `properties`, the sub-schema under `items`, `additionalProperties` and
/// `patternProperties`, and each sub-schema of `allOf`, `anyOf`, `oneOf` and `prefixItems` is
/// inlined in turn, other members staying as they are. In an array, each item is inlined.
/// Other values stay as they are.
pub open spec fn inlined(a: JsonValue, b: JsonValue, schema: JsonValue, rank: spec_fn(Seq<char>) -> nat) -> bool
    decreases ref_bound(a, schema, rank), a, 0int
    when acyclic_under(schema, rank)
{
    match a {
        JsonValue::Object(es) => match resolved(es@, schema) {
            Some((n, d)) => {
                proof {
                    assert(last_entry(defs_of(schema), n) == Some(d));
                }
                inlined(d, b, schema, rank)
            },
            None => b matches JsonValue::Object(bs) && inlined_entries(es@, bs@, schema, rank),
        },
        JsonValue::Array(xs) => b matches JsonValue::Array(ys) && inlined_items(xs@, ys@, schema, rank),
        _ => json_same(b, a),
    }
}

/// The members of an inlined node, in order.
pub open spec fn inlined_entries(es: Seq<JsonEntry>, bs: Seq<JsonEntry>, schema: JsonValue, rank: spec_fn(Seq<char>) -> nat) -> bool
    decreases entries_bound(es, schema, rank), es, 0int
    when acyclic_under(schema, rank)
{
    if es.len() == 0 {
        bs.len() == 0
    } else {
        &&& bs.len() == es.len()
        &&& bs.last().key@ == es.last().key@
        &&& inlined_member(es.last().key@, es.last().value, bs.last().value, schema, rank)
        &&& inlined_entries(es.drop_last(), bs.drop_last(), schema, rank)
    }
}

/// A member of an inlined node.
pub open spec fn inlined_member(k: Seq<char>, a: JsonValue, b: JsonValue, schema: JsonValue, rank: spec_fn(Seq<char>) -> nat) -> bool
    decreases member_bound(k, a, schema, rank), a, 1int
    when acyclic_under(schema, rank)
{
    if k == "properties"@ {
        match a {
            JsonValue::Object(ps) => b matches JsonValue::Object(qs) && inlined_props(ps@, qs@, schema, rank),
            _ => json_same(b, a),
        }
    } else if is_schema_key(k) {
        inlined(a, b, schema, rank)
    } else if is_schema_list_key(k) {
        match a {
            JsonValue::Array(xs) => b matches JsonValue::Array(ys) && inlined_items(xs@, ys@, schema, rank),
            _ => json_same(b, a),
        }
    } else {
        json_same(b, a)
    }
}

/// The properties of an inlined node: the same names, each schema inlined.
pub open spec fn inlined_props(ps: Seq<JsonEntry>, qs: Seq<JsonEntry>, schema: JsonValue, rank: spec_fn(Seq<char>) -> nat) -> bool
    decreases props_bound(ps, schema, rank), ps, 0int
    when acyclic_under(schema, rank)
{
    if ps.len() == 0 {
        qs.len() == 0
    } else {
        &&& qs.len() == ps.len()
        &&& qs.last().key@ == ps.last().key@
        &&& inlined(ps.last().value, qs.last().value, schema, rank)
        &&& inlined_props(ps.drop_last(), qs.drop_last(), schema, rank)
    }
}

/// The items of an inlined list, each inlined.
pub open spec fn inlined_items(xs: Seq<JsonValue>, ys: Seq<JsonValue>, schema: JsonValue, rank: spec_fn(Seq<char>) -> nat) -> bool
    decreases items_bound(xs, schema, rank), xs, 0int
    when acyclic_under(schema, rank)
{
    if xs.len() == 0 {
        ys.len() == 0
    } else {
        &&& ys.len() == xs.len()
        &&& inlined(xs.last(), ys.last(), schema, rank)
        &&& inlined_items(xs.drop_last(), ys.drop_last(), schema, rank)
    }
}

proof fn lemma_entries_bound_ge(es: Seq<JsonEntry>, i: int, schema: JsonValue, rank: spec_fn(Seq<char>) -> nat)
    requires
        0 <= i < es.len(),
    ensures
        member_bound(es[i].key@, es[i].value, schema, rank) <= entries_bound(es, schema, rank),
    decreases es.len(),
{
    if i < es.len() - 1 {
        assert(es.drop_last()[i] == es[i]);
        lemma_entries_bound_ge(es.drop_last(), i, schema, rank);
    }
}

proof fn lemma_props_bound_ge(ps: Seq<JsonEntry>, i: int, schema: JsonValue, rank: spec_fn(Seq<char>) -> nat)
    requires
        0 <= i < ps.len(),
    ensures
        ref_bound(ps[i].value, schema, rank) <= props_bound(ps, schema, rank),
    decreases ps.len(),
{
    if i < ps.len() - 1 {
        assert(ps.drop_last()[i] == ps[i]);
        lemma_props_bound_ge(ps.drop_last(), i, schema, rank);
    }
}

proof fn lemma_items_bound_ge(xs: Seq<JsonValue>, i: int, schema: JsonValue, rank: spec_fn(Seq<char>) -> nat)
    requires
        0 <= i < xs.len(),
    ensures
        ref_bound(xs[i], schema, rank) <= items_bound(xs, schema, rank),
    decreases xs.len(),
{
    if i < xs.len() - 1 {
        assert(xs.drop_last()[i] == xs[i]);
        lemma_items_bound_ge(xs.drop_last(), i, schema, rank);
    }
}

proof fn lemma_last_entry_concat(a: Seq<JsonEntry>, b: Seq<JsonEntry>, name: Seq<char>)
    ensures
        last_entry(a + b, name) == match last_entry(b, name) {
            Some(d) => Some(d),
            None => last_entry(a, name),
        },
    decreases b.len(),
{
    if b.len() == 0 {
        assert(a + b =~= a);
    } else {
        assert((a + b).drop_last() =~= a + b.drop_last());
        assert((a + b).last() == b.last());
        lemma_last_entry_concat(a, b.drop_last(), name);
    }
}

/// The value of the last member with a name.
fn last_entry_of<'a>(es: &'a Vec<JsonEntry>, name: &str) -> (r: Option<&'a JsonValue>)
    ensures
        crate::json::opt_deref(r) == last_entry(es@, name@),
{
    let mut i: usize = es.len();
    proof {
        assert(es@.take(i as int) =~= es@);
    }
    while i > 0
        invariant
            i <= es@.len(),
            last_entry(es@.take(i as int), name@) == last_entry(es@, name@),
        decreases i,
    {
        proof {
            assert(es@.take(i as int).last() == es@[i - 1]);
            assert(es@.take(i as int).drop_last() =~= es@.take(i - 1));
        }
        if str_equal(es[i - 1].key.as_str(), name) {
            return Some(&es[i - 1].value);
        }
        i = i - 1;
    }
    None
}

/// The members of an object member of a value.
fn object_entries_of<'a>(v: &'a JsonValue, key: &str) -> (r: Option<&'a Vec<JsonEntry>>)
    ensures
        match r {
            Some(es) => object_entries(*v, key@) == es@,
            None => object_entries(*v, key@) == Seq::<JsonEntry>::empty(),
        },
{
    match v.get(key) {
        Some(JsonValue::Object(es)) => Some(es),
        _ => None,
    }
}

/// The local definition of a name: the last one under `$defs`, else the last one under
/// `definitions`.
fn definition_of<'a>(schema: &'a JsonValue, name: &str) -> (r: Option<&'a JsonValue>)
    ensures
        crate::json::opt_deref(r) == last_entry(defs_of(*schema), name@),
{
    proof {
        lemma_last_entry_concat(object_entries(*schema, "definitions"@), object_entries(*schema, "$defs"@), name@);
    }
    match object_entries_of(schema, "$defs") {
        Some(es) => match last_entry_of(es, name) {
            Some(d) => {
                return Some(d);
            },
            None => {},
        },
        None => {},
    }
    match object_entries_of(schema, "definitions") {
        Some(es) => last_entry_of(es, name),
        None => None,
    }
}

/// The name a local reference points to (see `ref_name`).
pub fn definition_name_from_ref(reference: &str) -> (r: Option<String>)
    ensures
        match r {
            Some(n) => ref_name(reference@) == Some(n@),
            None => ref_name(reference@) is None,
        },
{
    let cs = chars_of(reference);
    let start: usize = if crate::text::str_starts_with(reference, "#/definitions/") {
        proof {
            reveal_strlit("#/definitions/");
        }
        14
    } else if crate::text::str_starts_with(reference, "#/$defs/") {
        proof {
            reveal_strlit("#/$defs/");
        }
        8
    } else {
        return None;
    };
    let mut rest: Vec<char> = Vec::new();
    let mut k: usize = start;
    while k < cs.len()
        invariant
            cs@ == reference@,
            start <= k <= cs@.len(),
            rest@ == cs@.subrange(start as int, k as int),
        decreases cs@.len() - k,
    {
        rest.push(cs[k]);
        assert(rest@ =~= cs@.subrange(start as int, k + 1));
        k = k + 1;
    }
    assert(cs@.subrange(start as int, cs@.len() as int) =~= cs@.skip(start as int));
    Some(crate::text::string_from_chars(rest.as_slice()))
}

/// A copy of a value with its local references inlined (see `inlined`).
fn inlined_copy(v: &JsonValue, schema: &JsonValue, Ghost(rank): Ghost<spec_fn(Seq<char>) -> nat>) -> (r: JsonValue)
    requires
        acyclic_under(*schema, rank),
    ensures
        inlined(*v, r, *schema, rank),
    decreases ref_bound(*v, *schema, rank), v, 0int,
{
    match v {
        JsonValue::Object(es) => {
            let target: Option<&JsonValue> = match crate::json::lookup_entry(es, "$ref") {
                Some(JsonValue::Str(reference)) => match definition_name_from_ref(reference.as_str()) {
                    Some(n) => definition_of(schema, n.as_str()),
                    None => None,
                },
                _ => None,
            };
            match target {
                Some(d) => {
                    proof {
                        let (n, dd) = resolved(es@, *schema)->0;
                        assert(dd == *d);
                        assert(last_entry(defs_of(*schema), n) == Some(dd));
                    }
                    inlined_copy(d, schema, Ghost(rank))
                },
                None => {
                    proof {
                        assert(resolved(es@, *schema) is None);
                        assert(decreases_to!(*v => (*v)->Object_0));
                        assert(decreases_to!(*es => es@));
                    }
                    JsonValue::Object(inlined_entries_copy(es, schema, Ghost(rank)))
                },
            }
        },
        JsonValue::Array(xs) => {
            proof {
                assert(decreases_to!(*v => (*v)->Array_0));
                assert(decreases_to!(*xs => xs@));
            }
            JsonValue::Array(inlined_items_copy(xs, schema, Ghost(rank)))
        },
        _ => json_clone(v),
    }
}

fn inlined_entries_copy(es: &Vec<JsonEntry>, schema: &JsonValue, Ghost(rank): Ghost<spec_fn(Seq<char>) -> nat>) -> (r: Vec<JsonEntry>)
    requires
        acyclic_under(*schema, rank),
    ensures
        inlined_entries(es@, r@, *schema, rank),
    decreases entries_bound(es@, *schema, rank), es@, 1int,
{
    let n = es.len();
    let mut out: Vec<JsonEntry> = Vec::new();
    let mut i: usize = 0;
    while i < n
        invariant
            n == es@.len(),
            i <= n,
            out@.len() == i,
            acyclic_under(*schema, rank),
            inlined_entries(es@.take(i as int), out@, *schema, rank),
        decreases n - i,
    {
        proof {
            assert(es@.take(i + 1).drop_last() =~= es@.take(i as int));
            assert(es@.take(i + 1).last() == es@[i as int]);
            assert(decreases_to!(es@ => es@[i as int]));
            assert(decreases_to!(es@[i as int] => es@[i as int].value));
            lemma_entries_bound_ge(es@, i as int, *schema, rank);
        }
        let e = &es[i];
        let value = inlined_member_copy(e.key.as_str(), &e.value, schema, Ghost(rank));
        let ghost before = out@;
        out.push(JsonEntry { key: e.key.clone(), value });
        assert(out@.drop_last() =~= before);
        i = i + 1;
    }
    assert(es@.take(n as int) =~= es@);
    out
}

fn inlined_member_copy(k: &str, a: &JsonValue, schema: &JsonValue, Ghost(rank): Ghost<spec_fn(Seq<char>) -> nat>) -> (r: JsonValue)
    requires
        acyclic_under(*schema, rank),
    ensures
        inlined_member(k@, *a, r, *schema, rank),
    decreases member_bound(k@, *a, *schema, rank), a, 1int,
{
    if str_equal(k, "properties") {
        match a {
            JsonValue::Object(ps) => {
                proof {
                    assert(decreases_to!(*a => (*a)->Object_0));
                    assert(decreases_to!(*ps => ps@));
                }
                JsonValue::Object(inlined_props_copy(ps, schema, Ghost(rank)))
            },
            _ => json_clone(a),
        }
    } else if schema_key(k) {
        inlined_copy(a, schema, Ghost(rank))
    } else if schema_list_key(k) {
        match a {
            JsonValue::Array(xs) => {
                proof {
                    assert(decreases_to!(*a => (*a)->Array_0));
                    assert(decreases_to!(*xs => xs@));
                }
                JsonValue::Array(inlined_items_copy(xs, schema, Ghost(rank)))
            },
            _ => json_clone(a),
        }
    } else {
        json_clone(a)
    }
}

fn inlined_props_copy(ps: &Vec<JsonEntry>, schema: &JsonValue, Ghost(rank): Ghost<spec_fn(Seq<char>) -> nat>) -> (r: Vec<JsonEntry>)
    requires
        acyclic_under(*schema, rank),
    ensures
        inlined_props(ps@, r@, *schema, rank),
    decreases props_bound(ps@, *schema, rank), ps@, 1int,
{
    let n = ps.len();
    let mut out: Vec<JsonEntry> = Vec::new();
    let mut i: usize = 0;
    while i < n
        invariant
            n == ps@.len(),
            i <= n,
            out@.len() == i,
            acyclic_under(*schema, rank),
            inlined_props(ps@.take(i as int), out@, *schema, rank),
        decreases n - i,
    {
        proof {
            assert(ps@.take(i + 1).drop_last() =~= ps@.take(i as int));
            assert(ps@.take(i + 1).last() == ps@[i as int]);
            assert(decreases_to!(ps@ => ps@[i as int]));
            assert(decreases_to!(ps@[i as int] => ps@[i as int].value));
            lemma_props_bound_ge(ps@, i as int, *schema, rank);
        }
        let e = &ps[i];
        let value = inlined_copy(&e.value, schema, Ghost(rank));
        let ghost before = out@;
        out.push(JsonEntry { key: e.key.clone(), value });
        assert(out@.drop_last() =~= before);
        i = i + 1;
    }
    assert(ps@.take(n as int) =~= ps@);
    out
}

fn inlined_items_copy(xs: &Vec<JsonValue>, schema: &JsonValue, Ghost(rank): Ghost<spec_fn(Seq<char>) -> nat>) -> (r: Vec<JsonValue>)
    requires
        acyclic_under(*schema, rank),
    ensures
        inlined_items(xs@, r@, *schema, rank),
    decreases items_bound(xs@, *schema, rank), xs@, 1int,
{
    let n = xs.len();
    let mut out: Vec<JsonValue> = Vec::new();
    let mut i: usize = 0;
    while i < n
        invariant
            n == xs@.len(),
            i <= n,
            out@.len() == i,
            acyclic_under(*schema, rank),
            inlined_items(xs@.take(i as int), out@, *schema, rank),
        decreases n - i,
    {
        proof {
            assert(xs@.take(i + 1).drop_last() =~= xs@.take(i as int));
            assert(xs@.take(i + 1).last() == xs@[i as int]);
            assert(decreases_to!(xs@ => xs@[i as int]));
            lemma_items_bound_ge(xs@, i as int, *schema, rank);
        }
        let value = inlined_copy(&xs[i], schema, Ghost(rank));
        let ghost before = out@;
        out.push(value);
        assert(out@.drop_last() =~= before);
        i = i + 1;
    }
    assert(xs@.take(n as int) =~= xs@);
    out
}

// ---------------------------------------------------------------------------------------------
// Strict schemas
// ---------------------------------------------------------------------------------------------

/// A rank under which the local definitions of a schema refer to each other without a cycle.
pub open spec fn definition_rank(schema: JsonValue) -> spec_fn(Seq<char>) -> nat {
    choose|rank: spec_fn(Seq<char>) -> nat| acyclic_under(schema, rank)
}

/// Inlines the local references of a value, the definitions read from `schema` (see
/// `inlined`). Definitions that refer to each other in a cycle would be inlined without end,
/// so they are left out.
pub fn inline_refs(value: &mut JsonValue, schema: &JsonValue)
    requires
        acyclic_definitions(*schema),
    ensures
        inlined(*old(value), *final(value), *schema, definition_rank(*schema)),
{
    let ghost rank = definition_rank(*schema);
    let out = inlined_copy(value, schema, Ghost(rank));
    *value = out;
}

/// `r` is the strict form of a schema: its local references inlined, then its meta members
/// stripped, then its objects closed.
pub open spec fn strict_schema(schema: JsonValue, r: JsonValue) -> bool {
    exists|m1: JsonValue, m2: JsonValue|
        #![trigger stripped(m1, m2)]
        inlined(schema, m1, schema, definition_rank(schema)) && stripped(m1, m2) && closed(m2, r)
}

/// The strict form of a schema (see `strict_schema`). A caller tests the requirement with
/// `definition_ranks`.
pub fn prepare_strict_json_schema(schema: &JsonValue) -> (r: JsonValue)
    requires
        acyclic_definitions(*schema),
    ensures
        strict_schema(*schema, r),
{
    let ghost rank = definition_rank(*schema);
    let inlined_schema = inlined_copy(schema, schema, Ghost(rank));
    let stripped_schema = stripped_copy(&inlined_schema);
    let r = closed_copy(&stripped_schema);
    assert(stripped(inlined_schema, stripped_schema));
    r
}

/// The schema of a constant text.
pub open spec fn const_text_schema(v: JsonValue, text: Seq<char>) -> bool {
    &&& v is Object
    &&& crate::json::field_str(v, "type"@) == Some("string"@)
    &&& crate::json::field_str(v, "const"@) == Some(text)
}

/// Pins the `code` property of a schema to a chapter code: where the schema has an object of
/// properties, its `code` member becomes a constant string schema; else nothing changes.
pub fn pin_chapter_code(schema: &mut JsonValue, chapter_code: &str)
    ensures
        match json_get(*old(schema), "properties"@) {
            Some(JsonValue::Object(_)) => {
                &&& *final(schema) is Object
                &&& forall|k: Seq<char>| k != "properties"@ ==> #[trigger] json_get(*final(schema), k) == json_get(*old(schema), k)
                &&& json_get(*final(schema), "properties"@) matches Some(p) && {
                    &&& p is Object
                    &&& json_get(p, "code"@) matches Some(c) && const_text_schema(c, chapter_code@)
                    &&& forall|k: Seq<char>|
                        k != "code"@ ==> #[trigger] json_get(p, k) == json_get(json_get(*old(schema), "properties"@)->0, k)
                }
            },
            _ => *final(schema) == *old(schema),
        },
{
    let is_object_props = match schema.get("properties") {
        Some(JsonValue::Object(_)) => true,
        _ => false,
    };
    if !is_object_props {
        return;
    }
    let ghost before = *schema;
    let taken = crate::json::take_member(schema, "properties");
    match taken {
        Some(mut props) => {
            let mut code = JsonValue::Null;
            crate::json::set_member(&mut code, "type", JsonValue::Str("string".to_owned()));
            crate::json::set_member(&mut code, "const", JsonValue::Str(chapter_code.to_owned()));
            proof {
                reveal_strlit("type");
                reveal_strlit("const");
                assert("type"@[0] != "const"@[0]);
            }
            crate::json::set_member(&mut props, "code", code);
            crate::json::set_member(schema, "properties", props);
        },
        None => {},
    }
}

/// The response format Mistral takes for a strict schema.
pub fn wrap_mistral_schema(schema: JsonValue) -> (r: JsonValue)
    ensures
        r is Object,
        crate::json::field_str(r, "type"@) == Some("json_schema"@),
        json_get(r, "json_schema"@) matches Some(j) && {
            &&& j is Object
            &&& crate::json::field_str(j, "name"@) == Some("structured_reading"@)
            &&& json_get(j, "schema"@) == Some(schema)
            &&& json_get(j, "strict"@) == Some(JsonValue::Bool(true))
        },
{
    let mut inner = JsonValue::Null;
    crate::json::set_member(&mut inner, "name", JsonValue::Str("structured_reading".to_owned()));
    crate::json::set_member(&mut inner, "schema", schema);
    crate::json::set_member(&mut inner, "strict", JsonValue::Bool(true));
    let mut r = JsonValue::Null;
    crate::json::set_member(&mut r, "type", JsonValue::Str("json_schema".to_owned()));
    crate::json::set_member(&mut r, "json_schema", inner);
    proof {
        reveal_strlit("name");
        reveal_strlit("schema");
        reveal_strlit("strict");
        reveal_strlit("type");
        reveal_strlit("json_schema");
        assert("name"@.len() != "schema"@.len() && "name"@.len() != "strict"@.len());
        assert("schema"@[1] != "strict"@[1]);
        assert("type"@.len() != "json_schema"@.len());
    }
    r
}

/// How a provider model takes a structured output.
#[derive(Clone, Copy, Debug, PartialEq, Eq, Structural)]
pub enum StructuredOutputAdapterKind {
    OpenAiResponsesTextFormat,
    AnthropicOutputConfigFormat,
    MistralResponseFormatJsonSchema,
    MistralResponseFormatJsonObject,
    PromptOnly,
}

/// What the schema compiler reads of a model's capabilities.
#[derive(Clone, Copy, Debug)]
pub struct SchemaCapability {
    pub supports_json_schema_strict: bool,
    pub structured_output_adapter: StructuredOutputAdapterKind,
}

/// Whether an adapter takes the strict form of a schema.
pub open spec fn takes_strict_schema(a: StructuredOutputAdapterKind) -> bool {
    a == StructuredOutputAdapterKind::OpenAiResponsesTextFormat || a == StructuredOutputAdapterKind::MistralResponseFormatJsonSchema
}

/// The schema a provider model is given: refused where the model has no strict JSON schema
/// support or only a JSON-object mode; the strict form of the schema for OpenAI, wrapped in
/// Mistral's response format for Mistral; the schema with its meta members stripped for
/// Anthropic and prompt-only models. A caller tests the requirement on the definitions with
/// `definition_ranks`, which gives `Some` exactly where it holds.
pub fn compile(canonical_schema: &JsonValue, capability: &SchemaCapability) -> (r: Result<JsonValue, GenerationError>)
    requires
        capability.supports_json_schema_strict && takes_strict_schema(capability.structured_output_adapter)
            ==> acyclic_definitions(*canonical_schema),
    ensures
        !capability.supports_json_schema_strict ==> (r matches Err(e) && err_code(e)
            == "provider model does not support strict JSON schema"@),
        capability.supports_json_schema_strict ==> match capability.structured_output_adapter {
            StructuredOutputAdapterKind::OpenAiResponsesTextFormat => (r matches Ok(s) && strict_schema(*canonical_schema, s)),
            StructuredOutputAdapterKind::MistralResponseFormatJsonSchema => (r matches Ok(w) && json_get(w, "json_schema"@) matches Some(
                j,
            ) && json_get(j, "schema"@) matches Some(s) && strict_schema(*canonical_schema, s) && crate::json::field_str(w, "type"@)
                == Some("json_schema"@)),
            StructuredOutputAdapterKind::AnthropicOutputConfigFormat => (r matches Ok(s) && stripped(*canonical_schema, s)),
            StructuredOutputAdapterKind::PromptOnly => (r matches Ok(s) && stripped(*canonical_schema, s)),
            StructuredOutputAdapterKind::MistralResponseFormatJsonObject => (r matches Err(e) && err_code(e)
                == "strict output required but model only supports json_object mode"@),
        },
        r matches Err(e) ==> err_kind(e) == GenerationErrorCode::UnsupportedCapability,
{
    if !capability.supports_json_schema_strict {
        return Err(error_with_kind(GenerationErrorCode::UnsupportedCapability, "provider model does not support strict JSON schema", JsonValue::Null));
    }
    match capability.structured_output_adapter {
        StructuredOutputAdapterKind::OpenAiResponsesTextFormat => Ok(prepare_strict_json_schema(canonical_schema)),
        StructuredOutputAdapterKind::MistralResponseFormatJsonSchema => {
            let strict = prepare_strict_json_schema(canonical_schema);
            Ok(wrap_mistral_schema(strict))
        },
        StructuredOutputAdapterKind::AnthropicOutputConfigFormat => Ok(stripped_copy(canonical_schema)),
        StructuredOutputAdapterKind::PromptOnly => Ok(stripped_copy(canonical_schema)),
        StructuredOutputAdapterKind::MistralResponseFormatJsonObject => Err(
            error_with_kind(GenerationErrorCode::UnsupportedCapability, "strict output required but model only supports json_object mode", JsonValue::Null),
        ),
    }
}

// ---------------------------------------------------------------------------------------------
// Checking that definitions do not refer to each other in a cycle
// ---------------------------------------------------------------------------------------------

/// The names of the local definitions a value refers to where references are followed, in
/// order.
pub open spec fn refs_of(v: JsonValue, schema: JsonValue) -> Seq<Seq<char>>
    decreases v, 0int,
{
    match v {
        JsonValue::Object(es) => (match resolved(es@, schema) {
            Some((n, _)) => seq![n],
            None => seq![],
        }) + entries_refs(es@, schema),
        JsonValue::Array(xs) => items_refs(xs@, schema),
        _ => seq![],
    }
}

/// The references of the members of a schema node.
pub open spec fn entries_refs(es: Seq<JsonEntry>, schema: JsonValue) -> Seq<Seq<char>>
    decreases es, 0int,
{
    if es.len() == 0 {
        seq![]
    } else {
        entries_refs(es.drop_last(), schema) + member_refs(es.last().key@, es.last().value, schema)
    }
}

/// The references of a member of a schema node.
pub open spec fn member_refs(k: Seq<char>, v: JsonValue, schema: JsonValue) -> Seq<Seq<char>>
    decreases v, 1int,
{
    if k == "properties"@ {
        match v {
            JsonValue::Object(ps) => props_refs(ps@, schema),
            _ => seq![],
        }
    } else if is_schema_key(k) {
        refs_of(v, schema)
    } else if is_schema_list_key(k) {
        match v {
            JsonValue::Array(xs) => items_refs(xs@, schema),
            _ => seq![],
        }
    } else {
        seq![]
    }
}

/// The references of the property schemas of a node.
pub open spec fn props_refs(ps: Seq<JsonEntry>, schema: JsonValue) -> Seq<Seq<char>>
    decreases ps, 0int,
{
    if ps.len() == 0 {
        seq![]
    } else {
        props_refs(ps.drop_last(), schema) + refs_of(ps.last().value, schema)
    }
}

/// The references of a list of schemas.
pub open spec fn items_refs(xs: Seq<JsonValue>, schema: JsonValue) -> Seq<Seq<char>>
    decreases xs, 0int,
{
    if xs.len() == 0 {
        seq![]
    } else {
        items_refs(xs.drop_last(), schema) + refs_of(xs.last(), schema)
    }
}

/// Every name in a list is ranked below a bound.
pub open spec fn ranked_below(names: Seq<Seq<char>>, rank: spec_fn(Seq<char>) -> nat, r: nat) -> bool {
    forall|i: int| 0 <= i < names.len() ==> rank(#[trigger] names[i]) + 1 <= r
}

proof fn lemma_ranked_below_concat(a: Seq<Seq<char>>, b: Seq<Seq<char>>, rank: spec_fn(Seq<char>) -> nat, r: nat)
    requires
        ranked_below(a + b, rank, r),
    ensures
        ranked_below(a, rank, r),
        ranked_below(b, rank, r),
{
    assert forall|i: int| 0 <= i < a.len() implies rank(#[trigger] a[i]) + 1 <= r by {
        assert((a + b)[i] == a[i]);
    }
    assert forall|i: int| 0 <= i < b.len() implies rank(#[trigger] b[i]) + 1 <= r by {
        assert((a + b)[a.len() + i] == b[i]);
    }
}

/// A value whose references are all ranked below a bound has a bound no higher.
pub proof fn lemma_bound_from_refs(v: JsonValue, schema: JsonValue, rank: spec_fn(Seq<char>) -> nat, r: nat)
    requires
        ranked_below(refs_of(v, schema), rank, r),
    ensures
        ref_bound(v, schema, rank) <= r,
    decreases v, 0int,
{
    match v {
        JsonValue::Object(es) => {
            let own = match resolved(es@, schema) {
                Some((n, _)) => seq![n],
                None => seq![],
            };
            lemma_ranked_below_concat(own, entries_refs(es@, schema), rank, r);
            if own.len() > 0 {
                assert(own[0] == own[0]);
            }
            lemma_entries_bound_from_refs(es@, schema, rank, r);
        },
        JsonValue::Array(xs) => {
            lemma_items_bound_from_refs(xs@, schema, rank, r);
        },
        _ => {},
    }
}

proof fn lemma_entries_bound_from_refs(es: Seq<JsonEntry>, schema: JsonValue, rank: spec_fn(Seq<char>) -> nat, r: nat)
    requires
        ranked_below(entries_refs(es, schema), rank, r),
    ensures
        entries_bound(es, schema, rank) <= r,
    decreases es, 0int,
{
    if es.len() > 0 {
        lemma_ranked_below_concat(entries_refs(es.drop_last(), schema), member_refs(es.last().key@, es.last().value, schema), rank, r);
        lemma_entries_bound_from_refs(es.drop_last(), schema, rank, r);
        lemma_member_bound_from_refs(es.last().key@, es.last().value, schema, rank, r);
    }
}

proof fn lemma_member_bound_from_refs(k: Seq<char>, v: JsonValue, schema: JsonValue, rank: spec_fn(Seq<char>) -> nat, r: nat)
    requires
        ranked_below(member_refs(k, v, schema), rank, r),
    ensures
        member_bound(k, v, schema, rank) <= r,
    decreases v, 1int,
{
    if k == "properties"@ {
        if let JsonValue::Object(ps) = v {
            lemma_props_bound_from_refs(ps@, schema, rank, r);
        }
    } else if is_schema_key(k) {
        lemma_bound_from_refs(v, schema, rank, r);
    } else if is_schema_list_key(k) {
        if let JsonValue::Array(xs) = v {
            lemma_items_bound_from_refs(xs@, schema, rank, r);
        }
    }
}

proof fn lemma_props_bound_from_refs(ps: Seq<JsonEntry>, schema: JsonValue, rank: spec_fn(Seq<char>) -> nat, r: nat)
    requires
        ranked_below(props_refs(ps, schema), rank, r),
    ensures
        props_bound(ps, schema, rank) <= r,
    decreases ps, 0int,
{
    if ps.len() > 0 {
        lemma_ranked_below_concat(props_refs(ps.drop_last(), schema), refs_of(ps.last().value, schema), rank, r);
        lemma_props_bound_from_refs(ps.drop_last(), schema, rank, r);
        lemma_bound_from_refs(ps.last().value, schema, rank, r);
    }
}

proof fn lemma_items_bound_from_refs(xs: Seq<JsonValue>, schema: JsonValue, rank: spec_fn(Seq<char>) -> nat, r: nat)
    requires
        ranked_below(items_refs(xs, schema), rank, r),
    ensures
        items_bound(xs, schema, rank) <= r,
    decreases xs, 0int,
{
    if xs.len() > 0 {
        lemma_ranked_below_concat(items_refs(xs.drop_last(), schema), refs_of(xs.last(), schema), rank, r);
        lemma_items_bound_from_refs(xs.drop_last(), schema, rank, r);
        lemma_bound_from_refs(xs.last(), schema, rank, r);
    }
}

fn append_strings(out: &mut Vec<String>, more: Vec<String>)
    ensures
        string_views(final(out)@) == string_views(old(out)@) + string_views(more@),
{
    let n = more.len();
    let ghost start = string_views(out@);
    let mut i: usize = 0;
    while i < n
        invariant
            n == more@.len(),
            i <= n,
            string_views(out@) == start + string_views(more@).take(i as int),
        decreases n - i,
    {
        let ghost b = string_views(out@);
        out.push(more[i].clone());
        assert(string_views(out@) =~= b.push(more@[i as int]@));
        assert(string_views(more@).take(i + 1) =~= string_views(more@).take(i as int).push(more@[i as int]@));
        i = i + 1;
    }
    assert(string_views(more@).take(n as int) =~= string_views(more@));
}

/// The names of the local definitions a value refers to (see `refs_of`).
fn refs_copy(v: &JsonValue, schema: &JsonValue) -> (r: Vec<String>)
    ensures
        string_views(r@) == refs_of(*v, *schema),
    decreases v, 0int,
{
    match v {
        JsonValue::Object(es) => {
            let mut out: Vec<String> = Vec::new();
            match crate::json::lookup_entry(es, "$ref") {
                Some(JsonValue::Str(reference)) => match definition_name_from_ref(reference.as_str()) {
                    Some(n) => {
                        if definition_of(schema, n.as_str()).is_some() {
                            out.push(n);
                        }
                    },
                    None => {},
                },
                _ => {},
            }
            assert(string_views(out@) =~= match resolved(es@, *schema) {
                Some((n, _)) => seq![n],
                None => seq![],
            });
            proof {
                assert(decreases_to!(*v => (*v)->Object_0));
                assert(decreases_to!(*es => es@));
            }
            let more = entries_refs_copy(es, schema);
            append_strings(&mut out, more);
            out
        },
        JsonValue::Array(xs) => {
            proof {
                assert(decreases_to!(*v => (*v)->Array_0));
                assert(decreases_to!(*xs => xs@));
            }
            items_refs_copy(xs, schema)
        },
        _ => Vec::new(),
    }
}

fn entries_refs_copy(es: &Vec<JsonEntry>, schema: &JsonValue) -> (r: Vec<String>)
    ensures
        string_views(r@) == entries_refs(es@, *schema),
    decreases es@, 1int,
{
    let n = es.len();
    let mut out: Vec<String> = Vec::new();
    let mut i: usize = 0;
    while i < n
        invariant
            n == es@.len(),
            i <= n,
            string_views(out@) == entries_refs(es@.take(i as int), *schema),
        decreases n - i,
    {
        proof {
            assert(es@.take(i + 1).drop_last() =~= es@.take(i as int));
            assert(es@.take(i + 1).last() == es@[i as int]);
            assert(decreases_to!(es@ => es@[i as int]));
            assert(decreases_to!(es@[i as int] => es@[i as int].value));
        }
        let more = member_refs_copy(es[i].key.as_str(), &es[i].value, schema);
        append_strings(&mut out, more);
        i = i + 1;
    }
    assert(es@.take(n as int) =~= es@);
    out
}

fn member_refs_copy(k: &str, v: &JsonValue, schema: &JsonValue) -> (r: Vec<String>)
    ensures
        string_views(r@) == member_refs(k@, *v, *schema),
    decreases v, 1int,
{
    if str_equal(k, "properties") {
        match v {
            JsonValue::Object(ps) => {
                proof {
                    assert(decreases_to!(*v => (*v)->Object_0));
                    assert(decreases_to!(*ps => ps@));
                }
                props_refs_copy(ps, schema)
            },
            _ => {
                let out: Vec<String> = Vec::new();
                assert(string_views(out@) =~= Seq::<Seq<char>>::empty());
                out
            },
        }
    } else if schema_key(k) {
        refs_copy(v, schema)
    } else if schema_list_key(k) {
        match v {
            JsonValue::Array(xs) => {
                proof {
                    assert(decreases_to!(*v => (*v)->Array_0));
                    assert(decreases_to!(*xs => xs@));
                }
                items_refs_copy(xs, schema)
            },
            _ => {
                let out: Vec<String> = Vec::new();
                assert(string_views(out@) =~= Seq::<Seq<char>>::empty());
                out
            },
        }
    } else {
        let out: Vec<String> = Vec::new();
        assert(string_views(out@) =~= Seq::<Seq<char>>::empty());
        out
    }
}

fn props_refs_copy(ps: &Vec<JsonEntry>, schema: &JsonValue) -> (r: Vec<String>)
    ensures
        string_views(r@) == props_refs(ps@, *schema),
    decreases ps@, 1int,
{
    let n = ps.len();
    let mut out: Vec<String> = Vec::new();
    let mut i: usize = 0;
    while i < n
        invariant
            n == ps@.len(),
            i <= n,
            string_views(out@) == props_refs(ps@.take(i as int), *schema),
        decreases n - i,
    {
        proof {
            assert(ps@.take(i + 1).drop_last() =~= ps@.take(i as int));
            assert(ps@.take(i + 1).last() == ps@[i as int]);
            assert(decreases_to!(ps@ => ps@[i as int]));
            assert(decreases_to!(ps@[i as int] => ps@[i as int].value));
        }
        let more = refs_copy(&ps[i].value, schema);
        append_strings(&mut out, more);
        i = i + 1;
    }
    assert(ps@.take(n as int) =~= ps@);
    out
}

fn items_refs_copy(xs: &Vec<JsonValue>, schema: &JsonValue) -> (r: Vec<String>)
    ensures
        string_views(r@) == items_refs(xs@, *schema),
    decreases xs@, 1int,
{
    let n = xs.len();
    let mut out: Vec<String> = Vec::new();
    let mut i: usize = 0;
    while i < n
        invariant
            n == xs@.len(),
            i <= n,
            string_views(out@) == items_refs(xs@.take(i as int), *schema),
        decreases n - i,
    {
        proof {
            assert(xs@.take(i + 1).drop_last() =~= xs@.take(i as int));
            assert(xs@.take(i + 1).last() == xs@[i as int]);
            assert(decreases_to!(xs@ => xs@[i as int]));
        }
        let more = refs_copy(&xs[i], schema);
        append_strings(&mut out, more);
        i = i + 1;
    }
    assert(xs@.take(n as int) =~= xs@);
    out
}

/// The rank of a name in a ranking: that of its first entry, 0 where it has none.
pub open spec fn rank_in(ranks: Seq<(Seq<char>, nat)>, n: Seq<char>) -> nat
    decreases ranks.len(),
{
    if ranks.len() == 0 {
        0
    } else if ranks[0].0 == n {
        ranks[0].1
    } else {
        rank_in(ranks.drop_first(), n)
    }
}

/// A ranking as a rank function.
pub open spec fn ranking(ranks: Seq<(Seq<char>, nat)>) -> spec_fn(Seq<char>) -> nat {
    |n: Seq<char>| rank_in(ranks, n)
}

/// The texts of a ranking.
pub open spec fn ranks_view(v: Seq<(String, usize)>) -> Seq<(Seq<char>, nat)> {
    v.map_values(|p: (String, usize)| (p.0@, p.1 as nat))
}

/// The names of a ranking.
pub open spec fn ranked_names(r: Seq<(Seq<char>, nat)>) -> Seq<Seq<char>> {
    r.map_values(|p: (Seq<char>, nat)| p.0)
}

/// `n` holds a rank among the first `upto` entries of a ranking, one below `bound` at most.
pub open spec fn ranked_before(r: Seq<(Seq<char>, nat)>, n: Seq<char>, bound: nat, upto: int) -> bool {
    exists|k: int| 0 <= k < upto && (#[trigger] r[k]).0 == n && r[k].1 + 1 <= bound
}

/// Each of `refs` is ranked before `upto`, below `bound`.
pub open spec fn refs_below(r: Seq<(Seq<char>, nat)>, refs: Seq<Seq<char>>, bound: nat, upto: int) -> bool {
    forall|q: int| 0 <= q < refs.len() ==> #[trigger] ranked_before(r, refs[q], bound, upto)
}

/// The entry at `j` names a definition whose references were all ranked before it, below its rank.
pub open spec fn entry_sound(r: Seq<(Seq<char>, nat)>, schema: JsonValue, j: int) -> bool {
    last_entry(defs_of(schema), r[j].0) matches Some(d) && refs_below(r, refs_of(d, schema), r[j].1, j)
}

/// A ranking built so far: distinct names, each the name of a definition whose references
/// were all ranked before it, below its rank.
pub open spec fn sound_ranking(r: Seq<(Seq<char>, nat)>, schema: JsonValue) -> bool {
    &&& forall|j: int, k: int| 0 <= j < k < r.len() ==> (#[trigger] r[j]).0 != (#[trigger] r[k]).0
    &&& forall|j: int| 0 <= j < r.len() ==> (#[trigger] r[j]).1 <= j
    &&& forall|j: int| 0 <= j < r.len() ==> #[trigger] entry_sound(r, schema, j)
}

proof fn lemma_ranked_before_mono(r: Seq<(Seq<char>, nat)>, n: Seq<char>, b1: nat, b2: nat, upto: int)
    requires
        ranked_before(r, n, b1, upto),
        b1 <= b2,
    ensures
        ranked_before(r, n, b2, upto),
{
    let k = choose|k: int| 0 <= k < upto && (#[trigger] r[k]).0 == n && r[k].1 + 1 <= b1;
    assert(r[k].0 == n);
}

proof fn lemma_refs_below_push(r: Seq<(Seq<char>, nat)>, x: (Seq<char>, nat), refs: Seq<Seq<char>>, b: nat, upto: int)
    requires
        refs_below(r, refs, b, upto),
        upto <= r.len(),
    ensures
        refs_below(r.push(x), refs, b, upto),
{
    assert forall|q: int| 0 <= q < refs.len() implies #[trigger] ranked_before(r.push(x), refs[q], b, upto) by {
        assert(ranked_before(r, refs[q], b, upto));
        let k = choose|k: int| 0 <= k < upto && (#[trigger] r[k]).0 == refs[q] && r[k].1 + 1 <= b;
        assert(r.push(x)[k] == r[k]);
    }
}

proof fn lemma_rank_in_distinct(r: Seq<(Seq<char>, nat)>, k: int)
    requires
        0 <= k < r.len(),
        forall|a: int, b: int| 0 <= a < b < r.len() ==> (#[trigger] r[a]).0 != (#[trigger] r[b]).0,
    ensures
        rank_in(r, r[k].0) == r[k].1,
    decreases k,
{
    if k > 0 {
        assert(r[0].0 != r[k].0);
        assert forall|a: int, b: int| 0 <= a < b < r.drop_first().len() implies (#[trigger] r.drop_first()[a]).0
            != (#[trigger] r.drop_first()[b]).0 by {
            assert(r.drop_first()[a] == r[a + 1]);
            assert(r.drop_first()[b] == r[b + 1]);
        }
        assert(r.drop_first()[k - 1] == r[k]);
        lemma_rank_in_distinct(r.drop_first(), k - 1);
    }
}

proof fn lemma_rank_in_absent(r: Seq<(Seq<char>, nat)>, n: Seq<char>)
    requires
        !ranked_names(r).contains(n),
    ensures
        rank_in(r, n) == 0,
    decreases r.len(),
{
    if r.len() > 0 {
        assert(ranked_names(r)[0] == r[0].0);
        assert forall|i: int| 0 <= i < ranked_names(r.drop_first()).len() implies ranked_names(r.drop_first())[i] != n by {
            assert(ranked_names(r.drop_first())[i] == ranked_names(r)[i + 1]);
        }
        lemma_rank_in_absent(r.drop_first(), n);
    }
}

proof fn lemma_last_entry_key(es: Seq<JsonEntry>, n: Seq<char>)
    requires
        last_entry(es, n) is Some,
    ensures
        exists|i: int| 0 <= i < es.len() && (#[trigger] es[i]).key@ == n,
    decreases es.len(),
{
    if es.last().key@ == n {
        assert(es[es.len() - 1].key@ == n);
    } else {
        lemma_last_entry_key(es.drop_last(), n);
        let i = choose|i: int| 0 <= i < es.drop_last().len() && (#[trigger] es.drop_last()[i]).key@ == n;
        assert(es[i] == es.drop_last()[i]);
    }
}

/// A sound ranking in which every definition's name is ranked shows the definitions acyclic.
proof fn lemma_complete_ranking(r: Seq<(Seq<char>, nat)>, schema: JsonValue)
    requires
        sound_ranking(r, schema),
        forall|i: int| 0 <= i < defs_of(schema).len() ==> ranked_names(r).contains(#[trigger] defs_of(schema)[i].key@),
    ensures
        acyclic_under(schema, ranking(r)),
{
    assert forall|n: Seq<char>| #[trigger] last_entry(defs_of(schema), n) is Some implies ref_bound(
        last_entry(defs_of(schema), n)->0,
        schema,
        ranking(r),
    ) <= ranking(r)(n) by {
        let d = last_entry(defs_of(schema), n)->0;
        lemma_last_entry_key(defs_of(schema), n);
        let i = choose|i: int| 0 <= i < defs_of(schema).len() && (#[trigger] defs_of(schema)[i]).key@ == n;
        assert(ranked_names(r).contains(n));
        let j = choose|j: int| 0 <= j < ranked_names(r).len() && ranked_names(r)[j] == n;
        assert(r[j].0 == n);
        lemma_rank_in_distinct(r, j);
        assert(entry_sound(r, schema, j));
        assert forall|q: int| 0 <= q < refs_of(d, schema).len() implies ranking(r)(#[trigger] refs_of(d, schema)[q]) + 1 <= r[j].1 by {
            assert(ranked_before(r, refs_of(d, schema)[q], r[j].1, j));
            let k = choose|k: int| 0 <= k < j && (#[trigger] r[k]).0 == refs_of(d, schema)[q] && r[k].1 + 1 <= r[j].1;
            lemma_rank_in_distinct(r, k);
        }
        lemma_bound_from_refs(d, schema, ranking(r), r[j].1);
    }
}

fn rank_of(ranks: &Vec<(String, usize)>, name: &str) -> (r: Option<usize>)
    ensures
        match r {
            Some(x) => exists|k: int| 0 <= k < ranks@.len() && (#[trigger] ranks@[k]).0@ == name@ && ranks@[k].1 == x,
            None => !ranked_names(ranks_view(ranks@)).contains(name@),
        },
{
    let n = ranks.len();
    let mut i: usize = 0;
    while i < n
        invariant
            n == ranks@.len(),
            i <= n,
            forall|k: int| 0 <= k < i ==> (#[trigger] ranks@[k]).0@ != name@,
        decreases n - i,
    {
        if str_equal(ranks[i].0.as_str(), name) {
            return Some(ranks[i].1);
        }
        i = i + 1;
    }
    proof {
        assert forall|k: int| 0 <= k < ranked_names(ranks_view(ranks@)).len() implies ranked_names(ranks_view(ranks@))[k] != name@ by {
            assert(ranked_names(ranks_view(ranks@))[k] == ranks@[k].0@);
        }
    }
    None
}

/// A name that a ranking cannot take in: it is ranked already, names no definition, or its
/// definition refers to a name not yet ranked.
pub open spec fn stuck(r: Seq<(Seq<char>, nat)>, schema: JsonValue, n: Seq<char>) -> bool {
    ||| ranked_names(r).contains(n)
    ||| last_entry(defs_of(schema), n) is None
    ||| exists|q: int|
        0 <= q < refs_of(last_entry(defs_of(schema), n)->0, schema).len() && !ranked_names(r).contains(
            #[trigger] refs_of(last_entry(defs_of(schema), n)->0, schema)[q],
        )
}

/// Ranks a definition's name where all the definitions it refers to are ranked.
fn try_rank(name: &str, schema: &JsonValue, ranks: &mut Vec<(String, usize)>)
    requires
        sound_ranking(ranks_view(old(ranks)@), *schema),
    ensures
        sound_ranking(ranks_view(final(ranks)@), *schema),
        final(ranks)@.len() >= old(ranks)@.len(),
        final(ranks)@.take(old(ranks)@.len() as int) == old(ranks)@,
        final(ranks)@.len() > old(ranks)@.len() ==> ranked_names(ranks_view(final(ranks)@)).contains(name@)
            && !ranked_names(ranks_view(old(ranks)@)).contains(name@),
        final(ranks)@.len() == old(ranks)@.len() ==> final(ranks)@ == old(ranks)@ && stuck(
            ranks_view(old(ranks)@),
            *schema,
            name@,
        ),
{
    match rank_of(ranks, name) {
        Some(x) => {
            proof {
                let k = choose|k: int| 0 <= k < ranks@.len() && (#[trigger] ranks@[k]).0@ == name@ && ranks@[k].1 == x;
                assert(ranked_names(ranks_view(ranks@))[k] == name@);
            }
            return;
        },
        None => {},
    }
    let def = match definition_of(schema, name) {
        Some(d) => d,
        None => {
            return;
        },
    };
    let refs = refs_copy(def, schema);
    let ghost rv = ranks_view(ranks@);
    let ghost rs = refs_of(*def, *schema);
    let len = ranks.len();
    let mut top: usize = 0;
    let mut i: usize = 0;
    while i < refs.len()
        invariant
            rv == ranks_view(ranks@),
            len == ranks@.len(),
            sound_ranking(rv, *schema),
            last_entry(defs_of(*schema), name@) == Some(*def),
            rs == refs_of(*def, *schema),
            string_views(refs@) == rs,
            i <= refs@.len(),
            top <= len,
            forall|q: int| 0 <= q < i ==> #[trigger] ranked_before(rv, rs[q], top as nat, len as int),
        decreases refs@.len() - i,
    {
        match rank_of(ranks, refs[i].as_str()) {
            Some(x) => {
                let ghost old_top = top;
                proof {
                    let k = choose|k: int| 0 <= k < ranks@.len() && (#[trigger] ranks@[k]).0@ == refs@[i as int]@ && ranks@[k].1 == x;
                    assert(rv[k] == (ranks@[k].0@, ranks@[k].1 as nat));
                    assert(rv[k].1 <= k);
                    assert(string_views(refs@)[i as int] == refs@[i as int]@);
                }
                if x + 1 > top {
                    top = x + 1;
                }
                proof {
                    let k = choose|k: int| 0 <= k < ranks@.len() && (#[trigger] ranks@[k]).0@ == refs@[i as int]@ && ranks@[k].1 == x;
                    assert(rv[k] == (ranks@[k].0@, ranks@[k].1 as nat));
                    assert(ranked_before(rv, rs[i as int], top as nat, len as int));
                    assert forall|q: int| 0 <= q < i + 1 implies #[trigger] ranked_before(rv, rs[q], top as nat, len as int) by {
                        if q < i {
                            lemma_ranked_before_mono(rv, rs[q], old_top as nat, top as nat, len as int);
                        }
                    }
                }
            },
            None => {
                proof {
                    assert(string_views(refs@)[i as int] == refs@[i as int]@);
                    assert(!ranked_names(rv).contains(rs[i as int]));
                    assert(last_entry(defs_of(*schema), name@)->0 == *def);
                    assert(refs_of(last_entry(defs_of(*schema), name@)->0, *schema)[i as int] == rs[i as int]);
                }
                return;
            },
        }
        i = i + 1;
    }
    let ghost before = ranks@;
    ranks.push((name.to_owned(), top));
    proof {
        let x = (name@, top as nat);
        let nv = ranks_view(ranks@);
        assert(nv =~= rv.push(x));
        assert(ranks@.take(len as int) =~= before);
        assert(ranked_names(nv)[len as int] == name@);
        assert forall|j: int, k: int| 0 <= j < k < nv.len() implies (#[trigger] nv[j]).0 != (#[trigger] nv[k]).0 by {
            if k == len {
                assert(nv[j] == rv[j]);
                assert(ranked_names(rv)[j] == rv[j].0);
            } else {
                assert(nv[j] == rv[j]);
                assert(nv[k] == rv[k]);
            }
        }
        assert forall|j: int| 0 <= j < nv.len() implies (#[trigger] nv[j]).1 <= j by {
            if j < len {
                assert(nv[j] == rv[j]);
            }
        }
        assert forall|j: int| 0 <= j < nv.len() implies #[trigger] entry_sound(nv, *schema, j) by {
            if j < len {
                assert(nv[j] == rv[j]);
                assert(entry_sound(rv, *schema, j));
                let d = last_entry(defs_of(*schema), rv[j].0)->0;
                lemma_refs_below_push(rv, x, refs_of(d, *schema), rv[j].1, j);
            } else {
                assert(nv[j] == x);
                assert(refs_below(rv, rs, top as nat, len as int));
                lemma_refs_below_push(rv, x, rs, top as nat, len as int);
            }
        }
    }
}

/// The names of the local definitions, in order.
pub open spec fn def_names(schema: JsonValue) -> Seq<Seq<char>> {
    defs_of(schema).map_values(|e: JsonEntry| e.key@)
}

/// A sound ranking has no more entries than there are definitions.
proof fn lemma_ranking_size(r: Seq<(Seq<char>, nat)>, schema: JsonValue)
    requires
        sound_ranking(r, schema),
    ensures
        r.len() <= defs_of(schema).len(),
{
    let names = ranked_names(r);
    let keys = def_names(schema);
    assert(names.no_duplicates()) by {
        assert forall|a: int, b: int| 0 <= a < names.len() && 0 <= b < names.len() && a != b implies names[a] != names[b] by {
            if a < b {
                assert(r[a].0 != r[b].0);
            } else {
                assert(r[b].0 != r[a].0);
            }
        }
    }
    names.unique_seq_to_set();
    assert forall|n: Seq<char>| names.to_set().contains(n) implies keys.to_set().contains(n) by {
        let j = choose|j: int| 0 <= j < names.len() && names[j] == n;
        assert(entry_sound(r, schema, j));
        lemma_last_entry_key(defs_of(schema), n);
        let i = choose|i: int| 0 <= i < defs_of(schema).len() && (#[trigger] defs_of(schema)[i]).key@ == n;
        assert(keys[i] == n);
    }
    vstd::seq_lib::seq_to_set_is_finite(keys);
    vstd::set_lib::lemma_len_subset(names.to_set(), keys.to_set());
    keys.lemma_cardinality_of_set();
}

/// `n` names a definition and is ranked below `b`.
pub open spec fn def_within(n: Seq<char>, schema: JsonValue, rank: spec_fn(Seq<char>) -> nat, b: nat) -> bool {
    last_entry(defs_of(schema), n) is Some && rank(n) + 1 <= b
}

/// Every name of a list names a definition ranked below `b`.
pub open spec fn refs_within(names: Seq<Seq<char>>, schema: JsonValue, rank: spec_fn(Seq<char>) -> nat, b: nat) -> bool {
    forall|i: int| 0 <= i < names.len() ==> #[trigger] def_within(names[i], schema, rank, b)
}

proof fn lemma_within_concat(
    a: Seq<Seq<char>>,
    c: Seq<Seq<char>>,
    schema: JsonValue,
    rank: spec_fn(Seq<char>) -> nat,
    ba: nat,
    bc: nat,
    b: nat,
)
    requires
        refs_within(a, schema, rank, ba),
        refs_within(c, schema, rank, bc),
        ba <= b,
        bc <= b,
    ensures
        refs_within(a + c, schema, rank, b),
{
    assert forall|i: int| 0 <= i < (a + c).len() implies #[trigger] def_within((a + c)[i], schema, rank, b) by {
        if i < a.len() {
            assert((a + c)[i] == a[i]);
            assert(def_within(a[i], schema, rank, ba));
        } else {
            assert((a + c)[i] == c[i - a.len()]);
            assert(def_within(c[i - a.len()], schema, rank, bc));
        }
    }
}

/// Every reference of a value names a definition ranked below the value's bound.
pub proof fn lemma_refs_within_bound(v: JsonValue, schema: JsonValue, rank: spec_fn(Seq<char>) -> nat)
    ensures
        refs_within(refs_of(v, schema), schema, rank, ref_bound(v, schema, rank)),
    decreases v, 0int,
{
    match v {
        JsonValue::Object(es) => {
            let own = match resolved(es@, schema) {
                Some((n, _)) => seq![n],
                None => seq![],
            };
            let ob: nat = match resolved(es@, schema) {
                Some((n, _)) => rank(n) + 1,
                None => 0,
            };
            assert(refs_within(own, schema, rank, ob)) by {
                if own.len() > 0 {
                    assert(def_within(own[0], schema, rank, ob));
                }
            }
            lemma_entries_within_bound(es@, schema, rank);
            lemma_within_concat(own, entries_refs(es@, schema), schema, rank, ob, entries_bound(es@, schema, rank), ref_bound(v, schema, rank));
        },
        JsonValue::Array(xs) => {
            lemma_items_within_bound(xs@, schema, rank);
        },
        _ => {},
    }
}

proof fn lemma_entries_within_bound(es: Seq<JsonEntry>, schema: JsonValue, rank: spec_fn(Seq<char>) -> nat)
    ensures
        refs_within(entries_refs(es, schema), schema, rank, entries_bound(es, schema, rank)),
    decreases es, 0int,
{
    if es.len() > 0 {
        lemma_entries_within_bound(es.drop_last(), schema, rank);
        lemma_member_within_bound(es.last().key@, es.last().value, schema, rank);
        lemma_within_concat(
            entries_refs(es.drop_last(), schema),
            member_refs(es.last().key@, es.last().value, schema),
            schema,
            rank,
            entries_bound(es.drop_last(), schema, rank),
            member_bound(es.last().key@, es.last().value, schema, rank),
            entries_bound(es, schema, rank),
        );
    }
}

proof fn lemma_member_within_bound(k: Seq<char>, v: JsonValue, schema: JsonValue, rank: spec_fn(Seq<char>) -> nat)
    ensures
        refs_within(member_refs(k, v, schema), schema, rank, member_bound(k, v, schema, rank)),
    decreases v, 1int,
{
    if k == "properties"@ {
        if let JsonValue::Object(ps) = v {
            lemma_props_within_bound(ps@, schema, rank);
        }
    } else if is_schema_key(k) {
        lemma_refs_within_bound(v, schema, rank);
    } else if is_schema_list_key(k) {
        if let JsonValue::Array(xs) = v {
            lemma_items_within_bound(xs@, schema, rank);
        }
    }
}

proof fn lemma_props_within_bound(ps: Seq<JsonEntry>, schema: JsonValue, rank: spec_fn(Seq<char>) -> nat)
    ensures
        refs_within(props_refs(ps, schema), schema, rank, props_bound(ps, schema, rank)),
    decreases ps, 0int,
{
    if ps.len() > 0 {
        lemma_props_within_bound(ps.drop_last(), schema, rank);
        lemma_refs_within_bound(ps.last().value, schema, rank);
        lemma_within_concat(
            props_refs(ps.drop_last(), schema),
            refs_of(ps.last().value, schema),
            schema,
            rank,
            props_bound(ps.drop_last(), schema, rank),
            ref_bound(ps.last().value, schema, rank),
            props_bound(ps, schema, rank),
        );
    }
}

proof fn lemma_items_within_bound(xs: Seq<JsonValue>, schema: JsonValue, rank: spec_fn(Seq<char>) -> nat)
    ensures
        refs_within(items_refs(xs, schema), schema, rank, items_bound(xs, schema, rank)),
    decreases xs, 0int,
{
    if xs.len() > 0 {
        lemma_items_within_bound(xs.drop_last(), schema, rank);
        lemma_refs_within_bound(xs.last(), schema, rank);
        lemma_within_concat(
            items_refs(xs.drop_last(), schema),
            refs_of(xs.last(), schema),
            schema,
            rank,
            items_bound(xs.drop_last(), schema, rank),
            ref_bound(xs.last(), schema, rank),
            items_bound(xs, schema, rank),
        );
    }
}

/// Under an acyclic rank, an unranked definition of a stuck ranking has a rank above `m`.
proof fn lemma_stuck_rank(r: Seq<(Seq<char>, nat)>, schema: JsonValue, rank: spec_fn(Seq<char>) -> nat, m: nat)
    requires
        acyclic_under(schema, rank),
        forall|n: Seq<char>| #[trigger] stuck(r, schema, n),
    ensures
        forall|n: Seq<char>|
            last_entry(defs_of(schema), n) is Some && !ranked_names(r).contains(n) ==> #[trigger] rank(n) > m,
    decreases m,
{
    if m > 0 {
        lemma_stuck_rank(r, schema, rank, (m - 1) as nat);
    }
    assert forall|n: Seq<char>| last_entry(defs_of(schema), n) is Some && !ranked_names(r).contains(n) implies #[trigger] rank(n)
        > m by {
        let d = last_entry(defs_of(schema), n)->0;
        assert(stuck(r, schema, n));
        let q = choose|q: int| 0 <= q < refs_of(d, schema).len() && !ranked_names(r).contains(#[trigger] refs_of(d, schema)[q]);
        let n2 = refs_of(d, schema)[q];
        lemma_refs_within_bound(d, schema, rank);
        assert(def_within(n2, schema, rank, ref_bound(d, schema, rank)));
        assert(ref_bound(d, schema, rank) <= rank(n));
        if m > 0 {
            assert(rank(n2) > m - 1);
        }
    }
}

/// A ranking stuck on every name while some definition is unranked shows a cycle.
proof fn lemma_stuck_cyclic(r: Seq<(Seq<char>, nat)>, schema: JsonValue, n0: Seq<char>)
    requires
        forall|n: Seq<char>| #[trigger] stuck(r, schema, n),
        last_entry(defs_of(schema), n0) is Some,
        !ranked_names(r).contains(n0),
    ensures
        !acyclic_definitions(schema),
{
    if acyclic_definitions(schema) {
        let rank = choose|rank: spec_fn(Seq<char>) -> nat| acyclic_under(schema, rank);
        lemma_stuck_rank(r, schema, rank, rank(n0));
        assert(rank(n0) > rank(n0));
    }
}

proof fn lemma_key_has_last_entry(es: Seq<JsonEntry>, i: int)
    requires
        0 <= i < es.len(),
    ensures
        last_entry(es, es[i].key@) is Some,
    decreases es.len(),
{
    if es.last().key@ != es[i].key@ {
        assert(i < es.len() - 1);
        assert(es.drop_last()[i] == es[i]);
        lemma_key_has_last_entry(es.drop_last(), i);
    }
}

fn push_keys(out: &mut Vec<String>, es: &Vec<JsonEntry>)
    ensures
        string_views(final(out)@) == string_views(old(out)@) + es@.map_values(|e: JsonEntry| e.key@),
{
    let ghost start = string_views(out@);
    let n = es.len();
    let mut i: usize = 0;
    while i < n
        invariant
            n == es@.len(),
            i <= n,
            string_views(out@) == start + es@.take(i as int).map_values(|e: JsonEntry| e.key@),
        decreases n - i,
    {
        let ghost b = string_views(out@);
        out.push(es[i].key.clone());
        assert(string_views(out@) =~= b.push(es@[i as int].key@));
        assert(es@.take(i + 1).map_values(|e: JsonEntry| e.key@) =~= es@.take(i as int).map_values(|e: JsonEntry| e.key@).push(
            es@[i as int].key@,
        ));
        i = i + 1;
    }
    assert(es@.take(n as int) =~= es@);
}

fn definition_names(schema: &JsonValue) -> (r: Vec<String>)
    ensures
        string_views(r@) == def_names(*schema),
{
    let mut out: Vec<String> = Vec::new();
    let ghost a = object_entries(*schema, "definitions"@);
    let ghost b = object_entries(*schema, "$defs"@);
    match object_entries_of(schema, "definitions") {
        Some(es) => push_keys(&mut out, es),
        None => {},
    }
    assert(string_views(out@) =~= a.map_values(|e: JsonEntry| e.key@));
    match object_entries_of(schema, "$defs") {
        Some(es) => push_keys(&mut out, es),
        None => {},
    }
    assert(string_views(out@) =~= def_names(*schema));
    out
}

/// Ranks the local definitions of a schema so that each refers only to definitions of lower
/// rank: `Some` exactly where the definitions refer to each other without a cycle, and then
/// the ranks show it.
pub fn definition_ranks(schema: &JsonValue) -> (r: Option<Vec<(String, usize)>>)
    ensures
        r is Some <==> acyclic_definitions(*schema),
        r matches Some(v) ==> acyclic_under(*schema, ranking(ranks_view(v@))),
{
    let names = definition_names(schema);
    assert(names@.len() == defs_of(*schema).len()) by {
        assert(string_views(names@).len() == names@.len());
        assert(def_names(*schema).len() == defs_of(*schema).len());
    }
    let mut ranks: Vec<(String, usize)> = Vec::new();
    assert(sound_ranking(ranks_view(ranks@), *schema));
    loop
        invariant
            sound_ranking(ranks_view(ranks@), *schema),
            string_views(names@) == def_names(*schema),
            names@.len() == defs_of(*schema).len(),
        ensures
            sound_ranking(ranks_view(ranks@), *schema),
            forall|k: int| 0 <= k < names@.len() ==> stuck(ranks_view(ranks@), *schema, #[trigger] names@[k]@),
        decreases names@.len() - ranks@.len(),
    {
        proof {
            lemma_ranking_size(ranks_view(ranks@), *schema);
        }
        let before = ranks.len();
        let ghost start = ranks@;
        let mut i: usize = 0;
        while i < names.len()
            invariant
                sound_ranking(ranks_view(ranks@), *schema),
                string_views(names@) == def_names(*schema),
                names@.len() == defs_of(*schema).len(),
                before == start.len(),
                i <= names@.len(),
                ranks@.len() >= before,
                ranks@.len() == before ==> ranks@ == start,
                ranks@.len() == before ==> forall|k: int|
                    0 <= k < i ==> stuck(ranks_view(ranks@), *schema, #[trigger] names@[k]@),
            decreases names@.len() - i,
        {
            let ghost prev = ranks@;
            try_rank(names[i].as_str(), schema, &mut ranks);
            proof {
                if ranks@.len() == before {
                    assert(prev.len() == before) by {
                        assert(ranks@.len() >= prev.len());
                    }
                }
            }
            i = i + 1;
        }
        if ranks.len() == before {
            break;
        }
        proof {
            lemma_ranking_size(ranks_view(ranks@), *schema);
        }
    }
    let ghost rv = ranks_view(ranks@);
    proof {
        assert forall|n: Seq<char>| #[trigger] stuck(rv, *schema, n) by {
            if last_entry(defs_of(*schema), n) is Some {
                lemma_last_entry_key(defs_of(*schema), n);
                let k = choose|k: int| 0 <= k < defs_of(*schema).len() && (#[trigger] defs_of(*schema)[k]).key@ == n;
                assert(def_names(*schema)[k] == n);
                assert(string_views(names@)[k] == names@[k]@);
                assert(stuck(rv, *schema, names@[k]@));
            }
        }
    }
    let mut j: usize = 0;
    while j < names.len()
        invariant
            rv == ranks_view(ranks@),
            sound_ranking(rv, *schema),
            string_views(names@) == def_names(*schema),
            names@.len() == defs_of(*schema).len(),
            forall|n: Seq<char>| #[trigger] stuck(rv, *schema, n),
            j <= names@.len(),
            forall|k: int| 0 <= k < j ==> ranked_names(rv).contains(#[trigger] names@[k]@),
        decreases names@.len() - j,
    {
        match rank_of(&ranks, names[j].as_str()) {
            Some(x) => {
                proof {
                    let k = choose|k: int| 0 <= k < ranks@.len() && (#[trigger] ranks@[k]).0@ == names@[j as int]@ && ranks@[k].1 == x;
                    assert(ranked_names(rv)[k] == names@[j as int]@);
                }
            },
            None => {
                proof {
                    assert(string_views(names@)[j as int] == names@[j as int]@);
                    assert(def_names(*schema)[j as int] == defs_of(*schema)[j as int].key@);
                    lemma_key_has_last_entry(defs_of(*schema), j as int);
                    lemma_stuck_cyclic(rv, *schema, names@[j as int]@);
                }
                return None;
            },
        }
        j = j + 1;
    }
    proof {
        assert forall|i: int| 0 <= i < defs_of(*schema).len() implies ranked_names(rv).contains(#[trigger] defs_of(*schema)[i].key@) by {
            assert(def_names(*schema)[i] == defs_of(*schema)[i].key@);
            assert(string_views(names@)[i] == names@[i]@);
            assert(ranked_names(rv).contains(names@[i]@));
        }
        lemma_complete_ranking(rv, *schema);
        assert(acyclic_under(*schema, ranking(rv)));
    }
    Some(ranks)
}

/// A member that lists sub-schemas: `oneOf`, `anyOf`, `allOf` or `prefixItems`.
pub open spec fn lists_sub_schemas(k: Seq<char>) -> bool {
    k == "oneOf"@ || k == "anyOf"@ || k == "allOf"@ || k == "prefixItems"@
}

proof fn lemma_list_member_names(k: Seq<char>)
    requires
        lists_sub_schemas(k),
    ensures
        k != "properties"@,
        k != "additionalProperties"@,
        k != "required"@,
        !is_schema_key(k),
{
    reveal_strlit("oneOf");
    reveal_strlit("anyOf");
    reveal_strlit("allOf");
    reveal_strlit("prefixItems");
    reveal_strlit("properties");
    reveal_strlit("additionalProperties");
    reveal_strlit("patternProperties");
    reveal_strlit("required");
    reveal_strlit("items");
    assert("items"@[0] == 'i' && "oneOf"@[0] == 'o' && "anyOf"@[0] == 'a' && "allOf"@[0] == 'a');
    assert("oneOf"@.len() == 5 && "anyOf"@.len() == 5 && "allOf"@.len() == 5 && "prefixItems"@.len() == 11);
    assert("properties"@.len() == 10 && "additionalProperties"@.len() == 20 && "patternProperties"@.len() == 17);
    assert("required"@.len() == 8 && "items"@.len() == 5);
}

proof fn lemma_stripped_each(xs: Seq<JsonValue>, ys: Seq<JsonValue>)
    requires
        stripped_items(xs, ys),
    ensures
        ys.len() == xs.len(),
        forall|i: int| 0 <= i < xs.len() ==> stripped(#[trigger] xs[i], ys[i]),
    decreases xs.len(),
{
    if xs.len() > 0 {
        lemma_stripped_each(xs.drop_last(), ys.drop_last());
        assert forall|i: int| 0 <= i < xs.len() implies stripped(#[trigger] xs[i], ys[i]) by {
            if i < xs.len() - 1 {
                assert(xs.drop_last()[i] == xs[i] && ys.drop_last()[i] == ys[i]);
            }
        }
    }
}

proof fn lemma_closed_each(xs: Seq<JsonValue>, ys: Seq<JsonValue>)
    requires
        closed_items(xs, ys),
    ensures
        ys.len() == xs.len(),
        forall|i: int| 0 <= i < xs.len() ==> closed(#[trigger] xs[i], ys[i]),
    decreases xs.len(),
{
    if xs.len() > 0 {
        lemma_closed_each(xs.drop_last(), ys.drop_last());
        assert forall|i: int| 0 <= i < xs.len() implies closed(#[trigger] xs[i], ys[i]) by {
            if i < xs.len() - 1 {
                assert(xs.drop_last()[i] == xs[i] && ys.drop_last()[i] == ys[i]);
            }
        }
    }
}

proof fn lemma_inlined_each(xs: Seq<JsonValue>, ys: Seq<JsonValue>, schema: JsonValue, rank: spec_fn(Seq<char>) -> nat)
    requires
        acyclic_under(schema, rank),
        inlined_items(xs, ys, schema, rank),
    ensures
        ys.len() == xs.len(),
        forall|i: int| 0 <= i < xs.len() ==> inlined(#[trigger] xs[i], ys[i], schema, rank),
    decreases xs.len(),
{
    if xs.len() > 0 {
        lemma_inlined_each(xs.drop_last(), ys.drop_last(), schema, rank);
        assert forall|i: int| 0 <= i < xs.len() implies inlined(#[trigger] xs[i], ys[i], schema, rank) by {
            if i < xs.len() - 1 {
                assert(xs.drop_last()[i] == xs[i] && ys.drop_last()[i] == ys[i]);
            }
        }
    }
}

/// Every sub-schema listed under `oneOf`, `anyOf`, `allOf` or `prefixItems` is compiled like any
/// other: stripping leaves a list of as many sub-schemas, each stripped of its meta fields;
/// closing leaves a list of as many, each closed (an object with all its properties required
/// and no other); inlining leaves a list of as many, each with its local references inlined.
pub proof fn law_listed_sub_schemas_are_compiled(
    k: Seq<char>,
    xs: Seq<JsonValue>,
    b: JsonValue,
    object_node: bool,
    names: Option<Seq<Seq<char>>>,
    schema: JsonValue,
    rank: spec_fn(Seq<char>) -> nat,
)
    requires
        lists_sub_schemas(k),
    ensures
        forall|v: Vec<JsonValue>|
            v@ == xs && #[trigger] stripped_member(k, JsonValue::Array(v), b) ==> (b matches JsonValue::Array(ys) && ys@.len() == xs.len()
                && forall|i: int| 0 <= i < xs.len() ==> stripped(#[trigger] xs[i], ys@[i])),
        forall|v: Vec<JsonValue>|
            v@ == xs && #[trigger] closed_member(object_node, names, k, JsonValue::Array(v), b) ==> (b matches JsonValue::Array(ys)
                && ys@.len() == xs.len() && forall|i: int| 0 <= i < xs.len() ==> closed(#[trigger] xs[i], ys@[i])),
        acyclic_under(schema, rank) ==> forall|v: Vec<JsonValue>|
            v@ == xs && #[trigger] inlined_member(k, JsonValue::Array(v), b, schema, rank) ==> (b matches JsonValue::Array(ys)
                && ys@.len() == xs.len() && forall|i: int| 0 <= i < xs.len() ==> inlined(#[trigger] xs[i], ys@[i], schema, rank)),
{
    lemma_list_member_names(k);
    assert forall|v: Vec<JsonValue>|
        v@ == xs && #[trigger] stripped_member(k, JsonValue::Array(v), b) implies (b matches JsonValue::Array(ys) && ys@.len() == xs.len()
            && forall|i: int| 0 <= i < xs.len() ==> stripped(#[trigger] xs[i], ys@[i])) by {
        let ys = b->Array_0;
        lemma_stripped_each(xs, ys@);
    }
    assert forall|v: Vec<JsonValue>|
        v@ == xs && #[trigger] closed_member(object_node, names, k, JsonValue::Array(v), b) implies (b matches JsonValue::Array(ys)
            && ys@.len() == xs.len() && forall|i: int| 0 <= i < xs.len() ==> closed(#[trigger] xs[i], ys@[i])) by {
        let ys = b->Array_0;
        lemma_closed_each(xs, ys@);
    }
    if acyclic_under(schema, rank) {
        assert forall|v: Vec<JsonValue>|
            v@ == xs && #[trigger] inlined_member(k, JsonValue::Array(v), b, schema, rank) implies (b matches JsonValue::Array(ys)
                && ys@.len() == xs.len() && forall|i: int| 0 <= i < xs.len() ==> inlined(#[trigger] xs[i], ys@[i], schema, rank)) by {
            let ys = b->Array_0;
            lemma_inlined_each(xs, ys@, schema, rank);
        }
    }
}

} // verus!
