//! Reading a literal `schema` override object: a plain JSON value is turned
//! into a schema seed exactly as written — a `$ref` key makes a reference,
//! the known schema fields are checked for shape, unknown fields are
//! ignored, and any wrongly typed known field refuses the whole object.
use crate::entries::get_v;
use crate::entries::index_of_key;
use crate::entries::insert_v;
use crate::entries::lemma_index_of_key;
use crate::entries::lemma_insert_v_unique;
use crate::entries::unique_keys;
use crate::entries::Entries;
use crate::json::json_view_obj;
use crate::json::lemma_json_view_obj;
use crate::json::Json;
use crate::json::JsonV;
use crate::openapi::InlineSchema;
use crate::openapi::InlineSchemaV;
use crate::openapi::Schema;
use crate::openapi::SchemaV;
use vstd::prelude::*;

verus! {

#[via_fn]
proof fn json_schema_v_dec(j: JsonV) {
    match j {
        JsonV::Obj(entries) => {
            assert(decreases_to!(j => j->Obj_0));
            lemma_index_of_key(entries, "$ref"@);
            if crate::entries::has_key(entries, "$ref"@) {
                let i = index_of_key(entries, "$ref"@);
                assert(decreases_to!(entries => entries[i]));
                assert(decreases_to!(entries[i] => entries[i].1));
            }
        },
        _ => {},
    }
}

/// The schema written by a literal override object: a `$ref` string makes a
/// reference; otherwise the known inline fields are read. `None` means the
/// object is not a well-formed schema literal.
pub open spec fn json_schema_v(j: JsonV) -> Option<SchemaV>
    decreases j, 1int,
    via json_schema_v_dec
{
    match j {
        JsonV::Obj(entries) => match get_v(entries, "$ref"@) {
            Some(JsonV::Str(r)) => Some(SchemaV::Reference { ref_path: r }),
            Some(_) => None,
            None => match json_inline_v(entries) {
                Some(is) => Some(SchemaV::Inline(is)),
                None => None,
            },
        },
        _ => None,
    }
}

#[via_fn]
proof fn json_inline_v_dec(entries: Seq<(Seq<char>, JsonV)>) {
    lemma_field_chain(entries, "properties"@);
    lemma_field_chain(entries, "items"@);
    lemma_field_chain(entries, "allOf"@);
    lemma_field_chain(entries, "anyOf"@);
    lemma_field_chain(entries, "oneOf"@);
}

/// Whatever value sits under a key of an object is below the object in the
/// well-founded order, and so are the contents of an array or object there.
proof fn lemma_field_chain(entries: Seq<(Seq<char>, JsonV)>, key: Seq<char>)
    ensures
        crate::entries::has_key(entries, key) ==> decreases_to!(
            entries => get_v(entries, key)->Some_0),
{
    lemma_index_of_key(entries, key);
    if crate::entries::has_key(entries, key) {
        let i = index_of_key(entries, key);
        assert(decreases_to!(entries => entries[i]));
        assert(decreases_to!(entries[i] => entries[i].1));
    }
}

/// The inline schema seed written by a literal override object, field by
/// field; `None` when a known field has the wrong shape or when a `$ref`
/// key tries to smuggle a reference into an inline seed.
pub open spec fn json_inline_v(entries: Seq<(Seq<char>, JsonV)>) -> Option<InlineSchemaV>
    decreases entries, 0int,
    via json_inline_v_dec
{
    let no_ref = get_v(entries, "$ref"@) is None;
    let st = match get_v(entries, "type"@) {
        None => Some(None),
        Some(JsonV::Str(s)) => Some(Some(s)),
        Some(_) => None,
    };
    let fm = match get_v(entries, "format"@) {
        None => Some(None),
        Some(JsonV::Str(s)) => Some(Some(s)),
        Some(_) => None,
    };
    let de = match get_v(entries, "description"@) {
        None => Some(None),
        Some(JsonV::Str(s)) => Some(Some(s)),
        Some(_) => None,
    };
    let ex = get_v(entries, "example"@);
    let rq = match get_v(entries, "required"@) {
        None => Some(None),
        Some(JsonV::Arr(els)) => match str_list_v(els) {
            Some(names) => Some(Some(names)),
            None => None,
        },
        Some(_) => None,
    };
    let pr = match get_v(entries, "properties"@) {
        None => Some(None),
        Some(JsonV::Obj(pents)) => match json_schema_entries_v(pents) {
            Some(ps) => Some(Some(ps)),
            None => None,
        },
        Some(_) => None,
    };
    let it = match get_v(entries, "items"@) {
        None => Some(None),
        Some(iv) => match json_schema_v(iv) {
            Some(s) => Some(Some(Box::new(s))),
            None => None,
        },
    };
    let ao = match get_v(entries, "allOf"@) {
        None => Some(None),
        Some(JsonV::Arr(els)) => match json_schema_list_v(els) {
            Some(l) => Some(Some(l)),
            None => None,
        },
        Some(_) => None,
    };
    let an = match get_v(entries, "anyOf"@) {
        None => Some(None),
        Some(JsonV::Arr(els)) => match json_schema_list_v(els) {
            Some(l) => Some(Some(l)),
            None => None,
        },
        Some(_) => None,
    };
    let oo = match get_v(entries, "oneOf"@) {
        None => Some(None),
        Some(JsonV::Arr(els)) => match json_schema_list_v(els) {
            Some(l) => Some(Some(l)),
            None => None,
        },
        Some(_) => None,
    };
    if no_ref && st is Some && fm is Some && de is Some && rq is Some && pr is Some && it
        is Some && ao is Some && an is Some && oo is Some {
        Some(
            InlineSchemaV {
                schema_type: st->Some_0,
                format: fm->Some_0,
                description: de->Some_0,
                example: ex,
                properties: pr->Some_0,
                required: rq->Some_0,
                items: it->Some_0,
                all_of: ao->Some_0,
                any_of: an->Some_0,
                one_of: oo->Some_0,
            },
        )
    } else {
        None
    }
}

/// The strings of an all-string array, or `None`.
pub open spec fn str_list_v(els: Seq<JsonV>) -> Option<Seq<Seq<char>>>
    decreases els.len(),
{
    if els.len() == 0 {
        Some(Seq::empty())
    } else {
        match (str_list_v(els.drop_last()), els.last()) {
            (Some(names), JsonV::Str(s)) => Some(names.push(s)),
            _ => None,
        }
    }
}

#[via_fn]
proof fn json_schema_entries_v_dec(pents: Seq<(Seq<char>, JsonV)>) {
    if pents.len() > 0 {
        assert(pents.drop_last() == pents.subrange(0, pents.len() - 1));
        assert(decreases_to!(pents => pents.subrange(0, pents.len() - 1)));
        assert(decreases_to!(pents => pents[pents.len() - 1]));
        assert(decreases_to!(pents[pents.len() - 1] => pents[pents.len() - 1].1));
    }
}

/// The keyed schemas of a `properties` object, folded left to right with
/// replacement on a repeated key, or `None` when one value is ill-shaped.
pub open spec fn json_schema_entries_v(pents: Seq<(Seq<char>, JsonV)>) -> Option<
    Seq<(Seq<char>, SchemaV)>,
>
    decreases pents, 1int,
    via json_schema_entries_v_dec
{
    if pents.len() == 0 {
        Some(Seq::empty())
    } else {
        match (json_schema_entries_v(pents.drop_last()), json_schema_v(pents.last().1)) {
            (Some(ps), Some(sv)) => Some(insert_v(ps, pents.last().0, sv)),
            _ => None,
        }
    }
}

#[via_fn]
proof fn json_schema_list_v_dec(els: Seq<JsonV>) {
    if els.len() > 0 {
        assert(els.drop_last() == els.subrange(0, els.len() - 1));
        assert(decreases_to!(els => els.subrange(0, els.len() - 1)));
        assert(decreases_to!(els => els[els.len() - 1]));
    }
}

/// The schemas of a combinator array, in order, or `None` when one element
/// is ill-shaped.
pub open spec fn json_schema_list_v(els: Seq<JsonV>) -> Option<Seq<SchemaV>>
    decreases els, 1int,
    via json_schema_list_v_dec
{
    if els.len() == 0 {
        Some(Seq::empty())
    } else {
        match (json_schema_list_v(els.drop_last()), json_schema_v(els.last())) {
            (Some(l), Some(sv)) => Some(l.push(sv)),
            _ => None,
        }
    }
}

/// A folded `properties` object always has unique keys.
pub proof fn lemma_json_schema_entries_unique(pents: Seq<(Seq<char>, JsonV)>)
    requires
        json_schema_entries_v(pents) is Some,
    ensures
        unique_keys(json_schema_entries_v(pents)->Some_0),
    decreases pents.len(),
{
    if pents.len() == 0 {
        assert(unique_keys(Seq::<(Seq<char>, SchemaV)>::empty()));
    } else {
        lemma_json_schema_entries_unique(pents.drop_last());
        lemma_insert_v_unique(
            json_schema_entries_v(pents.drop_last())->Some_0,
            pents.last().0,
            json_schema_v(pents.last().1)->Some_0,
        );
    }
}

/// A `None` on a prefix means `None` on the whole keyed fold.
proof fn lemma_entries_none(s: Seq<(Seq<char>, JsonV)>, k: int)
    requires
        0 <= k <= s.len(),
        json_schema_entries_v(s.take(k)) is None,
    ensures
        json_schema_entries_v(s) is None,
    decreases s.len() - k,
{
    if k < s.len() {
        assert(s.take(k + 1).drop_last() =~= s.take(k));
        lemma_entries_none(s, k + 1);
    } else {
        assert(s.take(k) =~= s);
    }
}

/// A `None` on a prefix means `None` on the whole list fold.
proof fn lemma_list_none(s: Seq<JsonV>, k: int)
    requires
        0 <= k <= s.len(),
        json_schema_list_v(s.take(k)) is None,
    ensures
        json_schema_list_v(s) is None,
    decreases s.len() - k,
{
    if k < s.len() {
        assert(s.take(k + 1).drop_last() =~= s.take(k));
        lemma_list_none(s, k + 1);
    } else {
        assert(s.take(k) =~= s);
    }
}

/// A `None` on a prefix means `None` on the whole string-list fold.
proof fn lemma_str_list_none(s: Seq<JsonV>, k: int)
    requires
        0 <= k <= s.len(),
        str_list_v(s.take(k)) is None,
    ensures
        str_list_v(s) is None,
    decreases s.len() - k,
{
    if k < s.len() {
        assert(s.take(k + 1).drop_last() =~= s.take(k));
        lemma_str_list_none(s, k + 1);
    } else {
        assert(s.take(k) =~= s);
    }
}

/// Finds the first entry of a plain object holding the key.
pub(crate) fn json_obj_find(entries: &Vec<(String, Json)>, key: &str) -> (r: Option<usize>)
    ensures
        match r {
            Some(i) => i < entries@.len() && index_of_key(json_view_obj(entries@), key@) == i,
            None => index_of_key(json_view_obj(entries@), key@) == -1,
        },
{
    proof {
        lemma_json_view_obj(entries@);
        lemma_index_of_key(json_view_obj(entries@), key@);
    }
    let ghost m = json_view_obj(entries@);
    let mut i: usize = 0;
    while i < entries.len()
        invariant
            i <= entries@.len(),
            m == json_view_obj(entries@),
            m.len() == entries@.len(),
            forall|k: int| 0 <= k < m.len() ==> #[trigger] m[k].0 == entries@[k].0@,
            index_of_key(m, key@) >= 0 ==> index_of_key(m, key@) >= i,
            index_of_key(m, key@) >= 0 ==> index_of_key(m, key@) < m.len() && m[index_of_key(
                m,
                key@,
            )].0 == key@,
            index_of_key(m, key@) == -1 ==> forall|k: int| 0 <= k < m.len() ==> m[k].0 != key@,
            index_of_key(m, key@) >= -1,
            forall|k: int| 0 <= k < index_of_key(m, key@) ==> m[k].0 != key@,
        decreases entries@.len() - i,
    {
        if crate::strings::str_eq(entries[i].0.as_str(), key) {
            proof {
                assert(m[i as int].0 == key@);
            }
            return Some(i);
        }
        proof {
            assert(m[i as int].0 != key@);
        }
        i = i + 1;
    }
    None
}

/// The strings of an all-string array node, or `None`.
pub(crate) fn json_str_list(els: &Vec<Json>) -> (r: Option<Vec<String>>)
    ensures
        r.deep_view() == str_list_v(crate::json::json_view_arr(els@)),
{
    let ghost m = crate::json::json_view_arr(els@);
    proof {
        crate::json::lemma_json_view_arr(els@);
    }
    let mut out: Vec<String> = Vec::new();
    let mut i: usize = 0;
    while i < els.len()
        invariant
            i <= els@.len(),
            m == crate::json::json_view_arr(els@),
            m.len() == els@.len(),
            forall|k: int| 0 <= k < m.len() ==> #[trigger] m[k] == els@[k]@,
            str_list_v(m.take(i as int)) == Some(out.deep_view()),
        decreases els@.len() - i,
    {
        proof {
            assert(m.take(i + 1).drop_last() =~= m.take(i as int));
            assert(m.take(i + 1).last() == m[i as int]);
        }
        match &els[i] {
            Json::Str(s) => {
                out.push(s.clone());
                proof {
                    assert(out.deep_view() =~~= str_list_v(m.take(i + 1))->Some_0);
                }
            },
            _ => {
                proof {
                    assert(str_list_v(m.take(i + 1)) is None);
                    lemma_str_list_none(m, i + 1);
                }
                return None;
            },
        }
        i = i + 1;
    }
    proof {
        assert(m.take(m.len() as int) =~= m);
    }
    Some(out)
}

/// The schema written by a literal override value, or `None` when it is not
/// a well-formed schema literal.
pub fn json_to_schema(j: &Json) -> (r: Option<Schema>)
    ensures
        r.deep_view() == json_schema_v(j@),
    decreases *j,
{
    match j {
        Json::Obj(entries) => {
            proof {
                lemma_json_view_obj(entries@);
                lemma_index_of_key(json_view_obj(entries@), "$ref"@);
            }
            match json_obj_find(entries, "$ref") {
                Some(i) => match &entries[i].1 {
                    Json::Str(s) => Some(Schema::Reference { ref_path: s.clone() }),
                    _ => None,
                },
                None => {
                    proof {
                        assert(decreases_to!(*j => j->Obj_0));
                        assert(decreases_to!(*entries => entries@));
                    }
                    match json_to_inline(entries) {
                        Some(is) => Some(Schema::Inline(is)),
                        None => None,
                    }
                },
            }
        },
        _ => None,
    }
}

/// The keyed schemas of a `properties` object node, or `None`.
fn json_schema_props(pents: &Vec<(String, Json)>) -> (r: Option<Entries<Schema>>)
    ensures
        match r {
            Some(e) => json_schema_entries_v(json_view_obj(pents@)) == Some(e@) && e.wf(),
            None => json_schema_entries_v(json_view_obj(pents@)) is None,
        },
    decreases *pents,
{
    let ghost m = json_view_obj(pents@);
    proof {
        lemma_json_view_obj(pents@);
    }
    let mut out: Entries<Schema> = Entries::new();
    let mut i: usize = 0;
    while i < pents.len()
        invariant
            i <= pents@.len(),
            m == json_view_obj(pents@),
            m.len() == pents@.len(),
            forall|k: int| 0 <= k < m.len() ==> #[trigger] m[k] == (pents@[k].0@, pents@[k].1@),
            json_schema_entries_v(m.take(i as int)) == Some(out@),
            out.wf(),
        decreases pents@.len() - i,
    {
        proof {
            assert(m.take(i + 1).drop_last() =~= m.take(i as int));
            assert(m.take(i + 1).last() == m[i as int]);
            assert(decreases_to!(pents@ => pents@[i as int]));
            assert(decreases_to!(pents@[i as int] => pents@[i as int].1));
            assert(decreases_to!(*pents => pents@));
        }
        match json_to_schema(&pents[i].1) {
            Some(sv) => {
                out.insert(pents[i].0.clone(), sv);
                proof {
                    assert(json_schema_entries_v(m.take(i + 1)) == Some(out@));
                }
            },
            None => {
                proof {
                    assert(json_schema_entries_v(m.take(i + 1)) is None);
                    lemma_entries_none(m, i + 1);
                }
                return None;
            },
        }
        i = i + 1;
    }
    proof {
        assert(m.take(m.len() as int) =~= m);
    }
    Some(out)
}

/// The schemas of a combinator array node, or `None`.
fn json_schema_vec(els: &Vec<Json>) -> (r: Option<Vec<Schema>>)
    ensures
        match r {
            Some(l) => json_schema_list_v(crate::json::json_view_arr(els@)) == Some(l.deep_view()),
            None => json_schema_list_v(crate::json::json_view_arr(els@)) is None,
        },
    decreases *els,
{
    let ghost m = crate::json::json_view_arr(els@);
    proof {
        crate::json::lemma_json_view_arr(els@);
    }
    let mut out: Vec<Schema> = Vec::new();
    let mut i: usize = 0;
    while i < els.len()
        invariant
            i <= els@.len(),
            m == crate::json::json_view_arr(els@),
            m.len() == els@.len(),
            forall|k: int| 0 <= k < m.len() ==> #[trigger] m[k] == els@[k]@,
            json_schema_list_v(m.take(i as int)) == Some(out.deep_view()),
        decreases els@.len() - i,
    {
        proof {
            assert(m.take(i + 1).drop_last() =~= m.take(i as int));
            assert(m.take(i + 1).last() == m[i as int]);
            assert(decreases_to!(els@ => els@[i as int]));
            assert(decreases_to!(*els => els@));
        }
        match json_to_schema(&els[i]) {
            Some(sv) => {
                out.push(sv);
                proof {
                    assert(out.deep_view() =~~= json_schema_list_v(m.take(i + 1))->Some_0);
                }
            },
            None => {
                proof {
                    assert(json_schema_list_v(m.take(i + 1)) is None);
                    lemma_list_none(m, i + 1);
                }
                return None;
            },
        }
        i = i + 1;
    }
    proof {
        assert(m.take(m.len() as int) =~= m);
    }
    Some(out)
}

/// The inline schema seed of a literal override object, or `None` when a
/// known field has the wrong shape.
#[verifier::rlimit(60)]
pub fn json_to_inline(entries: &Vec<(String, Json)>) -> (r: Option<InlineSchema>)
    ensures
        r.deep_view() == json_inline_v(json_view_obj(entries@)),
    decreases *entries,
{
    let ghost m = json_view_obj(entries@);
    proof {
        lemma_json_view_obj(entries@);
    }
    match json_obj_find(entries, "$ref") {
        Some(_) => {
            return None;
        },
        None => {},
    }
    let schema_type: Option<String> = match json_obj_find(entries, "type") {
        None => None,
        Some(i) => match &entries[i].1 {
            Json::Str(s) => Some(s.clone()),
            _ => {
                return None;
            },
        },
    };
    let format: Option<String> = match json_obj_find(entries, "format") {
        None => None,
        Some(i) => match &entries[i].1 {
            Json::Str(s) => Some(s.clone()),
            _ => {
                return None;
            },
        },
    };
    let description: Option<String> = match json_obj_find(entries, "description") {
        None => None,
        Some(i) => match &entries[i].1 {
            Json::Str(s) => Some(s.clone()),
            _ => {
                return None;
            },
        },
    };
    let example: Option<Json> = match json_obj_find(entries, "example") {
        None => None,
        Some(i) => Some(crate::json::clone_json(&entries[i].1)),
    };
    let required: Option<Vec<String>> = match json_obj_find(entries, "required") {
        None => None,
        Some(i) => match &entries[i].1 {
            Json::Arr(els) => {
                proof {
                    assert(decreases_to!(*entries => entries@));
                    assert(decreases_to!(entries@ => entries@[i as int]));
                    assert(decreases_to!(entries@[i as int] => entries@[i as int].1));
                }
                match json_str_list(els) {
                    Some(names) => Some(names),
                    None => {
                        return None;
                    },
                }
            },
            _ => {
                return None;
            },
        },
    };
    let properties: Option<Entries<Schema>> = match json_obj_find(entries, "properties") {
        None => None,
        Some(i) => match &entries[i].1 {
            Json::Obj(pents) => {
                proof {
                    assert(decreases_to!(*entries => entries@));
                    assert(decreases_to!(entries@ => entries@[i as int]));
                    assert(decreases_to!(entries@[i as int] => entries@[i as int].1));
                    assert(decreases_to!(entries@[i as int].1 => *pents));
                }
                match json_schema_props(pents) {
                    Some(e) => Some(e),
                    None => {
                        return None;
                    },
                }
            },
            _ => {
                return None;
            },
        },
    };
    let items: Option<Box<Schema>> = match json_obj_find(entries, "items") {
        None => None,
        Some(i) => {
            proof {
                assert(decreases_to!(*entries => entries@));
                assert(decreases_to!(entries@ => entries@[i as int]));
                assert(decreases_to!(entries@[i as int] => entries@[i as int].1));
            }
            match json_to_schema(&entries[i].1) {
                Some(sv) => Some(Box::new(sv)),
                None => {
                    return None;
                },
            }
        },
    };
    let all_of: Option<Vec<Schema>> = match json_obj_find(entries, "allOf") {
        None => None,
        Some(i) => match &entries[i].1 {
            Json::Arr(els) => {
                proof {
                    assert(decreases_to!(*entries => entries@));
                    assert(decreases_to!(entries@ => entries@[i as int]));
                    assert(decreases_to!(entries@[i as int] => entries@[i as int].1));
                    assert(decreases_to!(entries@[i as int].1 => *els));
                }
                match json_schema_vec(els) {
                    Some(l) => Some(l),
                    None => {
                        return None;
                    },
                }
            },
            _ => {
                return None;
            },
        },
    };
    let any_of: Option<Vec<Schema>> = match json_obj_find(entries, "anyOf") {
        None => None,
        Some(i) => match &entries[i].1 {
            Json::Arr(els) => {
                proof {
                    assert(decreases_to!(*entries => entries@));
                    assert(decreases_to!(entries@ => entries@[i as int]));
                    assert(decreases_to!(entries@[i as int] => entries@[i as int].1));
                    assert(decreases_to!(entries@[i as int].1 => *els));
                }
                match json_schema_vec(els) {
                    Some(l) => Some(l),
                    None => {
                        return None;
                    },
                }
            },
            _ => {
                return None;
            },
        },
    };
    let one_of: Option<Vec<Schema>> = match json_obj_find(entries, "oneOf") {
        None => None,
        Some(i) => match &entries[i].1 {
            Json::Arr(els) => {
                proof {
                    assert(decreases_to!(*entries => entries@));
                    assert(decreases_to!(entries@ => entries@[i as int]));
                    assert(decreases_to!(entries@[i as int] => entries@[i as int].1));
                    assert(decreases_to!(entries@[i as int].1 => *els));
                }
                match json_schema_vec(els) {
                    Some(l) => Some(l),
                    None => {
                        return None;
                    },
                }
            },
            _ => {
                return None;
            },
        },
    };
    let r = InlineSchema {
        schema_type,
        format,
        description,
        example,
        properties,
        required,
        items,
        all_of,
        any_of,
        one_of,
    };
    proof {
        match &r.properties {
            Some(e) => crate::openapi::lemma_schema_entries_deep(e.pairs),
            None => (),
        }
        match &r.all_of {
            Some(v) => crate::openapi::lemma_schema_list_deep(*v),
            None => (),
        }
        match &r.any_of {
            Some(v) => crate::openapi::lemma_schema_list_deep(*v),
            None => (),
        }
        match &r.one_of {
            Some(v) => crate::openapi::lemma_schema_list_deep(*v),
            None => (),
        }
        assert(json_inline_v(m) is Some);
        assert(r.deep_view() =~~= json_inline_v(m)->Some_0);
    }
    Some(r)
}

} // verus!
