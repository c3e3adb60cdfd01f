use crate::valid::Valid;
use vstd::prelude::*;
use vstd::string::StringExecFns;

verus! {

/// A structured literal value.  Numbers keep their decimal text: the
/// pipeline never computes with them, it only checks their kind.
#[derive(Debug)]
pub enum JsonValue {
    Null,
    Bool(bool),
    Num(String),
    Str(String),
    Arr(Vec<JsonValue>),
    Obj(Vec<(String, JsonValue)>),
}

/// The mathematical shape of a `JsonValue`.
pub enum JsonModel {
    Null,
    Bool(bool),
    Num(Seq<char>),
    Str(Seq<char>),
    Arr(Seq<JsonModel>),
    Obj(Seq<(Seq<char>, JsonModel)>),
}

pub open spec fn json_model(v: JsonValue) -> JsonModel
    decreases v, 0int,
{
    match v {
        JsonValue::Null => JsonModel::Null,
        JsonValue::Bool(b) => JsonModel::Bool(b),
        JsonValue::Num(s) => JsonModel::Num(s@),
        JsonValue::Str(s) => JsonModel::Str(s@),
        JsonValue::Arr(items) => JsonModel::Arr(json_model_items(items@, 0)),
        JsonValue::Obj(entries) => JsonModel::Obj(json_model_entries(entries@, 0)),
    }
}

pub open spec fn json_model_items(items: Seq<JsonValue>, i: int) -> Seq<JsonModel>
    decreases items, items.len() - i,
{
    if 0 <= i < items.len() {
        seq![json_model(items[i])] + json_model_items(items, i + 1)
    } else {
        Seq::empty()
    }
}

pub open spec fn json_model_entries(entries: Seq<(String, JsonValue)>, i: int) -> Seq<
    (Seq<char>, JsonModel),
>
    decreases entries, entries.len() - i,
{
    if 0 <= i < entries.len() {
        seq![(entries[i].0@, json_model(entries[i].1))] + json_model_entries(entries, i + 1)
    } else {
        Seq::empty()
    }
}

pub proof fn lemma_json_model_items(items: Seq<JsonValue>, i: int)
    requires
        0 <= i <= items.len(),
    ensures
        json_model_items(items, i).len() == items.len() - i,
        forall|k: int| i <= k < items.len() ==> json_model_items(items, i)[k - i] == json_model(
            items[k],
        ),
    decreases items.len() - i,
{
    if i < items.len() {
        lemma_json_model_items(items, i + 1);
    }
}

pub proof fn lemma_json_model_entries(entries: Seq<(String, JsonValue)>, i: int)
    requires
        0 <= i <= entries.len(),
    ensures
        json_model_entries(entries, i).len() == entries.len() - i,
        forall|k: int| i <= k < entries.len() ==> json_model_entries(entries, i)[k - i] == (
        entries[k].0@, json_model(entries[k].1)),
    decreases entries.len() - i,
{
    if i < entries.len() {
        lemma_json_model_entries(entries, i + 1);
    }
}

/// A structural schema for literal values.
#[derive(Debug)]
pub enum JsonSchema {
    Str,
    Num,
    Bool,
    Obj(Vec<(String, JsonSchema)>),
    Arr(Box<JsonSchema>),
    Opt(Box<JsonSchema>),
}

/// The mathematical shape of a `JsonSchema`.  `Arr` and `Opt` carry their
/// single child as a one-element sequence.
pub enum SchemaModel {
    Str,
    Num,
    Bool,
    Obj(Seq<(Seq<char>, SchemaModel)>),
    Arr(Seq<SchemaModel>),
    Opt(Seq<SchemaModel>),
}

pub open spec fn schema_model(s: JsonSchema) -> SchemaModel
    decreases s, 0int,
{
    match s {
        JsonSchema::Str => SchemaModel::Str,
        JsonSchema::Num => SchemaModel::Num,
        JsonSchema::Bool => SchemaModel::Bool,
        JsonSchema::Obj(fields) => SchemaModel::Obj(schema_model_fields(fields@, 0)),
        JsonSchema::Arr(inner) => SchemaModel::Arr(seq![schema_model(*inner)]),
        JsonSchema::Opt(inner) => SchemaModel::Opt(seq![schema_model(*inner)]),
    }
}

pub open spec fn schema_model_fields(fields: Seq<(String, JsonSchema)>, i: int) -> Seq<
    (Seq<char>, SchemaModel),
>
    decreases fields, fields.len() - i,
{
    if 0 <= i < fields.len() {
        seq![(fields[i].0@, schema_model(fields[i].1))] + schema_model_fields(fields, i + 1)
    } else {
        Seq::empty()
    }
}

pub proof fn lemma_schema_model_fields(fields: Seq<(String, JsonSchema)>, i: int)
    requires
        0 <= i <= fields.len(),
    ensures
        schema_model_fields(fields, i).len() == fields.len() - i,
        forall|k: int| i <= k < fields.len() ==> schema_model_fields(fields, i)[k - i] == (
        fields[k].0@, schema_model(fields[k].1)),
    decreases fields.len() - i,
{
    if i < fields.len() {
        lemma_schema_model_fields(fields, i + 1);
    }
}

/// First value bound to `name` among the members of an object value.
pub open spec fn member_find(entries: Seq<(Seq<char>, JsonModel)>, name: Seq<char>) -> Option<
    JsonModel,
>
    decreases entries.len(),
{
    if entries.len() == 0 {
        Option::None
    } else if entries[0].0 == name {
        Option::Some(entries[0].1)
    } else {
        member_find(entries.drop_first(), name)
    }
}

/// Structural conformance of a value to a schema: kinds match, every member
/// the schema lists is present and conforms (absent members are allowed only
/// under an optional schema), and every array element conforms.
pub open spec fn conforms(s: SchemaModel, v: JsonModel) -> bool
    decreases s,
{
    match s {
        SchemaModel::Str => v is Str,
        SchemaModel::Num => v is Num,
        SchemaModel::Bool => v is Bool,
        SchemaModel::Opt(inner) => inner.len() == 1 && (v is Null || conforms(inner[0], v)),
        SchemaModel::Arr(inner) => inner.len() == 1 && (v matches JsonModel::Arr(items)
            && forall|i: int| 0 <= i < items.len() ==> conforms(inner[0], #[trigger] items[i])),
        SchemaModel::Obj(fields) => v matches JsonModel::Obj(entries) && forall|i: int|
            0 <= i < fields.len() ==> match member_find(entries, (#[trigger] fields[i]).0) {
                Option::Some(m) => conforms(fields[i].1, m),
                Option::None => fields[i].1 is Opt,
            },
    }
}

impl JsonSchema {
    /// Checks `value` against this schema.  Succeeds exactly when the value
    /// conforms; otherwise returns at least one error per failing part.
    pub fn validate(&self, value: &JsonValue) -> (r: Valid<(), String>)
        ensures
            r.wf(),
            r.is_succ() == conforms(schema_model(*self), json_model(*value)),
        decreases *self, 0int,
    {
        match self {
            JsonSchema::Str => {
                match value {
                    JsonValue::Str(_) => Valid::succeed(()),
                    _ => Valid::fail(String::from_str("expected string")),
                }
            },
            JsonSchema::Num => {
                match value {
                    JsonValue::Num(_) => Valid::succeed(()),
                    _ => Valid::fail(String::from_str("expected number")),
                }
            },
            JsonSchema::Bool => {
                match value {
                    JsonValue::Bool(_) => Valid::succeed(()),
                    _ => Valid::fail(String::from_str("expected boolean")),
                }
            },
            JsonSchema::Opt(inner) => {
                match value {
                    JsonValue::Null => Valid::succeed(()),
                    _ => inner.validate(value),
                }
            },
            JsonSchema::Arr(inner) => {
                match value {
                    JsonValue::Arr(items) => {
                        let r = validate_items(inner, items, 0);
                        proof {
                            lemma_json_model_items(items@, 0);
                            let sm = schema_model(*self);
                            let ms = json_model_items(items@, 0);
                            assert(json_model(*value) == JsonModel::Arr(ms));
                            if r.is_succ() {
                                assert forall|k: int| 0 <= k < ms.len() implies conforms(
                                    schema_model(**inner),
                                    #[trigger] ms[k],
                                ) by {
                                    assert(ms[k] == json_model(items@[k]));
                                }
                            } else {
                                let j = choose|j: int|
                                    0 <= j < items@.len() && !conforms(
                                        schema_model(**inner),
                                        json_model(#[trigger] items@[j]),
                                    );
                                assert(ms[j] == json_model(items@[j]));
                                assert(sm == SchemaModel::Arr(seq![schema_model(**inner)]));
                                assert(sm->Arr_0[0] == schema_model(**inner));
                                if conforms(sm, json_model(*value)) {
                                    reveal_with_fuel(conforms, 2);
                                    let vm = json_model(*value);
                                    assert(vm matches JsonModel::Arr(x) && x == ms);
                                    assert(forall|i: int|
                                        0 <= i < ms.len() ==> conforms(
                                            sm->Arr_0[0],
                                            #[trigger] ms[i],
                                        ));
                                    assert(conforms(sm->Arr_0[0], ms[j]));
                                    assert(false);
                                }
                            }
                        }
                        r
                    },
                    _ => Valid::fail(String::from_str("expected array")),
                }
            },
            JsonSchema::Obj(fields) => {
                match value {
                    JsonValue::Obj(entries) => {
                        let r = validate_members(fields, entries, 0);
                        proof {
                            lemma_schema_model_fields(fields@, 0);
                            let fm = schema_model_fields(fields@, 0);
                            let em = json_model_entries(entries@, 0);
                            assert(json_model(*value) == JsonModel::Obj(em));
                            assert(schema_model(*self) == SchemaModel::Obj(fm));
                            if r.is_succ() {
                                assert forall|k: int| 0 <= k < fm.len() implies (match member_find(
                                    em,
                                    (#[trigger] fm[k]).0,
                                ) {
                                    Option::Some(m) => conforms(fm[k].1, m),
                                    Option::None => fm[k].1 is Opt,
                                }) by {
                                    assert(fm[k] == (fields@[k].0@, schema_model(fields@[k].1)));
                                }
                            } else {
                                let j = choose|j: int|
                                    0 <= j < fields@.len() && !(match member_find(
                                        em,
                                        (#[trigger] fields@[j]).0@,
                                    ) {
                                        Option::Some(m) => conforms(schema_model(fields@[j].1), m),
                                        Option::None => schema_model(fields@[j].1) is Opt,
                                    });
                                assert(fm[j] == (fields@[j].0@, schema_model(fields@[j].1)));
                                assert(!conforms(schema_model(*self), json_model(*value)));
                            }
                        }
                        r
                    },
                    _ => Valid::fail(String::from_str("expected object")),
                }
            },
        }
    }
}

/// Checks every element of `items`, starting at `i`, against `schema`,
/// accumulating the errors of all failing elements.
fn validate_items(schema: &JsonSchema, items: &Vec<JsonValue>, i: usize) -> (r: Valid<(), String>)
    requires
        i <= items@.len(),
    ensures
        r.wf(),
        r.is_succ() <==> forall|j: int|
            i <= j < items@.len() ==> conforms(schema_model(*schema), json_model(
                #[trigger] items@[j],
            )),
    decreases *schema, items@.len() - i,
{
    if i == items.len() {
        Valid::succeed(())
    } else {
        let head = schema.validate(&items[i]);
        let rest = validate_items(schema, items, i + 1);
        head.and(rest)
    }
}

/// Checks every member the schema lists, starting at `i`, against the
/// entries of an object value, accumulating the errors of all failing
/// members.  An error for a missing or failing member carries the member's
/// name in its trace.
fn validate_members(
    fields: &Vec<(String, JsonSchema)>,
    entries: &Vec<(String, JsonValue)>,
    i: usize,
) -> (r: Valid<(), String>)
    requires
        i <= fields@.len(),
    ensures
        r.wf(),
        r.is_succ() <==> forall|j: int|
            i <= j < fields@.len() ==> match member_find(
                json_model_entries(entries@, 0),
                (#[trigger] fields@[j]).0@,
            ) {
                Option::Some(m) => conforms(schema_model(fields@[j].1), m),
                Option::None => schema_model(fields@[j].1) is Opt,
            },
    decreases fields@, fields@.len() - i,
{
    if i == fields.len() {
        Valid::succeed(())
    } else {
        let member = crate::assoc::assoc_get(entries, &fields[i].0);
        proof {
            lemma_json_model_entries(entries@, 0);
            lemma_member_find_models(entries@, 0, fields@[i as int].0@);
            assert(entries@.skip(0) =~= entries@);
        }
        let head: Valid<(), String> = match member {
            Option::Some(m) => fields[i].1.validate(m),
            Option::None => {
                match &fields[i].1 {
                    JsonSchema::Opt(_) => Valid::succeed(()),
                    _ => Valid::fail(String::from_str("expected member is missing")),
                }
            },
        };
        let head = head.trace(fields[i].0.as_str());
        let rest = validate_members(fields, entries, i + 1);
        head.and(rest)
    }
}

/// `member_find` over the model agrees with `assoc_find` over the entries.
proof fn lemma_member_find_models(entries: Seq<(String, JsonValue)>, i: int, name: Seq<char>)
    requires
        0 <= i <= entries.len(),
    ensures
        match crate::assoc::assoc_find(entries.skip(i), name) {
            Option::Some(v) => member_find(json_model_entries(entries, i), name) == Option::Some(
                json_model(v),
            ),
            Option::None => member_find(json_model_entries(entries, i), name) is None,
        },
    decreases entries.len() - i,
{
    if i < entries.len() {
        assert(entries.skip(i)[0] == entries[i]);
        assert(json_model_entries(entries, i)[0] == (entries[i].0@, json_model(entries[i].1)));
        if entries[i].0@ != name {
            lemma_member_find_models(entries, i + 1, name);
            assert(entries.skip(i).drop_first() =~= entries.skip(i + 1));
            assert(json_model_entries(entries, i).drop_first() =~= json_model_entries(
                entries,
                i + 1,
            ));
        }
    } else {
        assert(entries.skip(i) =~= Seq::<(String, JsonValue)>::empty());
    }
}


/// Deep copy of a literal value, preserving its shape.
pub fn clone_json(v: &JsonValue) -> (r: JsonValue)
    ensures
        json_model(r) == json_model(*v),
    decreases *v, 0int,
{
    match v {
        JsonValue::Null => JsonValue::Null,
        JsonValue::Bool(b) => JsonValue::Bool(*b),
        JsonValue::Num(s) => JsonValue::Num(s.clone()),
        JsonValue::Str(s) => JsonValue::Str(s.clone()),
        JsonValue::Arr(items) => {
            let copied = clone_json_items(items, 0);
            proof {
                lemma_json_model_items(items@, 0);
                lemma_json_model_items(copied@, 0);
                assert forall|k: int| 0 <= k < copied@.len() implies json_model_items(copied@, 0)[k]
                    == json_model_items(items@, 0)[k] by {
                    assert(json_model_items(copied@, 0)[k - 0] == json_model(copied@[k]));
                    assert(json_model_items(items@, 0)[k - 0] == json_model(items@[k]));
                    assert(json_model(copied@[k]) == json_model(items@[k + 0]));
                }
                assert(json_model_items(copied@, 0) =~= json_model_items(items@, 0));
            }
            JsonValue::Arr(copied)
        },
        JsonValue::Obj(entries) => {
            let copied = clone_json_entries(entries, 0);
            proof {
                lemma_json_model_entries(entries@, 0);
                lemma_json_model_entries(copied@, 0);
                assert forall|k: int| 0 <= k < copied@.len() implies json_model_entries(copied@, 0)[k]
                    == json_model_entries(entries@, 0)[k] by {
                    assert(json_model_entries(copied@, 0)[k - 0] == (
                    copied@[k].0@, json_model(copied@[k].1)));
                    assert(json_model_entries(entries@, 0)[k - 0] == (
                    entries@[k].0@, json_model(entries@[k].1)));
                    assert(copied@[k].0@ == entries@[k + 0].0@ && json_model(copied@[k].1)
                        == json_model(entries@[k + 0].1));
                }
                assert(json_model_entries(copied@, 0) =~= json_model_entries(entries@, 0));
            }
            JsonValue::Obj(copied)
        },
    }
}

/// Copies the elements of `items` from `i` on.
fn clone_json_items(items: &Vec<JsonValue>, i: usize) -> (r: Vec<JsonValue>)
    requires
        i <= items@.len(),
    ensures
        r@.len() == items@.len() - i,
        forall|k: int| 0 <= k < r@.len() ==> json_model(#[trigger] r@[k]) == json_model(
            items@[k + i],
        ),
    decreases *items, items@.len() - i,
{
    let mut out: Vec<JsonValue> = Vec::new();
    if i < items.len() {
        let head = clone_json(&items[i]);
        let mut rest = clone_json_items(items, i + 1);
        out.push(head);
        out.append(&mut rest);
    }
    out
}

/// Copies the members of `entries` from `i` on.
fn clone_json_entries(entries: &Vec<(String, JsonValue)>, i: usize) -> (r: Vec<(String, JsonValue)>)
    requires
        i <= entries@.len(),
    ensures
        r@.len() == entries@.len() - i,
        forall|k: int| 0 <= k < r@.len() ==> (#[trigger] r@[k]).0@ == entries@[k + i].0@
            && json_model(r@[k].1) == json_model(entries@[k + i].1),
    decreases *entries, entries@.len() - i,
{
    let mut out: Vec<(String, JsonValue)> = Vec::new();
    if i < entries.len() {
        let head = (entries[i].0.clone(), clone_json(&entries[i].1));
        let mut rest = clone_json_entries(entries, i + 1);
        out.push(head);
        out.append(&mut rest);
    }
    out
}

} // verus!
