use crate::assoc::assoc_find;
use crate::assoc::assoc_get;
use crate::blueprint::spec_is_nullable;
use crate::blueprint::Type;
use crate::config::Arg;
use crate::config::Config;
use crate::config::ConfigType;
use crate::config::Field;
use crate::json::conforms;
use crate::json::json_model;
use crate::json::schema_model;
use crate::json::JsonSchema;
use crate::json::JsonValue;
use crate::json::SchemaModel;
use crate::valid::Valid;
use vstd::prelude::*;
use vstd::string::StringExecFns;

verus! {

pub open spec fn spec_is_scalar(name: Seq<char>) -> bool {
    name == "String"@ || name == "Int"@ || name == "Float"@ || name == "Boolean"@ || name == "ID"@
        || name == "JSON"@
}

/// Whether a type name denotes a built-in scalar.
pub fn is_scalar(name: &String) -> (r: bool)
    ensures
        r == spec_is_scalar(name@),
{
    *name == String::from_str("String") || *name == String::from_str("Int") || *name
        == String::from_str("Float") || *name == String::from_str("Boolean") || *name
        == String::from_str("ID") || *name == String::from_str("JSON")
}

/// The type `to_type` builds from the four descriptor flags: a list wraps a
/// named element type, nullability sits per level.
pub open spec fn to_type_matches(
    t: Type,
    name: Seq<char>,
    list: bool,
    non_null: bool,
    list_type_required: bool,
) -> bool {
    if list {
        t matches Type::ListType { of_type, non_null: nn } && nn == non_null && (*of_type
            matches Type::NamedType { name: n, non_null: k } && n@ == name && k
            == list_type_required)
    } else {
        t matches Type::NamedType { name: n, non_null: nn } && n@ == name && nn == non_null
    }
}

/// Builds the output type of a field from its descriptor flags.
pub fn to_type(name: &String, list: bool, non_null: bool, list_type_required: bool) -> (r: Type)
    ensures
        to_type_matches(r, name@, list, non_null, list_type_required),
{
    if list {
        Type::ListType {
            of_type: Box::new(Type::NamedType { name: name.clone(), non_null: list_type_required }),
            non_null,
        }
    } else {
        Type::NamedType { name: name.clone(), non_null }
    }
}


/// What `to_type_matches` says about the innermost name and the outer
/// nullability of the built type.
pub proof fn lemma_to_type_model(t: Type, name: Seq<char>, list: bool, non_null: bool, ltr: bool)
    requires
        to_type_matches(t, name, list, non_null, ltr),
    ensures
        crate::blueprint::type_model(t).name == name,
        spec_is_nullable(t) == !non_null,
{
    match t {
        Type::NamedType { .. } => {},
        Type::ListType { of_type, .. } => {
            assert(crate::blueprint::type_model(t).name == crate::blueprint::type_model(
                *of_type,
            ).name);
        },
    }
}

/// The resolved type of a field of `type_of`, when the field exists.
pub fn get_value_type(type_of: &ConfigType, value: &String) -> (r: Option<Type>)
    ensures
        match assoc_find(type_of.fields@, value@) {
            Option::Some(f) => r matches Option::Some(t) && to_type_matches(
                t,
                f.type_of@,
                f.list,
                f.required,
                f.list_type_required,
            ),
            Option::None => r is None,
        },
{
    match assoc_get(&type_of.fields, value) {
        Option::Some(field) => Option::Some(
            to_type(&field.type_of, field.list, field.required, field.list_type_required),
        ),
        Option::None => Option::None,
    }
}

/// First argument definition with the given name.
pub open spec fn ifd_find(
    args: Seq<crate::blueprint::InputFieldDefinition>,
    name: Seq<char>,
) -> Option<crate::blueprint::InputFieldDefinition>
    decreases args.len(),
{
    if args.len() == 0 {
        Option::None
    } else if args[0].name@ == name {
        Option::Some(args[0])
    } else {
        ifd_find(args.drop_first(), name)
    }
}

fn find_arg<'a>(args: &'a Vec<crate::blueprint::InputFieldDefinition>, name: &String) -> (r:
    Option<&'a crate::blueprint::InputFieldDefinition>)
    ensures
        match ifd_find(args@, name@) {
            Option::Some(a) => r matches Option::Some(ra) && *ra == a,
            Option::None => r is None,
        },
{
    let n = args.len();
    let mut i: usize = 0;
    proof {
        assert(args@.skip(0) =~= args@);
    }
    while i < n
        invariant
            0 <= i <= n,
            n == args@.len(),
            ifd_find(args@, name@) == ifd_find(args@.skip(i as int), name@),
        decreases n - i,
    {
        if args[i].name == *name {
            proof {
                assert(args@.skip(i as int)[0] == args@[i as int]);
            }
            return Option::Some(&args[i]);
        }
        proof {
            assert(args@.skip(i as int)[0] == args@[i as int]);
            assert(args@.skip(i as int).drop_first() =~= args@.skip(i as int + 1));
        }
        i = i + 1;
    }
    proof {
        assert(args@.skip(n as int) =~= Seq::<crate::blueprint::InputFieldDefinition>::empty());
    }
    Option::None
}

/// Whether one interpolation expression, split into its parts, is valid in
/// the given namespace: the four accepted leading parts are `value`, `args`,
/// `vars` and `headers`, as the template validator checks them.
pub open spec fn spec_mustache_ok(
    type_of: ConfigType,
    cfg: Config,
    is_query: bool,
    parts: Seq<Seq<char>>,
    args: Seq<crate::blueprint::InputFieldDefinition>,
) -> bool {
    parts.len() >= 2 && {
        let head = parts[0];
        let tail = parts[1];
        if head == "value"@ {
            match assoc_find(type_of.fields@, tail) {
                Option::Some(f) => spec_is_scalar(f.type_of@) && (is_query || f.required),
                Option::None => false,
            }
        } else if head == "args"@ {
            match ifd_find(args, tail) {
                Option::Some(a) => !(a.of_type is ListType) && (is_query || a.default_value is Some
                    || !spec_is_nullable(a.of_type)),
                Option::None => false,
            }
        } else if head == "vars"@ {
            assoc_find(cfg.server.vars@, tail) is Some
        } else {
            head == "headers"@
        }
    }
}

/// The message reported when one interpolation expression is invalid,
/// naming the offending symbol and the violated rule.
pub open spec fn sp_mustache_err(
    type_of: ConfigType,
    cfg: Config,
    is_query: bool,
    parts: Seq<Seq<char>>,
    args: Seq<crate::blueprint::InputFieldDefinition>,
) -> Seq<char>
    recommends
        !spec_mustache_ok(type_of, cfg, is_query, parts, args),
{
    if parts.len() < 2 {
        "too few parts in template"@
    } else {
        let head = parts[0];
        let tail = parts[1];
        if head == "value"@ {
            match assoc_find(type_of.fields@, tail) {
                Option::Some(f) => {
                    if !spec_is_scalar(f.type_of@) {
                        "value '"@ + tail + "' is not of a scalar type"@
                    } else {
                        "value '"@ + tail + "' is a nullable type"@
                    }
                },
                Option::None => "no value '"@ + tail + "' found"@,
            }
        } else if head == "args"@ {
            match ifd_find(args, tail) {
                Option::Some(a) => {
                    if a.of_type is ListType {
                        "can't use list type '"@ + tail + "' here"@
                    } else {
                        "argument '"@ + tail + "' is a nullable type"@
                    }
                },
                Option::None => "no argument '"@ + tail + "' found"@,
            }
        } else if head == "vars"@ {
            "var '"@ + tail + "' is not set in the server config"@
        } else {
            "unknown template directive '"@ + head + "'"@
        }
    }
}

/// Validates one interpolation expression against the compile-time
/// namespace.  Succeeds exactly when `spec_mustache_ok` holds; the failure
/// carries exactly the message `sp_mustache_err`, with an empty trace.
pub fn validate_mustache_parts(
    type_of: &ConfigType,
    config: &Config,
    is_query: bool,
    parts: &Vec<String>,
    args: &Vec<crate::blueprint::InputFieldDefinition>,
) -> (r: Valid<(), String>)
    ensures
        r.wf(),
        r.is_succ() == spec_mustache_ok(*type_of, *config, is_query, parts.deep_view(), args@),
        !r.is_succ() ==> r.errs().len() == 1 && r.errs()[0].message@ == sp_mustache_err(
            *type_of,
            *config,
            is_query,
            parts.deep_view(),
            args@,
        ) && r.errs()[0].trace_model() == Seq::<Seq<char>>::empty(),
{
    if parts.len() < 2 {
        return Valid::fail(String::from_str("too few parts in template"));
    }
    let head = &parts[0];
    let tail = &parts[1];
    proof {
        assert(parts.deep_view()[0] == head@);
        assert(parts.deep_view()[1] == tail@);
    }
    if *head == String::from_str("value") {
        match get_value_type(type_of, tail) {
            Option::Some(val_type) => {
                proof {
                    let f = assoc_find(type_of.fields@, tail@)->Some_0;
                    lemma_to_type_model(val_type, f.type_of@, f.list, f.required, f.list_type_required);
                }
                if !is_scalar(val_type.name()) {
                    let mut m = String::from_str("value '");
                    m.append(tail.as_str());
                    m.append("' is not of a scalar type");
                    Valid::fail(m)
                } else if !is_query && val_type.is_nullable() {
                    let mut m = String::from_str("value '");
                    m.append(tail.as_str());
                    m.append("' is a nullable type");
                    Valid::fail(m)
                } else {
                    Valid::succeed(())
                }
            },
            Option::None => {
                let mut m = String::from_str("no value '");
                m.append(tail.as_str());
                m.append("' found");
                Valid::fail(m)
            },
        }
    } else if *head == String::from_str("args") {
        match find_arg(args, tail) {
            Option::Some(arg) => {
                if matches!(arg.of_type, Type::ListType { .. }) {
                    let mut m = String::from_str("can't use list type '");
                    m.append(tail.as_str());
                    m.append("' here");
                    Valid::fail(m)
                } else if !is_query && arg.default_value.is_none() && arg.of_type.is_nullable() {
                    let mut m = String::from_str("argument '");
                    m.append(tail.as_str());
                    m.append("' is a nullable type");
                    Valid::fail(m)
                } else {
                    Valid::succeed(())
                }
            },
            Option::None => {
                let mut m = String::from_str("no argument '");
                m.append(tail.as_str());
                m.append("' found");
                Valid::fail(m)
            },
        }
    } else if *head == String::from_str("vars") {
        match assoc_get(&config.server.vars, tail) {
            Option::Some(_) => Valid::succeed(()),
            Option::None => {
                let mut m = String::from_str("var '");
                m.append(tail.as_str());
                m.append("' is not set in the server config");
                Valid::fail(m)
            },
        }
    } else if *head == String::from_str("headers") {
        Valid::succeed(())
    } else {
        let mut m = String::from_str("unknown template directive '");
        m.append(head.as_str());
        m.append("'");
        Valid::fail(m)
    }
}

pub open spec fn opt_view(o: Option<String>) -> Option<Seq<char>> {
    match o {
        Option::Some(s) => Option::Some(s@),
        Option::None => Option::None,
    }
}

pub open spec fn opt_json(o: Option<JsonValue>) -> Option<crate::json::JsonModel> {
    match o {
        Option::Some(v) => Option::Some(json_model(v)),
        Option::None => Option::None,
    }
}

/// Copies an optional documentation string.
fn clone_opt_string(o: &Option<String>) -> (r: Option<String>)
    ensures
        opt_view(r) == opt_view(*o),
{
    match o {
        Option::Some(s) => Option::Some(s.clone()),
        Option::None => Option::None,
    }
}

fn clone_string_vec(v: &Vec<String>) -> (r: Vec<String>)
    ensures
        r.deep_view() == v.deep_view(),
{
    let mut out: Vec<String> = Vec::new();
    let n = v.len();
    let mut i: usize = 0;
    while i < n
        invariant
            0 <= i <= n,
            n == v@.len(),
            out@.len() == i,
            forall|j: int| 0 <= j < i ==> out.deep_view()[j] == v.deep_view()[j],
        decreases n - i,
    {
        out.push(v[i].clone());
        i = i + 1;
    }
    proof {
        assert(out.deep_view() =~= v.deep_view());
    }
    out
}

/// The argument definition `to_args` derives from one declared argument.
pub open spec fn ifd_of_arg(
    d: crate::blueprint::InputFieldDefinition,
    p: (String, Arg),
) -> bool {
    d.name@ == p.0@ && opt_view(d.description) == opt_view(p.1.doc) && to_type_matches(
        d.of_type,
        p.1.type_of@,
        p.1.list,
        p.1.required,
        false,
    ) && opt_json(d.default_value) == opt_json(p.1.default_value)
}

/// Derives the argument definitions of a field; never fails.
pub fn to_args(field: &Field) -> (r: Valid<Vec<crate::blueprint::InputFieldDefinition>, String>)
    ensures
        r.wf(),
        r.is_succ(),
        r.val()@.len() == field.args@.len(),
        forall|i: int| 0 <= i < field.args@.len() ==> ifd_of_arg(
            #[trigger] r.val()@[i],
            field.args@[i],
        ),
{
    let mut out: Vec<crate::blueprint::InputFieldDefinition> = Vec::new();
    let n = field.args.len();
    let mut i: usize = 0;
    while i < n
        invariant
            0 <= i <= n,
            n == field.args@.len(),
            out@.len() == i,
            forall|j: int| 0 <= j < i ==> ifd_of_arg(#[trigger] out@[j], field.args@[j]),
        decreases n - i,
    {
        let (name, arg) = &field.args[i];
        let default_value = match &arg.default_value {
            Option::Some(v) => Option::Some(crate::json::clone_json(v)),
            Option::None => Option::None,
        };
        out.push(
            crate::blueprint::InputFieldDefinition {
                name: name.clone(),
                description: clone_opt_string(&arg.doc),
                of_type: to_type(&arg.type_of, arg.list, arg.required, false),
                default_value,
            },
        );
        i = i + 1;
    }
    Valid::succeed(out)
}

/// The schema inferred for a type name: a configured type becomes an object
/// over its data-carrying fields (those without any resolution directive),
/// a known scalar name its primitive, anything else a string;
/// the result is wrapped for optionality and lists.  `fuel` bounds the
/// descent through the type graph.
pub open spec fn spec_schema_core(
    types: Seq<(String, ConfigType)>,
    type_of: Seq<char>,
    fuel: nat,
) -> SchemaModel
    decreases fuel, 1int, 0int,
{
    match assoc_find(types, type_of) {
        Option::Some(t) => {
            if fuel == 0 {
                SchemaModel::Str
            } else {
                SchemaModel::Obj(spec_schema_fields(types, t.fields@, 0, (fuel - 1) as nat))
            }
        },
        Option::None => {
            if type_of == "String"@ {
                SchemaModel::Str
            } else if type_of == "Int"@ {
                SchemaModel::Num
            } else if type_of == "Boolean"@ {
                SchemaModel::Bool
            } else if type_of == "JSON"@ {
                SchemaModel::Obj(Seq::empty())
            } else {
                SchemaModel::Str
            }
        },
    }
}

pub open spec fn spec_to_json_schema(
    types: Seq<(String, ConfigType)>,
    type_of: Seq<char>,
    required: bool,
    list: bool,
    fuel: nat,
) -> SchemaModel
    decreases fuel, 2int, 0int,
{
    let core = spec_schema_core(types, type_of, fuel);
    if !required {
        if list {
            SchemaModel::Opt(seq![SchemaModel::Arr(seq![core])])
        } else {
            SchemaModel::Opt(seq![core])
        }
    } else if list {
        SchemaModel::Arr(seq![core])
    } else {
        core
    }
}

/// The object members inferred for a type's data fields, from index `i` on.
pub open spec fn spec_schema_fields(
    types: Seq<(String, ConfigType)>,
    fields: Seq<(String, Field)>,
    i: int,
    fuel: nat,
) -> Seq<(Seq<char>, SchemaModel)>
    decreases fuel, 3int, fields.len() - i,
{
    if 0 <= i < fields.len() {
        let rest = spec_schema_fields(types, fields, i + 1, fuel);
        let f = fields[i].1;
        if !f.spec_has_resolver() {
            seq![
                (fields[i].0@, spec_to_json_schema(types, f.type_of@, f.required, f.list, fuel)),
            ] + rest
        } else {
            rest
        }
    } else {
        Seq::empty()
    }
}

/// The schema a field's declared type induces.
pub fn to_json_schema_for_field(field: &Field, config: &Config) -> (r: JsonSchema)
    ensures
        schema_model(r) == spec_to_json_schema(
            config.graphql.types@,
            field.type_of@,
            field.required,
            field.list,
            config.graphql.types@.len() as nat,
        ),
{
    to_json_schema(&field.type_of, field.required, field.list, config)
}

/// The object members the args of one field induce, from index `i` on.
pub open spec fn spec_args_schema(
    types: Seq<(String, ConfigType)>,
    args: Seq<(String, Arg)>,
    i: int,
    fuel: nat,
) -> Seq<(Seq<char>, SchemaModel)>
    decreases args.len() - i,
{
    if 0 <= i < args.len() {
        seq![
            (
                args[i].0@,
                spec_to_json_schema(types, args[i].1.type_of@, args[i].1.required, args[i].1.list, fuel),
            ),
        ] + spec_args_schema(types, args, i + 1, fuel)
    } else {
        Seq::empty()
    }
}

/// The schema of a field's argument record.
pub fn to_json_schema_for_args(args: &Vec<(String, Arg)>, config: &Config) -> (r: JsonSchema)
    ensures
        schema_model(r) == SchemaModel::Obj(
            spec_args_schema(
                config.graphql.types@,
                args@,
                0,
                config.graphql.types@.len() as nat,
            ),
        ),
{
    let fuel = config.graphql.types.len();
    let fields = args_schema_fields(args, 0, config, fuel);
    JsonSchema::Obj(fields)
}

fn args_schema_fields(
    args: &Vec<(String, Arg)>,
    i: usize,
    config: &Config,
    fuel: usize,
) -> (r: Vec<(String, JsonSchema)>)
    requires
        i <= args@.len(),
        fuel == config.graphql.types@.len(),
    ensures
        crate::json::schema_model_fields(r@, 0) == spec_args_schema(
            config.graphql.types@,
            args@,
            i as int,
            fuel as nat,
        ),
    decreases args@.len() - i,
{
    if i == args.len() {
        let r: Vec<(String, JsonSchema)> = Vec::new();
        proof {
            crate::json::lemma_schema_model_fields(r@, 0);
            assert(crate::json::schema_model_fields(r@, 0) =~= Seq::<
                (Seq<char>, SchemaModel),
            >::empty());
        }
        r
    } else {
        let (name, arg) = &args[i];
        let head = to_json_schema(&arg.type_of, arg.required, arg.list, config);
        let mut rest = args_schema_fields(args, i + 1, config, fuel);
        let ghost rest0 = rest@;
        let ghost headm = schema_model(head);
        let mut out: Vec<(String, JsonSchema)> = Vec::new();
        out.push((name.clone(), head));
        out.append(&mut rest);
        proof {
            crate::json::lemma_schema_model_fields(out@, 0);
            crate::json::lemma_schema_model_fields(rest0, 0);
            let outm = crate::json::schema_model_fields(out@, 0);
            let restm = crate::json::schema_model_fields(rest0, 0);
            assert(out@.drop_first() =~= rest0);
            assert(outm[0] == (out@[0].0@, schema_model(out@[0].1)));
            assert(out@[0].0@ == args@[i as int].0@ && out@[0].1 == head);
            assert forall|k: int| 1 <= k < outm.len() implies outm[k] == restm[k - 1] by {
                assert(out@[k] == rest0[k - 1]);
                assert(outm[k] == (out@[k].0@, schema_model(out@[k].1)));
                assert(restm[k - 1] == (rest0[k - 1].0@, schema_model(rest0[k - 1].1)));
            }
            assert(outm =~= seq![(args@[i as int].0@, headm)] + restm);
            assert(outm =~= spec_args_schema(
                config.graphql.types@,
                args@,
                i as int,
                fuel as nat,
            ));
        }
        out
    }
}

/// Infers the structural schema for a type name; see `spec_to_json_schema`.
pub fn to_json_schema(type_of: &String, required: bool, list: bool, config: &Config) -> (r:
    JsonSchema)
    ensures
        schema_model(r) == spec_to_json_schema(
            config.graphql.types@,
            type_of@,
            required,
            list,
            config.graphql.types@.len() as nat,
        ),
{
    let fuel = config.graphql.types.len();
    to_json_schema_fuel(type_of, required, list, config, fuel)
}

fn to_json_schema_fuel(
    type_of: &String,
    required: bool,
    list: bool,
    config: &Config,
    fuel: usize,
) -> (r: JsonSchema)
    ensures
        schema_model(r) == spec_to_json_schema(
            config.graphql.types@,
            type_of@,
            required,
            list,
            fuel as nat,
        ),
    decreases fuel, 1int,
{
    let core: JsonSchema = match config.find_type(type_of) {
        Option::Some(t) => {
            if fuel == 0 {
                JsonSchema::Str
            } else {
                let members = schema_member_fields(&t.fields, 0, config, fuel - 1);
                JsonSchema::Obj(members)
            }
        },
        Option::None => {
            if *type_of == String::from_str("String") {
                JsonSchema::Str
            } else if *type_of == String::from_str("Int") {
                JsonSchema::Num
            } else if *type_of == String::from_str("Boolean") {
                JsonSchema::Bool
            } else if *type_of == String::from_str("JSON") {
                let empty: Vec<(String, JsonSchema)> = Vec::new();
                proof {
                    crate::json::lemma_schema_model_fields(empty@, 0);
                    assert(crate::json::schema_model_fields(empty@, 0) =~= Seq::<
                        (Seq<char>, SchemaModel),
                    >::empty());
                }
                JsonSchema::Obj(empty)
            } else {
                JsonSchema::Str
            }
        },
    };
    proof {
        assert(schema_model(core) == spec_schema_core(
            config.graphql.types@,
            type_of@,
            fuel as nat,
        ));
    }
    if !required {
        if list {
            let r = JsonSchema::Opt(Box::new(JsonSchema::Arr(Box::new(core))));
            proof {
                reveal_with_fuel(crate::json::schema_model, 3);
                assert(schema_model(r)->Opt_0 =~~= seq![
                    SchemaModel::Arr(
                        seq![spec_schema_core(config.graphql.types@, type_of@, fuel as nat)],
                    ),
                ]);
            }
            r
        } else {
            let r = JsonSchema::Opt(Box::new(core));
            proof {
                assert(schema_model(r)->Opt_0 =~= seq![
                    spec_schema_core(config.graphql.types@, type_of@, fuel as nat),
                ]);
            }
            r
        }
    } else if list {
        let r = JsonSchema::Arr(Box::new(core));
        proof {
            assert(schema_model(r)->Arr_0 =~= seq![
                spec_schema_core(config.graphql.types@, type_of@, fuel as nat),
            ]);
        }
        r
    } else {
        core
    }
}

/// Builds the data-field members of an object schema, from index `i` on.
fn schema_member_fields(
    fields: &Vec<(String, Field)>,
    i: usize,
    config: &Config,
    fuel: usize,
) -> (r: Vec<(String, JsonSchema)>)
    requires
        i <= fields@.len(),
    ensures
        crate::json::schema_model_fields(r@, 0) == spec_schema_fields(
            config.graphql.types@,
            fields@,
            i as int,
            fuel as nat,
        ),
    decreases fuel, 3int, fields@.len() - i,
{
    if i == fields.len() {
        let r: Vec<(String, JsonSchema)> = Vec::new();
        proof {
            crate::json::lemma_schema_model_fields(r@, 0);
            assert(crate::json::schema_model_fields(r@, 0) =~= Seq::<
                (Seq<char>, SchemaModel),
            >::empty());
        }
        r
    } else {
        let (name, field) = &fields[i];
        let mut rest = schema_member_fields(fields, i + 1, config, fuel);
        if !field.has_resolver() {
            let head = to_json_schema_fuel(&field.type_of, field.required, field.list, config, fuel);
            let ghost rest0 = rest@;
            let ghost headm = schema_model(head);
            let mut out: Vec<(String, JsonSchema)> = Vec::new();
            out.push((name.clone(), head));
            out.append(&mut rest);
            proof {
                crate::json::lemma_schema_model_fields(out@, 0);
                crate::json::lemma_schema_model_fields(rest0, 0);
                let outm = crate::json::schema_model_fields(out@, 0);
                let restm = crate::json::schema_model_fields(rest0, 0);
                assert(out@.drop_first() =~= rest0);
                assert(outm[0] == (out@[0].0@, schema_model(out@[0].1)));
                assert(out@[0].0@ == fields@[i as int].0@ && out@[0].1 == head);
                assert forall|k: int| 1 <= k < outm.len() implies outm[k] == restm[k - 1] by {
                    assert(out@[k] == rest0[k - 1]);
                    assert(outm[k] == (out@[k].0@, schema_model(out@[k].1)));
                    assert(restm[k - 1] == (rest0[k - 1].0@, schema_model(rest0[k - 1].1)));
                }
                assert(outm =~= seq![(fields@[i as int].0@, headm)] + restm);
                assert(outm =~= spec_schema_fields(
                    config.graphql.types@,
                    fields@,
                    i as int,
                    fuel as nat,
                ));
            }
            out
        } else {
            rest
        }
    }
}


/// A purely numeric path segment: one or more decimal digits.
pub open spec fn is_numeric_seg(s: Seq<char>) -> bool {
    s.len() > 0 && crate::steps::all_digits(s)
}

/// Whether a path segment is purely numeric (a list index).
pub fn is_numeric(s: &String) -> (r: bool)
    ensures
        r == is_numeric_seg(s@),
{
    let st = s.as_str();
    let len = st.unicode_len();
    if len == 0 {
        return false;
    }
    let mut i: usize = 0;
    while i < len
        invariant
            0 <= i <= len,
            len == st@.len(),
            st@ == s@,
            forall|j: int| 0 <= j < i ==> crate::steps::is_digit(#[trigger] st@[j]),
        decreases len - i,
    {
        let c = st.get_char(i);
        let d = c == '0' || c == '1' || c == '2' || c == '3' || c == '4' || c == '5' || c == '6'
            || c == '7' || c == '8' || c == '9';
        if !d {
            proof {
                assert(!crate::steps::is_digit(st@[i as int]));
                assert(!crate::steps::all_digits(s@));
            }
            return false;
        }
        i = i + 1;
    }
    true
}

pub open spec fn sp_path_not_found_msg() -> Seq<char> {
    "Inline can't be done because provided path doesn't exist"@
}

/// The message reported when an inline path crosses a field that has its
/// own resolver: it names the directive kind, the enclosing type name and
/// the crossed field.
pub open spec fn sp_cross_msg(kind: Seq<char>, tname: Seq<char>, fname: Seq<char>) -> Seq<char> {
    "Inline can't be done because of "@ + kind + " resolver at ["@ + tname + "."@ + fname + "]"@
}

/// The directive kind reported for a crossed field.
pub open spec fn sp_resolver_kind(f: Field) -> Seq<char> {
    if f.http is Some {
        "http"@
    } else if f.const_field is Some {
        "const"@
    } else {
        "unsafe"@
    }
}

/// The type shape `to_type` builds.
pub open spec fn sp_to_type_model(
    name: Seq<char>,
    list: bool,
    non_null: bool,
    list_type_required: bool,
) -> crate::blueprint::TypeModel {
    if list {
        crate::blueprint::TypeModel {
            name,
            inner_non_null: list_type_required,
            lists: seq![non_null],
        }
    } else {
        crate::blueprint::TypeModel { name, inner_non_null: non_null, lists: Seq::empty() }
    }
}

/// The meaning of path resolution, from segment `idx` on: a numeric segment
/// clears the current list flag, a named segment steps to a field of the
/// current type (or of the type the current field's type name resolves to),
/// and crossing a field with its own resolver fails naming it.
pub open spec fn sp_process_path(
    cfg: Config,
    path: Seq<Seq<char>>,
    idx: int,
    field: Field,
    cur_list: bool,
    type_info: ConfigType,
    is_required: bool,
) -> Result<crate::blueprint::TypeModel, Seq<Seq<char>>>
    decreases path.len() - idx, 0int,
{
    if !(0 <= idx < path.len()) {
        Result::Ok(
            sp_to_type_model(field.type_of@, cur_list, is_required, field.list_type_required),
        )
    } else {
        let seg = path[idx];
        if is_numeric_seg(seg) {
            sp_process_path(cfg, path, idx + 1, field, false, type_info, false)
        } else if assoc_find(type_info.fields@, seg) is Some {
            sp_process_field_within_type(cfg, path, idx + 1, field, seg, type_info, is_required)
        } else {
            match cfg.spec_find_type(field.type_of@) {
                Option::Some(ti2) => sp_process_field_within_type(
                    cfg,
                    path,
                    idx + 1,
                    field,
                    seg,
                    ti2,
                    is_required,
                ),
                Option::None => Result::Err(seq![sp_path_not_found_msg()]),
            }
        }
    }
}

/// One named step of path resolution; see `sp_process_path`.
pub open spec fn sp_process_field_within_type(
    cfg: Config,
    path: Seq<Seq<char>>,
    start: int,
    field: Field,
    fname: Seq<char>,
    type_info: ConfigType,
    is_required: bool,
) -> Result<crate::blueprint::TypeModel, Seq<Seq<char>>>
    decreases path.len() - start, 1int,
{
    if !(0 <= start <= path.len()) {
        Result::Err(seq![sp_path_not_found_msg()])
    } else {
        match assoc_find(type_info.fields@, fname) {
            Option::Some(next_field) => {
                if next_field.spec_has_resolver() {
                    let msg = sp_cross_msg(sp_resolver_kind(next_field), field.type_of@, fname);
                    match sp_process_path(
                        cfg,
                        path,
                        start,
                        next_field,
                        next_field.list,
                        type_info,
                        is_required,
                    ) {
                        Result::Ok(_) => Result::Err(seq![msg]),
                        Result::Err(es) => Result::Err(seq![msg] + es),
                    }
                } else {
                    let next_req = is_required && next_field.required;
                    if spec_is_scalar(next_field.type_of@) {
                        sp_process_path(
                            cfg,
                            path,
                            start,
                            next_field,
                            next_field.list,
                            type_info,
                            next_req,
                        )
                    } else {
                        match cfg.spec_find_type(next_field.type_of@) {
                            Option::Some(nti) => match sp_process_path(
                                cfg,
                                path,
                                start,
                                next_field,
                                next_field.list,
                                nti,
                                next_req,
                            ) {
                                Result::Ok(tm) => {
                                    if next_field.list {
                                        Result::Ok(
                                            crate::blueprint::TypeModel {
                                                name: tm.name,
                                                inner_non_null: tm.inner_non_null,
                                                lists: tm.lists.push(is_required),
                                            },
                                        )
                                    } else {
                                        Result::Ok(tm)
                                    }
                                },
                                Result::Err(es) => Result::Err(es),
                            },
                            Option::None => Result::Err(seq![sp_path_not_found_msg()]),
                        }
                    }
                }
            },
            Option::None => {
                if start < path.len() {
                    match assoc_find(type_info.fields@, path[start]) {
                        Option::Some(f2) => sp_process_path(
                            cfg,
                            path,
                            start + 1,
                            f2,
                            f2.list,
                            type_info,
                            is_required,
                        ),
                        Option::None => Result::Err(seq![sp_path_not_found_msg()]),
                    }
                } else {
                    Result::Err(seq![sp_path_not_found_msg()])
                }
            },
        }
    }
}

/// Path-crossing law: the moment a named step reaches a field that carries
/// its own resolver directive, resolution fails, and the first error names
/// that field and its directive kind.
pub proof fn lemma_path_crosses_resolver(
    cfg: Config,
    path: Seq<Seq<char>>,
    start: int,
    field: Field,
    fname: Seq<char>,
    type_info: ConfigType,
    is_required: bool,
    next_field: Field,
)
    requires
        0 <= start <= path.len(),
        assoc_find(type_info.fields@, fname) == Option::<Field>::Some(next_field),
        next_field.spec_has_resolver(),
    ensures
        sp_process_field_within_type(cfg, path, start, field, fname, type_info, is_required)
            is Err,
        sp_process_field_within_type(
            cfg,
            path,
            start,
            field,
            fname,
            type_info,
            is_required,
        )->Err_0[0] == sp_cross_msg(sp_resolver_kind(next_field), field.type_of@, fname),
{
}

fn not_found_message() -> (r: String)
    ensures
        r@ == sp_path_not_found_msg(),
{
    String::from_str("Inline can't be done because provided path doesn't exist")
}

fn cross_message(kind: &str, tname: &String, fname: &String) -> (r: String)
    ensures
        r@ == sp_cross_msg(kind@, tname@, fname@),
{
    let mut m = String::from_str("Inline can't be done because of ");
    m.append(kind);
    m.append(" resolver at [");
    m.append(tname.as_str());
    m.append(".");
    m.append(fname.as_str());
    m.append("]");
    m
}

/// Resolves a path through the type graph, from segment `idx` on, computing
/// the type the path evaluates to; see `sp_process_path`.
pub fn process_path(
    path: &Vec<String>,
    idx: usize,
    field: &Field,
    cur_list: bool,
    type_info: &ConfigType,
    is_required: bool,
    config: &Config,
) -> (r: Valid<Type, String>)
    requires
        idx <= path@.len(),
    ensures
        r.wf(),
        match sp_process_path(
            *config,
            path.deep_view(),
            idx as int,
            *field,
            cur_list,
            *type_info,
            is_required,
        ) {
            Result::Ok(tm) => r.is_succ() && crate::blueprint::type_model(r.val()) == tm,
            Result::Err(es) => !r.is_succ() && crate::try_fold::errs_match::<String>(r.errs(), es),
        },
    decreases path@.len() - idx, 0int,
{
    if idx == path.len() {
        let t = to_type(&field.type_of, cur_list, is_required, field.list_type_required);
        proof {
            lemma_to_type_model(t, field.type_of@, cur_list, is_required, field.list_type_required);
            assert(crate::blueprint::type_model(t) == sp_to_type_model(
                field.type_of@,
                cur_list,
                is_required,
                field.list_type_required,
            )) by {
                if cur_list {
                    match t {
                        Type::ListType { of_type, non_null } => {
                            assert(crate::blueprint::type_model(t).lists
                                =~= crate::blueprint::type_model(*of_type).lists.push(non_null));
                        },
                        _ => {},
                    }
                } else {
                    assert(crate::blueprint::type_model(t).lists =~= Seq::<bool>::empty());
                }
            }
        }
        Valid::succeed(t)
    } else {
        let seg = &path[idx];
        proof {
            assert(path.deep_view()[idx as int] == seg@);
        }
        if is_numeric(seg) {
            process_path(path, idx + 1, field, false, type_info, false, config)
        } else if assoc_get(&type_info.fields, seg).is_some() {
            process_field_within_type(path, idx + 1, field, seg, type_info, is_required, config)
        } else {
            match config.find_type(&field.type_of) {
                Option::Some(ti2) => process_field_within_type(
                    path,
                    idx + 1,
                    field,
                    seg,
                    ti2,
                    is_required,
                    config,
                ),
                Option::None => Valid::fail(not_found_message()),
            }
        }
    }
}

/// One named step of path resolution; see `sp_process_field_within_type`.
pub fn process_field_within_type(
    path: &Vec<String>,
    start: usize,
    field: &Field,
    fname: &String,
    type_info: &ConfigType,
    is_required: bool,
    config: &Config,
) -> (r: Valid<Type, String>)
    requires
        start <= path@.len(),
    ensures
        r.wf(),
        match sp_process_field_within_type(
            *config,
            path.deep_view(),
            start as int,
            *field,
            fname@,
            *type_info,
            is_required,
        ) {
            Result::Ok(tm) => r.is_succ() && crate::blueprint::type_model(r.val()) == tm,
            Result::Err(es) => !r.is_succ() && crate::try_fold::errs_match::<String>(r.errs(), es),
        },
    decreases path@.len() - start, 1int,
{
    match assoc_get(&type_info.fields, fname) {
        Option::Some(next_field) => {
            if next_field.has_resolver() {
                let kind: &str = if next_field.http.is_some() {
                    "http"
                } else if next_field.const_field.is_some() {
                    "const"
                } else {
                    "unsafe"
                };
                let msg = cross_message(kind, &field.type_of, fname);
                let rest = process_path(
                    path,
                    start,
                    next_field,
                    next_field.list,
                    type_info,
                    is_required,
                    config,
                );
                let failed: Valid<Type, String> = Valid::fail(msg);
                let out = match (failed.res, rest.res) {
                    (Result::Err(e1), Result::Ok(_)) => Valid::from_validation_err(e1),
                    (Result::Err(e1), Result::Err(e2)) => Valid::from_validation_err(
                        e1.combine(e2),
                    ),
                    (Result::Ok(_), _) => Valid::fail(not_found_message()),
                };
                out
            } else {
                let next_req = is_required && next_field.required;
                if is_scalar(&next_field.type_of) {
                    process_path(
                        path,
                        start,
                        next_field,
                        next_field.list,
                        type_info,
                        next_req,
                        config,
                    )
                } else {
                    match config.find_type(&next_field.type_of) {
                        Option::Some(nti) => {
                            let inner = process_path(
                                path,
                                start,
                                next_field,
                                next_field.list,
                                nti,
                                next_req,
                                config,
                            );
                            match inner.res {
                                Result::Ok(of_type) => {
                                    if next_field.list {
                                        let wrapped = Type::ListType {
                                            of_type: Box::new(of_type),
                                            non_null: is_required,
                                        };
                                        proof {
                                            match &wrapped {
                                                Type::ListType { of_type: o2, non_null } => {
                                                    assert(crate::blueprint::type_model(
                                                        wrapped,
                                                    ).lists =~= crate::blueprint::type_model(
                                                        **o2,
                                                    ).lists.push(*non_null));
                                                },
                                                _ => {},
                                            }
                                        }
                                        Valid::succeed(wrapped)
                                    } else {
                                        Valid::succeed(of_type)
                                    }
                                },
                                Result::Err(e) => Valid::from_validation_err(e),
                            }
                        },
                        Option::None => Valid::fail(not_found_message()),
                    }
                }
            }
        },
        Option::None => {
            if start < path.len() {
                let head = &path[start];
                proof {
                    assert(path.deep_view()[start as int] == head@);
                }
                match assoc_get(&type_info.fields, head) {
                    Option::Some(f2) => process_path(
                        path,
                        start + 1,
                        f2,
                        f2.list,
                        type_info,
                        is_required,
                        config,
                    ),
                    Option::None => Valid::fail(not_found_message()),
                }
            } else {
                Valid::fail(not_found_message())
            }
        },
    }
}


use crate::blueprint::Expression;
use crate::blueprint::FieldDefinition;
use crate::config::Segment;

/// How `update_unsafe` rewrites a field: with a script directive present,
/// the prior resolver (or an identity context read) is wrapped by a script
/// execution; otherwise the field is untouched.
pub open spec fn sp_unsafe_updated(r: FieldDefinition, b: FieldDefinition, field: Field) -> bool {
    match field.unsafe_operation {
        Option::None => r == b,
        Option::Some(op) => r.name == b.name && r.description == b.description && r.args == b.args
            && r.of_type == b.of_type && r.directives == b.directives && (match b.resolver {
            Option::Some(e) => r.resolver matches Option::Some(w) && (w matches
                Expression::UnsafeScript(inner, sc) && *inner == e && sc@ == op.script@),
            Option::None => r.resolver matches Option::Some(w) && (w matches
                Expression::UnsafeScript(inner, sc) && *inner == Expression::ContextValue && sc@
                == op.script@),
        }),
    }
}

/// Wraps the field's resolver in a script execution when a script directive
/// is present.
pub fn update_unsafe(field: &Field, b_field: FieldDefinition) -> (r: FieldDefinition)
    ensures
        sp_unsafe_updated(r, b_field, *field),
{
    match &field.unsafe_operation {
        Option::None => b_field,
        Option::Some(op) => {
            let FieldDefinition { name, description, args, of_type, directives, resolver } =
                b_field;
            let inner = match resolver {
                Option::Some(e) => e,
                Option::None => Expression::ContextValue,
            };
            FieldDefinition {
                name,
                description,
                args,
                of_type,
                directives,
                resolver: Option::Some(
                    Expression::UnsafeScript(Box::new(inner), op.script.clone()),
                ),
            }
        },
    }
}

/// Whether renaming a field to `n` collides with a field inherited from an
/// implemented interface.
pub open spec fn sp_modify_collides(cfg: Config, type_: ConfigType, n: Seq<char>) -> bool {
    exists|i: int|
        0 <= i < type_.implements@.len() && match cfg.spec_find_type(
            #[trigger] type_.implements.deep_view()[i],
        ) {
            Option::Some(it) => crate::assoc::assoc_has(it.fields@, n),
            Option::None => false,
        }
}

/// How a rename rewrites a field: the old name moves behind a context read
/// when no resolver is present.
pub open spec fn sp_renamed(r: FieldDefinition, b: FieldDefinition, n: Seq<char>) -> bool {
    r.name@ == n && r.description == b.description && r.args == b.args && r.of_type == b.of_type
        && r.directives == b.directives && (match b.resolver {
        Option::Some(e) => r.resolver == Option::Some(e),
        Option::None => r.resolver matches Option::Some(w) && (w matches Expression::ContextField(
            old_name,
        ) && old_name@ == b.name@),
    })
}

/// Applies the rename/omit directive: omission drops the field, a rename is
/// rejected when an implemented interface already provides the new name.
pub fn update_modify(
    field: &Field,
    b_field: FieldDefinition,
    type_: &ConfigType,
    config: &Config,
) -> (r: Valid<Option<FieldDefinition>, String>)
    ensures
        r.wf(),
        match field.modify {
            Option::None => r.is_succ() && r.val() == Option::Some(b_field),
            Option::Some(m) => {
                if m.omit {
                    r.is_succ() && r.val() == Option::<FieldDefinition>::None
                } else {
                    match m.name {
                        Option::None => r.is_succ() && r.val() == Option::Some(b_field),
                        Option::Some(n) => {
                            if sp_modify_collides(*config, *type_, n@) {
                                !r.is_succ() && r.errs().len() == 1 && r.errs()[0].message@
                                    == "Field is already implemented from interface"@
                            } else {
                                r.is_succ() && (r.val() matches Option::Some(f2) && sp_renamed(
                                    f2,
                                    b_field,
                                    n@,
                                ))
                            }
                        },
                    }
                }
            },
        },
{
    match &field.modify {
        Option::None => Valid::succeed(Option::Some(b_field)),
        Option::Some(m) => {
            if m.omit {
                Valid::succeed(Option::None)
            } else {
                match &m.name {
                    Option::None => Valid::succeed(Option::Some(b_field)),
                    Option::Some(new_name) => {
                        let count = type_.implements.len();
                        let mut i: usize = 0;
                        while i < count
                            invariant
                                0 <= i <= count,
                                count == type_.implements@.len(),
                                field.modify matches Option::Some(m2) && !m2.omit && (m2.name
                                    matches Option::Some(nn) && nn@ == new_name@),
                                forall|j: int| 0 <= j < i ==> match config.spec_find_type(
                                    #[trigger] type_.implements.deep_view()[j],
                                ) {
                                    Option::Some(it) => !crate::assoc::assoc_has(
                                        it.fields@,
                                        new_name@,
                                    ),
                                    Option::None => true,
                                },
                            decreases count - i,
                        {
                            proof {
                                assert(type_.implements.deep_view()[i as int]
                                    == type_.implements@[i as int]@);
                            }
                            match config.find_type(&type_.implements[i]) {
                                Option::Some(interface) => {
                                    if assoc_get(&interface.fields, new_name).is_some() {
                                        proof {
                                            let iv = type_.implements.deep_view()[i as int];
                                            assert(config.spec_find_type(iv) matches Option::Some(
                                                it,
                                            ) && crate::assoc::assoc_has(it.fields@, new_name@));
                                            assert(sp_modify_collides(*config, *type_, new_name@));
                                        }
                                        return Valid::fail(
                                            String::from_str(
                                                "Field is already implemented from interface",
                                            ),
                                        );
                                    }
                                },
                                Option::None => {},
                            }
                            i = i + 1;
                        }
                        let FieldDefinition {
                            name,
                            description,
                            args,
                            of_type,
                            directives,
                            resolver,
                        } = b_field;
                        let new_resolver = match resolver {
                            Option::Some(e) => Option::Some(e),
                            Option::None => Option::Some(Expression::ContextField(name)),
                        };
                        let renamed = FieldDefinition {
                            name: new_name.clone(),
                            description,
                            args,
                            of_type,
                            directives,
                            resolver: new_resolver,
                        };
                        Valid::succeed(Option::Some(renamed))
                    },
                }
            }
        },
    }
}

/// Applies the literal-constant directive: the literal must conform to the
/// schema inferred for the field's declared type; on success it becomes the
/// field's resolver.
pub fn update_const_field(field: &Field, b_field: FieldDefinition, config: &Config) -> (r: Valid<
    FieldDefinition,
    String,
>)
    ensures
        r.wf(),
        match field.const_field {
            Option::None => r.is_succ() && r.val() == b_field,
            Option::Some(cf) => {
                let sm = spec_to_json_schema(
                    config.graphql.types@,
                    field.type_of@,
                    field.required,
                    field.list,
                    config.graphql.types@.len() as nat,
                );
                if conforms(sm, json_model(cf.data)) {
                    r.is_succ() && (r.val().name == b_field.name && r.val().description
                        == b_field.description && r.val().args == b_field.args && r.val().of_type
                        == b_field.of_type && r.val().directives == b_field.directives && (
                    r.val().resolver matches Option::Some(w) && (w matches Expression::Literal(d)
                        && json_model(d) == json_model(cf.data))))
                } else {
                    !r.is_succ()
                }
            },
        },
{
    match &field.const_field {
        Option::None => Valid::succeed(b_field),
        Option::Some(cf) => {
            let schema = to_json_schema_for_field(field, config);
            let checked = schema.validate(&cf.data);
            match checked.res {
                Result::Ok(_) => {
                    let FieldDefinition { name, description, args, of_type, directives, .. } =
                        b_field;
                    Valid::succeed(
                        FieldDefinition {
                            name,
                            description,
                            args,
                            of_type,
                            directives,
                            resolver: Option::Some(
                                Expression::Literal(crate::json::clone_json(&cf.data)),
                            ),
                        },
                    )
                },
                Result::Err(e) => Valid::from_validation_err(e),
            }
        },
    }
}

/// How the inline directive rewrites a field: the resolved path type (or,
/// under a numeric index, an unconstrained nullable of its name) replaces
/// the field's type, and the resolver becomes a path projection.
pub open spec fn sp_inline_updated(
    r: FieldDefinition,
    b: FieldDefinition,
    path: Seq<Seq<char>>,
    tm: crate::blueprint::TypeModel,
    has_index: bool,
) -> bool {
    r.name == b.name && r.description == b.description && r.args == b.args && r.directives
        == b.directives && (if has_index {
        r.of_type matches Type::NamedType { name: n, non_null: false } && n@ == tm.name
    } else {
        crate::blueprint::type_model(r.of_type) == tm
    }) && (match b.resolver {
        Option::None => r.resolver matches Option::Some(w) && (w matches Expression::ContextPath(
            p,
        ) && p.deep_view() == path),
        Option::Some(e) => r.resolver matches Option::Some(w) && (w matches Expression::InputPath(
            inner,
            p,
        ) && *inner == e && p.deep_view() == path),
    })
}

/// Whether any path segment is a numeric index.
pub open spec fn sp_has_index(path: Seq<Seq<char>>) -> bool {
    exists|i: int| 0 <= i < path.len() && is_numeric_seg(#[trigger] path[i])
}

/// Applies the inline-path directive; see `sp_process_path` for the path
/// rules.
pub fn update_inline_field(
    type_info: &ConfigType,
    field: &Field,
    base_field: FieldDefinition,
    config: &Config,
) -> (r: Valid<FieldDefinition, String>)
    ensures
        r.wf(),
        match field.inline {
            Option::None => r.is_succ() && r.val() == base_field,
            Option::Some(il) => {
                match sp_process_path(
                    *config,
                    il.path.deep_view(),
                    0,
                    *field,
                    field.list,
                    *type_info,
                    false,
                ) {
                    Result::Ok(tm) => r.is_succ() && sp_inline_updated(
                        r.val(),
                        base_field,
                        il.path.deep_view(),
                        tm,
                        sp_has_index(il.path.deep_view()),
                    ),
                    Result::Err(es) => !r.is_succ() && crate::try_fold::errs_match::<String>(
                        r.errs(),
                        es,
                    ),
                }
            },
        },
{
    match &field.inline {
        Option::None => Valid::succeed(base_field),
        Option::Some(il) => {
            let mut has_index = false;
            let count = il.path.len();
            let mut i: usize = 0;
            while i < count
                invariant
                    0 <= i <= count,
                    count == il.path@.len(),
                    has_index == exists|j: int|
                        0 <= j < i && is_numeric_seg(#[trigger] il.path.deep_view()[j]),
                decreases count - i,
            {
                proof {
                    assert(il.path.deep_view()[i as int] == il.path@[i as int]@);
                }
                if is_numeric(&il.path[i]) {
                    has_index = true;
                }
                i = i + 1;
            }
            let resolved = process_path(&il.path, 0, field, field.list, type_info, false, config);
            match resolved.res {
                Result::Ok(of_type) => {
                    let new_type: Type = if has_index {
                        Type::NamedType { name: of_type.name().clone(), non_null: false }
                    } else {
                        of_type
                    };
                    let FieldDefinition { name, description, args, directives, resolver, .. } =
                        base_field;
                    let new_resolver = match resolver {
                        Option::Some(e) => Expression::InputPath(
                            Box::new(e),
                            clone_string_vec(&il.path),
                        ),
                        Option::None => Expression::ContextPath(clone_string_vec(&il.path)),
                    };
                    Valid::succeed(
                        FieldDefinition {
                            name,
                            description,
                            args,
                            of_type: new_type,
                            directives,
                            resolver: Option::Some(new_resolver),
                        },
                    )
                },
                Result::Err(e) => Valid::from_validation_err(e),
            }
        },
    }
}

/// The shape of one template segment: its literal text, or the parts of an
/// interpolation expression.
pub enum SegModel {
    Lit(Seq<char>),
    Expr(Seq<Seq<char>>),
}

pub open spec fn seg_model(s: Segment) -> SegModel {
    match s {
        Segment::Lit(t) => SegModel::Lit(t@),
        Segment::Expr(p) => SegModel::Expr(p.deep_view()),
    }
}

pub open spec fn segs_model(ss: Seq<Segment>) -> Seq<SegModel> {
    Seq::new(ss.len(), |i: int| seg_model(ss[i]))
}

pub open spec fn template_model(t: crate::config::Template) -> Seq<SegModel> {
    segs_model(t.segments@)
}

/// Every interpolation expression among the segments is valid in its
/// namespace.
pub open spec fn sp_segments_ok(
    t: ConfigType,
    cfg: Config,
    is_query: bool,
    segs: Seq<SegModel>,
    args: Seq<crate::blueprint::InputFieldDefinition>,
) -> bool {
    forall|i: int|
        0 <= i < segs.len() ==> match #[trigger] segs[i] {
            SegModel::Expr(parts) => spec_mustache_ok(t, cfg, is_query, parts, args),
            SegModel::Lit(_) => true,
        }
}

/// Every template of an endpoint binding is valid: the path templates in a
/// non-query position, the query templates in a query position.
pub open spec fn sp_request_template_ok(
    t: ConfigType,
    cfg: Config,
    rt: crate::blueprint::RequestTemplate,
    args: Seq<crate::blueprint::InputFieldDefinition>,
) -> bool {
    sp_segments_ok(t, cfg, false, template_model(rt.root_url), args) && forall|q: int|
        0 <= q < rt.query@.len() ==> sp_segments_ok(
            t,
            cfg,
            true,
            template_model((#[trigger] rt.query@[q]).1),
            args,
        )
}

/// The per-segment check over a segment sequence coincides with
/// `sp_segments_ok` over its model.
proof fn lemma_segments_ok_model(
    t: ConfigType,
    cfg: Config,
    is_query: bool,
    ss: Seq<Segment>,
    args: Seq<crate::blueprint::InputFieldDefinition>,
)
    ensures
        sp_segments_ok(t, cfg, is_query, segs_model(ss), args) <==> (forall|j: int|
            0 <= j < ss.len() ==> match seg_model(#[trigger] ss[j]) {
                SegModel::Expr(parts) => spec_mustache_ok(t, cfg, is_query, parts, args),
                SegModel::Lit(_) => true,
            }),
{
    let sm = segs_model(ss);
    if sp_segments_ok(t, cfg, is_query, sm, args) {
        assert forall|j: int| 0 <= j < ss.len() implies (match seg_model(#[trigger] ss[j]) {
            SegModel::Expr(parts) => spec_mustache_ok(t, cfg, is_query, parts, args),
            SegModel::Lit(_) => true,
        }) by {
            assert(sm[j] == seg_model(ss[j]));
        }
    }
    if forall|j: int|
        0 <= j < ss.len() ==> match seg_model(#[trigger] ss[j]) {
            SegModel::Expr(parts) => spec_mustache_ok(t, cfg, is_query, parts, args),
            SegModel::Lit(_) => true,
        } {
        assert forall|i: int| 0 <= i < sm.len() implies (match #[trigger] sm[i] {
            SegModel::Expr(parts) => spec_mustache_ok(t, cfg, is_query, parts, args),
            SegModel::Lit(_) => true,
        }) by {
            assert(sm[i] == seg_model(ss[i]));
        }
    }
}

/// The causes the segment check produces, from segment `i` on: one cause
/// per invalid interpolation, in segment order, carrying `sp_mustache_err`
/// and the tag of the position it stood in.
pub open spec fn sp_segments_errs(
    t: ConfigType,
    cfg: Config,
    is_query: bool,
    segs: Seq<SegModel>,
    args: Seq<crate::blueprint::InputFieldDefinition>,
    tag: Seq<char>,
    i: int,
) -> Seq<(Seq<char>, Seq<Seq<char>>)>
    decreases segs.len() - i,
{
    if 0 <= i < segs.len() {
        (match segs[i] {
            SegModel::Expr(parts) => {
                if !spec_mustache_ok(t, cfg, is_query, parts, args) {
                    seq![(sp_mustache_err(t, cfg, is_query, parts, args), seq![tag])]
                } else {
                    Seq::empty()
                }
            },
            SegModel::Lit(_) => Seq::empty(),
        }) + sp_segments_errs(t, cfg, is_query, segs, args, tag, i + 1)
    } else {
        Seq::empty()
    }
}

fn validate_segments(
    type_of: &ConfigType,
    config: &Config,
    is_query: bool,
    segments: &Vec<Segment>,
    args: &Vec<crate::blueprint::InputFieldDefinition>,
    i: usize,
    context_name: &str,
) -> (r: Valid<(), String>)
    requires
        i <= segments@.len(),
    ensures
        r.wf(),
        r.is_succ() <==> forall|j: int|
            i <= j < segments@.len() ==> match seg_model(#[trigger] segments@[j]) {
                SegModel::Expr(parts) => spec_mustache_ok(
                    *type_of,
                    *config,
                    is_query,
                    parts,
                    args@,
                ),
                SegModel::Lit(_) => true,
            },
        crate::valid::cause_views(r.errs()) == sp_segments_errs(
            *type_of,
            *config,
            is_query,
            segs_model(segments@),
            args@,
            context_name@,
            i as int,
        ),
    decreases segments@.len() - i,
{
    if i == segments.len() {
        let r: Valid<(), String> = Valid::succeed(());
        proof {
            assert(crate::valid::cause_views(r.errs()) =~= sp_segments_errs(
                *type_of,
                *config,
                is_query,
                segs_model(segments@),
                args@,
                context_name@,
                i as int,
            ));
        }
        r
    } else {
        let head: Valid<(), String> = match &segments[i] {
            Segment::Expr(parts) => validate_mustache_parts(
                type_of,
                config,
                is_query,
                parts,
                args,
            ).trace(context_name),
            Segment::Lit(_) => Valid::succeed(()),
        };
        let rest = validate_segments(type_of, config, is_query, segments, args, i + 1, context_name);
        let out = head.and(rest);
        proof {
            let sm = segs_model(segments@);
            assert(sm[i as int] == seg_model(segments@[i as int]));
            crate::valid::lemma_cause_views_concat(head.errs(), rest.errs());
            if !out.is_succ() {
                assert(out.errs() == head.errs() + rest.errs());
            }
            assert(crate::valid::cause_views(head.errs()) =~= (match sm[i as int] {
                SegModel::Expr(parts) => {
                    if !spec_mustache_ok(*type_of, *config, is_query, parts, args@) {
                        seq![
                            (
                                sp_mustache_err(*type_of, *config, is_query, parts, args@),
                                seq![context_name@],
                            ),
                        ]
                    } else {
                        Seq::empty()
                    }
                },
                SegModel::Lit(_) => Seq::empty(),
            }));
            if out.is_succ() {
                assert(crate::valid::cause_views(out.errs()) =~= Seq::<
                    (Seq<char>, Seq<Seq<char>>),
                >::empty());
                assert(sp_segments_errs(
                    *type_of,
                    *config,
                    is_query,
                    sm,
                    args@,
                    context_name@,
                    i as int,
                ) =~= Seq::<(Seq<char>, Seq<Seq<char>>)>::empty());
            }
        }
        out
    }
}

/// The template models of the query entries.
pub open spec fn query_models(query: Seq<(String, crate::config::Template)>) -> Seq<Seq<SegModel>> {
    Seq::new(query.len(), |i: int| template_model(query[i].1))
}

/// The causes produced over the query templates, from entry `q` on.
pub open spec fn sp_queries_errs(
    t: ConfigType,
    cfg: Config,
    qmodels: Seq<Seq<SegModel>>,
    args: Seq<crate::blueprint::InputFieldDefinition>,
    q: int,
) -> Seq<(Seq<char>, Seq<Seq<char>>)>
    decreases qmodels.len() - q,
{
    if 0 <= q < qmodels.len() {
        sp_segments_errs(t, cfg, true, qmodels[q], args, "query"@, 0) + sp_queries_errs(
            t,
            cfg,
            qmodels,
            args,
            q + 1,
        )
    } else {
        Seq::empty()
    }
}

fn validate_queries(
    type_of: &ConfigType,
    config: &Config,
    query: &Vec<(String, crate::config::Template)>,
    args: &Vec<crate::blueprint::InputFieldDefinition>,
    q: usize,
) -> (r: Valid<(), String>)
    requires
        q <= query@.len(),
    ensures
        r.wf(),
        r.is_succ() <==> forall|j: int|
            q <= j < query@.len() ==> sp_segments_ok(
                *type_of,
                *config,
                true,
                template_model((#[trigger] query@[j]).1),
                args@,
            ),
        crate::valid::cause_views(r.errs()) == sp_queries_errs(
            *type_of,
            *config,
            query_models(query@),
            args@,
            q as int,
        ),
    decreases query@.len() - q,
{
    if q == query.len() {
        let r: Valid<(), String> = Valid::succeed(());
        proof {
            assert(crate::valid::cause_views(r.errs()) =~= sp_queries_errs(
                *type_of,
                *config,
                query_models(query@),
                args@,
                q as int,
            ));
        }
        r
    } else {
        let head = validate_segments(
            type_of,
            config,
            true,
            &query[q].1.segments,
            args,
            0,
            "query",
        );
        proof {
            lemma_segments_ok_model(*type_of, *config, true, query@[q as int].1.segments@, args@);
            assert(query_models(query@)[q as int] == template_model(query@[q as int].1));
        }
        let rest = validate_queries(type_of, config, query, args, q + 1);
        let out = head.and(rest);
        proof {
            crate::valid::lemma_cause_views_concat(head.errs(), rest.errs());
            if out.is_succ() {
                assert(crate::valid::cause_views(out.errs()) =~= Seq::<
                    (Seq<char>, Seq<Seq<char>>),
                >::empty());
                assert(sp_queries_errs(
                    *type_of,
                    *config,
                    query_models(query@),
                    args@,
                    q as int,
                ) =~= Seq::<(Seq<char>, Seq<Seq<char>>)>::empty());
            }
        }
        out
    }
}

/// Validates every interpolation of a field's endpoint binding against the
/// field's own type and argument namespace; fields without an endpoint
/// binding pass.
pub fn validate_field(type_of: &ConfigType, config: &Config, field: &FieldDefinition) -> (r: Valid<
    (),
    String,
>)
    ensures
        r.wf(),
        r.is_succ() == match field.resolver {
            Option::Some(Expression::Endpoint(rt, _)) => sp_request_template_ok(
                *type_of,
                *config,
                rt,
                field.args@,
            ),
            _ => true,
        },
        crate::valid::cause_views(r.errs()) == match field.resolver {
            Option::Some(Expression::Endpoint(rt, _)) => sp_segments_errs(
                *type_of,
                *config,
                false,
                template_model(rt.root_url),
                field.args@,
                "path"@,
                0,
            ) + sp_queries_errs(*type_of, *config, query_models(rt.query@), field.args@, 0),
            _ => Seq::empty(),
        },
{
    match &field.resolver {
        Option::Some(Expression::Endpoint(rt, _)) => {
            let path_ok = validate_segments(
                type_of,
                config,
                false,
                &rt.root_url.segments,
                &field.args,
                0,
                "path",
            );
            proof {
                lemma_segments_ok_model(
                    *type_of,
                    *config,
                    false,
                    rt.root_url.segments@,
                    field.args@,
                );
            }
            let query_ok = validate_queries(type_of, config, &rt.query, &field.args, 0);
            let out = path_ok.and(query_ok).unit();
            proof {
                crate::valid::lemma_cause_views_concat(path_ok.errs(), query_ok.errs());
                if out.is_succ() {
                    assert(crate::valid::cause_views(out.errs()) =~= Seq::<
                        (Seq<char>, Seq<Seq<char>>),
                    >::empty());
                }
            }
            out
        },
        _ => {
            let r: Valid<(), String> = Valid::succeed(());
            proof {
                assert(crate::valid::cause_views(r.errs()) =~= Seq::<
                    (Seq<char>, Seq<Seq<char>>),
                >::empty());
            }
            r
        },
    }
}


use crate::blueprint::GroupBy;
use crate::blueprint::RequestTemplate;
use crate::config::Http;
use crate::config::Method;
use crate::config::Template;

/// The base URL in force for one endpoint binding: the field-level one, or
/// the upstream default.
pub open spec fn sp_effective_base(cfg: Config, h: Http) -> Option<String> {
    match h.base_url {
        Option::Some(b) => Option::Some(b),
        Option::None => cfg.upstream.base_url,
    }
}

/// The grouping rule: a non-empty group-by key is only legal on GET.
pub open spec fn sp_group_by_ok(h: Http) -> bool {
    h.group_by@.len() == 0 || h.method == Method::Get
}

/// Every configured header has a syntactically valid name and value.
pub open spec fn sp_headers_ok(headers: Seq<(String, String)>) -> bool {
    forall|i: int|
        0 <= i < headers.len() ==> crate::trusted::header_name_result(
            (#[trigger] headers[i]).0@,
        ) is Ok && crate::trusted::header_value_result(headers[i].1@) is Ok
}

/// A base URL with a trailing slash loses it before the path is appended.
pub open spec fn sp_trim_slash(s: Seq<char>) -> Seq<char> {
    if s.len() > 0 && s.last() == '/' {
        s.drop_last()
    } else {
        s
    }
}

/// When an endpoint binding compiles: a base URL is in force, grouping is
/// legal, every header parses, and every interpolation in the path and the
/// query templates is valid against the field's namespace.
pub open spec fn sp_http_binding_ok(
    cfg: Config,
    t: ConfigType,
    h: Http,
    args: Seq<crate::blueprint::InputFieldDefinition>,
) -> bool {
    sp_effective_base(cfg, h) is Some && sp_group_by_ok(h) && sp_headers_ok(h.headers@)
        && sp_segments_ok(t, cfg, false, template_model(h.path), args) && forall|q: int|
        0 <= q < h.query@.len() ==> sp_segments_ok(
            t,
            cfg,
            true,
            template_model((#[trigger] h.query@[q]).1),
            args,
        )
}

/// The request template built for an endpoint binding: the trimmed base URL
/// followed by the path template, with the binding's method, query, headers
/// and body, and the schemas inferred for the field and its arguments.
pub open spec fn sp_template_built(
    rt: RequestTemplate,
    cfg: Config,
    field: Field,
    h: Http,
    base: String,
) -> bool {
    template_model(rt.root_url) == seq![SegModel::Lit(sp_trim_slash(base@))] + template_model(
        h.path,
    ) && rt.method == h.method && rt.query@.len() == h.query@.len() && (forall|i: int|
        0 <= i < h.query@.len() ==> (#[trigger] rt.query@[i]).0@ == h.query@[i].0@
            && template_model(rt.query@[i].1) == template_model(h.query@[i].1)) && rt.headers@.len()
        == h.headers@.len() && (forall|i: int|
        0 <= i < h.headers@.len() ==> (#[trigger] rt.headers@[i]).0@ == h.headers@[i].0@
            && rt.headers@[i].1@ == h.headers@[i].1@) && opt_view(rt.body) == opt_view(h.body)
        && schema_model(rt.output) == spec_to_json_schema(
        cfg.graphql.types@,
        field.type_of@,
        field.required,
        field.list,
        cfg.graphql.types@.len() as nat,
    ) && schema_model(rt.input) == SchemaModel::Obj(
        spec_args_schema(cfg.graphql.types@, field.args@, 0, cfg.graphql.types@.len() as nat),
    )
}

/// How `update_http` rewrites a field on success: everything kept, and the
/// resolver bound to the built endpoint, grouped exactly when the binding
/// has a group-by key.
pub open spec fn sp_http_updated(
    r: FieldDefinition,
    b: FieldDefinition,
    cfg: Config,
    field: Field,
    h: Http,
) -> bool {
    r.name == b.name && r.description == b.description && r.args == b.args && r.of_type
        == b.of_type && r.directives == b.directives && (r.resolver matches Option::Some(w) && (w
        matches Expression::Endpoint(rt, gb) && sp_template_built(
        rt,
        cfg,
        field,
        h,
        sp_effective_base(cfg, h)->Some_0,
    ) && (if h.group_by@.len() > 0 {
        gb matches Option::Some(g) && g.path.deep_view() == h.group_by.deep_view()
    } else {
        gb is None
    })))
}

fn trim_trailing_slash(base: &String) -> (r: String)
    ensures
        r@ == sp_trim_slash(base@),
{
    let st = base.as_str();
    let len = st.unicode_len();
    if len > 0 && st.get_char(len - 1) == '/' {
        let sub = st.substring_char(0, len - 1);
        proof {
            assert(sub@ =~= base@.drop_last());
        }
        String::from_str(sub)
    } else {
        base.clone()
    }
}

fn clone_segments(segs: &Vec<Segment>, i: usize) -> (r: Vec<Segment>)
    requires
        i <= segs@.len(),
    ensures
        r@.len() == segs@.len() - i,
        forall|k: int| 0 <= k < r@.len() ==> seg_model(#[trigger] r@[k]) == seg_model(
            segs@[k + i],
        ),
    decreases segs@.len() - i,
{
    let mut out: Vec<Segment> = Vec::new();
    if i < segs.len() {
        let head: Segment = match &segs[i] {
            Segment::Lit(t) => Segment::Lit(t.clone()),
            Segment::Expr(p) => Segment::Expr(clone_string_vec(p)),
        };
        let mut rest = clone_segments(segs, i + 1);
        out.push(head);
        out.append(&mut rest);
    }
    out
}

fn clone_template(t: &Template) -> (r: Template)
    ensures
        template_model(r) == template_model(*t),
{
    let segments = clone_segments(&t.segments, 0);
    let r = Template { segments };
    proof {
        assert(template_model(r) =~= template_model(*t));
    }
    r
}

fn build_root_url(trimmed: String, path: &Template) -> (r: Template)
    ensures
        template_model(r) == seq![SegModel::Lit(trimmed@)] + template_model(*path),
{
    let mut segments: Vec<Segment> = Vec::new();
    segments.push(Segment::Lit(trimmed));
    let mut rest = clone_segments(&path.segments, 0);
    segments.append(&mut rest);
    let r = Template { segments };
    proof {
        assert(template_model(r) =~= seq![SegModel::Lit(r.segments@[0]->Lit_0@)] + template_model(
            *path,
        ));
    }
    r
}

fn clone_queries(query: &Vec<(String, Template)>, i: usize) -> (r: Vec<(String, Template)>)
    requires
        i <= query@.len(),
    ensures
        r@.len() == query@.len() - i,
        forall|k: int| 0 <= k < r@.len() ==> (#[trigger] r@[k]).0@ == query@[k + i].0@
            && template_model(r@[k].1) == template_model(query@[k + i].1),
    decreases query@.len() - i,
{
    let mut out: Vec<(String, Template)> = Vec::new();
    if i < query.len() {
        let head = (query[i].0.clone(), clone_template(&query[i].1));
        let mut rest = clone_queries(query, i + 1);
        out.push(head);
        out.append(&mut rest);
    }
    out
}

/// The parser messages of every invalid header, in header order, an invalid
/// name before an invalid value of the same header.
pub open spec fn sp_header_errs(headers: Seq<(String, String)>, i: int) -> Seq<Seq<char>>
    decreases headers.len() - i,
{
    if 0 <= i < headers.len() {
        (match crate::trusted::header_name_result(headers[i].0@) {
            Result::Err(m) => seq![m],
            Result::Ok(_) => Seq::empty(),
        }) + (match crate::trusted::header_value_result(headers[i].1@) {
            Result::Err(m) => seq![m],
            Result::Ok(_) => Seq::empty(),
        }) + sp_header_errs(headers, i + 1)
    } else {
        Seq::empty()
    }
}

/// Checks every configured header through the header-validation capability;
/// each invalid name or value contributes its own cause, in order.
fn check_headers(headers: &Vec<(String, String)>, i: usize) -> (r: Valid<
    Vec<(String, String)>,
    String,
>)
    requires
        i <= headers@.len(),
    ensures
        r.wf(),
        r.is_succ() <==> forall|j: int|
            i <= j < headers@.len() ==> crate::trusted::header_name_result(
                (#[trigger] headers@[j]).0@,
            ) is Ok && crate::trusted::header_value_result(headers@[j].1@) is Ok,
        r.is_succ() ==> r.val()@.len() == headers@.len() - i && forall|k: int|
            0 <= k < r.val()@.len() ==> (#[trigger] r.val()@[k]).0@ == headers@[k + i].0@
                && r.val()@[k].1@ == headers@[k + i].1@,
        crate::valid::cause_views(r.errs()) == crate::valid::plain_causes(
            sp_header_errs(headers@, i as int),
        ),
    decreases headers@.len() - i,
{
    if i == headers.len() {
        let r: Valid<Vec<(String, String)>, String> = Valid::succeed(Vec::new());
        proof {
            assert(crate::valid::cause_views(r.errs()) =~= crate::valid::plain_causes(
                sp_header_errs(headers@, i as int),
            ));
        }
        r
    } else {
        let name_ok = crate::trusted::check_header_name(&headers[i].0);
        let value_ok = crate::trusted::check_header_value(&headers[i].1);
        let head: Valid<(String, String), String> = match (name_ok, value_ok) {
            (Result::Ok(_), Result::Ok(_)) => Valid::succeed(
                (headers[i].0.clone(), headers[i].1.clone()),
            ),
            (Result::Err(m), Result::Ok(_)) => Valid::fail(m),
            (Result::Ok(_), Result::Err(m)) => Valid::fail(m),
            (Result::Err(m1), Result::Err(m2)) => Valid::from_validation_err(
                crate::valid::ValidationError::new(m1).combine(
                    crate::valid::ValidationError::new(m2),
                ),
            ),
        };
        let rest = check_headers(headers, i + 1);
        proof {
            crate::valid::lemma_cause_views_concat(head.errs(), rest.errs());
            assert(crate::valid::cause_views(head.errs()) =~= crate::valid::plain_causes(
                (match crate::trusted::header_name_result(headers@[i as int].0@) {
                    Result::Err(m) => seq![m],
                    Result::Ok(_) => Seq::empty(),
                }) + (match crate::trusted::header_value_result(headers@[i as int].1@) {
                    Result::Err(m) => seq![m],
                    Result::Ok(_) => Seq::empty(),
                }),
            ));
            assert(crate::valid::plain_causes(sp_header_errs(headers@, i as int))
                =~= crate::valid::cause_views(head.errs()) + crate::valid::cause_views(
                rest.errs(),
            ));
        }
        match (head.res, rest.res) {
            (Result::Ok(p), Result::Ok(rv)) => {
                let mut rv = rv;
                let mut out: Vec<(String, String)> = Vec::new();
                out.push(p);
                out.append(&mut rv);
                let r = Valid::succeed(out);
                proof {
                    assert(crate::valid::cause_views(r.errs()) =~= crate::valid::plain_causes(
                        sp_header_errs(headers@, i as int),
                    ));
                }
                r
            },
            (Result::Err(e1), Result::Ok(_)) => Valid::from_validation_err(e1),
            (Result::Ok(_), Result::Err(e2)) => Valid::from_validation_err(e2),
            (Result::Err(e1), Result::Err(e2)) => Valid::from_validation_err(e1.combine(e2)),
        }
    }
}

/// Applies the endpoint directive: resolves the effective base URL, builds
/// the request template, enforces the grouping rule, and validates every
/// interpolation against the field's namespace.  Succeeds exactly when
/// `sp_http_binding_ok` holds of the binding.
pub fn update_http(
    field: &Field,
    b_field: FieldDefinition,
    type_of: &ConfigType,
    config: &Config,
) -> (r: Valid<FieldDefinition, String>)
    ensures
        r.wf(),
        match field.http {
            Option::None => r.is_succ() && r.val() == b_field,
            Option::Some(h) => {
                r.is_succ() == sp_http_binding_ok(*config, *type_of, h, b_field.args@) && (
                r.is_succ() ==> sp_http_updated(r.val(), b_field, *config, *field, h)) && (
                h.group_by@.len() > 0 && h.method != Method::Get ==> !r.is_succ()) && (
                sp_effective_base(*config, h) is Some && h.group_by@.len() > 0 && h.method
                    != Method::Get ==> r.errs().len() >= 1 && r.errs()[0].message@
                    == "GroupBy is only supported for GET requests"@) && (sp_effective_base(
                    *config,
                    h,
                ) is None ==> r.errs().len() == 1 && r.errs()[0].message@
                    == "No base URL defined"@ && r.errs()[0].trace_model() == Seq::<
                    Seq<char>,
                >::empty()) && (sp_effective_base(*config, h) is Some && !(sp_group_by_ok(h)
                    && sp_headers_ok(h.headers@)) ==> crate::valid::cause_views(r.errs()) == (
                if !sp_group_by_ok(h) {
                    seq![
                        (
                            "GroupBy is only supported for GET requests"@,
                            Seq::<Seq<char>>::empty(),
                        ),
                    ]
                } else {
                    Seq::empty()
                }) + crate::valid::plain_causes(sp_header_errs(h.headers@, 0))) && (
                sp_effective_base(*config, h) is Some && sp_group_by_ok(h) && sp_headers_ok(
                    h.headers@,
                ) && !r.is_succ() ==> crate::valid::cause_views(r.errs()) == sp_segments_errs(
                    *type_of,
                    *config,
                    false,
                    seq![
                        SegModel::Lit(sp_trim_slash(sp_effective_base(*config, h)->Some_0@)),
                    ] + template_model(h.path),
                    b_field.args@,
                    "path"@,
                    0,
                ) + sp_queries_errs(
                    *type_of,
                    *config,
                    query_models(h.query@),
                    b_field.args@,
                    0,
                ))
            },
        },
{
    match &field.http {
        Option::None => Valid::succeed(b_field),
        Option::Some(http) => {
            let base_ref: Option<&String> = match &http.base_url {
                Option::Some(b) => Option::Some(b),
                Option::None => match &config.upstream.base_url {
                    Option::Some(b) => Option::Some(b),
                    Option::None => Option::None,
                },
            };
            match base_ref {
                Option::None => Valid::fail(String::from_str("No base URL defined")),
                Option::Some(base) => {
                    let trimmed = trim_trailing_slash(base);
                    let group_violation = http.group_by.len() > 0 && !matches!(
                        http.method,
                        Method::Get,
                    );
                    let gval: Valid<(), String> = if group_violation {
                        Valid::fail(String::from_str("GroupBy is only supported for GET requests"))
                    } else {
                        Valid::succeed(())
                    };
                    let hval = check_headers(&http.headers, 0);
                    let combined = gval.and(hval);
                    proof {
                        crate::valid::lemma_cause_views_concat(gval.errs(), hval.errs());
                        if group_violation {
                            assert(crate::valid::cause_views(gval.errs()) =~= seq![
                                (
                                    "GroupBy is only supported for GET requests"@,
                                    Seq::<Seq<char>>::empty(),
                                ),
                            ]);
                        } else {
                            assert(crate::valid::cause_views(gval.errs()) =~= Seq::<
                                (Seq<char>, Seq<Seq<char>>),
                            >::empty());
                        }
                    }
                    match combined.res {
                        Result::Err(e) => Valid::from_validation_err(e),
                        Result::Ok(headers) => {
                            let output = to_json_schema_for_field(field, config);
                            let input = to_json_schema_for_args(&field.args, config);
                            let root_url = build_root_url(trimmed, &http.path);
                            let query = clone_queries(&http.query, 0);
                            let rt = RequestTemplate {
                                root_url,
                                method: http.method,
                                query,
                                headers,
                                body: clone_opt_string(&http.body),
                                output,
                                input,
                            };
                            let gb: Option<GroupBy> = if http.group_by.len() > 0 {
                                Option::Some(GroupBy { path: clone_string_vec(&http.group_by) })
                            } else {
                                Option::None
                            };
                            let FieldDefinition {
                                name,
                                description,
                                args,
                                of_type,
                                directives,
                                ..
                            } = b_field;
                            let updated = FieldDefinition {
                                name,
                                description,
                                args,
                                of_type,
                                directives,
                                resolver: Option::Some(Expression::Endpoint(rt, gb)),
                            };
                            let checked = validate_field(type_of, config, &updated);
                            proof {
                                let h = field.http->Some_0;
                                let rtv = updated.resolver->Some_0->Endpoint_0;
                                assert(template_model(rtv.root_url) =~= seq![
                                    SegModel::Lit(sp_trim_slash(base@)),
                                ] + template_model(h.path));
                                assert(sp_segments_ok(
                                    *type_of,
                                    *config,
                                    false,
                                    template_model(rtv.root_url),
                                    updated.args@,
                                ) == sp_segments_ok(
                                    *type_of,
                                    *config,
                                    false,
                                    template_model(h.path),
                                    updated.args@,
                                )) by {
                                    lemma_lit_prefix_segments(
                                        *type_of,
                                        *config,
                                        sp_trim_slash(base@),
                                        template_model(h.path),
                                        updated.args@,
                                    );
                                }
                                assert forall|q: int| 0 <= q < h.query@.len() implies (
                                sp_segments_ok(
                                    *type_of,
                                    *config,
                                    true,
                                    template_model((#[trigger] rtv.query@[q]).1),
                                    updated.args@,
                                ) == sp_segments_ok(
                                    *type_of,
                                    *config,
                                    true,
                                    template_model(h.query@[q].1),
                                    updated.args@,
                                )) by {
                                    assert(template_model(rtv.query@[q].1) == template_model(
                                        h.query@[q].1,
                                    ));
                                }
                                assert(query_models(rtv.query@) =~= query_models(h.query@));
                            }
                            proof {
                                let h = field.http->Some_0;
                                let rtv = updated.resolver->Some_0->Endpoint_0;
                                assert(sp_effective_base(*config, h) is Some);
                                assert(!group_violation);
                                assert(sp_group_by_ok(h));
                                assert(sp_headers_ok(h.headers@));
                                assert(updated.args == b_field.args);
                                if checked.is_succ() {
                                    assert(sp_request_template_ok(
                                        *type_of,
                                        *config,
                                        rtv,
                                        updated.args@,
                                    ));
                                    assert forall|q: int| 0 <= q < h.query@.len() implies
                                        sp_segments_ok(
                                        *type_of,
                                        *config,
                                        true,
                                        template_model((#[trigger] h.query@[q]).1),
                                        updated.args@,
                                    ) by {
                                        assert(sp_segments_ok(
                                            *type_of,
                                            *config,
                                            true,
                                            template_model(rtv.query@[q].1),
                                            updated.args@,
                                        ));
                                    }
                                    assert(sp_http_binding_ok(
                                        *config,
                                        *type_of,
                                        h,
                                        b_field.args@,
                                    ));
                                    assert(sp_template_built(rtv, *config, *field, h, *base));
                                    assert(sp_http_updated(updated, b_field, *config, *field, h));
                                }
                                if sp_http_binding_ok(*config, *type_of, h, b_field.args@) {
                                    assert forall|q: int| 0 <= q < rtv.query@.len() implies
                                        sp_segments_ok(
                                        *type_of,
                                        *config,
                                        true,
                                        template_model((#[trigger] rtv.query@[q]).1),
                                        updated.args@,
                                    ) by {
                                        assert(template_model(rtv.query@[q].1) == template_model(
                                            h.query@[q].1,
                                        ));
                                        assert(sp_segments_ok(
                                            *type_of,
                                            *config,
                                            true,
                                            template_model(h.query@[q].1),
                                            updated.args@,
                                        ));
                                    }
                                    assert(sp_request_template_ok(
                                        *type_of,
                                        *config,
                                        rtv,
                                        updated.args@,
                                    ));
                                    assert(checked.is_succ());
                                }
                            }
                            match checked.res {
                                Result::Ok(_) => Valid::succeed(updated),
                                Result::Err(e) => Valid::from_validation_err(e),
                            }
                        },
                    }
                },
            }
        },
    }
}

/// A literal prefix adds nothing to the validity of a template.
proof fn lemma_lit_prefix_segments(
    t: ConfigType,
    cfg: Config,
    lit: Seq<char>,
    rest: Seq<SegModel>,
    args: Seq<crate::blueprint::InputFieldDefinition>,
)
    ensures
        sp_segments_ok(t, cfg, false, seq![SegModel::Lit(lit)] + rest, args) == sp_segments_ok(
            t,
            cfg,
            false,
            rest,
            args,
        ),
{
    let whole = seq![SegModel::Lit(lit)] + rest;
    if sp_segments_ok(t, cfg, false, whole, args) {
        assert forall|i: int| 0 <= i < rest.len() implies (match #[trigger] rest[i] {
            SegModel::Expr(parts) => spec_mustache_ok(t, cfg, false, parts, args),
            SegModel::Lit(_) => true,
        }) by {
            assert(whole[i + 1] == rest[i]);
        }
    }
    if sp_segments_ok(t, cfg, false, rest, args) {
        assert forall|i: int| 0 <= i < whole.len() implies (match #[trigger] whole[i] {
            SegModel::Expr(parts) => spec_mustache_ok(t, cfg, false, parts, args),
            SegModel::Lit(_) => true,
        }) by {
            if i > 0 {
                assert(whole[i] == rest[i - 1]);
            } else {
                assert(whole[0] == SegModel::Lit(lit));
            }
        }
    }
}


/// The names of the resolution directives set on a field, in the order the
/// conflict report lists them.
pub open spec fn sp_directive_names(f: Field) -> Seq<Seq<char>> {
    (if f.http is Some {
        seq!["http"@]
    } else {
        Seq::empty()
    }) + (if f.unsafe_operation is Some {
        seq!["unsafe"@]
    } else {
        Seq::empty()
    }) + (if f.const_field is Some {
        seq!["const"@]
    } else {
        Seq::empty()
    }) + (if f.inline is Some {
        seq!["inline"@]
    } else {
        Seq::empty()
    })
}

pub open spec fn sp_join(names: Seq<Seq<char>>) -> Seq<char>
    decreases names.len(),
{
    if names.len() == 0 {
        Seq::empty()
    } else if names.len() == 1 {
        names[0]
    } else {
        names[0] + ", "@ + sp_join(names.drop_first())
    }
}

/// The conflict message for a field with several resolution directives: it
/// names every directive set on the field.
pub open spec fn sp_multiple_msg(f: Field) -> Seq<char> {
    "Multiple resolvers detected ["@ + sp_join(sp_directive_names(f)) + "]"@
}

/// The names of the resolution directives set on a field.
pub fn resolvable_directives(field: &Field) -> (r: Vec<String>)
    ensures
        r.deep_view() == sp_directive_names(*field),
{
    let mut out: Vec<String> = Vec::new();
    if field.http.is_some() {
        out.push(String::from_str("http"));
    }
    if field.unsafe_operation.is_some() {
        out.push(String::from_str("unsafe"));
    }
    if field.const_field.is_some() {
        out.push(String::from_str("const"));
    }
    if field.inline.is_some() {
        out.push(String::from_str("inline"));
    }
    proof {
        assert(out.deep_view() =~= sp_directive_names(*field));
    }
    out
}

fn join_names(names: &Vec<String>, i: usize) -> (r: String)
    requires
        i <= names@.len(),
    ensures
        r@ == sp_join(names.deep_view().skip(i as int)),
    decreases names@.len() - i,
{
    if i == names.len() {
        proof {
            assert(names.deep_view().skip(i as int) =~= Seq::<Seq<char>>::empty());
        }
        String::new()
    } else if i == names.len() - 1 {
        proof {
            assert(names.deep_view().skip(i as int)[0] == names.deep_view()[i as int]);
        }
        names[i].clone()
    } else {
        let rest = join_names(names, i + 1);
        let mut m = names[i].clone();
        m.append(", ");
        m.append(rest.as_str());
        proof {
            let sk = names.deep_view().skip(i as int);
            assert(sk[0] == names.deep_view()[i as int]);
            assert(sk.drop_first() =~= names.deep_view().skip(i as int + 1));
            reveal_strlit(", ");
        }
        m
    }
}

/// The declared type of a field is a scalar or a configured type.
pub open spec fn sp_type_exists(cfg: Config, f: Field) -> bool {
    spec_is_scalar(f.type_of@) || cfg.spec_find_type(f.type_of@) is Some
}

/// The literal directive, when present, conforms to the field's schema.
pub open spec fn sp_const_ok(cfg: Config, f: Field) -> bool {
    match f.const_field {
        Option::None => true,
        Option::Some(cf) => conforms(
            spec_to_json_schema(
                cfg.graphql.types@,
                f.type_of@,
                f.required,
                f.list,
                cfg.graphql.types@.len() as nat,
            ),
            json_model(cf.data),
        ),
    }
}

/// The inline directive, when present, resolves.
pub open spec fn sp_inline_ok(cfg: Config, t: ConfigType, f: Field) -> bool {
    match f.inline {
        Option::None => true,
        Option::Some(il) => sp_process_path(cfg, il.path.deep_view(), 0, f, f.list, t, false)
            is Ok,
    }
}

/// The rename directive, when present, does not collide with an interface.
pub open spec fn sp_modify_ok(cfg: Config, t: ConfigType, f: Field) -> bool {
    match f.modify {
        Option::None => true,
        Option::Some(m) => m.omit || match m.name {
            Option::None => true,
            Option::Some(n) => !sp_modify_collides(cfg, t, n@),
        },
    }
}

/// Whether the field is dropped from the output by an omit directive.
pub open spec fn sp_omitted(f: Field) -> bool {
    f.modify matches Option::Some(m) && m.omit
}

/// The name the produced field definition carries: the rename target when
/// one is set, the configured name otherwise.
pub open spec fn sp_final_name(f: Field, n: Seq<char>) -> Seq<char> {
    match f.modify {
        Option::Some(m) => match m.name {
            Option::Some(nn) => nn@,
            Option::None => n,
        },
        Option::None => n,
    }
}

/// `spec_mustache_ok`, stated over the declared arguments instead of the
/// derived argument definitions.
pub open spec fn spec_mustache_ok_args(
    type_of: ConfigType,
    cfg: Config,
    is_query: bool,
    parts: Seq<Seq<char>>,
    args: Seq<(String, Arg)>,
) -> bool {
    parts.len() >= 2 && {
        let head = parts[0];
        let tail = parts[1];
        if head == "value"@ {
            match assoc_find(type_of.fields@, tail) {
                Option::Some(f) => spec_is_scalar(f.type_of@) && (is_query || f.required),
                Option::None => false,
            }
        } else if head == "args"@ {
            match assoc_find(args, tail) {
                Option::Some(a) => !a.list && (is_query || a.default_value is Some || a.required),
                Option::None => false,
            }
        } else if head == "vars"@ {
            assoc_find(cfg.server.vars@, tail) is Some
        } else {
            head == "headers"@
        }
    }
}

pub open spec fn sp_segments_ok_args(
    t: ConfigType,
    cfg: Config,
    is_query: bool,
    segs: Seq<SegModel>,
    args: Seq<(String, Arg)>,
) -> bool {
    forall|i: int|
        0 <= i < segs.len() ==> match #[trigger] segs[i] {
            SegModel::Expr(parts) => spec_mustache_ok_args(t, cfg, is_query, parts, args),
            SegModel::Lit(_) => true,
        }
}

/// When an endpoint binding compiles, stated over the field alone.
pub open spec fn sp_http_field_ok(cfg: Config, t: ConfigType, f: Field) -> bool {
    match f.http {
        Option::None => true,
        Option::Some(h) => sp_effective_base(cfg, h) is Some && sp_group_by_ok(h) && sp_headers_ok(
            h.headers@,
        ) && sp_segments_ok_args(t, cfg, false, template_model(h.path), f.args@) && forall|q: int|
            0 <= q < h.query@.len() ==> sp_segments_ok_args(
                t,
                cfg,
                true,
                template_model((#[trigger] h.query@[q]).1),
                f.args@,
            ),
    }
}

/// When one configured field translates, all directives considered.
pub open spec fn sp_to_field_ok(cfg: Config, t: ConfigType, f: Field) -> bool {
    sp_http_field_ok(cfg, t, f) && sp_const_ok(cfg, f) && sp_inline_ok(cfg, t, f) && sp_modify_ok(
        cfg,
        t,
        f,
    )
}

/// The derived argument definitions look a name up exactly as the declared
/// arguments do.
proof fn lemma_ifd_assoc(
    ifds: Seq<crate::blueprint::InputFieldDefinition>,
    args: Seq<(String, Arg)>,
    n: Seq<char>,
)
    requires
        ifds.len() == args.len(),
        forall|i: int| 0 <= i < args.len() ==> ifd_of_arg(#[trigger] ifds[i], args[i]),
    ensures
        match assoc_find(args, n) {
            Option::Some(a) => ifd_find(ifds, n) matches Option::Some(d) && (d.of_type
                is ListType) == a.list && spec_is_nullable(d.of_type) == !a.required && (
            d.default_value is Some) == (a.default_value is Some),
            Option::None => ifd_find(ifds, n) is None,
        },
    decreases args.len(),
{
    if args.len() > 0 {
        assert(ifd_of_arg(ifds[0], args[0]));
        if args[0].0@ == n {
            let d = ifds[0];
            let a = args[0].1;
            if a.list {
                assert(d.of_type is ListType);
            }
            lemma_to_type_model(d.of_type, a.type_of@, a.list, a.required, false);
        } else {
            assert forall|i: int| 0 <= i < args.drop_first().len() implies ifd_of_arg(
                #[trigger] ifds.drop_first()[i],
                args.drop_first()[i],
            ) by {
                assert(ifds.drop_first()[i] == ifds[i + 1]);
                assert(args.drop_first()[i] == args[i + 1]);
            }
            lemma_ifd_assoc(ifds.drop_first(), args.drop_first(), n);
        }
    }
}

/// The two statements of expression validity coincide when the argument
/// definitions are derived from the declared arguments.
proof fn lemma_mustache_equiv(
    t: ConfigType,
    cfg: Config,
    is_query: bool,
    parts: Seq<Seq<char>>,
    ifds: Seq<crate::blueprint::InputFieldDefinition>,
    args: Seq<(String, Arg)>,
)
    requires
        ifds.len() == args.len(),
        forall|i: int| 0 <= i < args.len() ==> ifd_of_arg(#[trigger] ifds[i], args[i]),
    ensures
        spec_mustache_ok(t, cfg, is_query, parts, ifds) == spec_mustache_ok_args(
            t,
            cfg,
            is_query,
            parts,
            args,
        ),
{
    if parts.len() >= 2 {
        lemma_ifd_assoc(ifds, args, parts[1]);
    }
}

/// The lifted statement over whole templates coincides as well.
proof fn lemma_segments_equiv(
    t: ConfigType,
    cfg: Config,
    is_query: bool,
    segs: Seq<SegModel>,
    ifds: Seq<crate::blueprint::InputFieldDefinition>,
    args: Seq<(String, Arg)>,
)
    requires
        ifds.len() == args.len(),
        forall|i: int| 0 <= i < args.len() ==> ifd_of_arg(#[trigger] ifds[i], args[i]),
    ensures
        sp_segments_ok(t, cfg, is_query, segs, ifds) == sp_segments_ok_args(
            t,
            cfg,
            is_query,
            segs,
            args,
        ),
{
    if sp_segments_ok(t, cfg, is_query, segs, ifds) {
        assert forall|i: int| 0 <= i < segs.len() implies (match #[trigger] segs[i] {
            SegModel::Expr(parts) => spec_mustache_ok_args(t, cfg, is_query, parts, args),
            SegModel::Lit(_) => true,
        }) by {
            match segs[i] {
                SegModel::Expr(parts) => {
                    lemma_mustache_equiv(t, cfg, is_query, parts, ifds, args);
                },
                SegModel::Lit(_) => {},
            }
        }
    }
    if sp_segments_ok_args(t, cfg, is_query, segs, args) {
        assert forall|i: int| 0 <= i < segs.len() implies (match #[trigger] segs[i] {
            SegModel::Expr(parts) => spec_mustache_ok(t, cfg, is_query, parts, ifds),
            SegModel::Lit(_) => true,
        }) by {
            match segs[i] {
                SegModel::Expr(parts) => {
                    lemma_mustache_equiv(t, cfg, is_query, parts, ifds, args);
                },
                SegModel::Lit(_) => {},
            }
        }
    }
}

/// Translates one configured field into at most one field definition,
/// applying the endpoint, script, literal, inline and rename directives in
/// that order.  A field with several resolution directives is rejected with
/// a message naming them all; otherwise translation succeeds exactly when
/// every directive present is valid, and produces no field exactly when an
/// omit directive is set.
pub fn to_field(type_of: &ConfigType, config: &Config, name: &String, field: &Field) -> (r: Valid<
    Option<FieldDefinition>,
    String,
>)
    ensures
        r.wf(),
        field.spec_resolver_count() > 1 ==> !r.is_succ() && r.errs().len() == 1 && r.errs()[
            0
        ].message@ == sp_multiple_msg(*field),
        field.spec_resolver_count() <= 1 ==> r.is_succ() == sp_to_field_ok(
            *config,
            *type_of,
            *field,
        ),
        r.is_succ() && field.spec_resolver_count() <= 1 ==> ((r.val() is None) == sp_omitted(
            *field,
        )),
        r.is_succ() ==> match r.val() {
            Option::Some(f) => f.name@ == sp_final_name(*field, name@),
            Option::None => true,
        },
        field.spec_resolver_count() <= 1 && !r.is_succ() ==> forall|k: int|
            0 <= k < r.errs().len() ==> ((#[trigger] r.errs()[k]).trace_model().len() > 0 && (
            r.errs()[k].trace_model()[0] == "@http"@ || r.errs()[k].trace_model()[0] == "@const"@
                || r.errs()[k].trace_model()[0] == "@inline"@ || r.errs()[k].trace_model()[0]
                == "@modify"@)),
        field.http is None && field.unsafe_operation is None && field.const_field is None
            && field.inline is None && field.modify is None ==> r.is_succ() && (r.val() matches
        Option::Some(f) && f.name@ == name@ && opt_view(f.description) == opt_view(field.doc)
            && to_type_matches(
            f.of_type,
            field.type_of@,
            field.list,
            field.required,
            field.list_type_required,
        ) && f.resolver is None && f.args@.len() == field.args@.len()),
{
    let directives = resolvable_directives(field);
    proof {
        assert(sp_directive_names(*field).len() == field.spec_resolver_count());
    }
    if directives.len() > 1 {
        let mut m = String::from_str("Multiple resolvers detected [");
        let joined = join_names(&directives, 0);
        m.append(joined.as_str());
        m.append("]");
        proof {
            assert(directives.deep_view().skip(0) =~= sp_directive_names(*field));
        }
        return Valid::fail(m);
    }
    let args = match to_args(field).res {
        Result::Ok(a) => a,
        Result::Err(e) => {
            proof {
                assert(false);
            }
            return Valid::from_validation_err(e);
        },
    };
    let b_field = FieldDefinition {
        name: name.clone(),
        description: clone_opt_string(&field.doc),
        args,
        of_type: to_type(&field.type_of, field.list, field.required, field.list_type_required),
        directives: Vec::new(),
        resolver: Option::None,
    };
    proof {
        if field.http is Some {
            let h = field.http->Some_0;
            lemma_segments_equiv(
                *type_of,
                *config,
                false,
                template_model(h.path),
                b_field.args@,
                field.args@,
            );
            assert forall|q: int| 0 <= q < h.query@.len() implies (sp_segments_ok(
                *type_of,
                *config,
                true,
                template_model((#[trigger] h.query@[q]).1),
                b_field.args@,
            ) == sp_segments_ok_args(
                *type_of,
                *config,
                true,
                template_model(h.query@[q].1),
                field.args@,
            )) by {
                lemma_segments_equiv(
                    *type_of,
                    *config,
                    true,
                    template_model(h.query@[q].1),
                    b_field.args@,
                    field.args@,
                );
            }
        }
    }
    let r1 = update_http(field, b_field, type_of, config).trace("@http");
    match r1.res {
        Result::Err(e) => Valid::from_validation_err(e),
        Result::Ok(b1) => {
            let b2 = update_unsafe(field, b1);
            let r3 = update_const_field(field, b2, config).trace("@const");
            match r3.res {
                Result::Err(e) => Valid::from_validation_err(e),
                Result::Ok(b3) => {
                    let r4 = update_inline_field(type_of, field, b3, config).trace("@inline");
                    match r4.res {
                        Result::Err(e) => Valid::from_validation_err(e),
                        Result::Ok(b4) => update_modify(field, b4, type_of, config).trace(
                            "@modify",
                        ),
                    }
                },
            }
        },
    }
}


use crate::assoc::contains_name;
use crate::assoc::name_in;
use crate::blueprint::Definition;
use crate::blueprint::Directive;
use crate::blueprint::EnumTypeDefinition;
use crate::blueprint::EnumValueDefinition;
use crate::blueprint::InputObjectTypeDefinition;
use crate::blueprint::InterfaceTypeDefinition;
use crate::blueprint::ObjectTypeDefinition;
use crate::blueprint::ScalarTypeDefinition;
use crate::blueprint::SchemaDefinition;
use crate::blueprint::UnionTypeDefinition;
use crate::config::Union;

/// Builds a scalar definition; never fails.
pub fn to_scalar_type_definition(name: &String) -> (r: Valid<Definition, String>)
    ensures
        r.wf(),
        r.is_succ(),
        r.val() matches Definition::ScalarTypeDefinition(sd) && sd.name@ == name@
            && sd.description is None && sd.directive@.len() == 0,
{
    Valid::succeed(
        Definition::ScalarTypeDefinition(
            ScalarTypeDefinition {
                name: name.clone(),
                description: Option::None,
                directive: Vec::new(),
            },
        ),
    )
}

/// Builds a union definition from a configured union.
pub fn to_union_type_definition(name: &String, u: &Union) -> (r: UnionTypeDefinition)
    ensures
        r.name@ == name@,
        opt_view(r.description) == opt_view(u.doc),
        r.types.deep_view() == u.types.deep_view(),
{
    UnionTypeDefinition {
        name: name.clone(),
        description: clone_opt_string(&u.doc),
        types: clone_string_vec(&u.types),
    }
}

/// Builds an enum definition from the configured variants; never fails.
pub fn to_enum_type_definition(
    name: &String,
    type_: &ConfigType,
    variants: &Vec<String>,
) -> (r: Valid<Definition, String>)
    ensures
        r.wf(),
        r.is_succ(),
        r.val() matches Definition::EnumTypeDefinition(ed) && ed.name@ == name@ && opt_view(
            ed.description,
        ) == opt_view(type_.doc) && ed.enum_values@.len() == variants@.len() && (forall|i: int|
            0 <= i < variants@.len() ==> (#[trigger] ed.enum_values@[i]).name@ == variants@[i]@
                && ed.enum_values@[i].description is None),
{
    let mut values: Vec<EnumValueDefinition> = Vec::new();
    let n = variants.len();
    let mut i: usize = 0;
    while i < n
        invariant
            0 <= i <= n,
            n == variants@.len(),
            values@.len() == i,
            forall|j: int| 0 <= j < i ==> (#[trigger] values@[j]).name@ == variants@[j]@
                && values@[j].description is None,
        decreases n - i,
    {
        values.push(EnumValueDefinition { name: variants[i].clone(), description: Option::None });
        i = i + 1;
    }
    Valid::succeed(
        Definition::EnumTypeDefinition(
            EnumTypeDefinition {
                name: name.clone(),
                description: clone_opt_string(&type_.doc),
                enum_values: values,
            },
        ),
    )
}

/// The names of the produced field definitions of one type, in declaration
/// order: one per field that is not omitted, renamed where a rename is set.
pub open spec fn sp_out_field_names(fields: Seq<(String, Field)>, i: int) -> Seq<Seq<char>>
    decreases fields.len() - i,
{
    if 0 <= i < fields.len() {
        (if sp_omitted(fields[i].1) {
            Seq::empty()
        } else {
            seq![sp_final_name(fields[i].1, fields[i].0@)]
        }) + sp_out_field_names(fields, i + 1)
    } else {
        Seq::empty()
    }
}

/// The names of a sequence of field definitions.
pub open spec fn field_def_names(s: Seq<FieldDefinition>) -> Seq<Seq<char>> {
    Seq::new(s.len(), |i: int| s[i].name@)
}

/// The names of a sequence of argument/input-member definitions.
pub open spec fn input_def_names(s: Seq<crate::blueprint::InputFieldDefinition>) -> Seq<
    Seq<char>,
> {
    Seq::new(s.len(), |i: int| s[i].name@)
}

/// When every field of a configured type translates.
pub open spec fn sp_fields_ok(cfg: Config, t: ConfigType) -> bool {
    forall|j: int|
        0 <= j < t.fields@.len() ==> {
            let f = (#[trigger] t.fields@[j]).1;
            sp_type_exists(cfg, f) && f.spec_resolver_count() <= 1 && sp_to_field_ok(cfg, t, f)
        }
}

/// The declared type of the field is a scalar or a configured type.
pub fn validate_field_type_exist(config: &Config, field: &Field) -> (r: Valid<(), String>)
    ensures
        r.wf(),
        r.is_succ() == sp_type_exists(*config, *field),
        !r.is_succ() ==> r.errs().len() == 1 && r.errs()[0].message@ == "Undeclared type '"@
            + field.type_of@ + "' was found"@ && r.errs()[0].trace_model() == Seq::<
            Seq<char>,
        >::empty(),
{
    if !is_scalar(&field.type_of) && !config.contains(&field.type_of) {
        let mut m = String::from_str("Undeclared type '");
        m.append(field.type_of.as_str());
        m.append("' was found");
        Valid::fail(m)
    } else {
        Valid::succeed(())
    }
}

/// Translates the fields of one configured type, from index `i` on, keeping
/// the fields that are not omitted, in declaration order; errors of all
/// failing fields accumulate, each traced with its field name.
fn to_fields_from(type_of: &ConfigType, config: &Config, i: usize) -> (r: Valid<
    Vec<FieldDefinition>,
    String,
>)
    requires
        i <= type_of.fields@.len(),
    ensures
        r.wf(),
        r.is_succ() <==> forall|j: int|
            i <= j < type_of.fields@.len() ==> {
                let f = (#[trigger] type_of.fields@[j]).1;
                sp_type_exists(*config, f) && f.spec_resolver_count() <= 1 && sp_to_field_ok(
                    *config,
                    *type_of,
                    f,
                )
            },
        r.is_succ() ==> field_def_names(r.val()@) == sp_out_field_names(
            type_of.fields@,
            i as int,
        ),
    decreases type_of.fields@.len() - i,
{
    if i == type_of.fields.len() {
        let r: Valid<Vec<FieldDefinition>, String> = Valid::succeed(Vec::new());
        proof {
            assert(field_def_names(r.val()@) =~= sp_out_field_names(type_of.fields@, i as int));
        }
        r
    } else {
        let (name, field) = &type_of.fields[i];
        let exist = validate_field_type_exist(config, field);
        let translated = to_field(type_of, config, name, field);
        let head = exist.and(translated).trace(name.as_str());
        let rest = to_fields_from(type_of, config, i + 1);
        match (head.res, rest.res) {
            (Result::Ok(maybe), Result::Ok(rv)) => {
                let mut out: Vec<FieldDefinition> = Vec::new();
                match maybe {
                    Option::Some(fd) => out.push(fd),
                    Option::None => {},
                }
                let ghost rv0 = rv@;
                let mut rv = rv;
                out.append(&mut rv);
                proof {
                    assert(field_def_names(out@) =~= sp_out_field_names(
                        type_of.fields@,
                        i as int,
                    )) by {
                        let target = sp_out_field_names(type_of.fields@, i as int);
                        let restnames = sp_out_field_names(type_of.fields@, i as int + 1);
                        assert(field_def_names(rv0) == restnames);
                        if sp_omitted(type_of.fields@[i as int].1) {
                            assert(out@ =~= rv0);
                            assert forall|k: int| 0 <= k < out@.len() implies field_def_names(
                                out@,
                            )[k] == target[k] by {
                                assert(field_def_names(rv0)[k] == restnames[k]);
                            }
                        } else {
                            assert(out@.len() == 1 + rv0.len());
                            assert forall|k: int| 0 <= k < out@.len() implies field_def_names(
                                out@,
                            )[k] == target[k] by {
                                if k > 0 {
                                    assert(out@[k] == rv0[k - 1]);
                                    assert(field_def_names(rv0)[k - 1] == restnames[k - 1]);
                                }
                            }
                        }
                    }
                }
                Valid::succeed(out)
            },
            (Result::Err(e1), Result::Ok(_)) => Valid::from_validation_err(e1),
            (Result::Ok(_), Result::Err(e2)) => Valid::from_validation_err(e2),
            (Result::Err(e1), Result::Err(e2)) => Valid::from_validation_err(e1.combine(e2)),
        }
    }
}

/// Translates every field of a configured type; see `to_fields_from`.
pub fn to_fields(type_of: &ConfigType, config: &Config) -> (r: Valid<Vec<FieldDefinition>, String>)
    ensures
        r.wf(),
        r.is_succ() == sp_fields_ok(*config, *type_of),
        r.is_succ() ==> field_def_names(r.val()@) == sp_out_field_names(type_of.fields@, 0),
{
    to_fields_from(type_of, config, 0)
}

/// Builds an object definition over the translated fields.
pub fn to_object_type_definition(name: &String, type_of: &ConfigType, config: &Config) -> (r: Valid<
    ObjectTypeDefinition,
    String,
>)
    ensures
        r.wf(),
        r.is_succ() == sp_fields_ok(*config, *type_of),
        r.is_succ() ==> r.val().name@ == name@ && opt_view(r.val().description) == opt_view(
            type_of.doc,
        ) && r.val().implements.deep_view() == type_of.implements.deep_view() && field_def_names(
            r.val().fields@,
        ) == sp_out_field_names(type_of.fields@, 0),
{
    let fields = to_fields(type_of, config);
    match fields.res {
        Result::Ok(fs) => Valid::succeed(
            ObjectTypeDefinition {
                name: name.clone(),
                description: clone_opt_string(&type_of.doc),
                fields: fs,
                implements: clone_string_vec(&type_of.implements),
            },
        ),
        Result::Err(e) => Valid::from_validation_err(e),
    }
}

/// Reinterprets an object definition as an input object: the fields lose
/// their resolvers and arguments.
pub fn to_input_object_type_definition(definition: ObjectTypeDefinition) -> (r: Valid<
    Definition,
    String,
>)
    ensures
        r.wf(),
        r.is_succ(),
        r.val() matches Definition::InputObjectTypeDefinition(d) && d.name == definition.name
            && d.description == definition.description && d.fields@.len()
            == definition.fields@.len() && (forall|i: int|
            0 <= i < definition.fields@.len() ==> (#[trigger] d.fields@[i]).name
                == definition.fields@[i].name && d.fields@[i].description
                == definition.fields@[i].description && d.fields@[i].of_type
                == definition.fields@[i].of_type && d.fields@[i].default_value is None),
{
    let ObjectTypeDefinition { name, description, fields, .. } = definition;
    let mut input_fields: Vec<crate::blueprint::InputFieldDefinition> = Vec::new();
    let n = fields.len();
    let mut fields = fields;
    let ghost orig = fields@;
    let mut i: usize = 0;
    while i < n
        invariant
            0 <= i <= n,
            n == orig.len(),
            fields@ =~= orig.skip(i as int),
            input_fields@.len() == i,
            forall|j: int| 0 <= j < i ==> (#[trigger] input_fields@[j]).name == orig[j].name
                && input_fields@[j].description == orig[j].description
                && input_fields@[j].of_type == orig[j].of_type && input_fields@[j].default_value
                is None,
        decreases n - i,
    {
        let FieldDefinition { name: fname, description: fdesc, of_type, .. } = fields.remove(0);
        input_fields.push(
            crate::blueprint::InputFieldDefinition {
                name: fname,
                description: fdesc,
                of_type,
                default_value: Option::None,
            },
        );
        i = i + 1;
    }
    Valid::succeed(
        Definition::InputObjectTypeDefinition(
            InputObjectTypeDefinition { name, fields: input_fields, description },
        ),
    )
}

/// Reinterprets an object definition as an interface definition.
pub fn to_interface_type_definition(definition: ObjectTypeDefinition) -> (r: Valid<
    Definition,
    String,
>)
    ensures
        r.wf(),
        r.is_succ(),
        r.val() matches Definition::InterfaceTypeDefinition(d) && d.name == definition.name
            && d.fields == definition.fields && d.description == definition.description,
{
    let ObjectTypeDefinition { name, description, fields, .. } = definition;
    Valid::succeed(
        Definition::InterfaceTypeDefinition(InterfaceTypeDefinition { name, fields, description }),
    )
}

/// A field carries some resolution directive; the error is traced with the
/// field's name.
pub fn validate_field_has_resolver(name: &String, field: &Field) -> (r: Valid<(), String>)
    ensures
        r.wf(),
        r.is_succ() == field.spec_has_resolver(),
        !r.is_succ() ==> r.errs().len() == 1 && r.errs()[0].message@
            == "No resolver has been found in the schema"@ && r.errs()[0].trace_model() == seq![
            name@,
        ],
{
    if field.has_resolver() {
        Valid::succeed(())
    } else {
        Valid::<(), String>::fail(
            String::from_str("No resolver has been found in the schema"),
        ).trace(name.as_str())
    }
}

/// One cause per field lacking a resolver, in field order, traced with the
/// field's name.
pub open spec fn sp_missing_resolver_causes(fields: Seq<(String, Field)>, i: int) -> Seq<
    (Seq<char>, Seq<Seq<char>>),
>
    decreases fields.len() - i,
{
    if 0 <= i < fields.len() {
        (if fields[i].1.spec_has_resolver() {
            Seq::empty()
        } else {
            seq![("No resolver has been found in the schema"@, seq![fields[i].0@])]
        }) + sp_missing_resolver_causes(fields, i + 1)
    } else {
        Seq::empty()
    }
}

/// Every field of the type, from `i` on, has a resolver; each field without
/// one contributes its own cause.
fn validate_fields_have_resolvers(t: &ConfigType, i: usize) -> (r: Valid<(), String>)
    requires
        i <= t.fields@.len(),
    ensures
        r.wf(),
        r.is_succ() <==> forall|j: int|
            i <= j < t.fields@.len() ==> (#[trigger] t.fields@[j]).1.spec_has_resolver(),
        crate::valid::cause_views(r.errs()) == sp_missing_resolver_causes(t.fields@, i as int),
    decreases t.fields@.len() - i,
{
    if i == t.fields.len() {
        let r: Valid<(), String> = Valid::succeed(());
        proof {
            assert(crate::valid::cause_views(r.errs()) =~= sp_missing_resolver_causes(
                t.fields@,
                i as int,
            ));
        }
        r
    } else {
        let head = validate_field_has_resolver(&t.fields[i].0, &t.fields[i].1);
        let rest = validate_fields_have_resolvers(t, i + 1);
        let out = head.and(rest);
        proof {
            crate::valid::lemma_cause_views_concat(head.errs(), rest.errs());
            if t.fields@[i as int].1.spec_has_resolver() {
                assert(crate::valid::cause_views(head.errs()) =~= Seq::<
                    (Seq<char>, Seq<Seq<char>>),
                >::empty());
            } else {
                assert(crate::valid::cause_views(head.errs()) =~= seq![
                    (
                        "No resolver has been found in the schema"@,
                        seq![t.fields@[i as int].0@],
                    ),
                ]);
            }
            if out.is_succ() {
                assert(crate::valid::cause_views(out.errs()) =~= Seq::<
                    (Seq<char>, Seq<Seq<char>>),
                >::empty());
            }
        }
        out
    }
}

/// The query root is configured, resolvable, and all its fields carry
/// resolvers.
pub open spec fn sp_query_ok(cfg: Config) -> bool {
    match cfg.graphql.schema.query {
        Option::None => false,
        Option::Some(q) => match cfg.spec_find_type(q@) {
            Option::None => false,
            Option::Some(t) => forall|j: int|
                0 <= j < t.fields@.len() ==> (#[trigger] t.fields@[j]).1.spec_has_resolver(),
        },
    }
}

/// The mutation root, when configured, is resolvable and all its fields
/// carry resolvers.
pub open spec fn sp_mutation_ok(cfg: Config) -> bool {
    match cfg.graphql.schema.mutation {
        Option::None => true,
        Option::Some(m) => match cfg.spec_find_type(m@) {
            Option::None => false,
            Option::Some(t) => forall|j: int|
                0 <= j < t.fields@.len() ==> (#[trigger] t.fields@[j]).1.spec_has_resolver(),
        },
    }
}

/// The given causes with `name` pushed in front of every trace.
pub open spec fn sp_traced(name: Seq<char>, cs: Seq<(Seq<char>, Seq<Seq<char>>)>) -> Seq<
    (Seq<char>, Seq<Seq<char>>),
> {
    Seq::new(cs.len(), |i: int| (cs[i].0, seq![name] + cs[i].1))
}

/// The causes query-root validation produces.
pub open spec fn sp_query_causes(cfg: Config) -> Seq<(Seq<char>, Seq<Seq<char>>)> {
    match cfg.graphql.schema.query {
        Option::None => seq![("Query root is missing"@, Seq::<Seq<char>>::empty())],
        Option::Some(q) => match cfg.spec_find_type(q@) {
            Option::None => seq![("Query type is not defined"@, seq![q@])],
            Option::Some(t) => sp_traced(q@, sp_missing_resolver_causes(t.fields@, 0)),
        },
    }
}

/// The causes mutation-root validation produces.
pub open spec fn sp_mutation_causes(cfg: Config) -> Seq<(Seq<char>, Seq<Seq<char>>)> {
    match cfg.graphql.schema.mutation {
        Option::None => Seq::empty(),
        Option::Some(m) => match cfg.spec_find_type(m@) {
            Option::None => seq![("Mutation type is not defined"@, seq![m@])],
            Option::Some(t) => sp_traced(m@, sp_missing_resolver_causes(t.fields@, 0)),
        },
    }
}

/// Validates the query root; succeeds exactly when `sp_query_ok` holds, and
/// fails with exactly `sp_query_causes`.
pub fn validate_query(config: &Config) -> (r: Valid<(), String>)
    ensures
        r.wf(),
        r.is_succ() == sp_query_ok(*config),
        crate::valid::cause_views(r.errs()) == if sp_query_ok(*config) {
            Seq::<(Seq<char>, Seq<Seq<char>>)>::empty()
        } else {
            sp_query_causes(*config)
        },
{
    match &config.graphql.schema.query {
        Option::None => {
            let r: Valid<(), String> = Valid::fail(String::from_str("Query root is missing"));
            proof {
                assert(crate::valid::cause_views(r.errs()) =~= sp_query_causes(*config));
            }
            r
        },
        Option::Some(qname) => {
            match config.find_type(qname) {
                Option::None => {
                    let r = Valid::<(), String>::fail(
                        String::from_str("Query type is not defined"),
                    ).trace(qname.as_str());
                    proof {
                        assert(crate::valid::cause_views(r.errs()) =~= sp_query_causes(*config));
                    }
                    r
                },
                Option::Some(t) => {
                    let r = validate_fields_have_resolvers(t, 0).trace(qname.as_str());
                    proof {
                        if r.is_succ() {
                            assert(crate::valid::cause_views(r.errs()) =~= Seq::<
                                (Seq<char>, Seq<Seq<char>>),
                            >::empty());
                        } else {
                            assert(crate::valid::cause_views(r.errs()) =~= sp_traced(
                                qname@,
                                sp_missing_resolver_causes(t.fields@, 0),
                            ));
                        }
                    }
                    r
                },
            }
        },
    }
}

/// Validates the mutation root; succeeds exactly when `sp_mutation_ok`
/// holds, and fails with exactly `sp_mutation_causes`.
pub fn validate_mutation(config: &Config) -> (r: Valid<(), String>)
    ensures
        r.wf(),
        r.is_succ() == sp_mutation_ok(*config),
        crate::valid::cause_views(r.errs()) == if sp_mutation_ok(*config) {
            Seq::<(Seq<char>, Seq<Seq<char>>)>::empty()
        } else {
            sp_mutation_causes(*config)
        },
{
    match &config.graphql.schema.mutation {
        Option::None => {
            let r: Valid<(), String> = Valid::succeed(());
            proof {
                assert(crate::valid::cause_views(r.errs()) =~= Seq::<
                    (Seq<char>, Seq<Seq<char>>),
                >::empty());
            }
            r
        },
        Option::Some(mname) => {
            match config.find_type(mname) {
                Option::None => {
                    let r = Valid::<(), String>::fail(
                        String::from_str("Mutation type is not defined"),
                    ).trace(mname.as_str());
                    proof {
                        assert(crate::valid::cause_views(r.errs()) =~= sp_mutation_causes(
                            *config,
                        ));
                    }
                    r
                },
                Option::Some(t) => {
                    let r = validate_fields_have_resolvers(t, 0).trace(mname.as_str());
                    proof {
                        if r.is_succ() {
                            assert(crate::valid::cause_views(r.errs()) =~= Seq::<
                                (Seq<char>, Seq<Seq<char>>),
                            >::empty());
                        } else {
                            assert(crate::valid::cause_views(r.errs()) =~= sp_traced(
                                mname@,
                                sp_missing_resolver_causes(t.fields@, 0),
                            ));
                        }
                    }
                    r
                },
            }
        },
    }
}

/// Builds the schema-level directive record; never fails.
pub fn to_directive(name: String, arguments: Vec<(String, JsonValue)>) -> (r: Valid<
    Directive,
    String,
>)
    ensures
        r.wf(),
        r.is_succ(),
        r.val().name == name && r.val().arguments == arguments && r.val().index == 0,
{
    Valid::succeed(Directive { name, arguments, index: 0 })
}

/// The arguments of the schema-level server directive: one entry per
/// configured variable, as a string value.
fn server_directive_arguments(config: &Config) -> (r: Vec<(String, JsonValue)>)
    ensures
        r@.len() == config.server.vars@.len(),
        forall|i: int| 0 <= i < r@.len() ==> (#[trigger] r@[i]).0@ == config.server.vars@[i].0@
            && json_model(r@[i].1) == crate::json::JsonModel::Str(config.server.vars@[i].1@),
{
    let mut out: Vec<(String, JsonValue)> = Vec::new();
    let n = config.server.vars.len();
    let mut i: usize = 0;
    while i < n
        invariant
            0 <= i <= n,
            n == config.server.vars@.len(),
            out@.len() == i,
            forall|j: int| 0 <= j < i ==> (#[trigger] out@[j]).0@ == config.server.vars@[j].0@
                && json_model(out@[j].1) == crate::json::JsonModel::Str(
                config.server.vars@[j].1@,
            ),
        decreases n - i,
    {
        out.push(
            (config.server.vars[i].0.clone(), JsonValue::Str(config.server.vars[i].1.clone())),
        );
        i = i + 1;
    }
    out
}

/// The causes schema-root building produces, in check order: the query-root
/// causes, the mutation-root causes, and one more missing-root cause when no
/// query root is configured (the root is demanded twice, as a check and as
/// the schema's field).  Empty exactly when the schema root validates.
pub open spec fn sp_schema_causes(cfg: Config) -> Seq<(Seq<char>, Seq<Seq<char>>)> {
    (if sp_query_ok(cfg) {
        Seq::<(Seq<char>, Seq<Seq<char>>)>::empty()
    } else {
        sp_query_causes(cfg)
    }) + (if sp_mutation_ok(cfg) {
        Seq::<(Seq<char>, Seq<Seq<char>>)>::empty()
    } else {
        sp_mutation_causes(cfg)
    }) + (if cfg.graphql.schema.query is None {
        seq![("Query root is missing"@, Seq::<Seq<char>>::empty())]
    } else {
        Seq::<(Seq<char>, Seq<Seq<char>>)>::empty()
    })
}

/// Builds the schema root: the query root must validate, the mutation root
/// too, and the server settings become one schema-level directive whose
/// arguments carry the configured variables as string values.  On failure
/// the causes of the failing checks are concatenated in check order.
pub fn to_schema(config: &Config) -> (r: Valid<SchemaDefinition, String>)
    ensures
        r.wf(),
        r.is_succ() == (sp_query_ok(*config) && sp_mutation_ok(*config)),
        r.is_succ() ==> r.val().query@ == config.graphql.schema.query->Some_0@ && opt_view(
            r.val().mutation,
        ) == opt_view(config.graphql.schema.mutation) && r.val().directives@.len() == 1
            && r.val().directives@[0].name@ == "server"@ && r.val().directives@[0].index == 0
            && r.val().directives@[0].arguments@.len() == config.server.vars@.len() && (forall|
            i: int,
        |
            0 <= i < config.server.vars@.len() ==> (#[trigger] r.val().directives@[0].arguments@[
                i
            ]).0@ == config.server.vars@[i].0@ && json_model(
                r.val().directives@[0].arguments@[i].1,
            ) == crate::json::JsonModel::Str(config.server.vars@[i].1@)),
        crate::valid::cause_views(r.errs()) == sp_schema_causes(*config),
{
    let vq = validate_query(config);
    let vm = validate_mutation(config);
    let qname: Valid<String, String> = match &config.graphql.schema.query {
        Option::Some(q) => Valid::succeed(q.clone()),
        Option::None => Valid::fail(String::from_str("Query root is missing")),
    };
    proof {
        if config.graphql.schema.query is None {
            assert(crate::valid::cause_views(qname.errs()) =~= seq![
                ("Query root is missing"@, Seq::<Seq<char>>::empty()),
            ]);
        } else {
            assert(crate::valid::cause_views(qname.errs()) =~= Seq::<
                (Seq<char>, Seq<Seq<char>>),
            >::empty());
        }
    }
    let ghost vq_errs = vq.errs();
    let first = vq.and(vm);
    let ghost vm_errs = vm.errs();
    let combined = first.and(qname);

    proof {
        crate::valid::lemma_cause_views_concat(vq_errs, vm_errs);
        crate::valid::lemma_cause_views_concat(vq_errs + vm_errs, qname.errs());
        if !combined.is_succ() {
            assert(combined.errs() =~= (vq_errs + vm_errs) + qname.errs());
            assert(crate::valid::cause_views(combined.errs()) =~= sp_schema_causes(*config));
        }
    }
    match combined.res {
        Result::Err(e) => Valid::from_validation_err(e),
        Result::Ok(query) => {
            let args = server_directive_arguments(config);
            let dir = to_directive(String::from_str("server"), args);
            match dir.res {
                Result::Ok(directive) => {
                    let mut directives: Vec<Directive> = Vec::new();
                    directives.push(directive);
                    let r = Valid::succeed(
                        SchemaDefinition {
                            query,
                            mutation: clone_opt_string(&config.graphql.schema.mutation),
                            directives,
                        },
                    );
                    proof {
                        assert(crate::valid::cause_views(r.errs()) =~= sp_schema_causes(*config));
                    }
                    r
                },
                Result::Err(e) => Valid::from_validation_err(e),
            }
        },
    }
}


use crate::blueprint::Blueprint;
use crate::config::Batch;
use crate::config::Upstream;

/// Whether one configured type translates, given the input- and output-type
/// closures: a non-empty variant list makes an enum, the scalar flag a
/// scalar, a name used in both closures is rejected, and otherwise every
/// field must translate.
pub open spec fn sp_type_entry_ok(
    cfg: Config,
    outs: Seq<Seq<char>>,
    ins: Seq<Seq<char>>,
    name: Seq<char>,
    t: ConfigType,
) -> bool {
    match t.variants {
        Option::Some(vs) => vs@.len() > 0,
        Option::None => t.scalar || (!(name_in(ins, name) && name_in(outs, name)) && sp_fields_ok(
            cfg,
            t,
        )),
    }
}

/// How one configured type maps to its definition: its kind, name, doc,
/// enum values, and the names of the produced fields.
pub open spec fn sp_def_matches(
    ins: Seq<Seq<char>>,
    name: Seq<char>,
    t: ConfigType,
    d: Definition,
) -> bool {
    match t.variants {
        Option::Some(vs) => d matches Definition::EnumTypeDefinition(e) && e.name@ == name
            && opt_view(e.description) == opt_view(t.doc) && e.enum_values@.len() == vs@.len()
            && (forall|k: int|
            0 <= k < vs@.len() ==> (#[trigger] e.enum_values@[k]).name@ == vs@[k]@
                && e.enum_values@[k].description is None),
        Option::None => {
            if t.scalar {
                d matches Definition::ScalarTypeDefinition(sd) && sd.name@ == name
                    && sd.description is None && sd.directive@.len() == 0
            } else if name_in(ins, name) {
                d matches Definition::InputObjectTypeDefinition(iod) && iod.name@ == name
                    && opt_view(iod.description) == opt_view(t.doc) && input_def_names(
                    iod.fields@,
                ) == sp_out_field_names(t.fields@, 0)
            } else if t.interface {
                d matches Definition::InterfaceTypeDefinition(id) && id.name@ == name
                    && opt_view(id.description) == opt_view(t.doc) && field_def_names(id.fields@)
                    == sp_out_field_names(t.fields@, 0)
            } else {
                d matches Definition::ObjectTypeDefinition(od) && od.name@ == name && opt_view(
                    od.description,
                ) == opt_view(t.doc) && od.implements.deep_view() == t.implements.deep_view()
                    && field_def_names(od.fields@) == sp_out_field_names(t.fields@, 0)
            }
        },
    }
}

/// Translates the configured types from index `i` on; errors of all failing
/// types accumulate, each traced with its type name.
fn to_definitions_from(
    config: &Config,
    output_types: &Vec<String>,
    input_types: &Vec<String>,
    i: usize,
) -> (r: Valid<Vec<Definition>, String>)
    requires
        i <= config.graphql.types@.len(),
    ensures
        r.wf(),
        r.is_succ() <==> forall|j: int|
            i <= j < config.graphql.types@.len() ==> sp_type_entry_ok(
                *config,
                output_types.deep_view(),
                input_types.deep_view(),
                (#[trigger] config.graphql.types@[j]).0@,
                config.graphql.types@[j].1,
            ),
        r.is_succ() ==> r.val()@.len() == config.graphql.types@.len() - i && forall|j: int|
            0 <= j < r.val()@.len() ==> sp_def_matches(
                input_types.deep_view(),
                config.graphql.types@[j + i].0@,
                config.graphql.types@[j + i].1,
                #[trigger] r.val()@[j],
            ),
        forall|j: int|
            i <= j < config.graphql.types@.len() && (#[trigger] config.graphql.types@[j]).1.variants
                is None && !config.graphql.types@[j].1.scalar && name_in(
                input_types.deep_view(),
                config.graphql.types@[j].0@,
            ) && name_in(output_types.deep_view(), config.graphql.types@[j].0@) ==> exists|k: int|
                0 <= k < r.errs().len() && crate::valid::cause_views(r.errs())[k] == (
                "type is used in input and output"@,
                seq![config.graphql.types@[j].0@],
            ),
        forall|j: int|
            i <= j < config.graphql.types@.len() && (match (#[trigger] config.graphql.types@[j]).1.variants {
                Option::Some(vs) => vs@.len() == 0,
                Option::None => false,
            }) ==> exists|k: int|
                0 <= k < r.errs().len() && crate::valid::cause_views(r.errs())[k] == (
                "No variants found for enum"@,
                Seq::<Seq<char>>::empty(),
            ),
        forall|k: int|
            0 <= k < r.errs().len() ==> ({
                let c = #[trigger] crate::valid::cause_views(r.errs())[k];
                c.0 == "No variants found for enum"@ || (c.1.len() > 0 && exists|j: int|
                    i <= j < config.graphql.types@.len() && c.1[0] == (
                    #[trigger] config.graphql.types@[j]).0@)
            }),
    decreases config.graphql.types@.len() - i,
{
    if i == config.graphql.types.len() {
        Valid::succeed(Vec::new())
    } else {
        let (name, type_) = &config.graphql.types[i];
        let head: Valid<Definition, String> = match &type_.variants {
            Option::Some(variants) => {
                if variants.len() > 0 {
                    to_enum_type_definition(name, type_, variants).trace(name.as_str())
                } else {
                    Valid::fail(String::from_str("No variants found for enum"))
                }
            },
            Option::None => {
                if type_.scalar {
                    to_scalar_type_definition(name).trace(name.as_str())
                } else if contains_name(input_types, name) && contains_name(output_types, name) {
                    Valid::<Definition, String>::fail(
                        String::from_str("type is used in input and output"),
                    ).trace(name.as_str())
                } else {
                    let object = to_object_type_definition(name, type_, config);
                    match object.res {
                        Result::Err(e) => Valid::from_validation_err(e).trace(name.as_str()),
                        Result::Ok(od) => {
                            let ghost odv = od;
                            if contains_name(input_types, name) {
                                let din = to_input_object_type_definition(od).trace(name.as_str());
                                proof {
                                    let iod = din.val()->InputObjectTypeDefinition_0;
                                    assert(input_def_names(iod.fields@) =~= field_def_names(
                                        odv.fields@,
                                    ));
                                }
                                din
                            } else if type_.interface {
                                let dif = to_interface_type_definition(od).trace(name.as_str());
                                proof {
                                    let id = dif.val()->InterfaceTypeDefinition_0;
                                    assert(field_def_names(id.fields@) == field_def_names(
                                        odv.fields@,
                                    ));
                                }
                                dif
                            } else {
                                Valid::succeed(Definition::ObjectTypeDefinition(od))
                            }
                        },
                    }
                }
            },
        };
        proof {
            assert forall|k: int| 0 <= k < head.errs().len() implies ({
                let c = #[trigger] crate::valid::cause_views(head.errs())[k];
                c.0 == "No variants found for enum"@ || (c.1.len() > 0 && c.1[0]
                    == config.graphql.types@[i as int].0@)
            }) by {
                assert(crate::valid::cause_views(head.errs())[k] == (
                head.errs()[k].message@,
                head.errs()[k].trace_model(),
                ));
            }
        }
        let rest = to_definitions_from(config, output_types, input_types, i + 1);
        let out = match (head.res, rest.res) {
            (Result::Ok(d), Result::Ok(rv)) => {
                let mut defs: Vec<Definition> = Vec::new();
                defs.push(d);
                let mut rv = rv;
                defs.append(&mut rv);
                Valid::succeed(defs)
            },
            (Result::Err(e1), Result::Ok(_)) => Valid::from_validation_err(e1),
            (Result::Ok(_), Result::Err(e2)) => Valid::from_validation_err(e2),
            (Result::Err(e1), Result::Err(e2)) => Valid::from_validation_err(e1.combine(e2)),
        };
        proof {
            let types = config.graphql.types@;
            let ins = input_types.deep_view();
            let outs = output_types.deep_view();
            let hlen = head.errs().len() as int;
            crate::valid::lemma_cause_views_concat(head.errs(), rest.errs());
            if !out.is_succ() {
                assert(out.errs() =~= head.errs() + rest.errs());
            }
            assert forall|j: int|
                i <= j < types.len() && (#[trigger] types[j]).1.variants is None
                    && !types[j].1.scalar && name_in(ins, types[j].0@) && name_in(
                    outs,
                    types[j].0@,
                ) implies exists|k: int|
                0 <= k < out.errs().len() && crate::valid::cause_views(out.errs())[k] == (
                "type is used in input and output"@,
                seq![types[j].0@],
            ) by {
                if j == i {
                    assert(crate::valid::cause_views(out.errs())[0] == (
                    "type is used in input and output"@,
                    seq![types[i as int].0@],
                    ));
                } else {
                    let k0 = choose|k: int|
                        0 <= k < rest.errs().len() && crate::valid::cause_views(rest.errs())[k]
                            == ("type is used in input and output"@, seq![types[j].0@]);
                    assert(crate::valid::cause_views(out.errs())[hlen + k0] == (
                    "type is used in input and output"@,
                    seq![types[j].0@],
                    ));
                }
            }
            assert forall|k: int| 0 <= k < out.errs().len() implies ({
                let c = #[trigger] crate::valid::cause_views(out.errs())[k];
                c.0 == "No variants found for enum"@ || (c.1.len() > 0 && exists|j: int|
                    i <= j < types.len() && c.1[0] == (#[trigger] types[j]).0@)
            }) by {
                if k < hlen {
                    assert(crate::valid::cause_views(out.errs())[k] == crate::valid::cause_views(
                        head.errs(),
                    )[k]);
                } else {
                    assert(crate::valid::cause_views(out.errs())[k] == crate::valid::cause_views(
                        rest.errs(),
                    )[k - hlen]);
                }
            }
            assert forall|j: int|
                i <= j < types.len() && (match (#[trigger] types[j]).1.variants {
                    Option::Some(vs) => vs@.len() == 0,
                    Option::None => false,
                }) implies exists|k: int|
                0 <= k < out.errs().len() && crate::valid::cause_views(out.errs())[k] == (
                "No variants found for enum"@,
                Seq::<Seq<char>>::empty(),
            ) by {
                if j == i {
                    assert(crate::valid::cause_views(out.errs())[0] == (
                    "No variants found for enum"@,
                    Seq::<Seq<char>>::empty(),
                    ));
                } else {
                    let k0 = choose|k: int|
                        0 <= k < rest.errs().len() && crate::valid::cause_views(rest.errs())[k]
                            == ("No variants found for enum"@, Seq::<Seq<char>>::empty());
                    assert(crate::valid::cause_views(out.errs())[hlen + k0] == (
                    "No variants found for enum"@,
                    Seq::<Seq<char>>::empty(),
                    ));
                }
            }
        }
        out
    }
}

/// Builds the union definitions, appended after all named types.
fn union_definitions(config: &Config, i: usize) -> (r: Vec<Definition>)
    requires
        i <= config.graphql.unions@.len(),
    ensures
        r@.len() == config.graphql.unions@.len() - i,
        forall|j: int| 0 <= j < r@.len() ==> ((#[trigger] r@[j]) matches
            Definition::UnionTypeDefinition(u) && u.name@ == config.graphql.unions@[j + i].0@
            && opt_view(u.description) == opt_view(config.graphql.unions@[j + i].1.doc)
            && u.types.deep_view() == config.graphql.unions@[j + i].1.types.deep_view()),
    decreases config.graphql.unions@.len() - i,
{
    let mut out: Vec<Definition> = Vec::new();
    if i < config.graphql.unions.len() {
        let (name, u) = &config.graphql.unions[i];
        let head = Definition::UnionTypeDefinition(to_union_type_definition(name, u));
        let mut rest = union_definitions(config, i + 1);
        out.push(head);
        out.append(&mut rest);
    }
    out
}

/// Translates every configured type and appends the union definitions.
/// Succeeds exactly when every type translates; in particular a type name
/// used in both the input and the output closure fails compilation, traced
/// with that name.
pub fn to_definitions(
    config: &Config,
    output_types: &Vec<String>,
    input_types: &Vec<String>,
) -> (r: Valid<Vec<Definition>, String>)
    ensures
        r.wf(),
        r.is_succ() <==> forall|j: int|
            0 <= j < config.graphql.types@.len() ==> sp_type_entry_ok(
                *config,
                output_types.deep_view(),
                input_types.deep_view(),
                (#[trigger] config.graphql.types@[j]).0@,
                config.graphql.types@[j].1,
            ),
        forall|j: int|
            0 <= j < config.graphql.types@.len() && (#[trigger] config.graphql.types@[j]).1.variants
                is None && !config.graphql.types@[j].1.scalar && name_in(
                input_types.deep_view(),
                config.graphql.types@[j].0@,
            ) && name_in(output_types.deep_view(), config.graphql.types@[j].0@) ==> !r.is_succ()
                && exists|k: int|
                0 <= k < r.errs().len() && crate::valid::cause_views(r.errs())[k] == (
                "type is used in input and output"@,
                seq![config.graphql.types@[j].0@],
            ),
        forall|j: int|
            0 <= j < config.graphql.types@.len() && (match (#[trigger] config.graphql.types@[j]).1.variants {
                Option::Some(vs) => vs@.len() == 0,
                Option::None => false,
            }) ==> !r.is_succ() && exists|k: int|
                0 <= k < r.errs().len() && crate::valid::cause_views(r.errs())[k] == (
                "No variants found for enum"@,
                Seq::<Seq<char>>::empty(),
            ),
        forall|k: int|
            0 <= k < r.errs().len() ==> ({
                let c = #[trigger] crate::valid::cause_views(r.errs())[k];
                c.0 == "No variants found for enum"@ || (c.1.len() > 0 && exists|j: int|
                    0 <= j < config.graphql.types@.len() && c.1[0] == (
                    #[trigger] config.graphql.types@[j]).0@)
            }),
        r.is_succ() ==> r.val()@.len() == config.graphql.types@.len()
            + config.graphql.unions@.len() && (forall|j: int|
            0 <= j < config.graphql.types@.len() ==> sp_def_matches(
                input_types.deep_view(),
                config.graphql.types@[j].0@,
                config.graphql.types@[j].1,
                #[trigger] r.val()@[j],
            )) && (forall|j: int|
            0 <= j < config.graphql.unions@.len() ==> ((#[trigger] r.val()@[j
                + config.graphql.types@.len()]) matches Definition::UnionTypeDefinition(u)
                && u.name@ == config.graphql.unions@[j].0@ && opt_view(u.description) == opt_view(
                config.graphql.unions@[j].1.doc,
            ) && u.types.deep_view() == config.graphql.unions@[j].1.types.deep_view())),
{
    let defs = to_definitions_from(config, output_types, input_types, 0);
    match defs.res {
        Result::Ok(mut out) => {
            let ghost named = out@;
            let mut unions = union_definitions(config, 0);
            let ghost union_part = unions@;
            out.append(&mut unions);
            proof {
                assert(out@ =~= named + union_part);
            }
            Valid::succeed(out)
        },
        Result::Err(e) => Valid::from_validation_err(e),
    }
}

/// A name set extended with one name, kept free of repeats.
pub open spec fn sp_name_pushed(acc: Seq<Seq<char>>, n: Seq<char>) -> Seq<Seq<char>> {
    if name_in(acc, n) {
        acc
    } else {
        acc.push(n)
    }
}

fn push_name(acc: Vec<String>, n: &String) -> (r: Vec<String>)
    ensures
        r.deep_view() == sp_name_pushed(acc.deep_view(), n@),
{
    if contains_name(&acc, n) {
        acc
    } else {
        let mut acc = acc;
        let ghost before = acc.deep_view();
        acc.push(n.clone());
        proof {
            assert(acc.deep_view() =~= before.push(n@));
        }
        acc
    }
}

pub open spec fn sp_seed_arg_types(args: Seq<(String, Arg)>, k: int, acc: Seq<Seq<char>>) -> Seq<
    Seq<char>,
>
    decreases args.len() - k,
{
    if 0 <= k < args.len() {
        sp_seed_arg_types(args, k + 1, sp_name_pushed(acc, args[k].1.type_of@))
    } else {
        acc
    }
}

fn seed_arg_types(args: &Vec<(String, Arg)>, k: usize, acc: Vec<String>) -> (r: Vec<String>)
    requires
        k <= args@.len(),
    ensures
        r.deep_view() == sp_seed_arg_types(args@, k as int, acc.deep_view()),
    decreases args@.len() - k,
{
    if k == args.len() {
        acc
    } else {
        let acc = push_name(acc, &args[k].1.type_of);
        seed_arg_types(args, k + 1, acc)
    }
}

pub open spec fn sp_seed_field_args(
    fields: Seq<(String, Field)>,
    j: int,
    acc: Seq<Seq<char>>,
) -> Seq<Seq<char>>
    decreases fields.len() - j,
{
    if 0 <= j < fields.len() {
        sp_seed_field_args(fields, j + 1, sp_seed_arg_types(fields[j].1.args@, 0, acc))
    } else {
        acc
    }
}

fn seed_field_args(fields: &Vec<(String, Field)>, j: usize, acc: Vec<String>) -> (r: Vec<String>)
    requires
        j <= fields@.len(),
    ensures
        r.deep_view() == sp_seed_field_args(fields@, j as int, acc.deep_view()),
    decreases fields@.len() - j,
{
    if j == fields.len() {
        acc
    } else {
        let acc = seed_arg_types(&fields[j].1.args, 0, acc);
        seed_field_args(fields, j + 1, acc)
    }
}

/// The argument type names across the whole configuration: the roots of the
/// input-type closure.
pub open spec fn sp_input_seeds(
    types: Seq<(String, ConfigType)>,
    i: int,
    acc: Seq<Seq<char>>,
) -> Seq<Seq<char>>
    decreases types.len() - i,
{
    if 0 <= i < types.len() {
        sp_input_seeds(types, i + 1, sp_seed_field_args(types[i].1.fields@, 0, acc))
    } else {
        acc
    }
}

fn input_seeds(types: &Vec<(String, ConfigType)>, i: usize, acc: Vec<String>) -> (r: Vec<String>)
    requires
        i <= types@.len(),
    ensures
        r.deep_view() == sp_input_seeds(types@, i as int, acc.deep_view()),
    decreases types@.len() - i,
{
    if i == types.len() {
        acc
    } else {
        let acc = seed_field_args(&types[i].1.fields, 0, acc);
        input_seeds(types, i + 1, acc)
    }
}

pub open spec fn sp_expand_fields(
    fields: Seq<(String, Field)>,
    j: int,
    acc: Seq<Seq<char>>,
) -> Seq<Seq<char>>
    decreases fields.len() - j,
{
    if 0 <= j < fields.len() {
        sp_expand_fields(fields, j + 1, sp_name_pushed(acc, fields[j].1.type_of@))
    } else {
        acc
    }
}

fn expand_fields(fields: &Vec<(String, Field)>, j: usize, acc: Vec<String>) -> (r: Vec<String>)
    requires
        j <= fields@.len(),
    ensures
        r.deep_view() == sp_expand_fields(fields@, j as int, acc.deep_view()),
    decreases fields@.len() - j,
{
    if j == fields.len() {
        acc
    } else {
        let acc = push_name(acc, &fields[j].1.type_of);
        expand_fields(fields, j + 1, acc)
    }
}

/// One expansion pass: the field types of every type already in the set are
/// added to it.
pub open spec fn sp_expand_types(
    types: Seq<(String, ConfigType)>,
    i: int,
    acc: Seq<Seq<char>>,
) -> Seq<Seq<char>>
    decreases types.len() - i,
{
    if 0 <= i < types.len() {
        let acc2 = if name_in(acc, types[i].0@) {
            sp_expand_fields(types[i].1.fields@, 0, acc)
        } else {
            acc
        };
        sp_expand_types(types, i + 1, acc2)
    } else {
        acc
    }
}

fn expand_types(types: &Vec<(String, ConfigType)>, i: usize, acc: Vec<String>) -> (r: Vec<String>)
    requires
        i <= types@.len(),
    ensures
        r.deep_view() == sp_expand_types(types@, i as int, acc.deep_view()),
    decreases types@.len() - i,
{
    if i == types.len() {
        acc
    } else {
        let acc = if contains_name(&acc, &types[i].0) {
            expand_fields(&types[i].1.fields, 0, acc)
        } else {
            acc
        };
        expand_types(types, i + 1, acc)
    }
}

/// Saturation: as many expansion passes as there are types, which closes
/// the set, since a reachability chain repeats a type beyond that depth.
pub open spec fn sp_saturate(
    types: Seq<(String, ConfigType)>,
    acc: Seq<Seq<char>>,
    fuel: nat,
) -> Seq<Seq<char>>
    decreases fuel,
{
    if fuel == 0 {
        acc
    } else {
        sp_saturate(types, sp_expand_types(types, 0, acc), (fuel - 1) as nat)
    }
}

fn saturate(types: &Vec<(String, ConfigType)>, acc: Vec<String>, fuel: usize) -> (r: Vec<String>)
    ensures
        r.deep_view() == sp_saturate(types@, acc.deep_view(), fuel as nat),
    decreases fuel,
{
    if fuel == 0 {
        acc
    } else {
        let acc = expand_types(types, 0, acc);
        saturate(types, acc, fuel - 1)
    }
}

/// The input-type closure of a configuration.
pub open spec fn sp_input_types(cfg: Config) -> Seq<Seq<char>> {
    sp_saturate(
        cfg.graphql.types@,
        sp_input_seeds(cfg.graphql.types@, 0, Seq::empty()),
        cfg.graphql.types@.len() as nat,
    )
}

/// The output-type closure of a configuration.
pub open spec fn sp_output_types(cfg: Config) -> Seq<Seq<char>> {
    let roots = match cfg.graphql.schema.query {
        Option::Some(q) => sp_name_pushed(Seq::empty(), q@),
        Option::None => Seq::empty(),
    };
    let roots2 = match cfg.graphql.schema.mutation {
        Option::Some(m) => sp_name_pushed(roots, m@),
        Option::None => roots,
    };
    sp_saturate(cfg.graphql.types@, roots2, cfg.graphql.types@.len() as nat)
}

impl Config {
    /// The closure of type names used in input position: argument types,
    /// and transitively the field types of input types.
    pub fn input_types(&self) -> (r: Vec<String>)
        ensures
            r.deep_view() == sp_input_types(*self),
    {
        let empty_acc: Vec<String> = Vec::new();
        proof {
            assert(empty_acc.deep_view() =~= Seq::<Seq<char>>::empty());
        }
        let seeds = input_seeds(&self.graphql.types, 0, empty_acc);
        let fuel = self.graphql.types.len();
        saturate(&self.graphql.types, seeds, fuel)
    }

    /// The closure of type names used in output position: the operation
    /// roots, and transitively the field types of output types.
    pub fn output_types(&self) -> (r: Vec<String>)
        ensures
            r.deep_view() == sp_output_types(*self),
    {
        let mut roots: Vec<String> = Vec::new();
        proof {
            assert(roots.deep_view() =~= Seq::<Seq<char>>::empty());
        }
        match &self.graphql.schema.query {
            Option::Some(q) => {
                roots = push_name(roots, q);
            },
            Option::None => {},
        }
        match &self.graphql.schema.mutation {
            Option::Some(m) => {
                roots = push_name(roots, m);
            },
            Option::None => {},
        }
        let fuel = self.graphql.types.len();
        saturate(&self.graphql.types, roots, fuel)
    }
}

fn clone_upstream(upstream: &Upstream) -> (r: Upstream)
    ensures
        opt_view(r.base_url) == opt_view(upstream.base_url),
        r.batch == upstream.batch,
{
    Upstream { base_url: clone_opt_string(&upstream.base_url), batch: upstream.batch }
}

/// A configured base URL must parse as a well-formed URL.
pub open spec fn sp_upstream_ok(cfg: Config) -> bool {
    match cfg.upstream.base_url {
        Option::None => true,
        Option::Some(u) => crate::trusted::url_parse_result(u@) is Ok,
    }
}

/// Validates and passes the upstream settings through.
/// The cause upstream validation produces: the URL parser's own message.
pub open spec fn sp_upstream_causes(cfg: Config) -> Seq<(Seq<char>, Seq<Seq<char>>)> {
    match cfg.upstream.base_url {
        Option::None => Seq::empty(),
        Option::Some(u) => match crate::trusted::url_parse_result(u@) {
            Result::Ok(_) => Seq::empty(),
            Result::Err(m) => seq![(m, Seq::<Seq<char>>::empty())],
        },
    }
}

pub fn to_upstream(config: &Config) -> (r: Valid<Upstream, String>)
    ensures
        r.wf(),
        r.is_succ() == sp_upstream_ok(*config),
        r.is_succ() ==> opt_view(r.val().base_url) == opt_view(config.upstream.base_url)
            && r.val().batch == config.upstream.batch,
        crate::valid::cause_views(r.errs()) == sp_upstream_causes(*config),
{
    let r = match &config.upstream.base_url {
        Option::None => Valid::succeed(clone_upstream(&config.upstream)),
        Option::Some(u) => {
            match crate::trusted::parse_url_check(u) {
                Result::Ok(_) => Valid::succeed(clone_upstream(&config.upstream)),
                Result::Err(m) => Valid::fail(m),
            }
        },
    };
    proof {
        assert(crate::valid::cause_views(r.errs()) =~= sp_upstream_causes(*config));
    }
    r
}

fn clone_server(server: &crate::config::Server) -> (r: crate::config::Server)
    ensures
        r.vars@.len() == server.vars@.len(),
        forall|i: int| 0 <= i < server.vars@.len() ==> (#[trigger] r.vars@[i]).0@
            == server.vars@[i].0@ && r.vars@[i].1@ == server.vars@[i].1@,
{
    let mut vars: Vec<(String, String)> = Vec::new();
    let n = server.vars.len();
    let mut i: usize = 0;
    while i < n
        invariant
            0 <= i <= n,
            n == server.vars@.len(),
            vars@.len() == i,
            forall|j: int| 0 <= j < i ==> (#[trigger] vars@[j]).0@ == server.vars@[j].0@
                && vars@[j].1@ == server.vars@[j].1@,
        decreases n - i,
    {
        vars.push((server.vars[i].0.clone(), server.vars[i].1.clone()));
        i = i + 1;
    }
    crate::config::Server { vars }
}

/// There is a field whose resolver is a grouped endpoint binding.
pub open spec fn sp_has_group_endpoint(defs: Seq<Definition>) -> bool {
    exists|i: int, j: int|
        #![trigger defs[i]->ObjectTypeDefinition_0.fields@[j]]
        0 <= i < defs.len() && defs[i] is ObjectTypeDefinition && {
            let o = defs[i]->ObjectTypeDefinition_0;
            0 <= j < o.fields@.len() && (o.fields@[j].resolver matches Option::Some(e) && (e
                matches Expression::Endpoint(_, gb) && gb is Some))
        }
}

fn fields_have_group(fields: &Vec<FieldDefinition>, j: usize) -> (r: bool)
    requires
        j <= fields@.len(),
    ensures
        r == exists|k: int|
            j <= k < fields@.len() && ((#[trigger] fields@[k]).resolver matches Option::Some(e)
                && e matches Expression::Endpoint(_, gb) && gb is Some),
    decreases fields@.len() - j,
{
    if j == fields.len() {
        false
    } else {
        let here = match &fields[j].resolver {
            Option::Some(Expression::Endpoint(_, Option::Some(_))) => true,
            _ => false,
        };
        if here {
            true
        } else {
            fields_have_group(fields, j + 1)
        }
    }
}

fn defs_have_group(defs: &Vec<Definition>, i: usize) -> (r: bool)
    requires
        i <= defs@.len(),
    ensures
        r == exists|k: int, j: int|
            #![trigger defs@[k]->ObjectTypeDefinition_0.fields@[j]]
            i <= k < defs@.len() && defs@[k] is ObjectTypeDefinition && {
                let o = defs@[k]->ObjectTypeDefinition_0;
                0 <= j < o.fields@.len() && (o.fields@[j].resolver matches Option::Some(e) && (e
                    matches Expression::Endpoint(_, gb) && gb is Some))
            },
    decreases defs@.len() - i,
{
    if i == defs.len() {
        false
    } else {
        let here = match &defs[i] {
            Definition::ObjectTypeDefinition(o) => fields_have_group(&o.fields, 0),
            _ => false,
        };
        if here {
            true
        } else {
            defs_have_group(defs, i + 1)
        }
    }
}

/// Batch derivation: when some field resolves through a grouped endpoint,
/// an absent upstream batch policy is filled with the standard one; nothing
/// else changes, and with no such field the policy is left exactly as it
/// was.
pub fn apply_batching(blueprint: Blueprint) -> (r: Blueprint)
    ensures
        r.schema == blueprint.schema,
        r.definitions == blueprint.definitions,
        r.server == blueprint.server,
        r.upstream.base_url == blueprint.upstream.base_url,
        r.upstream.batch == (if sp_has_group_endpoint(blueprint.definitions@)
            && blueprint.upstream.batch is None {
            Option::Some(Batch { max_size: 100, delay: 0 })
        } else {
            blueprint.upstream.batch
        }),
{
    let found = defs_have_group(&blueprint.definitions, 0);
    if found {
        let Blueprint { schema, definitions, server, upstream } = blueprint;
        let batch = match upstream.batch {
            Option::Some(b) => Option::Some(b),
            Option::None => Option::Some(Batch::standard()),
        };
        Blueprint {
            schema,
            definitions,
            server,
            upstream: Upstream { base_url: upstream.base_url, batch },
        }
    } else {
        blueprint
    }
}

/// Whether every configured type translates, against the computed closures.
pub open spec fn sp_definitions_ok(cfg: Config) -> bool {
    forall|j: int|
        0 <= j < cfg.graphql.types@.len() ==> sp_type_entry_ok(
            cfg,
            sp_output_types(cfg),
            sp_input_types(cfg),
            (#[trigger] cfg.graphql.types@[j]).0@,
            cfg.graphql.types@[j].1,
        )
}

/// Whether a whole configuration compiles.
pub open spec fn sp_config_ok(cfg: Config) -> bool {
    sp_query_ok(cfg) && sp_mutation_ok(cfg) && sp_definitions_ok(cfg) && sp_upstream_ok(cfg)
}

/// What the compiled blueprint holds of its configuration: the validated
/// schema root with the server directive, one definition of the right kind
/// and content per configured type, the unions appended after them, the
/// server variables, the upstream settings, and the derived batch policy.
pub open spec fn sp_blueprint_of(cfg: Config, b: Blueprint) -> bool {
    b.schema.query@ == cfg.graphql.schema.query->Some_0@ && opt_view(b.schema.mutation)
        == opt_view(cfg.graphql.schema.mutation) && b.schema.directives@.len() == 1
        && b.schema.directives@[0].name@ == "server"@ && b.schema.directives@[0].index == 0
        && b.schema.directives@[0].arguments@.len() == cfg.server.vars@.len() && (forall|i: int|
        0 <= i < cfg.server.vars@.len() ==> (#[trigger] b.schema.directives@[0].arguments@[i]).0@
            == cfg.server.vars@[i].0@ && json_model(b.schema.directives@[0].arguments@[i].1)
            == crate::json::JsonModel::Str(cfg.server.vars@[i].1@)) && b.definitions@.len()
        == cfg.graphql.types@.len() + cfg.graphql.unions@.len() && (forall|j: int|
        0 <= j < cfg.graphql.types@.len() ==> sp_def_matches(
            sp_input_types(cfg),
            cfg.graphql.types@[j].0@,
            cfg.graphql.types@[j].1,
            #[trigger] b.definitions@[j],
        )) && (forall|j: int|
        0 <= j < cfg.graphql.unions@.len() ==> ((#[trigger] b.definitions@[j
            + cfg.graphql.types@.len()]) matches Definition::UnionTypeDefinition(u) && u.name@
            == cfg.graphql.unions@[j].0@ && opt_view(u.description) == opt_view(
            cfg.graphql.unions@[j].1.doc,
        ) && u.types.deep_view() == cfg.graphql.unions@[j].1.types.deep_view()))
        && b.server.vars@.len() == cfg.server.vars@.len() && (forall|i: int|
        0 <= i < cfg.server.vars@.len() ==> (#[trigger] b.server.vars@[i]).0@
            == cfg.server.vars@[i].0@ && b.server.vars@[i].1@ == cfg.server.vars@[i].1@)
        && opt_view(b.upstream.base_url) == opt_view(cfg.upstream.base_url) && b.upstream.batch
        == (if sp_has_group_endpoint(b.definitions@) && cfg.upstream.batch is None {
        Option::Some(Batch { max_size: 100, delay: 0 })
    } else {
        cfg.upstream.batch
    })
}

/// Compiles a configuration into a blueprint: schema root, definitions,
/// server and upstream are built and zipped, accumulating the errors of all
/// failing sections, and the batch pass runs over the result.  Succeeds
/// exactly when every section validates.
pub fn config_blueprint(config: &Config) -> (r: Valid<Blueprint, String>)
    ensures
        r.wf(),
        r.is_succ() == sp_config_ok(*config),
        r.is_succ() ==> sp_blueprint_of(*config, r.val()),
        !r.is_succ() ==> exists|defs_causes: Seq<(Seq<char>, Seq<Seq<char>>)>|
            crate::valid::cause_views(r.errs()) == sp_schema_causes(*config) + defs_causes
                + sp_upstream_causes(*config) && ((defs_causes.len() == 0) <==> sp_definitions_ok(
                *config,
            )),
{
    let output_types = config.output_types();
    let input_types = config.input_types();
    let schema = to_schema(config);
    let definitions = to_definitions(config, &output_types, &input_types);
    let server: Valid<crate::config::Server, String> = Valid::succeed(clone_server(&config.server));
    let upstream = to_upstream(config);
    let ghost schema_errs = schema.errs();
    let ghost defs_errs = definitions.errs();
    let ghost server_errs = server.errs();
    let ghost upstream_errs = upstream.errs();
    let zipped = schema.zip(definitions).zip(server).zip(upstream);
    proof {
        if !zipped.is_succ() {
            assert(zipped.errs() =~= ((schema_errs + defs_errs) + server_errs) + upstream_errs);
            crate::valid::lemma_cause_views_concat(schema_errs, defs_errs);
            crate::valid::lemma_cause_views_concat(schema_errs + defs_errs, server_errs);
            crate::valid::lemma_cause_views_concat(
                (schema_errs + defs_errs) + server_errs,
                upstream_errs,
            );
            assert(crate::valid::cause_views(server_errs) =~= Seq::<
                (Seq<char>, Seq<Seq<char>>),
            >::empty());
            assert(crate::valid::cause_views(zipped.errs()) =~= sp_schema_causes(*config)
                + crate::valid::cause_views(defs_errs) + sp_upstream_causes(*config));
        }
    }
    match zipped.res {
        Result::Err(e) => {
            let r = Valid::from_validation_err(e);
            proof {
                let defs_causes = crate::valid::cause_views(defs_errs);
                assert(crate::valid::cause_views(r.errs()) == sp_schema_causes(*config)
                    + defs_causes + sp_upstream_causes(*config) && ((defs_causes.len() == 0)
                    <==> sp_definitions_ok(*config)));
            }
            r
        },
        Result::Ok((((schema, definitions), server), upstream)) => {
            let blueprint = Blueprint { schema, definitions, server, upstream };
            Valid::succeed(apply_batching(blueprint))
        },
    }
}


/// Input/output exclusivity: a plain object type whose name lies in both
/// the input-type closure and the output-type closure makes the whole
/// compilation fail.
pub proof fn lemma_input_output_exclusive(cfg: Config, i: int)
    requires
        0 <= i < cfg.graphql.types@.len(),
        cfg.graphql.types@[i].1.variants is None,
        !cfg.graphql.types@[i].1.scalar,
        name_in(sp_input_types(cfg), cfg.graphql.types@[i].0@),
        name_in(sp_output_types(cfg), cfg.graphql.types@[i].0@),
    ensures
        !sp_config_ok(cfg),
{
    assert(!sp_type_entry_ok(
        cfg,
        sp_output_types(cfg),
        sp_input_types(cfg),
        cfg.graphql.types@[i].0@,
        cfg.graphql.types@[i].1,
    ));
}


impl Blueprint {
    /// Compiles a configuration, as `config_blueprint` does, unwrapped to a
    /// plain result.
    pub fn try_from(config: &Config) -> (r: Result<Blueprint, crate::valid::ValidationError<String>>)
        ensures
            (r is Ok) == sp_config_ok(*config),
            r matches Result::Ok(b) ==> sp_blueprint_of(*config, b),
            r matches Result::Err(e) ==> e.wf(),
    {
        config_blueprint(config).to_result()
    }
}

} // verus!
