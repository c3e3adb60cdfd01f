use blueprint_core::config::Arg;
use blueprint_core::config::Batch;
use blueprint_core::config::Config;
use blueprint_core::config::ConfigType;
use blueprint_core::config::ConstField;
use blueprint_core::config::Field;
use blueprint_core::config::GraphQL;
use blueprint_core::config::Http;
use blueprint_core::config::InlineType;
use blueprint_core::config::Method;
use blueprint_core::config::Modify;
use blueprint_core::config::RootSchema;
use blueprint_core::config::Segment;
use blueprint_core::config::Server;
use blueprint_core::config::Template;
use blueprint_core::config::Upstream;
use blueprint_core::config_blueprint;
use blueprint_core::to_json_schema;
use blueprint_core::to_type;
use blueprint_core::Definition;
use blueprint_core::Expression;
use blueprint_core::JsonSchema;
use blueprint_core::JsonValue;
use blueprint_core::Type;
use blueprint_core::Valid;
use blueprint_core::ValidationError;

fn plain_field(type_of: &str) -> Field {
    Field {
        type_of: type_of.to_string(),
        list: false,
        required: true,
        list_type_required: false,
        doc: None,
        args: vec![],
        http: None,
        unsafe_operation: None,
        const_field: None,
        inline: None,
        modify: None,
    }
}

fn http_get(path: Vec<Segment>) -> Http {
    Http {
        method: Method::Get,
        path: Template { segments: path },
        query: vec![],
        headers: vec![],
        body: None,
        base_url: None,
        group_by: vec![],
    }
}

fn object_type(fields: Vec<(&str, Field)>) -> ConfigType {
    ConfigType {
        fields: fields.into_iter().map(|(n, f)| (n.to_string(), f)).collect(),
        doc: None,
        interface: false,
        scalar: false,
        variants: None,
        implements: vec![],
    }
}

fn make_config(types: Vec<(&str, ConfigType)>) -> Config {
    Config {
        graphql: GraphQL {
            schema: RootSchema { query: Some("Query".to_string()), mutation: None },
            types: types.into_iter().map(|(n, t)| (n.to_string(), t)).collect(),
            unions: vec![],
        },
        server: Server { vars: vec![] },
        upstream: Upstream { base_url: Some("http://example.com".to_string()), batch: None },
    }
}

fn has_message(err: &ValidationError<String>, msg: &str) -> bool {
    err.causes.iter().any(|c| c.message == msg)
}

fn user_query_config(user_field: Field) -> Config {
    let query = object_type(vec![("user", user_field)]);
    let user = object_type(vec![("id", plain_field("Int")), ("name", plain_field("String"))]);
    make_config(vec![("Query", query), ("User", user)])
}

fn bound_field(type_of: &str, http: Http) -> Field {
    let mut f = plain_field(type_of);
    f.http = Some(http);
    f
}

#[test]
fn compile_minimal_config() {
    let cfg = user_query_config(bound_field("User", http_get(vec![])));
    let blueprint = config_blueprint(&cfg).to_result().unwrap();
    assert_eq!(blueprint.schema.query, "Query".to_string());
    assert_eq!(blueprint.definitions.len(), 2);
    assert!(blueprint.upstream.batch.is_none());
}

#[test]
fn batch_derived_from_group_by() {
    let mut http = http_get(vec![]);
    http.group_by = vec!["id".to_string()];
    let cfg = user_query_config(bound_field("User", http));
    let blueprint = config_blueprint(&cfg).to_result().unwrap();
    assert_eq!(blueprint.upstream.batch, Some(Batch { max_size: 100, delay: 0 }));
}

#[test]
fn batch_absent_without_group_by() {
    let cfg = user_query_config(bound_field("User", http_get(vec![])));
    let blueprint = config_blueprint(&cfg).to_result().unwrap();
    assert_eq!(blueprint.upstream.batch, None);
}

#[test]
fn multiple_resolvers_rejected() {
    let mut f = bound_field("User", http_get(vec![]));
    f.const_field = Some(ConstField { data: JsonValue::Null });
    let cfg = user_query_config(f);
    let err = config_blueprint(&cfg).to_result().unwrap_err();
    assert!(has_message(&err, "Multiple resolvers detected [http, const]"));
}

#[test]
fn group_by_requires_get() {
    let mut http = http_get(vec![]);
    http.method = Method::Post;
    http.group_by = vec!["id".to_string()];
    let cfg = user_query_config(bound_field("User", http));
    let err = config_blueprint(&cfg).to_result().unwrap_err();
    assert!(has_message(&err, "GroupBy is only supported for GET requests"));
}

#[test]
fn input_output_exclusive() {
    let mut f = bound_field("User", http_get(vec![]));
    f.args.push(("filter".to_string(), Arg {
        type_of: "User".to_string(),
        list: false,
        required: true,
        doc: None,
        default_value: None,
    }));
    let cfg = user_query_config(f);
    let err = config_blueprint(&cfg).to_result().unwrap_err();
    assert!(has_message(&err, "type is used in input and output"));
}

#[test]
fn inline_must_not_cross_resolver() {
    let mut me = plain_field("User");
    me.inline = Some(InlineType { path: vec!["profile".to_string(), "id".to_string()] });
    let query = object_type(vec![("me", me)]);
    let user = object_type(vec![("profile", bound_field("Profile", http_get(vec![])))]);
    let profile = object_type(vec![("id", plain_field("Int"))]);
    let cfg = make_config(vec![("Query", query), ("User", user), ("Profile", profile)]);
    let err = config_blueprint(&cfg).to_result().unwrap_err();
    assert!(has_message(
        &err,
        "Inline can't be done because of http resolver at [User.profile]",
    ));
}

#[test]
fn round_trip_for_scalars() {
    let t = to_type(&"String".to_string(), false, true, false);
    assert!(matches!(t, Type::NamedType { ref name, non_null: true } if name == "String"));
    let t2 = to_type(&"String".to_string(), true, false, true);
    match t2 {
        Type::ListType { of_type, non_null } => {
            assert!(!non_null);
            assert!(matches!(
                *of_type,
                Type::NamedType { ref name, non_null: true } if name == "String"
            ));
        },
        _ => panic!("expected a list type"),
    }
}

#[test]
fn const_literal_checked_against_schema() {
    let mut n = plain_field("Int");
    n.const_field = Some(ConstField { data: JsonValue::Num("42".to_string()) });
    let query = object_type(vec![("n", n)]);
    let cfg = make_config(vec![("Query", query)]);
    let blueprint = config_blueprint(&cfg).to_result().unwrap();
    let def = &blueprint.definitions[0];
    match def {
        Definition::ObjectTypeDefinition(o) => {
            assert!(matches!(o.fields[0].resolver, Some(Expression::Literal(_))));
        },
        _ => panic!("expected an object definition"),
    }
}

#[test]
fn const_literal_of_wrong_kind_rejected() {
    let mut n = plain_field("Int");
    n.const_field = Some(ConstField { data: JsonValue::Str("oops".to_string()) });
    let query = object_type(vec![("n", n)]);
    let cfg = make_config(vec![("Query", query)]);
    let err = config_blueprint(&cfg).to_result().unwrap_err();
    assert!(has_message(&err, "expected number"));
}

#[test]
fn malformed_base_url_rejected() {
    let mut cfg = user_query_config(bound_field("User", http_get(vec![])));
    cfg.upstream.base_url = Some("not a url at all".to_string());
    assert!(config_blueprint(&cfg).to_result().is_err());
}

#[test]
fn invalid_header_name_rejected() {
    let mut http = http_get(vec![]);
    http.headers = vec![("bad header".to_string(), "v".to_string())];
    let cfg = user_query_config(bound_field("User", http));
    assert!(config_blueprint(&cfg).to_result().is_err());
}

#[test]
fn valid_header_accepted() {
    let mut http = http_get(vec![]);
    http.headers = vec![("x-api-key".to_string(), "secret".to_string())];
    let cfg = user_query_config(bound_field("User", http));
    assert!(config_blueprint(&cfg).to_result().is_ok());
}

#[test]
fn missing_query_root_rejected() {
    let mut cfg = user_query_config(bound_field("User", http_get(vec![])));
    cfg.graphql.schema.query = None;
    let err = config_blueprint(&cfg).to_result().unwrap_err();
    assert!(has_message(&err, "Query root is missing"));
}

#[test]
fn query_field_needs_resolver() {
    let cfg = user_query_config(plain_field("User"));
    let err = config_blueprint(&cfg).to_result().unwrap_err();
    assert!(has_message(&err, "No resolver has been found in the schema"));
}

#[test]
fn undeclared_field_type_rejected() {
    let query = object_type(vec![("user", bound_field("Ghost", http_get(vec![])))]);
    let cfg = make_config(vec![("Query", query)]);
    let err = config_blueprint(&cfg).to_result().unwrap_err();
    assert!(has_message(&err, "Undeclared type 'Ghost' was found"));
}

#[test]
fn enum_without_variants_rejected() {
    let mut bad = object_type(vec![]);
    bad.variants = Some(vec![]);
    let query = object_type(vec![("user", bound_field("User", http_get(vec![])))]);
    let user = object_type(vec![("id", plain_field("Int"))]);
    let cfg = make_config(vec![("Query", query), ("User", user), ("Mood", bad)]);
    let err = config_blueprint(&cfg).to_result().unwrap_err();
    assert!(has_message(&err, "No variants found for enum"));
}

#[test]
fn enum_with_variants_translated() {
    let mut mood = object_type(vec![]);
    mood.variants = Some(vec!["HAPPY".to_string(), "SAD".to_string()]);
    let query = object_type(vec![("user", bound_field("User", http_get(vec![])))]);
    let user = object_type(vec![("id", plain_field("Int"))]);
    let cfg = make_config(vec![("Query", query), ("User", user), ("Mood", mood)]);
    let blueprint = config_blueprint(&cfg).to_result().unwrap();
    let found = blueprint.definitions.iter().any(|d| match d {
        Definition::EnumTypeDefinition(e) => e.name == "Mood" && e.enum_values.len() == 2,
        _ => false,
    });
    assert!(found);
}

#[test]
fn template_value_reference_checked() {
    let http = http_get(vec![
        Segment::Lit("/users/".to_string()),
        Segment::Expr(vec!["value".to_string(), "missing".to_string()]),
    ]);
    let mut user_field = bound_field("User", http);
    user_field.http.as_mut().unwrap().base_url = Some("http://example.com".to_string());
    let user = object_type(vec![("id", plain_field("Int")), ("self_link", user_field)]);
    let query = object_type(vec![("user", bound_field("User", http_get(vec![])))]);
    let cfg = make_config(vec![("Query", query), ("User", user)]);
    let err = config_blueprint(&cfg).to_result().unwrap_err();
    assert!(has_message(&err, "no value 'missing' found"));
}

#[test]
fn template_var_reference_accepted() {
    let http = http_get(vec![
        Segment::Lit("/users/".to_string()),
        Segment::Expr(vec!["vars".to_string(), "host".to_string()]),
    ]);
    let mut cfg = user_query_config(bound_field("User", http));
    cfg.server.vars.push(("host".to_string(), "example".to_string()));
    assert!(config_blueprint(&cfg).to_result().is_ok());
}

#[test]
fn omitted_field_dropped() {
    let mut hidden = plain_field("Int");
    hidden.modify = Some(Modify { name: None, omit: true });
    let query = object_type(vec![("user", bound_field("User", http_get(vec![])))]);
    let user = object_type(vec![("id", plain_field("Int")), ("secret", hidden)]);
    let cfg = make_config(vec![("Query", query), ("User", user)]);
    let blueprint = config_blueprint(&cfg).to_result().unwrap();
    let user_def = blueprint.definitions.iter().find_map(|d| match d {
        Definition::ObjectTypeDefinition(o) if o.name == "User" => Some(o),
        _ => None,
    });
    assert_eq!(user_def.unwrap().fields.len(), 1);
}

#[test]
fn zip_pairs_successes() {
    let a: Valid<i64, String> = Valid::succeed(1);
    let b: Valid<bool, String> = Valid::succeed(true);
    assert_eq!(a.zip(b).to_result().unwrap(), (1, true));
}

#[test]
fn zip_concatenates_failures() {
    let a: Valid<i64, String> = Valid::fail("first".to_string());
    let b: Valid<bool, String> = Valid::fail("second".to_string());
    let err = a.zip(b).to_result().unwrap_err();
    let expected = ValidationError::new("first".to_string())
        .combine(ValidationError::new("second".to_string()));
    assert_eq!(err, expected);
}

#[test]
fn scalar_schema_inference() {
    let cfg = make_config(vec![]);
    assert!(matches!(
        to_json_schema(&"String".to_string(), true, false, &cfg),
        JsonSchema::Str
    ));
    assert!(matches!(to_json_schema(&"Int".to_string(), true, false, &cfg), JsonSchema::Num));
    assert!(matches!(
        to_json_schema(&"Boolean".to_string(), false, false, &cfg),
        JsonSchema::Opt(_)
    ));
}

#[test]
fn object_schema_excludes_bound_fields() {
    let mut constant = plain_field("Int");
    constant.const_field = Some(ConstField { data: JsonValue::Num("1".to_string()) });
    let user = object_type(vec![
        ("id", plain_field("Int")),
        ("link", bound_field("String", http_get(vec![]))),
        ("rank", constant),
    ]);
    let cfg = make_config(vec![("User", user)]);
    match to_json_schema(&"User".to_string(), true, false, &cfg) {
        JsonSchema::Obj(members) => {
            assert_eq!(members.len(), 1);
            assert_eq!(members[0].0, "id".to_string());
        },
        _ => panic!("expected an object schema"),
    }
}

#[test]
fn template_with_too_few_parts_rejected() {
    let http = http_get(vec![Segment::Expr(vec!["value".to_string()])]);
    let cfg = user_query_config(bound_field("User", http));
    let err = config_blueprint(&cfg).to_result().unwrap_err();
    assert!(has_message(&err, "too few parts in template"));
}

#[test]
fn unknown_template_namespace_rejected() {
    let http = http_get(vec![Segment::Expr(vec![
        "nope".to_string(),
        "x".to_string(),
    ])]);
    let cfg = user_query_config(bound_field("User", http));
    let err = config_blueprint(&cfg).to_result().unwrap_err();
    assert!(has_message(&err, "unknown template directive 'nope'"));
}

#[test]
fn missing_resolver_trace_names_root_and_field() {
    let cfg = user_query_config(plain_field("User"));
    let err = config_blueprint(&cfg).to_result().unwrap_err();
    let cause = err
        .causes
        .iter()
        .find(|c| c.message == "No resolver has been found in the schema")
        .unwrap();
    assert_eq!(cause.trace, vec!["Query".to_string(), "user".to_string()]);
}

#[test]
fn double_usage_trace_names_type() {
    let mut f = bound_field("User", http_get(vec![]));
    f.args.push(("filter".to_string(), Arg {
        type_of: "User".to_string(),
        list: false,
        required: true,
        doc: None,
        default_value: None,
    }));
    let cfg = user_query_config(f);
    let err = config_blueprint(&cfg).to_result().unwrap_err();
    let cause = err
        .causes
        .iter()
        .find(|c| c.message == "type is used in input and output")
        .unwrap();
    assert_eq!(cause.trace, vec!["User".to_string()]);
}
