use crate::config::Method;
use crate::config::Server;
use crate::config::Template;
use crate::config::Upstream;
use crate::json::JsonSchema;
use crate::json::JsonValue;
use vstd::prelude::*;

verus! {

/// An output GraphQL type: a named type or a list, with nullability carried
/// per level.
#[derive(Debug)]
pub enum Type {
    NamedType { name: String, non_null: bool },
    ListType { of_type: Box<Type>, non_null: bool },
}

/// First-order shape of a `Type`: the innermost name and its nullability,
/// plus one nullability flag per list level, innermost first.
pub struct TypeModel {
    pub name: Seq<char>,
    pub inner_non_null: bool,
    pub lists: Seq<bool>,
}

pub open spec fn type_model(t: Type) -> TypeModel
    decreases t,
{
    match t {
        Type::NamedType { name, non_null } => TypeModel {
            name: name@,
            inner_non_null: non_null,
            lists: Seq::empty(),
        },
        Type::ListType { of_type, non_null } => {
            let m = type_model(*of_type);
            TypeModel { name: m.name, inner_non_null: m.inner_non_null, lists: m.lists.push(non_null) }
        },
    }
}

/// Whether the outermost level of the type admits null.
pub open spec fn spec_is_nullable(t: Type) -> bool {
    match t {
        Type::NamedType { non_null, .. } => !non_null,
        Type::ListType { non_null, .. } => !non_null,
    }
}

impl Type {
    /// The innermost type name.
    pub fn name<'a>(&'a self) -> (r: &'a String)
        ensures
            r@ == type_model(*self).name,
        decreases *self,
    {
        match self {
            Type::NamedType { name, .. } => name,
            Type::ListType { of_type, .. } => of_type.name(),
        }
    }

    pub fn is_nullable(&self) -> (r: bool)
        ensures
            r == spec_is_nullable(*self),
    {
        match self {
            Type::NamedType { non_null, .. } => !*non_null,
            Type::ListType { non_null, .. } => !*non_null,
        }
    }
}

/// The grouping key of a batched endpoint.
#[derive(Debug)]
pub struct GroupBy {
    pub path: Vec<String>,
}

/// The request template of an endpoint binding: everything the runtime
/// needs to issue the call, with interpolation left as templates.
#[derive(Debug)]
pub struct RequestTemplate {
    pub root_url: Template,
    pub method: Method,
    pub query: Vec<(String, Template)>,
    pub headers: Vec<(String, String)>,
    pub body: Option<String>,
    pub output: JsonSchema,
    pub input: JsonSchema,
}

/// How a field's value is produced.
#[derive(Debug)]
pub enum Expression {
    /// Reads the whole context value (identity).
    ContextValue,
    /// Reads one named member of the context.
    ContextField(String),
    /// Projects a path out of the context.
    ContextPath(Vec<String>),
    /// A literal value.
    Literal(JsonValue),
    /// An upstream call, optionally batched under a grouping key.
    Endpoint(RequestTemplate, Option<GroupBy>),
    /// Runs a script over the inner expression's result.
    UnsafeScript(Box<Expression>, String),
    /// Projects a path out of the inner expression's result.
    InputPath(Box<Expression>, Vec<String>),
}

/// A schema-level directive record.
#[derive(Debug)]
pub struct Directive {
    pub name: String,
    pub arguments: Vec<(String, JsonValue)>,
    pub index: u64,
}

/// The schema root of a blueprint.
#[derive(Debug)]
pub struct SchemaDefinition {
    pub query: String,
    pub mutation: Option<String>,
    pub directives: Vec<Directive>,
}

/// An argument or input-object member.
#[derive(Debug)]
pub struct InputFieldDefinition {
    pub name: String,
    pub description: Option<String>,
    pub of_type: Type,
    pub default_value: Option<JsonValue>,
}

/// A resolved output field.
#[derive(Debug)]
pub struct FieldDefinition {
    pub name: String,
    pub description: Option<String>,
    pub args: Vec<InputFieldDefinition>,
    pub of_type: Type,
    pub directives: Vec<Directive>,
    pub resolver: Option<Expression>,
}

#[derive(Debug)]
pub struct ObjectTypeDefinition {
    pub name: String,
    pub description: Option<String>,
    pub fields: Vec<FieldDefinition>,
    pub implements: Vec<String>,
}

#[derive(Debug)]
pub struct InputObjectTypeDefinition {
    pub name: String,
    pub fields: Vec<InputFieldDefinition>,
    pub description: Option<String>,
}

#[derive(Debug)]
pub struct InterfaceTypeDefinition {
    pub name: String,
    pub fields: Vec<FieldDefinition>,
    pub description: Option<String>,
}

#[derive(Debug)]
pub struct EnumValueDefinition {
    pub name: String,
    pub description: Option<String>,
}

#[derive(Debug)]
pub struct EnumTypeDefinition {
    pub name: String,
    pub description: Option<String>,
    pub enum_values: Vec<EnumValueDefinition>,
}

#[derive(Debug)]
pub struct ScalarTypeDefinition {
    pub name: String,
    pub description: Option<String>,
    pub directive: Vec<Directive>,
}

#[derive(Debug)]
pub struct UnionTypeDefinition {
    pub name: String,
    pub description: Option<String>,
    pub types: Vec<String>,
}

/// One translated definition of the blueprint.
#[derive(Debug)]
pub enum Definition {
    ObjectTypeDefinition(ObjectTypeDefinition),
    InputObjectTypeDefinition(InputObjectTypeDefinition),
    InterfaceTypeDefinition(InterfaceTypeDefinition),
    EnumTypeDefinition(EnumTypeDefinition),
    UnionTypeDefinition(UnionTypeDefinition),
    ScalarTypeDefinition(ScalarTypeDefinition),
}

/// The fully resolved, validated schema representation.
#[derive(Debug)]
pub struct Blueprint {
    pub schema: SchemaDefinition,
    pub definitions: Vec<Definition>,
    pub server: Server,
    pub upstream: Upstream,
}

} // verus!
