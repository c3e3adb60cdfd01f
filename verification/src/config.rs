use crate::assoc::assoc_find;
use crate::json::JsonValue;
use vstd::prelude::*;

verus! {

/// The HTTP method of an endpoint binding.
#[derive(Clone, Copy, Debug, PartialEq, Eq, Structural)]
pub enum Method {
    Get,
    Post,
    Put,
    Patch,
    Delete,
    Head,
    Options,
}

/// One piece of an interpolation template: literal text, or an expression
/// whose parts the caller's tokenizer has already split, `value.id` coming
/// in as the parts `value` and `id`.
#[derive(Debug)]
pub enum Segment {
    Lit(String),
    Expr(Vec<String>),
}

/// An interpolation template: an ordered run of segments.
#[derive(Debug)]
pub struct Template {
    pub segments: Vec<Segment>,
}

/// An HTTP resolution directive on a field.
#[derive(Debug)]
pub struct Http {
    pub method: Method,
    pub path: Template,
    pub query: Vec<(String, Template)>,
    pub headers: Vec<(String, String)>,
    pub body: Option<String>,
    pub base_url: Option<String>,
    pub group_by: Vec<String>,
}

/// A script resolution directive on a field.
#[derive(Debug)]
pub struct UnsafeOperation {
    pub script: String,
}

/// A literal-constant resolution directive on a field.
#[derive(Debug)]
pub struct ConstField {
    pub data: JsonValue,
}

/// An inline-path resolution directive on a field.
#[derive(Debug)]
pub struct InlineType {
    pub path: Vec<String>,
}

/// A rename/omit directive on a field.
#[derive(Debug)]
pub struct Modify {
    pub name: Option<String>,
    pub omit: bool,
}

/// A declared argument of a field.
#[derive(Debug)]
pub struct Arg {
    pub type_of: String,
    pub list: bool,
    pub required: bool,
    pub doc: Option<String>,
    pub default_value: Option<JsonValue>,
}

/// A configured field.
#[derive(Debug)]
pub struct Field {
    pub type_of: String,
    pub list: bool,
    pub required: bool,
    pub list_type_required: bool,
    pub doc: Option<String>,
    pub args: Vec<(String, Arg)>,
    pub http: Option<Http>,
    pub unsafe_operation: Option<UnsafeOperation>,
    pub const_field: Option<ConstField>,
    pub inline: Option<InlineType>,
    pub modify: Option<Modify>,
}

impl Field {
    /// Whether some resolution directive is set.
    pub open spec fn spec_has_resolver(self) -> bool {
        self.http is Some || self.unsafe_operation is Some || self.const_field is Some
            || self.inline is Some
    }

    pub fn has_resolver(&self) -> (r: bool)
        ensures
            r == self.spec_has_resolver(),
    {
        self.http.is_some() || self.unsafe_operation.is_some() || self.const_field.is_some()
            || self.inline.is_some()
    }

    /// The number of resolution directives set on this field.
    pub open spec fn spec_resolver_count(self) -> int {
        (if self.http is Some {
            1int
        } else {
            0int
        }) + (if self.unsafe_operation is Some {
            1int
        } else {
            0int
        }) + (if self.const_field is Some {
            1int
        } else {
            0int
        }) + (if self.inline is Some {
            1int
        } else {
            0int
        })
    }
}

/// A configured type: fields plus enum/scalar/interface markers.
#[derive(Debug)]
pub struct ConfigType {
    pub fields: Vec<(String, Field)>,
    pub doc: Option<String>,
    pub interface: bool,
    pub scalar: bool,
    pub variants: Option<Vec<String>>,
    pub implements: Vec<String>,
}

/// A configured union of type names.
#[derive(Debug)]
pub struct Union {
    pub types: Vec<String>,
    pub doc: Option<String>,
}

/// The root operation type names.
#[derive(Debug)]
pub struct RootSchema {
    pub query: Option<String>,
    pub mutation: Option<String>,
}

/// The GraphQL side of the configuration.
#[derive(Debug)]
pub struct GraphQL {
    pub schema: RootSchema,
    pub types: Vec<(String, ConfigType)>,
    pub unions: Vec<(String, Union)>,
}

/// Server settings: the compile-time variable table.
#[derive(Debug)]
pub struct Server {
    pub vars: Vec<(String, String)>,
}

/// A batching policy for upstream calls.
#[derive(Clone, Copy, Debug, PartialEq, Eq, Structural)]
pub struct Batch {
    pub max_size: u64,
    pub delay: u64,
}

impl Batch {
    /// The policy used when batching is enabled without explicit settings.
    pub fn standard() -> (r: Batch)
        ensures
            r.max_size == 100,
            r.delay == 0,
    {
        Batch { max_size: 100, delay: 0 }
    }
}

/// Upstream settings: the default base URL and the batching policy.
#[derive(Debug)]
pub struct Upstream {
    pub base_url: Option<String>,
    pub batch: Option<Batch>,
}

/// The whole configuration handed to the compiler.
#[derive(Debug)]
pub struct Config {
    pub graphql: GraphQL,
    pub server: Server,
    pub upstream: Upstream,
}

impl Config {
    /// The descriptor of a configured type, by name.
    pub open spec fn spec_find_type(self, name: Seq<char>) -> Option<ConfigType> {
        assoc_find(self.graphql.types@, name)
    }

    pub fn find_type<'a>(&'a self, name: &String) -> (r: Option<&'a ConfigType>)
        ensures
            match self.spec_find_type(name@) {
                Option::Some(t) => r matches Option::Some(rt) && *rt == t,
                Option::None => r is None,
            },
    {
        crate::assoc::assoc_get(&self.graphql.types, name)
    }

    pub fn contains(&self, name: &String) -> (r: bool)
        ensures
            r == (self.spec_find_type(name@) is Some),
    {
        self.find_type(name).is_some()
    }
}

} // verus!
