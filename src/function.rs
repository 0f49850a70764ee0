//! The two conversions as functions of the expression language: a
//! stateless descriptor for each (name, parameter schema, declared return
//! kind, documented examples, compile step) and the evaluation nodes that
//! the compile step builds. Resolving the argument expression belongs to
//! the host evaluator; a node is built around the value it resolved to.
use vstd::prelude::*;
use crate::convert::{from_entries, from_entries_result, to_entries, to_entries_result};
use crate::error::ConversionError;
use crate::value::{Kind, Value};

verus! {

/// The outcome of evaluating an expression.
pub type Resolved = Result<Value, ConversionError>;

/// The documentation category a function is listed under.
#[derive(Clone, Copy, Debug, PartialEq, Eq, Structural)]
pub enum Category {
    Object,
}

impl Category {
    pub fn as_str(&self) -> (r: &'static str)
        ensures
            r@ == match *self {
                Category::Object => "Object"@,
            },
    {
        match self {
            Category::Object => "Object",
        }
    }
}

/// One entry of a function's parameter schema.
#[derive(Debug)]
pub struct Parameter {
    pub keyword: &'static str,
    pub kind: Kind,
    pub required: bool,
    pub description: &'static str,
    pub default: Option<Value>,
}

/// A documented call and its expected textual result or error message.
#[derive(Debug)]
pub struct Example {
    pub title: &'static str,
    pub source: &'static str,
    pub result: Result<&'static str, &'static str>,
}

/// The statically inferred shape of an expression's result: its kind,
/// with the types of elements or fields left unconstrained.
#[derive(Clone, Copy, Debug, PartialEq, Eq, Structural)]
pub struct TypeDef {
    pub kind: Kind,
}

/// The descriptor of `from_entries`.
#[derive(Clone, Copy, Debug)]
pub struct FromEntries;

impl FromEntries {
    pub fn identifier(&self) -> (r: &'static str)
        ensures
            r@ == "from_entries"@,
    {
        "from_entries"
    }

    pub fn usage(&self) -> (r: &'static str)
        ensures
            r@ == "Converts array of key/value objects into an object."@,
    {
        "Converts array of key/value objects into an object."
    }

    pub fn category(&self) -> (r: Category)
        ensures
            r == Category::Object,
    {
        Category::Object
    }

    /// The kind of every value the function returns.
    pub fn return_kind(&self) -> (r: Kind)
        ensures
            r == Kind::Object,
    {
        Kind::Object
    }

    pub fn return_rules(&self) -> (r: Vec<&'static str>)
        ensures
            r@.len() == 1,
            r@[0]@ == "Returns an object composed from the array entries."@,
    {
        vec!["Returns an object composed from the array entries."]
    }

    /// The parameter schema: one required parameter, `value`.
    pub fn parameters(&self) -> (r: Vec<Parameter>)
        ensures
            r@.len() == 1,
            r@[0].keyword@ == "value"@,
            r@[0].kind == Kind::Array,
            r@[0].required,
            r@[0].description@ == "The array of key/value objects to convert."@,
            r@[0].default is None,
    {
        vec![
            Parameter {
                keyword: "value",
                kind: Kind::Array,
                required: true,
                description: "The array of key/value objects to convert.",
                default: None,
            },
        ]
    }

    /// Documented calls with their expected results.
    pub fn examples(&self) -> (r: Vec<Example>)
        ensures
            r@.len() == 2,
            r@[0].title@ == "Manipulate empty array"@,
            r@[0].source@ == "from_entries([])"@,
            r@[0].result matches Ok(t) && t@ == "{}"@,
            r@[1].title@ == "Manipulate array"@,
            r@[1].source@ == r#"from_entries([{ "key": "foo", "value": "bar" }])"#@,
            r@[1].result matches Ok(t) && t@ == r#"{ "foo": "bar" }"#@,
    {
        vec![
            Example {
                title: "Manipulate empty array",
                source: "from_entries([])",
                result: Ok("{}"),
            },
            Example {
                title: "Manipulate array",
                source: r#"from_entries([{ "key": "foo", "value": "bar" }])"#,
                result: Ok(r#"{ "foo": "bar" }"#),
            },
        ]
    }

    /// Builds the evaluation node around the resolved argument `value`.
    pub fn compile(&self, value: Value) -> (r: FromEntriesFn)
        ensures
            r.value == value,
    {
        FromEntriesFn { value }
    }
}

/// The evaluation node of `from_entries`.
/// It holds its argument, resolved by the caller.
#[derive(Debug)]
pub struct FromEntriesFn {
    pub value: Value,
}

impl FromEntriesFn {
    pub fn resolve(self) -> (r: Resolved)
        ensures
            from_entries_result(self.value, r),
    {
        from_entries(self.value)
    }

    pub fn type_def(&self) -> (r: TypeDef)
        ensures
            r.kind == Kind::Object,
    {
        TypeDef { kind: Kind::Object }
    }
}

/// The descriptor of `to_entries`.
#[derive(Clone, Copy, Debug)]
pub struct ToEntries;

impl ToEntries {
    pub fn identifier(&self) -> (r: &'static str)
        ensures
            r@ == "to_entries"@,
    {
        "to_entries"
    }

    pub fn usage(&self) -> (r: &'static str)
        ensures
            r@ == "Converts JSON objects into array of objects."@,
    {
        "Converts JSON objects into array of objects."
    }

    pub fn category(&self) -> (r: Category)
        ensures
            r == Category::Object,
    {
        Category::Object
    }

    /// The kind of every value the function returns.
    pub fn return_kind(&self) -> (r: Kind)
        ensures
            r == Kind::Array,
    {
        Kind::Array
    }

    pub fn return_rules(&self) -> (r: Vec<&'static str>)
        ensures
            r@.len() == 1,
            r@[0]@ == "The return array has same inner objects count as the key counter of `value` object."@,
    {
        vec!["The return array has same inner objects count as the key counter of `value` object."]
    }

    /// The parameter schema: one required parameter, `value`.
    pub fn parameters(&self) -> (r: Vec<Parameter>)
        ensures
            r@.len() == 1,
            r@[0].keyword@ == "value"@,
            r@[0].kind == Kind::Object,
            r@[0].required,
            r@[0].description@ == "The object to manipulate."@,
            r@[0].default is None,
    {
        vec![
            Parameter {
                keyword: "value",
                kind: Kind::Object,
                required: true,
                description: "The object to manipulate.",
                default: None,
            },
        ]
    }

    /// Documented calls with their expected results.
    pub fn examples(&self) -> (r: Vec<Example>)
        ensures
            r@.len() == 2,
            r@[0].title@ == "Manipulate empty object"@,
            r@[0].source@ == "to_entries({})"@,
            r@[0].result matches Ok(t) && t@ == "[]"@,
            r@[1].title@ == "Manipulate object"@,
            r@[1].source@ == r#"to_entries({ "foo": "bar"})"#@,
            r@[1].result matches Ok(t) && t@ == r#"[{ "key": "foo", "value": "bar" }]"#@,
    {
        vec![
            Example {
                title: "Manipulate empty object",
                source: "to_entries({})",
                result: Ok("[]"),
            },
            Example {
                title: "Manipulate object",
                source: r#"to_entries({ "foo": "bar"})"#,
                result: Ok(r#"[{ "key": "foo", "value": "bar" }]"#),
            },
        ]
    }

    /// Builds the evaluation node around the resolved argument `value`.
    pub fn compile(&self, value: Value) -> (r: ToEntriesFn)
        ensures
            r.value == value,
    {
        ToEntriesFn { value }
    }
}

/// The evaluation node of `to_entries`.
/// It holds its argument, resolved by the caller.
#[derive(Debug)]
pub struct ToEntriesFn {
    pub value: Value,
}

impl ToEntriesFn {
    pub fn resolve(self) -> (r: Resolved)
        ensures
            to_entries_result(self.value, r),
    {
        to_entries(self.value)
    }

    pub fn type_def(&self) -> (r: TypeDef)
        ensures
            r.kind == Kind::Array,
    {
        TypeDef { kind: Kind::Array }
    }
}

} // verus!
