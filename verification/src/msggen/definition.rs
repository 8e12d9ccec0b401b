//! The parsed form of a ROS 2 message definition: one optional item and one
//! optional trailing comment per line.

use vstd::prelude::*;

verus! {

/// A constant or default value written in a message definition.
#[derive(Clone, Debug, PartialEq)]
pub enum Value {
    Bool(bool),
    /// A floating-point value, held as the decimal text that Rust's `{}`
    /// formatting gives for it.
    Float(String),
    Int(i64),
    Uint(u64),
    /// A string value, as the bytes written in the definition.
    String(Vec<u8>),
}

/// The array part of a type: `[N]`, `[]` or `[<=N]`.
#[derive(Clone, Debug, PartialEq, Eq)]
pub enum ArraySpecifier {
    Static { size: usize },
    Unbounded,
    Bounded { bound: usize },
}

/// The element type of a field or constant.
#[derive(Clone, Debug, PartialEq, Eq)]
pub enum BaseTypeName {
    /// A built-in type such as `int32` or `string`.
    Primitive { name: String },
    /// `string<=N`.
    BoundedString { bound: usize },
    /// A message type, optionally qualified by its package.
    ComplexType { package_name: Option<String>, name: String },
}

/// A type: an element type, possibly made an array.
#[derive(Clone, Debug, PartialEq, Eq)]
pub struct TypeName {
    pub base: BaseTypeName,
    pub array_spec: Option<ArraySpecifier>,
}

/// What a line of a message definition declares.
#[derive(Clone, Debug, PartialEq)]
pub enum Item {
    Field { typ: TypeName, field_name: String, default_value: Option<Value> },
    Constant { typ: TypeName, const_name: String, value: Value },
}

/// The text of a `#` comment, without the `#`.
#[derive(Clone, Debug, PartialEq, Eq)]
pub struct Comment(pub String);

/// One line of a message definition.
pub type Line = (Option<Item>, Option<Comment>);

} // verus!
