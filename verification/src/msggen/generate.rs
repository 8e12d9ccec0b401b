//! Rust source text for a message definition: constants, then a struct with
//! one public field per message field.

use vstd::prelude::*;
use vstd::utf8::{decode_utf8, valid_utf8};
use crate::msggen::definition::{ArraySpecifier, BaseTypeName, Comment, Item, Line, TypeName, Value};
use crate::text::{decimal, push_decimal, push_signed_decimal, signed_decimal};

verus! {

/// Rust type that a ROS 2 `string` becomes.
pub const RUST_BYTESTRING: &'static str = "String";

/// Rust type that a ROS 2 `wstring` becomes.
pub const RUST_WIDE_STRING: &'static str = "WString";

/// The Rust type of a ROS 2 primitive type, `None` for a name that is not one.
pub open spec fn primitive_rust_type(name: Seq<char>) -> Option<Seq<char>> {
    if name == "bool"@ {
        Some("bool"@)
    } else if name == "byte"@ {
        Some("u8"@)
    } else if name == "char"@ {
        Some("u8"@)
    } else if name == "float32"@ {
        Some("f32"@)
    } else if name == "float64"@ {
        Some("f64"@)
    } else if name == "int8"@ {
        Some("i8"@)
    } else if name == "int16"@ {
        Some("i16"@)
    } else if name == "int32"@ {
        Some("i32"@)
    } else if name == "int64"@ {
        Some("i64"@)
    } else if name == "uint8"@ {
        Some("u8"@)
    } else if name == "uint16"@ {
        Some("u16"@)
    } else if name == "uint32"@ {
        Some("u32"@)
    } else if name == "uint64"@ {
        Some("u64"@)
    } else if name == "string"@ {
        Some(RUST_BYTESTRING@)
    } else if name == "wstring"@ {
        Some(RUST_WIDE_STRING@)
    } else {
        None
    }
}

/// Every primitive type named in `t` is one that Rust code can be made for.
pub open spec fn type_is_known(t: TypeName) -> bool {
    t.base matches BaseTypeName::Primitive { name } ==> primitive_rust_type(name@) is Some
}

/// The Rust type of an element type.
pub open spec fn base_type_text(b: BaseTypeName) -> Seq<char> {
    match b {
        BaseTypeName::Primitive { name } => primitive_rust_type(name@).unwrap(),
        BaseTypeName::BoundedString { .. } => RUST_BYTESTRING@,
        BaseTypeName::ComplexType { package_name, name } => match package_name {
            Some(pkg) => "super::"@ + pkg@ + "::"@ + name@,
            None => name@,
        },
    }
}

/// The Rust type of a type: a fixed-size array stays an array, a bounded or
/// unbounded one becomes a `Vec`.
pub open spec fn type_text(t: TypeName) -> Seq<char> {
    let base = base_type_text(t.base);
    match t.array_spec {
        None => base,
        Some(ArraySpecifier::Static { size }) => "["@ + base + ";"@ + decimal(size as nat) + "]"@,
        Some(_) => "Vec<"@ + base + ">"@,
    }
}

/// A value can be written as Rust: a string value must be UTF-8.
pub open spec fn value_is_printable(v: Value) -> bool {
    v matches Value::String(bytes) ==> valid_utf8(bytes@)
}

/// The Rust text of a value.
pub open spec fn value_text(v: Value) -> Seq<char> {
    match v {
        Value::Bool(b) => if b {
            "true"@
        } else {
            "false"@
        },
        Value::Float(text) => text@,
        Value::Int(i) => signed_decimal(i as int),
        Value::Uint(u) => decimal(u as nat),
        Value::String(bytes) => decode_utf8(bytes@),
    }
}

/// A field name as a Rust identifier: the keyword `type` is written raw.
pub open spec fn escaped_name(id: Seq<char>) -> Seq<char> {
    if id == "type"@ {
        "r#"@ + id
    } else {
        id
    }
}

/// The Rust type of an array of `base` under `array_spec`: the element type
/// itself, a fixed-size array of it, or a `Vec` of it.
pub open spec fn wrap_array(base: Seq<char>, array_spec: Option<ArraySpecifier>) -> Seq<char> {
    match array_spec {
        None => base,
        Some(ArraySpecifier::Static { size }) => "["@ + base + ";"@ + decimal(size as nat) + "]"@,
        Some(ArraySpecifier::Unbounded) => "Vec<"@ + base + ">"@,
        Some(ArraySpecifier::Bounded { .. }) => "Vec<"@ + base + ">"@,
    }
}

/// The Rust type of an array type is that of its element type, wrapped as
/// the array specifier says.
pub proof fn lemma_type_text_wraps_element_type(base: BaseTypeName, array_spec: Option<ArraySpecifier>)
    ensures
        type_text(TypeName { base, array_spec }) == wrap_array(
            type_text(TypeName { base, array_spec: None }),
            array_spec,
        ),
{
}

/// Escaping a field name twice escapes it once.
pub proof fn lemma_escape_idempotent(id: Seq<char>)
    ensures
        escaped_name(escaped_name(id)) == escaped_name(id),
{
    reveal_strlit("type");
    reveal_strlit("r#");
    if id == "type"@ {
        assert(escaped_name(id).len() == 6);
    }
}

/// Calls `String::from_utf8`, which gives back the text of `bytes` when they
/// are UTF-8 and fails otherwise.
#[verifier::external_body]
fn utf8_to_string(bytes: &[u8]) -> (s: Option<String>)
    ensures
        s is Some <==> valid_utf8(bytes@),
        s matches Some(text) ==> text@ == decode_utf8(bytes@),
{
    String::from_utf8(bytes.to_vec()).ok()
}

fn text_eq(a: &str, b: &str) -> (eq: bool)
    ensures
        eq == (a@ == b@),
{
    a.to_owned() == b.to_owned()
}

/// The identifier under which a field named `id` is declared.
fn escape_keywords(id: &str) -> (s: String)
    ensures
        s@ == escaped_name(id@),
{
    if text_eq(id, "type") {
        let mut s = "r#".to_owned();
        s.append(id);
        s
    } else {
        id.to_owned()
    }
}

fn primitive_type_str(name: &str) -> (t: Option<&'static str>)
    ensures
        t matches Some(s) ==> primitive_rust_type(name@) == Some(s@),
        t is None ==> primitive_rust_type(name@) is None,
{
    if text_eq(name, "bool") {
        Some("bool")
    } else if text_eq(name, "byte") {
        Some("u8")
    } else if text_eq(name, "char") {
        Some("u8")
    } else if text_eq(name, "float32") {
        Some("f32")
    } else if text_eq(name, "float64") {
        Some("f64")
    } else if text_eq(name, "int8") {
        Some("i8")
    } else if text_eq(name, "int16") {
        Some("i16")
    } else if text_eq(name, "int32") {
        Some("i32")
    } else if text_eq(name, "int64") {
        Some("i64")
    } else if text_eq(name, "uint8") {
        Some("u8")
    } else if text_eq(name, "uint16") {
        Some("u16")
    } else if text_eq(name, "uint32") {
        Some("u32")
    } else if text_eq(name, "uint64") {
        Some("u64")
    } else if text_eq(name, "string") {
        Some(RUST_BYTESTRING)
    } else if text_eq(name, "wstring") {
        Some(RUST_WIDE_STRING)
    } else {
        None
    }
}

/// Whether Rust code can be made for every primitive type named in `t`.
pub fn is_known_type(t: &TypeName) -> (known: bool)
    ensures
        known == type_is_known(*t),
{
    match &t.base {
        BaseTypeName::Primitive { name } => primitive_type_str(name.as_str()).is_some(),
        _ => true,
    }
}

/// The Rust type of `t`.
fn translate_type(t: &TypeName) -> (s: String)
    requires
        type_is_known(*t),
    ensures
        s@ == type_text(*t),
{
    let mut base = String::new();
    match &t.base {
        BaseTypeName::Primitive { name } => {
            match primitive_type_str(name.as_str()) {
                Some(rust) => base.append(rust),
                None => {},
            }
        },
        BaseTypeName::BoundedString { .. } => base.append(RUST_BYTESTRING),
        BaseTypeName::ComplexType { package_name, name } => {
            match package_name {
                Some(pkg) => {
                    base.append("super::");
                    base.append(pkg.as_str());
                    base.append("::");
                },
                None => {},
            }
            base.append(name.as_str());
        },
    }
    assert(base@ =~= base_type_text(t.base));
    match &t.array_spec {
        None => base,
        Some(ArraySpecifier::Static { size }) => {
            let mut s = "[".to_owned();
            s.append(base.as_str());
            s.append(";");
            push_decimal(&mut s, *size as u64);
            s.append("]");
            s
        },
        Some(_) => {
            let mut s = "Vec<".to_owned();
            s.append(base.as_str());
            s.append(">");
            s
        },
    }
}

/// The Rust text of `v`.
fn translate_value(v: &Value) -> (s: String)
    requires
        value_is_printable(*v),
    ensures
        s@ == value_text(*v),
{
    match v {
        Value::Bool(b) => {
            if *b {
                "true".to_owned()
            } else {
                "false".to_owned()
            }
        },
        Value::Float(text) => text.as_str().to_owned(),
        Value::Int(i) => {
            let mut s = String::new();
            push_signed_decimal(&mut s, *i);
            s
        },
        Value::Uint(u) => {
            let mut s = String::new();
            push_decimal(&mut s, *u);
            s
        },
        Value::String(bytes) => {
            match utf8_to_string(bytes.as_slice()) {
                Some(text) => text,
                None => String::new(),
            }
        },
    }
}

/// The line declares a field.
pub open spec fn is_field_line(line: Line) -> bool {
    line.0 matches Some(Item::Field { .. })
}

/// How many lines come before the first field: constants, comments and empty
/// lines that precede the struct.
pub open spec fn header_len(lines: Seq<Line>) -> nat
    decreases lines.len(),
{
    if lines.len() == 0 {
        0
    } else if is_field_line(lines[0]) {
        0
    } else {
        1 + header_len(lines.drop_first())
    }
}

/// The end of a line: its comment, or nothing, then a line break.
pub open spec fn comment_tail(c: Option<Comment>) -> Seq<char> {
    match c {
        Some(Comment(text)) => "// "@ + text@ + "\n"@,
        None => "\n"@,
    }
}

/// The text of a line before the struct: a constant becomes a `pub const`.
pub open spec fn header_line_text(line: Line) -> Seq<char> {
    match line.0 {
        None => comment_tail(line.1),
        Some(Item::Constant { typ, const_name, value }) => "pub const "@ + const_name@ + " : "@
            + type_text(typ) + " = "@ + value_text(value) + ";"@ + comment_tail(line.1),
        Some(Item::Field { .. }) => Seq::empty(),
    }
}

/// The text of a line inside the struct: a field becomes a public field; a
/// constant there is skipped with a comment saying so.
pub open spec fn member_line_text(line: Line) -> Seq<char> {
    match line.0 {
        None => match line.1 {
            None => "\n"@,
            Some(Comment(text)) => "  // "@ + text@ + "\n"@,
        },
        Some(Item::Field { typ, field_name, .. }) => "  pub "@ + escaped_name(field_name@) + " : "@
            + type_text(typ) + ", "@ + comment_tail(line.1),
        Some(Item::Constant { const_name, .. }) => "  pub "@ + "// skipped constant "@ + const_name@
            + " in the middle of struct"@ + comment_tail(line.1),
    }
}

pub open spec fn header_text(lines: Seq<Line>) -> Seq<char>
    decreases lines.len(),
{
    if lines.len() == 0 {
        Seq::empty()
    } else {
        header_text(lines.drop_last()) + header_line_text(lines.last())
    }
}

pub open spec fn members_text(lines: Seq<Line>) -> Seq<char>
    decreases lines.len(),
{
    if lines.len() == 0 {
        Seq::empty()
    } else {
        members_text(lines.drop_last()) + member_line_text(lines.last())
    }
}

/// The Rust source for message `name` with definition `lines`: the lines
/// before the first field, then an empty line and a serde-derived struct
/// holding the remaining lines.
pub open spec fn struct_definition_text(name: Seq<char>, lines: Seq<Line>) -> Seq<char> {
    let k = header_len(lines) as int;
    header_text(lines.take(k)) + "\n"@ + "#[derive(Debug, Serialize, Deserialize)]\n"@
        + "pub struct "@ + name + " {\n"@ + members_text(lines.skip(k)) + "}\n"@
}

/// Rust code can be made for a line before the struct.
pub open spec fn header_line_printable(line: Line) -> bool {
    line.0 matches Some(Item::Constant { typ, value, .. }) ==> type_is_known(typ)
        && value_is_printable(value)
}

/// Rust code can be made for a line inside the struct.
pub open spec fn member_line_printable(line: Line) -> bool {
    line.0 matches Some(Item::Field { typ, .. }) ==> type_is_known(typ)
}

/// Rust code can be made for the definition: the types of the constants
/// before the struct and of the fields are known, and the string constants
/// before the struct are UTF-8.
pub open spec fn definition_is_printable(lines: Seq<Line>) -> bool {
    let k = header_len(lines) as int;
    &&& forall|i: int| 0 <= i < k ==> header_line_printable(#[trigger] lines[i])
    &&& forall|i: int| k <= i < lines.len() ==> member_line_printable(#[trigger] lines[i])
}

/// `header_len` counts the lines before the first field line.
pub proof fn lemma_header_len(lines: Seq<Line>)
    ensures
        header_len(lines) <= lines.len(),
        forall|i: int| 0 <= i < header_len(lines) ==> !is_field_line(#[trigger] lines[i]),
        header_len(lines) < lines.len() ==> is_field_line(lines[header_len(lines) as int]),
    decreases lines.len(),
{
    if lines.len() > 0 && !is_field_line(lines[0]) {
        let rest = lines.drop_first();
        lemma_header_len(rest);
        assert forall|i: int| 0 <= i < header_len(lines) implies !is_field_line(#[trigger] lines[i]) by {
            if i > 0 {
                assert(lines[i] == rest[i - 1]);
            }
        }
        if header_len(lines) < lines.len() {
            assert(lines[header_len(lines) as int] == rest[header_len(rest) as int]);
        }
    }
}

/// The first field line, if any, is at index `k`, and none comes before it.
proof fn lemma_header_len_is(lines: Seq<Line>, k: int)
    requires
        0 <= k <= lines.len(),
        forall|i: int| 0 <= i < k ==> !is_field_line(#[trigger] lines[i]),
        k < lines.len() ==> is_field_line(lines[k]),
    ensures
        header_len(lines) == k,
{
    lemma_header_len(lines);
    if (header_len(lines) as int) < k {
        assert(!is_field_line(lines[header_len(lines) as int]));
    } else if k < (header_len(lines) as int) {
        assert(!is_field_line(lines[k]));
    }
}

fn append_comment_tail(out: &mut String, c: &Option<Comment>)
    ensures
        final(out)@ == old(out)@ + comment_tail(*c),
{
    match c {
        Some(Comment(text)) => {
            out.append("// ");
            out.append(text.as_str());
            out.append("\n");
        },
        None => out.append("\n"),
    }
    assert(out@ =~= old(out)@ + comment_tail(*c));
}

fn append_header_line(out: &mut String, line: &Line)
    requires
        header_line_printable(*line),
        !is_field_line(*line),
    ensures
        final(out)@ == old(out)@ + header_line_text(*line),
{
    match &line.0 {
        None => append_comment_tail(out, &line.1),
        Some(Item::Constant { typ, const_name, value }) => {
            let rust_type = translate_type(typ);
            let rust_value = translate_value(value);
            out.append("pub const ");
            out.append(const_name.as_str());
            out.append(" : ");
            out.append(rust_type.as_str());
            out.append(" = ");
            out.append(rust_value.as_str());
            out.append(";");
            append_comment_tail(out, &line.1);
        },
        Some(Item::Field { .. }) => {},
    }
    assert(out@ =~= old(out)@ + header_line_text(*line));
}

fn append_member_line(out: &mut String, line: &Line)
    requires
        member_line_printable(*line),
    ensures
        final(out)@ == old(out)@ + member_line_text(*line),
{
    match &line.0 {
        None => match &line.1 {
            None => out.append("\n"),
            Some(Comment(text)) => {
                out.append("  // ");
                out.append(text.as_str());
                out.append("\n");
            },
        },
        Some(item) => {
            out.append("  pub ");
            match item {
                Item::Field { typ, field_name, .. } => {
                    let rust_type = translate_type(typ);
                    let escaped = escape_keywords(field_name.as_str());
                    out.append(escaped.as_str());
                    out.append(" : ");
                    out.append(rust_type.as_str());
                    out.append(", ");
                },
                Item::Constant { const_name, .. } => {
                    out.append("// skipped constant ");
                    out.append(const_name.as_str());
                    out.append(" in the middle of struct");
                },
            }
            append_comment_tail(out, &line.1);
        },
    }
    assert(out@ =~= old(out)@ + member_line_text(*line));
}

/// Whether Rust code can be made for the definition `lines`: whether
/// [`print_struct_definition`] accepts it.
pub fn is_printable_definition(lines: &[Line]) -> (ok: bool)
    ensures
        ok == definition_is_printable(lines@),
{
    proof {
        lemma_header_len(lines@);
    }
    let n = lines.len();
    let mut i: usize = 0;
    let mut in_header = true;
    while i < n
        invariant
            n == lines@.len(),
            i <= n,
            in_header <==> i <= header_len(lines@),
            header_len(lines@) <= n,
            forall|j: int| 0 <= j < header_len(lines@) ==> !is_field_line(#[trigger] lines@[j]),
            header_len(lines@) < n ==> is_field_line(lines@[header_len(lines@) as int]),
            forall|j: int| 0 <= j < i && j < header_len(lines@) ==> header_line_printable(#[trigger] lines@[j]),
            forall|j: int| header_len(lines@) <= j < i ==> member_line_printable(#[trigger] lines@[j]),
        decreases n - i,
    {
        let line = &lines[i];
        if in_header && matches!(&line.0, Some(Item::Field { .. })) {
            in_header = false;
        }
        if in_header {
            match &line.0 {
                Some(Item::Constant { typ, value, .. }) => {
                    if !is_known_type(typ) {
                        return false;
                    }
                    match value {
                        Value::String(bytes) => {
                            if utf8_to_string(bytes.as_slice()).is_none() {
                                return false;
                            }
                        },
                        _ => {},
                    }
                },
                _ => {},
            }
        } else {
            match &line.0 {
                Some(Item::Field { typ, .. }) => {
                    if !is_known_type(typ) {
                        return false;
                    }
                },
                _ => {},
            }
        }
        i = i + 1;
    }
    true
}

/// The Rust source for message `name` with definition `lines`.
///
/// The lines before the first field are written first: empty lines,
/// comments and `pub const` items for the constants. Then comes a struct
/// deriving `Debug`, `Serialize` and `Deserialize` with one public field per
/// field line; comments and empty lines are kept, and a constant that comes
/// after the first field is skipped with a comment.
pub fn print_struct_definition(name: &str, lines: &[Line]) -> (text: String)
    requires
        definition_is_printable(lines@),
    ensures
        text@ == struct_definition_text(name@, lines@),
{
    let n = lines.len();
    let mut out = String::new();
    let mut k: usize = 0;
    while k < n && !matches!(&lines[k].0, Some(Item::Field { .. }))
        invariant
            n == lines@.len(),
            k <= n,
            definition_is_printable(lines@),
            forall|i: int| 0 <= i < k ==> !is_field_line(#[trigger] lines@[i]),
            out@ == header_text(lines@.take(k as int)),
        decreases n - k,
    {
        proof {
            lemma_header_len(lines@);
            if (header_len(lines@) as int) <= k {
                assert(false);
            }
        }
        append_header_line(&mut out, &lines[k]);
        assert(lines@.take(k + 1).drop_last() =~= lines@.take(k as int));
        k = k + 1;
    }
    proof {
        lemma_header_len_is(lines@, k as int);
    }
    out.append("\n");
    out.append("#[derive(Debug, Serialize, Deserialize)]\n");
    out.append("pub struct ");
    out.append(name);
    out.append(" {\n");
    let ghost before = out@;
    let mut j: usize = k;
    while j < n
        invariant
            n == lines@.len(),
            k <= j <= n,
            header_len(lines@) == k,
            definition_is_printable(lines@),
            out@ == before + members_text(lines@.subrange(k as int, j as int)),
        decreases n - j,
    {
        append_member_line(&mut out, &lines[j]);
        assert(lines@.subrange(k as int, j + 1).drop_last() =~= lines@.subrange(k as int, j as int));
        j = j + 1;
    }
    out.append("}\n");
    assert(lines@.subrange(k as int, n as int) =~= lines@.skip(k as int));
    assert(out@ =~= struct_definition_text(name@, lines@));
    out
}

} // verus!
