use ros2_client::msggen::definition::{
    ArraySpecifier, BaseTypeName, Comment, Item, Line, TypeName, Value,
};
use ros2_client::msggen::generate::{is_known_type, is_printable_definition, print_struct_definition};

fn prim(name: &str) -> TypeName {
    TypeName { base: BaseTypeName::Primitive { name: name.to_string() }, array_spec: None }
}

fn constant(typ: TypeName, name: &str, value: Value) -> Option<Item> {
    Some(Item::Constant { typ, const_name: name.to_string(), value })
}

fn field(typ: TypeName, name: &str) -> Option<Item> {
    Some(Item::Field { typ, field_name: name.to_string(), default_value: None })
}

fn comment(text: &str) -> Option<Comment> {
    Some(Comment(text.to_string()))
}

fn one_field(typ: TypeName) -> String {
    print_struct_definition("M", &[(field(typ, "x"), None)])
}

fn struct_with(members: &str) -> String {
    format!("\n#[derive(Debug, Serialize, Deserialize)]\npub struct M {{\n{members}}}\n")
}

#[test]
fn full_definition_text() {
    let lines: Vec<Line> = vec![
        (None, comment(" header")),
        (constant(prim("int32"), "MAX", Value::Int(-5)), None),
        (constant(prim("string"), "NAME", Value::String(b"abc".to_vec())), comment("c")),
        (None, None),
        (
            field(
                TypeName {
                    base: BaseTypeName::Primitive { name: "float64".to_string() },
                    array_spec: Some(ArraySpecifier::Static { size: 3 }),
                },
                "type",
            ),
            None,
        ),
        (
            field(
                TypeName {
                    base: BaseTypeName::ComplexType {
                        package_name: Some("geometry_msgs".to_string()),
                        name: "Point".to_string(),
                    },
                    array_spec: Some(ArraySpecifier::Unbounded),
                },
                "points",
            ),
            comment("pts"),
        ),
        (constant(prim("uint8"), "LATE", Value::Uint(1)), None),
        (None, comment("end")),
        (None, None),
    ];
    assert!(is_printable_definition(&lines));
    let expected = "//  header\n\
                    pub const MAX : i32 = -5;\n\
                    pub const NAME : String = abc;// c\n\
                    \n\
                    \n\
                    #[derive(Debug, Serialize, Deserialize)]\n\
                    pub struct Foo {\n  \
                    pub r#type : [f64;3], \n  \
                    pub points : Vec<super::geometry_msgs::Point>, // pts\n  \
                    pub // skipped constant LATE in the middle of struct\n  \
                    // end\n\
                    \n\
                    }\n";
    assert_eq!(print_struct_definition("Foo", &lines), expected);
}

#[test]
fn empty_definition_is_an_empty_struct() {
    let lines: Vec<Line> = vec![];
    assert_eq!(
        print_struct_definition("Empty", &lines),
        "\n#[derive(Debug, Serialize, Deserialize)]\npub struct Empty {\n}\n"
    );
}

#[test]
fn primitive_types_become_rust_types() {
    let cases = [
        ("bool", "bool"),
        ("byte", "u8"),
        ("char", "u8"),
        ("float32", "f32"),
        ("float64", "f64"),
        ("int8", "i8"),
        ("int16", "i16"),
        ("int32", "i32"),
        ("int64", "i64"),
        ("uint8", "u8"),
        ("uint16", "u16"),
        ("uint32", "u32"),
        ("uint64", "u64"),
        ("string", "String"),
        ("wstring", "WString"),
    ];
    for (ros, rust) in cases {
        assert_eq!(one_field(prim(ros)), struct_with(&format!("  pub x : {rust}, \n")));
    }
}

#[test]
fn bounded_strings_and_arrays() {
    let bounded = TypeName { base: BaseTypeName::BoundedString { bound: 10 }, array_spec: None };
    assert_eq!(one_field(bounded), struct_with("  pub x : String, \n"));
    let bounded_array = TypeName {
        base: BaseTypeName::Primitive { name: "int16".to_string() },
        array_spec: Some(ArraySpecifier::Bounded { bound: 4 }),
    };
    assert_eq!(one_field(bounded_array), struct_with("  pub x : Vec<i16>, \n"));
    let fixed = TypeName {
        base: BaseTypeName::Primitive { name: "uint8".to_string() },
        array_spec: Some(ArraySpecifier::Static { size: 1024 }),
    };
    assert_eq!(one_field(fixed), struct_with("  pub x : [u8;1024], \n"));
    let local = TypeName {
        base: BaseTypeName::ComplexType { package_name: None, name: "Header".to_string() },
        array_spec: None,
    };
    assert_eq!(one_field(local), struct_with("  pub x : Header, \n"));
}

#[test]
fn only_the_keyword_type_is_escaped() {
    let lines: Vec<Line> = vec![
        (field(prim("bool"), "type"), None),
        (field(prim("bool"), "types"), None),
        (field(prim("bool"), "typ"), None),
    ];
    assert_eq!(
        print_struct_definition("M", &lines),
        struct_with("  pub r#type : bool, \n  pub types : bool, \n  pub typ : bool, \n")
    );
}

#[test]
fn constant_values_are_written_as_rust() {
    let lines: Vec<Line> = vec![
        (constant(prim("bool"), "T", Value::Bool(true)), None),
        (constant(prim("bool"), "F", Value::Bool(false)), None),
        (constant(prim("int64"), "MIN", Value::Int(i64::MIN)), None),
        (constant(prim("int64"), "ZERO", Value::Int(0)), None),
        (constant(prim("uint64"), "MAX", Value::Uint(u64::MAX)), None),
        (constant(prim("float64"), "PI", Value::Float(format!("{}", 3.25f64))), None),
        (constant(prim("string"), "E", Value::String("é".as_bytes().to_vec())), None),
    ];
    assert!(is_printable_definition(&lines));
    let header = "pub const T : bool = true;\n\
                  pub const F : bool = false;\n\
                  pub const MIN : i64 = -9223372036854775808;\n\
                  pub const ZERO : i64 = 0;\n\
                  pub const MAX : u64 = 18446744073709551615;\n\
                  pub const PI : f64 = 3.25;\n\
                  pub const E : String = é;\n";
    assert_eq!(print_struct_definition("M", &lines), format!("{header}{}", struct_with("")));
}

#[test]
fn unknown_primitive_type_is_not_printable() {
    assert!(!is_known_type(&prim("int128")));
    assert!(is_known_type(&prim("int8")));
    let in_field: Vec<Line> = vec![(field(prim("int128"), "x"), None)];
    assert!(!is_printable_definition(&in_field));
    let in_constant: Vec<Line> = vec![(constant(prim("quaternion"), "Q", Value::Int(1)), None)];
    assert!(!is_printable_definition(&in_constant));
}

#[test]
fn non_utf8_string_constant_is_not_printable() {
    let lines: Vec<Line> = vec![(constant(prim("string"), "BAD", Value::String(vec![0xff, 0xfe])), None)];
    assert!(!is_printable_definition(&lines));
}

#[test]
fn constants_inside_the_struct_are_not_checked() {
    // after the first field a constant is skipped, so its type and value do not matter
    let lines: Vec<Line> = vec![
        (field(prim("int8"), "a"), None),
        (constant(prim("int128"), "BAD", Value::String(vec![0xff])), None),
    ];
    assert!(is_printable_definition(&lines));
    assert_eq!(
        print_struct_definition("M", &lines),
        struct_with("  pub a : i8, \n  pub // skipped constant BAD in the middle of struct\n")
    );
}
