//! Binding schemas with dynamically keyed map fields.

use argser::ArgProvider;
use argser::introspect::ArgumentDetail;
use argser::introspect::list_arguments;
use argser::parse_from_providers;
use argser::provider::Fixed;
use argser::schema::DefaultPolicy;
use argser::schema::FieldKind;
use argser::schema::FieldSpec;
use argser::schema::Schema;
use argser::value::TypeTag;
use argser::value::Value;

fn field(name: &str, kind: FieldKind, policy: DefaultPolicy) -> FieldSpec {
    FieldSpec { binding_name: name.to_owned(), kind, default_policy: policy }
}

fn detail(name: &str, required: bool) -> ArgumentDetail {
    ArgumentDetail { name: name.to_owned(), required, description: "".to_owned() }
}

fn con_schema() -> Schema {
    Schema {
        fields: vec![
            field("ip", FieldKind::Primitive(TypeTag::Str), DefaultPolicy::Required),
            field("port", FieldKind::Primitive(TypeTag::U16), DefaultPolicy::Required),
        ],
    }
}

#[test]
fn map_primitive() {
    let fixed_provider = {
        let mut tmp = Fixed::empty();

        tmp.add_arg("name".to_owned(), "test-name".to_owned());
        tmp.add_arg("con.port".to_owned(), "123".to_owned());
        tmp.add_arg("con.test".to_owned(), "234".to_owned());

        tmp
    };

    let schema = Schema {
        fields: vec![
            field("name", FieldKind::Primitive(TypeTag::Str), DefaultPolicy::Required),
            field("con", FieldKind::MapPrimitive(TypeTag::U16), DefaultPolicy::Required),
        ],
    };

    let expected = Value::Record(vec![
        Value::Str("test-name".to_owned()),
        Value::Dict(vec![
            ("port".to_owned(), Value::U16(123)),
            ("test".to_owned(), Value::U16(234)),
        ]),
    ]);
    assert_eq!(
        Ok(expected),
        parse_from_providers(&schema, &vec![fixed_provider.get_args()])
    );

    let expected_args = vec![detail("name", true), detail("con.{name}", false)];
    assert_eq!(expected_args, list_arguments(&schema));
}

#[test]
fn map_subcategory() {
    let fixed_provider = {
        let mut tmp = Fixed::empty();

        tmp.add_arg("name".to_owned(), "test-name".to_owned());
        tmp.add_arg("con.test1.ip".to_owned(), "example.com".to_owned());
        tmp.add_arg("con.test1.port".to_owned(), "123".to_owned());
        tmp.add_arg("con.test2.ip".to_owned(), "example.com".to_owned());
        tmp.add_arg("con.test2.port".to_owned(), "234".to_owned());

        tmp
    };

    let schema = Schema {
        fields: vec![
            field("name", FieldKind::Primitive(TypeTag::Str), DefaultPolicy::Required),
            field("con", FieldKind::MapNested(con_schema()), DefaultPolicy::Required),
        ],
    };

    let expected = Value::Record(vec![
        Value::Str("test-name".to_owned()),
        Value::Dict(vec![
            (
                "test1".to_owned(),
                Value::Record(vec![Value::Str("example.com".to_owned()), Value::U16(123)]),
            ),
            (
                "test2".to_owned(),
                Value::Record(vec![Value::Str("example.com".to_owned()), Value::U16(234)]),
            ),
        ]),
    ]);
    assert_eq!(
        Ok(expected),
        parse_from_providers(&schema, &vec![fixed_provider.get_args()])
    );

    let expected_args = vec![
        detail("name", true),
        detail("con.{name}.ip", false),
        detail("con.{name}.port", false),
    ];
    assert_eq!(expected_args, list_arguments(&schema));
}

#[test]
fn map_primitive_drops_bad_entries() {
    // An entry whose value fails to decode is silently dropped; the overall
    // bind still succeeds.
    let fixed_provider = {
        let mut tmp = Fixed::empty();
        tmp.add_arg("name".to_owned(), "x".to_owned());
        tmp.add_arg("con.a".to_owned(), "1".to_owned());
        tmp.add_arg("con.b".to_owned(), "bad".to_owned());
        tmp
    };

    let schema = Schema {
        fields: vec![
            field("name", FieldKind::Primitive(TypeTag::Str), DefaultPolicy::Required),
            field("con", FieldKind::MapPrimitive(TypeTag::U16), DefaultPolicy::Required),
        ],
    };

    let expected = Value::Record(vec![
        Value::Str("x".to_owned()),
        Value::Dict(vec![("a".to_owned(), Value::U16(1))]),
    ]);
    assert_eq!(
        Ok(expected),
        parse_from_providers(&schema, &vec![fixed_provider.get_args()])
    );
}

#[test]
fn map_nested_drops_incomplete_entries() {
    // A map entry whose nested bind fails, here for the missing required
    // `ip`, is dropped from the result; complete entries stay.
    let fixed_provider = {
        let mut tmp = Fixed::empty();
        tmp.add_arg("con.t1.ip".to_owned(), "h".to_owned());
        tmp.add_arg("con.t1.port".to_owned(), "1".to_owned());
        tmp.add_arg("con.t2.port".to_owned(), "2".to_owned());
        tmp
    };

    let schema = Schema {
        fields: vec![field("con", FieldKind::MapNested(con_schema()), DefaultPolicy::Required)],
    };

    let expected = Value::Record(vec![Value::Dict(vec![(
        "t1".to_owned(),
        Value::Record(vec![Value::Str("h".to_owned()), Value::U16(1)]),
    )])]);
    assert_eq!(
        Ok(expected),
        parse_from_providers(&schema, &vec![fixed_provider.get_args()])
    );
}

#[test]
fn map_nested_skips_keys_without_second_segment() {
    // A claimed key whose suffix has no further separator is malformed and
    // silently skipped.
    let fixed_provider = {
        let mut tmp = Fixed::empty();
        tmp.add_arg("con.stray".to_owned(), "v".to_owned());
        tmp
    };

    let schema = Schema {
        fields: vec![field("con", FieldKind::MapNested(con_schema()), DefaultPolicy::Required)],
    };

    let expected = Value::Record(vec![Value::Dict(Vec::new())]);
    assert_eq!(
        Ok(expected),
        parse_from_providers(&schema, &vec![fixed_provider.get_args()])
    );
}

#[test]
fn map_arguments_never_required() {
    // Map descriptors always report required = false, whatever the element
    // schema demands.
    let schema = Schema {
        fields: vec![
            field("m", FieldKind::MapPrimitive(TypeTag::U16), DefaultPolicy::Required),
            field("n", FieldKind::MapNested(con_schema()), DefaultPolicy::Required),
        ],
    };
    for d in list_arguments(&schema) {
        assert!(!d.required);
    }
    let expected_args = vec![
        detail("m.{name}", false),
        detail("n.{name}.ip", false),
        detail("n.{name}.port", false),
    ];
    assert_eq!(expected_args, list_arguments(&schema));
}

#[test]
fn absent_map_is_empty() {
    // An entirely absent map resolves to an empty map, not an error.
    let schema = Schema {
        fields: vec![field("con", FieldKind::MapPrimitive(TypeTag::U16), DefaultPolicy::Required)],
    };
    let fixed_provider = Fixed::empty();
    let expected = Value::Record(vec![Value::Dict(Vec::new())]);
    assert_eq!(
        Ok(expected),
        parse_from_providers(&schema, &vec![fixed_provider.get_args()])
    );
}
