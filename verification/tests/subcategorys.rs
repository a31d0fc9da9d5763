//! Binding a schema with a nested sub-category field.

use argser::ArgProvider;
use argser::introspect::ArgumentDetail;
use argser::introspect::list_arguments;
use argser::parse_from_providers;
use argser::provider::Fixed;
use argser::schema::DefaultPolicy;
use argser::schema::FieldKind;
use argser::schema::FieldSpec;
use argser::schema::Schema;
use argser::value::TypeTag;
use argser::value::Value;

fn field(name: &str, kind: FieldKind, policy: DefaultPolicy) -> FieldSpec {
    FieldSpec { binding_name: name.to_owned(), kind, default_policy: policy }
}

fn detail(name: &str, required: bool) -> ArgumentDetail {
    ArgumentDetail { name: name.to_owned(), required, description: "".to_owned() }
}

fn options_schema() -> Schema {
    let con = Schema {
        fields: vec![field("port", FieldKind::Primitive(TypeTag::U16), DefaultPolicy::Required)],
    };
    Schema {
        fields: vec![
            field("name", FieldKind::Primitive(TypeTag::Str), DefaultPolicy::Required),
            field("con", FieldKind::Nested(con), DefaultPolicy::Required),
        ],
    }
}

#[test]
fn one_subcategory() {
    let fixed_provider = {
        let mut tmp = Fixed::empty();

        tmp.add_arg("name".to_owned(), "test-name".to_owned());
        tmp.add_arg("con.port".to_owned(), "123".to_owned());

        tmp
    };

    let schema = options_schema();
    let expected = Value::Record(vec![
        Value::Str("test-name".to_owned()),
        Value::Record(vec![Value::U16(123)]),
    ]);
    assert_eq!(
        Ok(expected),
        parse_from_providers(&schema, &vec![fixed_provider.get_args()])
    );

    let expected_args = vec![detail("name", true), detail("con.port", true)];
    assert_eq!(expected_args, list_arguments(&schema));
}

#[test]
fn bare_prefix_key_is_not_consumed() {
    // A key equal to the binding name with no trailing separator does not
    // belong to the nested field: it is ignored.
    let fixed_provider = {
        let mut tmp = Fixed::empty();
        tmp.add_arg("name".to_owned(), "x".to_owned());
        tmp.add_arg("con".to_owned(), "stray".to_owned());
        tmp.add_arg("con.port".to_owned(), "9".to_owned());
        tmp
    };

    let schema = options_schema();
    let expected = Value::Record(vec![
        Value::Str("x".to_owned()),
        Value::Record(vec![Value::U16(9)]),
    ]);
    assert_eq!(
        Ok(expected),
        parse_from_providers(&schema, &vec![fixed_provider.get_args()])
    );
}
