//! Tests of the argument providers: command-line token parsing,
//! environment-variable normalization, and the fixed provider.

use argser::ArgProvider;
use argser::provider::Cli;
use argser::provider::Env;
use argser::provider::Fixed;

#[test]
fn parse_vars_1_pair() {
    let input = vec!["-p".to_owned(), "8080".to_owned()];

    let result = Cli::parse_vars(input);
    let expected = vec![("p".to_owned(), "8080".to_owned())];

    assert_eq!(expected, result);
}

#[test]
fn parse_vars_single_pair() {
    let input = vec!["-p=8080".to_owned()];

    let result = Cli::parse_vars(input);
    let expected = vec![("p".to_owned(), "8080".to_owned())];

    assert_eq!(expected, result);
}

#[test]
fn parse_vars_edges() {
    // A non-flag token is skipped; repeated dashes are trimmed; a dangling
    // key at the end produces no pair; the token after a dangling key is
    // taken as its value whatever it looks like.
    let input = vec![
        "prog".to_owned(),
        "--verbose=yes".to_owned(),
        "-a".to_owned(),
        "-b".to_owned(),
        "-dangling".to_owned(),
    ];
    let result = Cli::parse_vars(input);
    let expected = vec![
        ("verbose".to_owned(), "yes".to_owned()),
        ("a".to_owned(), "-b".to_owned()),
    ];
    assert_eq!(expected, result);
}

#[test]
fn parse_with_to_lowercase() {
    let input = vec![
        ("TEST-1".to_owned(), "value-1".to_owned()),
        ("TEST-2".to_owned(), "value-2".to_owned()),
    ];

    let expected = vec![
        ("test-1".to_owned(), "value-1".to_owned()),
        ("test-2".to_owned(), "value-2".to_owned()),
    ];

    let env = Env::new(true);
    let result = env.parse(input);

    assert_eq!(expected, result);
}

#[test]
fn parse_withoiut_to_lowercase() {
    let input = vec![
        ("TEST-1".to_owned(), "value-1".to_owned()),
        ("TEST-2".to_owned(), "value-2".to_owned()),
    ];

    let expected = vec![
        ("TEST-1".to_owned(), "value-1".to_owned()),
        ("TEST-2".to_owned(), "value-2".to_owned()),
    ];

    let env = Env::new(false);
    let result = env.parse(input);

    assert_eq!(expected, result);
}

#[test]
fn env_lowercase_option() {
    let mut env = Env::new(false);
    assert!(!env.converts_to_lowercase());
    env.convert_to_lowercase(true);
    assert!(env.converts_to_lowercase());
}

#[test]
fn empty() {
    let fixed = Fixed::empty();
    assert_eq!(Vec::<(String, String)>::new(), fixed.get_args());
}

#[test]
fn empty_add_arg() {
    let mut fixed = Fixed::empty();
    assert_eq!(Vec::<(String, String)>::new(), fixed.get_args());

    fixed.add_arg("test-key".to_owned(), "test-value".to_owned());
    assert_eq!(
        vec![("test-key".to_owned(), "test-value".to_owned())],
        fixed.get_args()
    );
}
