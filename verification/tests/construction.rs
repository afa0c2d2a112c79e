use shallot_hashmap::mapping;
use shallot_hashmap::Environment;
use shallot_hashmap::Error;
use shallot_hashmap::ErrorKind;
use shallot_hashmap::Expression;
use shallot_hashmap::Symbol;

fn symbol(name: &str) -> Expression<i64> {
    Expression::Symbol(Symbol::new(name))
}

fn number(value: i64) -> Expression<i64> {
    Expression::Other { value, text: value.to_string() }
}

#[test]
fn mapping_of_two_pairs_answers_for_both_keys() {
    let mut env = Environment::new();
    let arguments = vec![symbol("x"), number(1), symbol("y"), number(2)];
    let built = mapping(&arguments, &mut env).unwrap();
    assert_eq!(built.index(&symbol("x")), Ok(number(1)));
    assert_eq!(built.index(&symbol("y")), Ok(number(2)));
    let missing = built.index(&symbol("z")).unwrap_err();
    assert_eq!(missing, Error::KeyMissing { key: Symbol::new("z") });
    assert_eq!(missing.kind(), ErrorKind::KeyError);
    assert_eq!(missing.message(), "Key z missing in hash map");
}

#[test]
fn mapping_keeps_the_last_value_of_a_repeated_key() {
    let mut env = Environment::new();
    let arguments = vec![symbol("x"), number(1), symbol("x"), number(2)];
    let built = mapping(&arguments, &mut env).unwrap();
    assert_eq!(built.index(&symbol("x")), Ok(number(2)));
}

#[test]
fn mapping_keeps_the_last_value_among_many_pairs() {
    let mut env = Environment::new();
    let arguments = vec![
        symbol("b"),
        number(1),
        symbol("a"),
        number(2),
        symbol("b"),
        number(3),
        symbol("c"),
        number(4),
        symbol("a"),
        number(5),
    ];
    let built = mapping(&arguments, &mut env).unwrap();
    assert_eq!(built.index(&symbol("a")), Ok(number(5)));
    assert_eq!(built.index(&symbol("b")), Ok(number(3)));
    assert_eq!(built.index(&symbol("c")), Ok(number(4)));
    assert_eq!(built.get(&Symbol::new("a")), Some(&number(5)));
    assert_eq!(built.get(&Symbol::new("d")), None);
}

#[test]
fn mapping_of_nothing_is_empty() {
    let mut env: Environment<i64> = Environment::new();
    let built = mapping(&[], &mut env).unwrap();
    assert_eq!(built.get(&Symbol::new("x")), None);
    assert_eq!(built.render(), "");
}

#[test]
fn mapping_stores_values_as_they_stand() {
    let mut env = Environment::new();
    env.bind(Symbol::new("y"), number(7));
    let arguments = vec![symbol("x"), symbol("y")];
    let built = mapping(&arguments, &mut env).unwrap();
    assert_eq!(built.index(&symbol("x")), Ok(symbol("y")));
}

#[test]
fn mapping_leaves_the_environment_alone() {
    let mut env = Environment::new();
    env.bind(Symbol::new("x"), number(7));
    let arguments = vec![symbol("x"), number(1), symbol("y"), number(2)];
    mapping(&arguments, &mut env).unwrap();
    assert_eq!(env.lookup(&Symbol::new("x")), Some(&number(7)));
    assert_eq!(env.lookup(&Symbol::new("y")), None);
}

#[test]
fn mapping_with_an_odd_number_of_arguments_is_an_arity_error() {
    let mut env = Environment::new();
    let one = mapping(&[symbol("x")], &mut env).unwrap_err();
    assert_eq!(one, Error::MappingArity { supplied: 1 });
    assert_eq!(one.kind(), ErrorKind::ArityError);
    let three = mapping(&[symbol("x"), number(1), symbol("y")], &mut env).unwrap_err();
    assert_eq!(three, Error::MappingArity { supplied: 3 });
}

#[test]
fn mapping_with_an_odd_number_of_arguments_does_not_look_at_them() {
    let mut env = Environment::new();
    let error = mapping(&[number(1), number(2), number(3)], &mut env).unwrap_err();
    assert_eq!(error, Error::MappingArity { supplied: 3 });
    assert_eq!(error.kind(), ErrorKind::ArityError);
    assert_eq!(
        error.message(),
        "Constructing a mapping requires an even number of arguments (got 3)"
    );
}

#[test]
fn mapping_with_a_key_that_is_no_symbol_is_a_type_error() {
    let mut env = Environment::new();
    let arguments = vec![symbol("x"), number(1), number(42), number(2)];
    let error = mapping(&arguments, &mut env).unwrap_err();
    assert_eq!(error, Error::MappingKeyType { position: 2, text: "42".to_string() });
    assert_eq!(error.kind(), ErrorKind::TypeError);
    assert_eq!(
        error.message(),
        "Even arguments to construct mapping must be symbols (see 42)"
    );
}

#[test]
fn mapping_reports_the_first_key_that_is_no_symbol() {
    let mut env = Environment::new();
    let arguments = vec![number(10), number(1), symbol("x"), number(2), number(30), number(3)];
    let error = mapping(&arguments, &mut env).unwrap_err();
    assert_eq!(error, Error::MappingKeyType { position: 0, text: "10".to_string() });
}

#[test]
fn mapping_accepts_any_expression_as_a_value() {
    let mut env = Environment::new();
    let arguments = vec![symbol("x"), number(1), symbol("y"), symbol("x")];
    let built = mapping(&arguments, &mut env).unwrap();
    assert_eq!(built.index(&symbol("y")), Ok(symbol("x")));
}
