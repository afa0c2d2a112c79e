use shallot_hashmap::mapping;
use shallot_hashmap::Environment;
use shallot_hashmap::Error;
use shallot_hashmap::ErrorKind;
use shallot_hashmap::Expression;
use shallot_hashmap::HashMap;
use shallot_hashmap::Symbol;

fn symbol(name: &str) -> Expression<i64> {
    Expression::Symbol(Symbol::new(name))
}

fn number(value: i64) -> Expression<i64> {
    Expression::Other { value, text: value.to_string() }
}

fn build(arguments: &[Expression<i64>]) -> HashMap<i64> {
    let mut env = Environment::new();
    mapping(arguments, &mut env).unwrap()
}

#[test]
fn symbols_are_ordered_by_their_characters() {
    let before = |a: &str, b: &str| Symbol::new(a).is_before(&Symbol::new(b));
    assert!(before("a", "b"));
    assert!(!before("b", "a"));
    assert!(!before("a", "a"));
    assert!(before("", "a"));
    assert!(!before("a", ""));
    assert!(!before("", ""));
    assert!(before("a", "ab"));
    assert!(!before("ab", "a"));
    assert!(before("ab", "b"));
    assert!(before("B", "a"));
    assert!(before("abc", "abd"));
    assert!(before("z", "é"));
    assert!(before("é", "€"));
}

#[test]
fn symbols_are_ordered_as_their_names_are() {
    let names = ["", "a", "ab", "abc", "b", "B", "x_1", "x-1", "é", "zz", "€uro", "10", "9"];
    for a in names {
        for b in names {
            assert_eq!(Symbol::new(a).is_before(&Symbol::new(b)), a < b);
            assert_eq!(Symbol::new(a) == Symbol::new(b), a == b);
        }
    }
}

#[test]
fn symbols_know_their_name_and_its_length() {
    let plain = Symbol::new("name");
    assert_eq!(plain.as_str(), "name");
    assert_eq!(plain.len(), 4);
    assert_eq!(Symbol::new("").len(), 0);
    assert_eq!(Symbol::new("é€").len(), 5);
    assert_eq!(plain.clone(), plain);
}

#[test]
fn expressions_tell_symbols_from_the_rest() {
    assert_eq!(symbol("x").as_symbol(), Some(&Symbol::new("x")));
    assert_eq!(number(1).as_symbol(), None);
    assert_eq!(symbol("x").text(), "x");
    assert_eq!(number(-12).text(), "-12");
}

#[test]
fn expressions_are_equal_by_their_parts() {
    assert_eq!(symbol("x"), symbol("x"));
    assert_ne!(symbol("x"), symbol("y"));
    assert_ne!(symbol("1"), number(1));
    assert_eq!(number(1), number(1));
    assert_ne!(number(1), number(2));
    assert_ne!(number(1), Expression::Other { value: 1, text: "one".to_string() });
    assert_eq!(number(1).clone(), number(1));
    assert_eq!(symbol("x").clone(), symbol("x"));
}

#[test]
fn mappings_are_equal_whatever_the_order_of_their_pairs() {
    let one = build(&[symbol("x"), number(1), symbol("y"), number(2)]);
    let other = build(&[symbol("y"), number(2), symbol("x"), number(1)]);
    let overwritten =
        build(&[symbol("y"), number(0), symbol("x"), number(1), symbol("y"), number(2)]);
    assert!(one == other);
    assert!(one == overwritten);
    assert!(one == one.clone());
}

#[test]
fn mappings_differ_by_a_key_or_a_value() {
    let one = build(&[symbol("x"), number(1), symbol("y"), number(2)]);
    assert!(one != build(&[symbol("x"), number(1)]));
    assert!(one != build(&[symbol("x"), number(1), symbol("y"), number(3)]));
    assert!(one != build(&[symbol("x"), number(1), symbol("z"), number(2)]));
    let longer = build(&[symbol("x"), number(1), symbol("y"), number(2), symbol("z"), number(3)]);
    assert!(one != longer);
    assert!(one != build(&[]));
    assert!(build(&[]) == build(&[]));
}

#[test]
fn a_clone_of_a_mapping_answers_as_the_mapping_does() {
    let one = build(&[symbol("x"), number(1), symbol("y"), symbol("x")]);
    let copy = one.clone();
    drop(one);
    assert_eq!(copy.index(&symbol("x")), Ok(number(1)));
    assert_eq!(copy.index(&symbol("y")), Ok(symbol("x")));
    assert_eq!(copy.render(), "x -> 1\ny -> x");
}

#[test]
fn errors_have_a_kind_and_a_message() {
    let cases = [
        (
            Error::CallArity { supplied: 3 },
            ErrorKind::ArityError,
            "Indexing into hash map takes exactly one argument (got 3)",
        ),
        (
            Error::GetEnvironmentArity { supplied: 10 },
            ErrorKind::ArityError,
            "Function get_environment expects no parameters (got 10)",
        ),
        (
            Error::MappingArity { supplied: 1205 },
            ErrorKind::ArityError,
            "Constructing a mapping requires an even number of arguments (got 1205)",
        ),
        (
            Error::CallKeyType { text: "(1 2)".to_string() },
            ErrorKind::TypeError,
            "Indexing into hash map takes a symbol (see (1 2))",
        ),
        (
            Error::MappingKeyType { position: 4, text: "(1 2)".to_string() },
            ErrorKind::TypeError,
            "Even arguments to construct mapping must be symbols (see (1 2))",
        ),
        (
            Error::KeyMissing { key: Symbol::new("k") },
            ErrorKind::KeyError,
            "Key k missing in hash map",
        ),
    ];
    for (error, kind, message) in cases {
        assert_eq!(error.kind(), kind);
        assert_eq!(error.message(), message);
        assert_eq!(error.clone(), error);
    }
}

#[test]
fn arity_errors_count_in_decimal() {
    let message = |supplied: usize| Error::CallArity { supplied }.message();
    let expected = |digits: &str| {
        format!("Indexing into hash map takes exactly one argument (got {})", digits)
    };
    assert_eq!(message(0), expected("0"));
    assert_eq!(message(7), expected("7"));
    assert_eq!(message(9), expected("9"));
    assert_eq!(message(10), expected("10"));
    assert_eq!(message(99), expected("99"));
    assert_eq!(message(100), expected("100"));
    assert_eq!(message(2468013579), expected("2468013579"));
    assert_eq!(message(usize::MAX), expected(&usize::MAX.to_string()));
}

#[test]
fn errors_are_equal_by_their_parts() {
    assert_ne!(Error::CallArity { supplied: 1 }, Error::MappingArity { supplied: 1 });
    assert_ne!(Error::CallArity { supplied: 0 }, Error::CallArity { supplied: 2 });
    assert_ne!(
        Error::MappingKeyType { position: 0, text: "1".to_string() },
        Error::MappingKeyType { position: 2, text: "1".to_string() }
    );
    assert_ne!(
        Error::KeyMissing { key: Symbol::new("a") },
        Error::KeyMissing { key: Symbol::new("b") }
    );
    assert_ne!(
        Error::CallKeyType { text: "1".to_string() },
        Error::MappingKeyType { position: 0, text: "1".to_string() }
    );
}
