use shallot_hashmap::get_environment;
use shallot_hashmap::Environment;
use shallot_hashmap::Error;
use shallot_hashmap::ErrorKind;
use shallot_hashmap::Expression;
use shallot_hashmap::Symbol;

fn symbol(name: &str) -> Expression<i64> {
    Expression::Symbol(Symbol::new(name))
}

fn number(value: i64) -> Expression<i64> {
    Expression::Other { value, text: value.to_string() }
}

#[test]
fn get_environment_with_an_argument_is_an_arity_error() {
    let mut env = Environment::new();
    env.bind(Symbol::new("x"), number(1));
    let error = get_environment(&[number(1)], &mut env).unwrap_err();
    assert_eq!(error, Error::GetEnvironmentArity { supplied: 1 });
    assert_eq!(error.kind(), ErrorKind::ArityError);
    assert_eq!(error.message(), "Function get_environment expects no parameters (got 1)");
}

#[test]
fn get_environment_counts_the_arguments_it_refuses() {
    let mut env: Environment<i64> = Environment::new();
    let error = get_environment(&[symbol("a"), symbol("b")], &mut env).unwrap_err();
    assert_eq!(error, Error::GetEnvironmentArity { supplied: 2 });
}

#[test]
fn get_environment_holds_every_binding() {
    let mut env = Environment::new();
    env.bind(Symbol::new("y"), number(2));
    env.bind(Symbol::new("x"), number(1));
    env.bind(Symbol::new("f"), symbol("x"));
    let snapshot = get_environment(&[], &mut env).unwrap();
    assert_eq!(snapshot.index(&symbol("x")), Ok(number(1)));
    assert_eq!(snapshot.index(&symbol("y")), Ok(number(2)));
    assert_eq!(snapshot.index(&symbol("f")), Ok(symbol("x")));
    assert_eq!(
        snapshot.index(&symbol("z")),
        Err(Error::KeyMissing { key: Symbol::new("z") })
    );
    assert_eq!(snapshot.render(), "f -> x\nx -> 1\ny -> 2");
}

#[test]
fn get_environment_answers_as_the_environment_does() {
    let mut env = Environment::new();
    env.bind(Symbol::new("x"), number(1));
    env.bind(Symbol::new("y"), number(2));
    env.bind(Symbol::new("x"), number(3));
    let direct = env.lookup(&Symbol::new("x")).cloned();
    let snapshot = get_environment(&[], &mut env).unwrap();
    assert_eq!(direct, Some(number(3)));
    assert_eq!(snapshot.index(&symbol("x")).ok(), direct);
}

#[test]
fn get_environment_does_not_follow_later_bindings() {
    let mut env = Environment::new();
    env.bind(Symbol::new("x"), number(1));
    let snapshot = get_environment(&[], &mut env).unwrap();
    env.bind(Symbol::new("x"), number(2));
    env.bind(Symbol::new("y"), number(3));
    assert_eq!(env.lookup(&Symbol::new("x")), Some(&number(2)));
    assert_eq!(snapshot.index(&symbol("x")), Ok(number(1)));
    assert_eq!(
        snapshot.index(&symbol("y")),
        Err(Error::KeyMissing { key: Symbol::new("y") })
    );
}

#[test]
fn get_environment_leaves_the_environment_alone() {
    let mut env = Environment::new();
    env.bind(Symbol::new("x"), number(1));
    get_environment(&[], &mut env).unwrap();
    assert_eq!(env.lookup(&Symbol::new("x")), Some(&number(1)));
    assert_eq!(env.lookup(&Symbol::new("y")), None);
}

#[test]
fn get_environment_of_no_bindings_is_empty() {
    let mut env: Environment<i64> = Environment::new();
    let snapshot = get_environment(&[], &mut env).unwrap();
    assert_eq!(snapshot.render(), "");
}

#[test]
fn environment_keeps_the_last_binding_of_a_symbol() {
    let mut env = Environment::new();
    assert_eq!(env.lookup(&Symbol::new("x")), None);
    env.bind(Symbol::new("x"), number(1));
    env.bind(Symbol::new("xy"), number(2));
    env.bind(Symbol::new("x"), number(3));
    assert_eq!(env.lookup(&Symbol::new("x")), Some(&number(3)));
    assert_eq!(env.lookup(&Symbol::new("xy")), Some(&number(2)));
    assert_eq!(env.lookup(&Symbol::new("y")), None);
}
