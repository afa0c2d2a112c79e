use shallot_hashmap::mapping;
use shallot_hashmap::Environment;
use shallot_hashmap::Expression;
use shallot_hashmap::Symbol;

fn symbol(name: &str) -> Expression<i64> {
    Expression::Symbol(Symbol::new(name))
}

fn number(value: i64) -> Expression<i64> {
    Expression::Other { value, text: value.to_string() }
}

fn render(arguments: &[Expression<i64>]) -> String {
    let mut env = Environment::new();
    mapping(arguments, &mut env).unwrap().render()
}

#[test]
fn render_of_an_empty_mapping_is_empty() {
    assert_eq!(render(&[]), "");
}

#[test]
fn render_of_one_entry_has_no_line_break() {
    assert_eq!(render(&[symbol("x"), number(1)]), "x -> 1");
}

#[test]
fn render_lists_the_keys_in_ascending_order() {
    let text = render(&[symbol("c"), number(3), symbol("a"), number(1), symbol("b"), number(2)]);
    assert_eq!(text, "a -> 1\nb -> 2\nc -> 3");
}

#[test]
fn render_does_not_depend_on_the_order_of_the_pairs() {
    let one = render(&[symbol("x"), number(1), symbol("y"), number(2)]);
    let other = render(&[symbol("y"), number(2), symbol("x"), number(1)]);
    assert_eq!(one, "x -> 1\ny -> 2");
    assert_eq!(one, other);
}

#[test]
fn render_brings_the_arrows_into_one_column() {
    let text = render(&[
        symbol("long_name"),
        number(1),
        symbol("x"),
        number(22),
        symbol("mid"),
        number(333),
    ]);
    assert_eq!(text, "long_name -> 1\n      mid -> 333\n        x -> 22");
    for line in text.lines() {
        assert_eq!(line.find(" -> "), Some(9));
    }
}

#[test]
fn render_orders_a_prefix_before_the_longer_name() {
    let text = render(&[symbol("ab"), number(2), symbol("a"), number(1), symbol("B"), number(0)]);
    assert_eq!(text, " B -> 0\n a -> 1\nab -> 2");
}

#[test]
fn render_shows_a_symbol_value_by_its_name() {
    assert_eq!(render(&[symbol("x"), symbol("other")]), "x -> other");
}

#[test]
fn render_shows_the_last_value_of_a_repeated_key() {
    assert_eq!(render(&[symbol("x"), number(1), symbol("x"), number(2)]), "x -> 2");
}

#[test]
fn render_measures_keys_in_bytes_and_pads_in_characters() {
    let text = render(&[symbol("é"), number(1), symbol("ab"), number(2), symbol("c"), number(3)]);
    assert_eq!(text, "ab -> 2\n c -> 3\n é -> 1");
    let text = render(&[symbol("éé"), number(1), symbol("abc"), number(2)]);
    assert_eq!(text, " abc -> 2\n  éé -> 1");
}
