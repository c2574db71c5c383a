use sheetgen::infer::{determine_type, infer, quote, ValueSet};
use sheetgen::value::Values;

fn text(s: &str) -> Values {
    Values::String(s.to_string())
}

fn number(s: &str) -> Values {
    Values::Number(s.to_string())
}

#[test]
fn repeated_strings_give_a_union_of_literals() {
    let column = vec![text("a"), text("b"), text("a"), text("c"), text("b")];
    assert_eq!(infer(&column, 5), "'a' | 'b' | 'c'");
}

#[test]
fn strings_that_never_repeat_give_string() {
    let column = vec![text("a"), text("b"), text("c"), text("d"), text("e")];
    assert_eq!(infer(&column, 5), "string");
}

#[test]
fn the_union_keeps_the_order_of_first_occurrence() {
    let column = vec![text("z"), text("m"), text("z"), text("a"), text("m")];
    assert_eq!(infer(&column, 5), "'z' | 'm' | 'a'");
}

#[test]
fn one_repeated_value_gives_its_singleton_type() {
    assert_eq!(infer(&vec![text("on"), text("on"), text("on")], 3), "'on'");
    assert_eq!(infer(&vec![Values::Boolean(true), Values::Boolean(true)], 2), "true");
    assert_eq!(infer(&vec![Values::Boolean(false)], 1), "false");
    assert_eq!(infer(&vec![number("3"), number("3")], 2), "number");
    assert_eq!(infer(&vec![Values::Nil, Values::Nil, Values::Nil], 3), "nil");
}

#[test]
fn numbers_with_an_absent_cell_give_number_or_nil() {
    let column = vec![number("1"), Values::Nil, number("2"), number("3")];
    assert_eq!(infer(&column, 4), "number | nil");
}

#[test]
fn one_number_and_an_absent_cell_give_number_or_nil() {
    assert_eq!(infer(&vec![number("1"), Values::Nil], 2), "number | nil");
}

#[test]
fn distinct_numbers_give_number() {
    assert_eq!(infer(&vec![number("1"), number("2"), number("1")], 3), "number");
}

#[test]
fn both_truth_values_give_boolean() {
    assert_eq!(infer(&vec![Values::Boolean(true), Values::Boolean(false)], 2), "boolean");
    let column = vec![Values::Boolean(true), Values::Nil, Values::Boolean(false)];
    assert_eq!(infer(&column, 3), "boolean | nil");
}

#[test]
fn mixed_kinds_give_string() {
    assert_eq!(infer(&vec![number("1"), text("a")], 2), "string");
    assert_eq!(infer(&vec![number("1"), Values::Boolean(true)], 2), "string");
    assert_eq!(infer(&vec![number("1"), text("a"), Values::Nil], 3), "string | nil");
}

#[test]
fn strings_beside_an_absent_cell_are_fewer_than_the_rows() {
    assert_eq!(infer(&vec![text("a"), text("b"), Values::Nil], 3), "'a' | 'b'");
}

#[test]
fn repeated_strings_with_an_absent_cell_give_the_union_alone() {
    let column = vec![text("a"), Values::Nil, text("a"), text("b")];
    assert_eq!(infer(&column, 4), "'a' | 'b'");
}

#[test]
fn the_threshold_is_fewer_distinct_strings_than_rows() {
    let column = vec![text("a"), text("b"), text("c"), text("a")];
    assert_eq!(infer(&column, 4), "'a' | 'b' | 'c'");
    assert_eq!(infer(&column, 3), "string");
}

#[test]
fn a_column_without_rows_gives_string() {
    assert_eq!(infer(&Vec::new(), 0), "string");
}

#[test]
fn infer_gives_the_same_text_on_every_run() {
    let column = vec![text("b"), text("a"), Values::Nil, text("b"), text("c")];
    let first = infer(&column, 5);
    for _ in 0..20 {
        assert_eq!(infer(&column, 5), first);
    }
    assert_eq!(first, "'b' | 'a' | 'c'");
}

#[test]
fn a_value_set_holds_each_value_once_in_order_of_arrival() {
    let mut set = ValueSet::new();
    assert_eq!(set.len(), 0);
    assert!(set.insert(text("a")));
    assert!(set.insert(number("1")));
    assert!(!set.insert(text("a")));
    assert!(set.insert(Values::Nil));
    assert!(!set.insert(Values::Nil));
    assert_eq!(set.len(), 3);
    assert!(set.contains(&number("1")));
    assert!(!set.contains(&text("1")));
}

#[test]
fn determine_type_reads_the_set_of_distinct_values() {
    let mut set = ValueSet::new();
    set.insert(text("x"));
    set.insert(text("y"));
    assert_eq!(determine_type(&set, 3), "'x' | 'y'");
    assert_eq!(determine_type(&set, 2), "string");
    let mut single = ValueSet::new();
    single.insert(text("it's"));
    assert_eq!(determine_type(&single, 9), "'it's'");
}

#[test]
fn quote_puts_a_text_between_single_quotes() {
    assert_eq!(quote(""), "''");
    assert_eq!(quote("a b"), "'a b'");
}
