use sheetgen::value::{bool_to_string, Values};

#[test]
fn text_of_each_kind_of_value() {
    assert_eq!(Values::Nil.text(), "Nil");
    assert_eq!(Values::String("Foo".to_string()).text(), "Foo");
    assert_eq!(Values::Number("12.5".to_string()).text(), "12.5");
    assert_eq!(Values::Boolean(true).text(), "true");
    assert_eq!(Values::Boolean(false).text(), "false");
}

#[test]
fn bool_to_string_gives_the_two_keywords() {
    assert_eq!(bool_to_string(true), "true");
    assert_eq!(bool_to_string(false), "false");
}

#[test]
fn values_are_equal_by_structure() {
    assert_eq!(Values::Nil, Values::Nil);
    assert_eq!(Values::String("a".to_string()), Values::String("a".to_string()));
    assert_ne!(Values::String("a".to_string()), Values::String("b".to_string()));
    assert_eq!(Values::Boolean(true), Values::Boolean(true));
    assert_ne!(Values::Boolean(true), Values::Boolean(false));
    assert_ne!(Values::Nil, Values::Boolean(false));
}

#[test]
fn numbers_are_equal_by_text_not_by_magnitude() {
    assert_eq!(Values::Number("1".to_string()), Values::Number("1".to_string()));
    assert_ne!(Values::Number("1".to_string()), Values::Number("1.0".to_string()));
    assert_ne!(Values::Number("1".to_string()), Values::String("1".to_string()));
}

#[test]
fn a_clone_equals_its_original() {
    let values = vec![
        Values::Nil,
        Values::String("text".to_string()),
        Values::Number("42".to_string()),
        Values::Boolean(false),
    ];
    for v in &values {
        assert_eq!(&v.clone(), v);
    }
}
