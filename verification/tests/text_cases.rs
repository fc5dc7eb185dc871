use relic::error::{Error, ValidationError};
use relic::list::List;
use relic::text::{
    chars_of, concat2, concat3, contains_text, decimal_string, hash_text, integer_string,
    str_equal,
};
use relic::value::{Instance, Primitive};

#[test]
fn numerals() {
    assert_eq!(decimal_string(0), "0");
    assert_eq!(decimal_string(7), "7");
    assert_eq!(decimal_string(10), "10");
    assert_eq!(decimal_string(1234567890), "1234567890");
    assert_eq!(decimal_string(u64::MAX), "18446744073709551615");
    assert_eq!(integer_string(0), "0");
    assert_eq!(integer_string(-1), "-1");
    assert_eq!(integer_string(i64::MAX), "9223372036854775807");
    assert_eq!(integer_string(i64::MIN), "-9223372036854775808");
}

#[test]
fn substring_search() {
    assert!(contains_text("hello", "ell"));
    assert!(contains_text("hello", "hello"));
    assert!(contains_text("hello", ""));
    assert!(contains_text("", ""));
    assert!(contains_text("hello", "o"));
    assert!(!contains_text("hello", "hellos"));
    assert!(!contains_text("hello", "lle"));
    assert!(!contains_text("", "a"));
    assert!(contains_text("a\u{e9}b", "\u{e9}b"));
}

#[test]
fn comparison_and_concatenation() {
    assert!(str_equal("", ""));
    assert!(str_equal("ab", "ab"));
    assert!(!str_equal("ab", "abc"));
    assert!(!str_equal("ab", "aB"));
    assert_eq!(concat2("ab", "cd"), "abcd");
    assert_eq!(concat3("a", "", "c"), "ac");
    assert_eq!(chars_of("h\u{e9}"), vec!['h', '\u{e9}']);
}

#[test]
fn the_hash_is_the_polynomial_hash() {
    assert_eq!(hash_text(""), 7);
    assert_eq!(hash_text("a"), 7 * 31 + 97);
    assert_eq!(hash_text("ab"), (7 * 31 + 97) * 31 + 98);
    assert_ne!(hash_text("ab"), hash_text("ba"));
    let long = "x".repeat(40);
    let mut expected: u64 = 7;
    for _ in 0..40 {
        expected = expected.wrapping_mul(31).wrapping_add(120);
    }
    assert_eq!(hash_text(&long), expected);
}

#[test]
fn errors_as_text() {
    assert_eq!(
        Error::lexer("bad".to_string(), 3, 14).to_string(),
        "Lexer error at 3:14: bad"
    );
    assert_eq!(
        Error::parser("Expected ')'".to_string(), 1, 0).to_string(),
        "Parser error at 1:0: Expected ')'"
    );
    assert_eq!(
        Error::type_error("no".to_string()).to_string(),
        "Type error: no"
    );
    assert_eq!(
        Error::validation("Validation failed".to_string(), "E".to_string()).to_string(),
        "Validation error: Validation failed"
    );
    let plain = ValidationError::plain("m");
    assert_eq!(plain.message, "m");
    assert_eq!(plain.value_type, "");
    let named = ValidationError::named("Unknown: ", "x", "T".to_string());
    assert_eq!(named.message, "Unknown: x");
    assert_eq!(named.value_type, "T");
    assert!(matches!(
        Error::from_validation(named),
        Error::Validation(_)
    ));
}

fn item(n: i64) -> Instance {
    Instance {
        value_type: "N".to_string(),
        field: "n".to_string(),
        payload: Primitive::Integer(n),
    }
}

fn payload(i: &Instance) -> i64 {
    match i.payload {
        Primitive::Integer(n) => n,
        _ => 0,
    }
}

#[test]
fn lists_of_instances() {
    let mut list = List::new("N".to_string());
    assert!(list.is_empty());
    assert_eq!(list.len(), 0);
    assert!(list.get(0).is_none());
    list.push(item(1));
    list.push(item(2));
    list.push(item(3));
    assert!(!list.is_empty());
    assert_eq!(list.len(), 3);
    assert_eq!(list.get(1), Some(&item(2)));
    assert!(list.get(3).is_none());
    assert_eq!(list.iter().len(), 3);
    assert_eq!(list.clone(), list);
    assert_eq!(
        List::from_items(vec![item(1), item(2), item(3)], "N".to_string()),
        list
    );

    let odd = list.filter(|i| payload(i) % 2 == 1);
    assert_eq!(odd.items, vec![item(1), item(3)]);
    assert_eq!(odd.element_type, "N");
    assert_eq!(list.filter(|_| false).len(), 0);

    let doubled = list.map(|i| item(payload(i) * 2));
    assert_eq!(doubled.items, vec![item(2), item(4), item(6)]);

    assert_eq!(list.find(|i| payload(i) > 1), Some(item(2)));
    assert_eq!(list.find(|i| payload(i) > 3), None);
    assert!(list.any(|i| payload(i) == 3));
    assert!(!list.any(|i| payload(i) == 4));
    assert!(list.all(|i| payload(i) > 0));
    assert!(!list.all(|i| payload(i) > 1));
    assert!(List::new("N".to_string()).all(|_| false));
    assert!(!List::new("N".to_string()).any(|_| true));
    assert_eq!(item(5).to_string(), "N(5)");
}

#[test]
fn payloads_are_equal_by_kind_and_content() {
    assert!(Primitive::Integer(1).equals(&Primitive::Integer(1)));
    assert!(!Primitive::Integer(1).equals(&Primitive::Integer(2)));
    assert!(!Primitive::Integer(1).equals(&Primitive::Boolean(true)));
    assert!(Primitive::String("a".to_string()).equals(&Primitive::String("a".to_string())));
    assert!(!Primitive::String("a".to_string()).equals(&Primitive::String("A".to_string())));
    assert!(Primitive::Boolean(false).equals(&Primitive::Boolean(false)));
}
