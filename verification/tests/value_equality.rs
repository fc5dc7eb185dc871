use relic::list::List;
use relic::value::{values_equal, EmailAddress, Instance, Primitive, ValueObject};
use std::collections::HashSet;

#[test]
fn test_email_address_equality() {
    let email1 = EmailAddress::from("Test@Example.com".to_string()).unwrap();
    let email2 = EmailAddress::from("test@example.com".to_string()).unwrap();
    let email3 = EmailAddress::from("other@example.com".to_string()).unwrap();

    assert_eq!(email1, email2);
    assert_ne!(email1, email3);
}

#[test]
fn test_email_address_hash() {
    let email1 = EmailAddress::from("Test@Example.com".to_string()).unwrap();
    let email2 = EmailAddress::from("test@example.com".to_string()).unwrap();
    let email3 = EmailAddress::from("other@example.com".to_string()).unwrap();

    let mut set = HashSet::new();
    set.insert(email1.clone());

    assert!(!set.insert(email2.clone()));
    assert!(set.insert(email3));

    assert_eq!(set.len(), 2);
}

#[test]
fn test_value_object_trait_equality() {
    let email1 = EmailAddress::from("test@example.com".to_string()).unwrap();
    let email2 = EmailAddress::from("TEST@EXAMPLE.COM".to_string()).unwrap();
    let email3 = EmailAddress::from("other@example.com".to_string()).unwrap();

    let value1: &dyn ValueObject = &email1;
    let value2: &dyn ValueObject = &email2;
    let value3: &dyn ValueObject = &email3;

    assert!(values_equal(value1, value2));
    assert!(!values_equal(value1, value3));
    assert!(email1.equals(value2));
    assert!(!email1.equals(value3));
}

#[test]
fn test_value_object_trait_hash() {
    let email = EmailAddress::from("test@example.com".to_string()).unwrap();
    let value: &dyn ValueObject = &email;

    let hash1 = value.hash_value();
    let hash2 = value.hash_value();
    assert_eq!(hash1, hash2);
}

#[test]
fn test_display() {
    let email = EmailAddress::from("test@example.com".to_string()).unwrap();
    assert_eq!(email.to_string(), "EmailAddress(test@example.com)");
}

#[test]
fn email_address_rejects_what_is_no_address() {
    assert!(EmailAddress::from("nope".to_string()).is_err());
    assert!(EmailAddress::from("a@b".to_string()).is_err());
    assert!(EmailAddress::from("@".to_string()).is_err());
    let ok = EmailAddress::from("A@Bc".to_string()).unwrap();
    assert_eq!(ok.value(), "a@bc");
    assert!(ok.is_valid());
    assert!(ok.validate().is_ok());
    assert_eq!(ok.value_type_name(), "EmailAddress");
    assert_eq!(ok.to_text(), "EmailAddress(a@bc)");
}

#[test]
fn email_address_normalize_lowers_the_case() {
    let mut email = EmailAddress::from("x@yz".to_string()).unwrap();
    assert!(email.normalize().is_ok());
    assert_eq!(email.value(), "x@yz");
    let other = EmailAddress::from("X@YZ".to_string()).unwrap();
    assert_eq!(email.hash_value(), other.hash_value());
    assert_eq!(email.hash_code(), relic::text::hash_text("EmailAddress(x@yz)"));
}

#[test]
fn instances_and_lists_are_value_objects() {
    let one = Instance {
        value_type: "N".to_string(),
        field: "n".to_string(),
        payload: Primitive::Integer(1),
    };
    let two = Instance {
        value_type: "N".to_string(),
        field: "n".to_string(),
        payload: Primitive::Integer(2),
    };
    let same: &dyn ValueObject = &one;
    assert!(values_equal(same, &one.clone()));
    assert!(!values_equal(same, &two));
    assert_eq!(one.value_type_name(), "N");
    assert_eq!(one.to_text(), "N(1)");
    assert!(one.validate().is_ok());
    assert_eq!(one.hash_value(), relic::text::hash_text("N(1)"));
    let mut list = List::from_items(vec![one.clone(), two.clone()], "N".to_string());
    assert!(list.validate().is_ok());
    assert!(list.normalize().is_ok());
    assert_eq!(list.len(), 2);
    assert_eq!(list.value_type_name(), "List");
    assert_eq!(list.to_text(), "List[N]([N(1), N(2)])");
    assert!(!values_equal(&list, same));
    assert!(values_equal(&list, &list.clone()));
    let email = EmailAddress::from("a@bc".to_string()).unwrap();
    assert!(!values_equal(&email, same));
}
