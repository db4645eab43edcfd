use emailer::new_subscriber::{FormData, NewSubscriber};
use emailer::token::generate_sub_token;
use emailer::{SubscriberEmail, SubscriberName};

#[test]
fn valid_email_valid() {
    let email = "pog@dog.log".to_string();
    assert!(SubscriberEmail::try_from(email).is_ok());
}

#[test]
fn subscriber_email_whitespase_only_invalid() {
    let email = " ".repeat(10);
    assert!(SubscriberEmail::try_from(email).is_err());
}

#[test]
fn subscriber_email_empty_invalid() {
    let email = "".to_string();
    assert!(SubscriberEmail::try_from(email).is_err());
}

#[test]
fn missing_symbol_invalid() {
    let email = "pogdog.log".to_string();
    assert!(SubscriberEmail::try_from(email).is_err());
}

#[test]
fn missing_subject_invalid() {
    let email = "@dog.log".to_string();
    assert!(SubscriberEmail::try_from(email).is_err());
}

#[test]
fn valid_name_valid() {
    let name = "pogdog".to_string();
    assert!(SubscriberName::try_from(name).is_ok());
}

#[test]
fn long_name_256_valid() {
    let name = "a".repeat(256);
    assert!(SubscriberName::try_from(name).is_ok());
}

#[test]
fn long_name_longer_then_256_invalid() {
    let name = "a".repeat(257);
    assert!(SubscriberName::try_from(name).is_err());
}

#[test]
fn subscriber_name_whitespase_only_invalid() {
    let name = " ".repeat(10);
    assert!(SubscriberName::try_from(name).is_err());
}

#[test]
fn subscriber_name_empty_invalid() {
    let name = "".to_string();
    assert!(SubscriberName::try_from(name).is_err());
}

#[test]
fn contains_forbidden_chars_invalid() {
    for c in ['/', '"', '\\', '(', ')', '{', '}', '<', '>'] {
        let name = c.to_string();
        assert!(SubscriberName::try_from(name).is_err());
    }
}

#[test]
fn forbidden_char_inside_a_name_invalid() {
    assert!(SubscriberName::try_from("pog<dog".to_string()).is_err());
    assert!(SubscriberName::try_from("pog dog)".to_string()).is_err());
}

#[test]
fn name_counts_grapheme_clusters_not_chars() {
    // 256 clusters of two characters each: `e` and a combining acute accent
    let name = "e\u{301}".repeat(256);
    assert_eq!(name.chars().count(), 512);
    assert!(SubscriberName::try_from(name).is_ok());
    let name = "e\u{301}".repeat(257);
    assert!(SubscriberName::try_from(name).is_err());
}

#[test]
fn name_of_tabs_and_newlines_invalid() {
    assert!(SubscriberName::try_from("\t\n \u{3000}".to_string()).is_err());
}

#[test]
fn name_keeps_its_text() {
    let name = SubscriberName::try_from("pog dog".to_string()).unwrap();
    assert_eq!(name.as_ref(), "pog dog");
}

#[test]
fn invalid_name_message_names_the_input() {
    let err = SubscriberName::try_from("a/b".to_string()).err().unwrap();
    assert_eq!(err, "invalid name: a/b");
}

#[test]
fn user_at_example_com_valid() {
    let email = SubscriberEmail::try_from("user@example.com".to_string()).unwrap();
    assert_eq!(email.as_ref(), "user@example.com");
}

#[test]
fn email_without_domain_invalid() {
    assert!(SubscriberEmail::try_from("user@".to_string()).is_err());
}

#[test]
fn invalid_email_message_names_the_input() {
    let err = SubscriberEmail::try_from("pogdog.log".to_string()).err().unwrap();
    assert_eq!(err, "invalid email: pogdog.log");
}

#[test]
fn new_subscriber_checks_name_first() {
    let err = NewSubscriber::new("".to_string(), "bad".to_string()).err().unwrap();
    assert_eq!(err, "invalid name: ");
    let err = NewSubscriber::new("pog".to_string(), "bad".to_string()).err().unwrap();
    assert_eq!(err, "invalid email: bad");
}

#[test]
fn new_subscriber_from_form() {
    let form = FormData {
        email: "pogolius@gmail.com".to_string(),
        name: "pog dog".to_string(),
    };
    let sub = NewSubscriber::try_from(form).unwrap();
    assert_eq!(sub.name.as_ref(), "pog dog");
    assert_eq!(sub.email.as_ref(), "pogolius@gmail.com");
}

#[test]
fn token_has_25_alphanumeric_chars() {
    for _ in 0..20 {
        let token = generate_sub_token();
        assert_eq!(token.chars().count(), 25);
        assert!(token.chars().all(|c| c.is_ascii_alphanumeric()));
    }
}

#[test]
fn tokens_differ() {
    assert_ne!(generate_sub_token(), generate_sub_token());
}

#[test]
fn name_of_unicode_spaces_invalid() {
    assert!(SubscriberName::try_from("\u{a0}\u{2003}\u{205f}".to_string()).is_err());
    assert!(SubscriberName::try_from("\u{a0}x".to_string()).is_ok());
}
