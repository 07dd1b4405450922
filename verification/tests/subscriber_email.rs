use zero2prod::domain::SubscriberEmail;

#[test]
fn empty_string_is_rejected() {
    let email = "".to_string();
    assert!(SubscriberEmail::parse(email).is_err());
}

#[test]
fn email_missing_at_symbol_is_rejected() {
    let email = "ursuladomain.com".to_string();
    assert!(SubscriberEmail::parse(email).is_err());
}

#[test]
fn email_missing_subject_is_rejected() {
    let email = "@domain.com".to_string();
    assert!(SubscriberEmail::parse(email).is_err());
}

#[test]
fn ordinary_email_is_accepted() {
    let email = "ursula_le_guin@gmail.com".to_string();
    let parsed = SubscriberEmail::parse(email).unwrap();
    assert_eq!(parsed.as_ref(), "ursula_le_guin@gmail.com");
}

#[test]
fn rejected_email_reports_the_address() {
    let err = SubscriberEmail::parse("definitely-not-an-email".to_string()).unwrap_err();
    assert_eq!(err, "definitely-not-an-email is not a valid email address.");
}
