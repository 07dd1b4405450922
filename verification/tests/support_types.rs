use zero2prod::configuration::Environment;
use zero2prod::domain::NewSubscriber;
use zero2prod::domain::SubscriberName;
use zero2prod::idempotency::IdempotencyKey;
use zero2prod::idempotency::ValidationError;
use zero2prod::login::LoginError;
use zero2prod::newsletters::PublishError;
use zero2prod::newsletters::get_confirmed_subscribers;
use zero2prod::response::see_other;
use zero2prod::subscriptions::SubscribeError;
use zero2prod::subscriptions::confirmation_email_html;
use zero2prod::subscriptions::confirmation_email_text;
use zero2prod::subscriptions::confirmation_link;
use zero2prod::subscriptions::error_chain_fmt;
use zero2prod::subscriptions::generate_subscription_token;
use zero2prod::subscriptions_confirm::ConfirmError;

#[test]
fn environment_names_round_trip() {
    assert_eq!(Environment::Local.as_str(), "local");
    assert_eq!(Environment::Production.as_str(), "production");
    assert!(matches!(Environment::try_from_name("local"), Ok(Environment::Local)));
    assert!(matches!(Environment::try_from_name("PRODUCTION"), Ok(Environment::Production)));
    let err = Environment::try_from_name("staging").unwrap_err();
    assert_eq!(
        err,
        "staging is not a supported environment. Use either `local` or `production`."
    );
}

#[test]
fn an_idempotency_key_must_be_non_empty_and_bounded() {
    assert!(matches!(
        IdempotencyKey::parse(String::new()),
        Err(ValidationError::EmptyIdempotencyKey)
    ));
    assert!(matches!(
        IdempotencyKey::parse("x".repeat(51)),
        Err(ValidationError::OverlongIdempotencyKey)
    ));
    let key = IdempotencyKey::parse("abc123".to_string()).unwrap();
    assert_eq!(key.as_ref(), "abc123");
    assert!(IdempotencyKey::parse("x".repeat(50)).is_ok());
}

#[test]
fn see_other_builds_the_redirect() {
    let response = see_other("/admin/newsletter");
    assert_eq!(response.status_code, 303);
    assert_eq!(response.headers.len(), 1);
    assert_eq!(response.headers[0].name, "location");
    assert_eq!(response.headers[0].value, b"/admin/newsletter".to_vec());
    assert!(response.body.is_empty());
}

#[test]
fn subscription_tokens_are_25_alphanumeric_characters() {
    let token = generate_subscription_token();
    assert_eq!(token.len(), 25);
    assert!(token.chars().all(|c| c.is_ascii_alphanumeric()));
    // Two draws almost surely differ; equal draws would suggest a constant.
    let other = generate_subscription_token();
    assert_ne!(token, other);
}

#[test]
fn the_confirmation_email_embeds_the_link() {
    let link = confirmation_link("https://newsletter.example", "tok123");
    assert_eq!(
        link,
        "https://newsletter.example/subscriptions/confirm?subscription_token=tok123"
    );
    assert_eq!(
        confirmation_email_html(&link),
        "Welcome to our newsletter!<br />Click <a href=\"https://newsletter.example/subscriptions/confirm?subscription_token=tok123\">here</a> to confirm your subscription."
    );
    assert_eq!(
        confirmation_email_text(&link),
        "Welcome to our newsletter!\nVisit https://newsletter.example/subscriptions/confirm?subscription_token=tok123 to confirm your subscription."
    );
}

#[test]
fn error_chains_are_formatted_cause_by_cause() {
    let formatted = error_chain_fmt(
        &"outer failure".to_string(),
        &vec!["middle cause".to_string(), "root cause".to_string()],
    );
    assert_eq!(
        formatted,
        "outer failure\n\nCaused by:\n\tmiddle cause\nCaused by:\n\troot cause\n"
    );
    assert_eq!(error_chain_fmt(&"alone".to_string(), &Vec::new()), "alone\n\n");
}

#[test]
fn stored_rows_are_revalidated_on_read() {
    let rows = vec![
        "valid@example.com".to_string(),
        "broken-row".to_string(),
        "other@example.com".to_string(),
    ];
    let parsed = get_confirmed_subscribers(rows);
    assert_eq!(parsed.len(), 3);
    assert_eq!(parsed[0].as_ref().unwrap().as_ref(), "valid@example.com");
    assert!(parsed[1].is_err());
    assert_eq!(parsed[2].as_ref().unwrap().as_ref(), "other@example.com");
}

#[test]
fn subscriber_names_reject_whitespace_and_troublesome_characters() {
    assert!(SubscriberName::parse(" ".to_string()).is_err());
    assert!(SubscriberName::parse("".to_string()).is_err());
    assert!(SubscriberName::parse("a".repeat(257)).is_err());
    assert!(SubscriberName::parse("Ursula{Le}Guin".to_string()).is_err());
    let name = SubscriberName::parse("Ursula Le Guin".to_string()).unwrap();
    assert_eq!(name.as_ref(), "Ursula Le Guin");
}

#[test]
fn a_new_subscriber_needs_a_valid_name_and_email() {
    assert!(NewSubscriber::parse("ursula_le_guin@gmail.com".to_string(), "".to_string()).is_err());
    assert!(NewSubscriber::parse("".to_string(), "Ursula".to_string()).is_err());
    let subscriber =
        NewSubscriber::parse("ursula_le_guin@gmail.com".to_string(), "le guin".to_string())
            .unwrap();
    assert_eq!(subscriber.email.as_ref(), "ursula_le_guin@gmail.com");
    assert_eq!(subscriber.name.as_ref(), "le guin");
}

#[test]
fn publish_errors_map_to_their_responses() {
    let unauthorized = PublishError::AuthError("bad credentials".to_string()).error_response();
    assert_eq!(unauthorized.status_code, 401);
    assert_eq!(unauthorized.headers.len(), 1);
    assert_eq!(unauthorized.headers[0].name, "www-authenticate");
    assert_eq!(unauthorized.headers[0].value, b"Basic realm=\"publish\"".to_vec());
    let internal = PublishError::UnexpectedError("boom".to_string()).error_response();
    assert_eq!(internal.status_code, 500);
    assert!(internal.headers.is_empty());
}

#[test]
fn route_errors_carry_their_status_codes_and_messages() {
    assert_eq!(SubscribeError::ValidationError("bad email".to_string()).status_code(), 400);
    assert_eq!(SubscribeError::UnexpectedError("boom".to_string()).status_code(), 500);
    assert_eq!(
        ConfirmError::ConfirmSubscriberFailedError("boom".to_string()).status_code(),
        500
    );
    assert_eq!(LoginError::AuthError("nope".to_string()).message(), "Authentication failed");
    assert_eq!(
        LoginError::UnexpectedError("boom".to_string()).message(),
        "Something went wrong"
    );
}

#[test]
fn html_placeholders_are_substituted() {
    let fields = vec![
        ("msg_html".to_string(), "<p>hello</p>".to_string()),
        ("title".to_string(), "Home".to_string()),
    ];
    let page = zero2prod::html::populate_dynamic_html_fields(
        &fields,
        "<title>{title}</title><body>{msg_html}</body>",
    );
    assert_eq!(page, "<title>Home</title><body><p>hello</p></body>");
}

#[test]
fn unsupplied_placeholders_become_empty_and_literals_stay() {
    let fields = vec![("name".to_string(), "reader".to_string())];
    let populated =
        zero2prod::html::populate_dynamic_html_fields(&fields, "Hi {name}, {missing}!{}{ }");
    assert_eq!(populated, "Hi reader, !{}{ }");
    let doubled = zero2prod::html::populate_dynamic_html_fields(&fields, "{{name}}");
    assert_eq!(doubled, "{reader}");
}
