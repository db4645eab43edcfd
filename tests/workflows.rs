use emailer::confirmation::{confirm, confirm_step, ConfirmOutcome, ConfirmStep};
use emailer::credentials::AuthError;
use emailer::dispatch::{publish_begin, Dispatch, DispatchAction, NewsletterError};
use emailer::registration::{register, register_with, SubscribeError};
use emailer::store::{Status, StoreError, SubscriptionStore};
use emailer::{NewSubscriber, SubscriberEmail};

const SECRET_DIGEST: &str = "f5a5207a8729b1f709cb710311751eb2fc8acad5a1fb8ac991b736e69b6529a3";
const ADMIN_SECRET: &[u8] = b"Basic YWRtaW46c2VjcmV0";

fn store_with_operator() -> SubscriptionStore {
    let mut store = SubscriptionStore::new();
    store.add_operator(7, "admin".to_string(), SECRET_DIGEST.to_string());
    store
}

fn register_pog(store: &mut SubscriptionStore, email: &str) -> (u128, String) {
    let p = register(
        store,
        "pog dog".to_string(),
        email.to_string(),
        "http://127.0.0.1/subscriptions",
    )
    .unwrap();
    (p.subscriber_id, p.token)
}

/// Drives a dispatch, answering each send with the next of `answers`;
/// returns the result and the recipients that were sent to.
fn drive(mut d: Dispatch, answers: &[bool]) -> (Result<(), NewsletterError>, Vec<String>) {
    let mut calls = Vec::new();
    loop {
        match d.next_action() {
            DispatchAction::Send(to) => {
                let ok = answers[calls.len()];
                calls.push(to.as_ref().to_string());
                d.record(ok);
            }
            DispatchAction::Finish(r) => return (r, calls),
        }
    }
}

#[test]
fn register_stores_pending_subscriber_with_one_token() {
    let mut store = SubscriptionStore::new();
    let (id, token) = register_pog(&mut store, "pogolius@gmail.com");
    assert_eq!(store.subscriber_count(), 1);
    assert_eq!(store.status_of(id), Some(Status::Pending));
    let tokens = store.tokens_of(id);
    assert_eq!(tokens.len(), 1);
    assert_eq!(tokens[0], token);
    assert_eq!(token.chars().count(), 25);
}

#[test]
fn register_builds_confirmation_email() {
    let mut store = SubscriptionStore::new();
    let p = register(
        &mut store,
        "pog dog".to_string(),
        "pogolius@gmail.com".to_string(),
        "http://127.0.0.1/subscriptions",
    )
    .unwrap();
    let link = format!("http://127.0.0.1/subscriptions/confirm?token={}", p.token);
    assert_eq!(p.email.recipient.as_ref(), "pogolius@gmail.com");
    assert_eq!(p.email.text_body, format!("visit {} to confirm", link));
    assert_eq!(p.email.html_body, format!("visit <a href=\"{}\">this</a> to confirm", link));
    assert_eq!(p.email.subject, "Confirm your subscription");
}

#[test]
fn register_rejects_invalid_form_and_writes_nothing() {
    let mut store = SubscriptionStore::new();
    let cases = [
        ("", "pogolius@gmail.com"),
        ("pog dog", ""),
        ("pogdog", "some_mail_address"),
        ("pog<dog", "pogolius@gmail.com"),
    ];
    for (name, email) in cases {
        let r = register(&mut store, name.to_string(), email.to_string(), "http://x");
        match r {
            Err(e) => {
                assert!(matches!(e, SubscribeError::ValidationError(_)));
                assert_eq!(e.status_code(), 400);
            }
            Ok(_) => panic!("form was accepted: {} {}", name, email),
        }
    }
    assert_eq!(store.subscriber_count(), 0);
}

#[test]
fn register_with_taken_id_or_token_rolls_back() {
    let mut store = SubscriptionStore::new();
    let sub = NewSubscriber::new("a".to_string(), "a@b.com".to_string()).unwrap();
    let first = register_with(&mut store, sub, 1, 0, "tok1".to_string(), "http://x");
    assert!(first.is_ok());

    let sub = NewSubscriber::new("b".to_string(), "b@b.com".to_string()).unwrap();
    let r = register_with(&mut store, sub, 1, 0, "tok2".to_string(), "http://x");
    assert!(matches!(r, Err(SubscribeError::InsertSubError)));

    let sub = NewSubscriber::new("b".to_string(), "b@b.com".to_string()).unwrap();
    let r = register_with(&mut store, sub, 2, 0, "tok1".to_string(), "http://x");
    assert!(matches!(r, Err(SubscribeError::StoreTokenError)));
    assert_eq!(store.subscriber_count(), 1);
    assert_eq!(store.status_of(2), None);
    assert_eq!(SubscribeError::StoreTokenError.status_code(), 500);
}

#[test]
fn transaction_is_all_or_nothing() {
    let mut store = SubscriptionStore::new();
    let sub = NewSubscriber::new("a".to_string(), "a@b.com".to_string()).unwrap();
    let mut tx = store.begin();
    assert_eq!(tx.insert_pending(&store, &sub, 5, 0), Ok(()));
    // the subscriber is not visible before the commit
    assert_eq!(store.status_of(5), None);
    assert_eq!(tx.store_token(&store, 6, "t"), Err(StoreError::UnknownSubscriber));
    // a subscriber without a token is refused as a whole
    assert_eq!(store.commit(tx), Err(StoreError::MissingToken));
    assert_eq!(store.subscriber_count(), 0);

    let mut tx = store.begin();
    assert_eq!(tx.insert_pending(&store, &sub, 5, 0), Ok(()));
    assert_eq!(tx.store_token(&store, 5, "t"), Ok(()));
    assert_eq!(tx.store_token(&store, 5, "t"), Err(StoreError::ConstraintViolation));
    assert_eq!(store.commit(tx), Ok(()));
    assert_eq!(store.status_of(5), Some(Status::Pending));
    assert_eq!(store.resolve_token("t"), Some(5));
}

#[test]
fn confirm_with_issued_token_confirms() {
    let mut store = SubscriptionStore::new();
    let (id, token) = register_pog(&mut store, "pogolius@gmail.com");
    let outcome = confirm(&mut store, &token);
    assert_eq!(outcome, ConfirmOutcome::Confirmed);
    assert_eq!(outcome.status_code(), 200);
    assert_eq!(store.status_of(id), Some(Status::Confirmed));
}

#[test]
fn confirm_with_unknown_token_is_unauthorized() {
    let mut store = SubscriptionStore::new();
    let (id, _) = register_pog(&mut store, "pogolius@gmail.com");
    let outcome = confirm(&mut store, "aaaaaaaaaaaaaaaaaaaaaaaaa");
    assert_eq!(outcome, ConfirmOutcome::Unauthorized);
    assert_eq!(outcome.status_code(), 401);
    assert_eq!(store.status_of(id), Some(Status::Pending));
}

#[test]
fn confirm_twice_succeeds_both_times() {
    let mut store = SubscriptionStore::new();
    let (id, token) = register_pog(&mut store, "pogolius@gmail.com");
    assert_eq!(confirm(&mut store, &token), ConfirmOutcome::Confirmed);
    assert_eq!(confirm(&mut store, &token), ConfirmOutcome::Confirmed);
    assert_eq!(store.status_of(id), Some(Status::Confirmed));
}

#[test]
fn token_resolves_to_its_subscriber_only() {
    let mut store = SubscriptionStore::new();
    let (a, ta) = register_pog(&mut store, "a@example.com");
    let (b, tb) = register_pog(&mut store, "b@example.com");
    assert_ne!(a, b);
    assert_eq!(store.resolve_token(&ta), Some(a));
    assert_eq!(store.resolve_token(&tb), Some(b));
    assert_eq!(confirm(&mut store, &ta), ConfirmOutcome::Confirmed);
    assert_eq!(store.status_of(b), Some(Status::Pending));
}

#[test]
fn confirm_outcome_internal_error_is_500() {
    assert_eq!(ConfirmOutcome::InternalError.status_code(), 500);
}

#[test]
fn publish_without_header_is_unauthorized_with_challenge() {
    let store = store_with_operator();
    let err = publish_begin(&store, None).err().unwrap();
    assert_eq!(err, NewsletterError::AuthError(AuthError::MissingHeader));
    assert_eq!(err.status_code(), 401);
    assert_eq!(err.challenge(), Some("Basic realm=\"publish\""));
}

#[test]
fn publish_with_wrong_password_is_unauthorized() {
    let store = store_with_operator();
    // admin:wrong
    let err = publish_begin(&store, hdr(b"Basic YWRtaW46d3Jvbmc=")).err().unwrap();
    assert_eq!(err, NewsletterError::AuthError(AuthError::InvalidCredentials));
    assert_eq!(err.challenge(), Some("Basic realm=\"publish\""));
}

#[test]
fn publish_with_no_confirmed_subscribers_sends_nothing() {
    let store = store_with_operator();
    let d = publish_begin(&store, Some(ADMIN_SECRET)).ok().unwrap();
    let (r, calls) = drive(d, &[]);
    assert_eq!(r, Ok(()));
    assert!(calls.is_empty());
}

#[test]
fn publish_skips_pending_subscribers() {
    let mut store = store_with_operator();
    let (_, token) = register_pog(&mut store, "confirmed@example.com");
    register_pog(&mut store, "pending@example.com");
    confirm(&mut store, &token);
    let d = publish_begin(&store, Some(ADMIN_SECRET)).ok().unwrap();
    let (r, calls) = drive(d, &[true, true]);
    assert_eq!(r, Ok(()));
    assert_eq!(calls, vec!["confirmed@example.com".to_string()]);
}

#[test]
fn publish_fails_when_a_send_fails() {
    let mut store = store_with_operator();
    let (_, ta) = register_pog(&mut store, "a@example.com");
    let (_, tb) = register_pog(&mut store, "b@example.com");
    confirm(&mut store, &ta);
    confirm(&mut store, &tb);
    let d = publish_begin(&store, Some(ADMIN_SECRET)).ok().unwrap();
    let (r, calls) = drive(d, &[false, true]);
    assert_eq!(r, Err(NewsletterError::SendLetterError));
    assert_eq!(calls.len(), 1);
    assert_eq!(NewsletterError::SendLetterError.status_code(), 500);
    assert_eq!(NewsletterError::SendLetterError.challenge(), None);

    let d = publish_begin(&store, Some(ADMIN_SECRET)).ok().unwrap();
    let (r, calls) = drive(d, &[true, false]);
    assert_eq!(r, Err(NewsletterError::SendLetterError));
    assert_eq!(calls.len(), 2);
}

#[test]
fn dispatch_skips_malformed_address() {
    let entries = vec![
        SubscriberEmail::try_from("not-an-address".to_string()),
        SubscriberEmail::try_from("ok@example.com".to_string()),
    ];
    let (r, calls) = drive(Dispatch::new(entries), &[true, true]);
    assert_eq!(r, Ok(()));
    assert_eq!(calls, vec!["ok@example.com".to_string()]);
}

fn hdr(value: &[u8]) -> Option<&[u8]> {
    Some(value)
}

#[test]
fn confirm_step_decides_on_the_lookup() {
    assert_eq!(confirm_step(Some(4)), ConfirmStep::MarkConfirmed(4));
    assert_eq!(confirm_step(None), ConfirmStep::Done(ConfirmOutcome::Unauthorized));
}

#[test]
fn register_same_address_twice_keeps_two_pending_subscribers() {
    let mut store = SubscriptionStore::new();
    let (a, ta) = register_pog(&mut store, "pogolius@gmail.com");
    let (b, tb) = register_pog(&mut store, "pogolius@gmail.com");
    assert_ne!(a, b);
    assert_ne!(ta, tb);
    assert_eq!(store.subscriber_count(), 2);
}
