use crate::email::{email_accepted, invalid_email_message, SubscriberEmail};
use crate::name::{invalid_name_message, is_valid_name};
use crate::new_subscriber::NewSubscriber;
use crate::store::{
    has_id, has_token, has_token_for, lemma_owner_unique, resolves_to, token_owner, store_wf, Status, StoreView, SubscriptionStore,
};
use crate::token::{generate_sub_token, is_token_shape};
use vstd::prelude::*;

verus! {

/// Path, below the base link, of the confirmation endpoint with its query key.
pub open spec fn confirm_path() -> Seq<char> {
    "/confirm?token="@
}

/// The link that confirms `token`.
pub open spec fn confirmation_link(base: Seq<char>, token: Seq<char>) -> Seq<char> {
    base + confirm_path() + token
}

pub open spec fn confirmation_text(link: Seq<char>) -> Seq<char> {
    "visit "@ + link + " to confirm"@
}

pub open spec fn confirmation_html(link: Seq<char>) -> Seq<char> {
    "visit <a href=\""@ + link + "\">this</a> to confirm"@
}

pub open spec fn confirmation_subject() -> Seq<char> {
    "Confirm your subscription"@
}

/// A message for the mail sender.
pub struct ConfirmationEmail {
    pub recipient: SubscriberEmail,
    pub subject: String,
    pub html_body: String,
    pub text_body: String,
}

/// `m` asks `recipient` to follow the link that confirms `token`, in its
/// plain-text body and in its HTML body.
pub open spec fn is_confirmation_email(
    m: ConfirmationEmail,
    recipient: Seq<char>,
    base: Seq<char>,
    token: Seq<char>,
) -> bool {
    &&& m.recipient@ == recipient
    &&& m.subject@ == confirmation_subject()
    &&& m.text_body@ == confirmation_text(confirmation_link(base, token))
    &&& m.html_body@ == confirmation_html(confirmation_link(base, token))
}

/// A registration that was committed: the new subscriber, its token, and the
/// message that still has to be sent.
pub struct PendingRegistration {
    pub subscriber_id: u128,
    pub token: String,
    pub email: ConfirmationEmail,
}

/// Why a registration failed.
#[derive(Debug)]
pub enum SubscribeError {
    /// The name or the address was refused; the message says which.
    ValidationError(String),
    /// No connection to the store could be had.
    PoolError,
    /// The subscriber could not be written.
    InsertSubError,
    /// The token could not be written.
    StoreTokenError,
    /// The transaction could not be committed.
    TransactionCommitError,
    /// The confirmation message could not be sent.
    SendEmailError,
}

impl SubscribeError {
    /// The HTTP status that answers the request: 400 for a refused form,
    /// 500 for any failure of the store or of the mail sender.
    pub fn status_code(&self) -> (r: u16)
        ensures
            self is ValidationError ==> r == 400,
            !(self is ValidationError) ==> r == 500,
    {
        match self {
            SubscribeError::ValidationError(_) => 400,
            _ => 500,
        }
    }
}

/// Builds the message that asks `recipient` to confirm `token`.
pub fn confirmation_email(recipient: SubscriberEmail, base_link_url: &str, token: &str) -> (r:
    ConfirmationEmail)
    ensures
        is_confirmation_email(r, recipient@, base_link_url@, token@),
{
    let mut link = String::new();
    link.append(base_link_url);
    link.append("/confirm?token=");
    link.append(token);
    let mut text_body = String::new();
    text_body.append("visit ");
    text_body.append(link.as_str());
    text_body.append(" to confirm");
    let mut html_body = String::new();
    html_body.append("visit <a href=\"");
    html_body.append(link.as_str());
    html_body.append("\">this</a> to confirm");
    let subject = String::from_str("Confirm your subscription");
    proof {
        reveal_strlit("/confirm?token=");
        reveal_strlit("visit ");
        reveal_strlit(" to confirm");
        reveal_strlit("visit <a href=\"");
        reveal_strlit("\">this</a> to confirm");
        reveal_strlit("Confirm your subscription");
        assert(link@ == confirmation_link(base_link_url@, token@));
        assert(text_body@ == confirmation_text(link@));
        assert(html_body@ == confirmation_html(link@));
    }
    ConfirmationEmail { recipient, subject, html_body, text_body }
}

/// What a committed registration leaves in the store: `old` with one more
/// pending subscriber `id` and one more token, owned by it.
pub open spec fn registered(
    old: StoreView,
    new: StoreView,
    id: u128,
    name: Seq<char>,
    email: Seq<char>,
    token: Seq<char>,
) -> bool {
    &&& new.subscribers.len() == old.subscribers.len() + 1
    &&& new.subscribers.drop_last() == old.subscribers
    &&& new.subscribers.last().id == id
    &&& new.subscribers.last().name@ == name
    &&& new.subscribers.last().email@ == email
    &&& new.subscribers.last().status == Status::Pending
    &&& new.tokens.len() == old.tokens.len() + 1
    &&& new.tokens.drop_last() == old.tokens
    &&& new.tokens.last().token@ == token
    &&& new.tokens.last().subscriber_id == id
    &&& new.operators == old.operators
}

/// Lemma: after a registration, its token resolves to the new subscriber,
/// and to no other.
pub proof fn lemma_registered_token_resolves(
    old: StoreView,
    new: StoreView,
    id: u128,
    name: Seq<char>,
    email: Seq<char>,
    token: Seq<char>,
)
    requires
        store_wf(new),
        registered(old, new, id, name, email, token),
    ensures
        resolves_to(new, token, Some(id)),
        forall|other: u128| token_owner(new.tokens, token, other) ==> other == id,
{
    assert(new.tokens[new.tokens.len() - 1].token@ == token);
    assert forall|other: u128| token_owner(new.tokens, token, other) implies other == id by {
        lemma_owner_unique(new, token, id, other);
    }
}

/// Writes a checked subscriber under the id `id`, registered at `at`, with
/// the token `token`, in one transaction; on success hands back the
/// confirmation message to send. On any failure nothing is written.
pub fn register_with(
    store: &mut SubscriptionStore,
    new_sub: NewSubscriber,
    id: u128,
    at: i64,
    token: String,
    base_link_url: &str,
) -> (r: Result<PendingRegistration, SubscribeError>)
    requires
        store_wf(old(store)@),
    ensures
        store_wf(final(store)@),
        r is Ok <==> !has_id(old(store)@.subscribers, id) && !has_token(old(store)@.tokens, token@),
        r is Err ==> final(store)@ == old(store)@,
        has_id(old(store)@.subscribers, id) ==> r matches Err(SubscribeError::InsertSubError),
        !has_id(old(store)@.subscribers, id) && has_token(old(store)@.tokens, token@) ==> r matches Err(
            SubscribeError::StoreTokenError,
        ),
        r matches Ok(p) ==> {
            &&& p.subscriber_id == id
            &&& p.token@ == token@
            &&& final(store)@.subscribers.last().subscribed_at == at
            &&& registered(
                old(store)@,
                final(store)@,
                id,
                new_sub.name@,
                new_sub.email@,
                token@,
            )
            &&& resolves_to(final(store)@, token@, Some(id))
            &&& is_confirmation_email(p.email, new_sub.email@, base_link_url@, token@)
        },
{
    let ghost v = store@;
    let mut tx = store.begin();
    match tx.insert_pending(store, &new_sub, id, at) {
        Ok(()) => {},
        Err(_) => {
            return Err(SubscribeError::InsertSubError);
        },
    }
    match tx.store_token(store, id, token.as_str()) {
        Ok(()) => {},
        Err(_) => {
            proof {
                assert(has_id(tx@.subscribers, id)) by {
                    assert(tx@.subscribers[0].id == id);
                }
                assert(!has_token(tx@.tokens, token@));
            }
            return Err(SubscribeError::StoreTokenError);
        },
    }
    let ghost s = tx@;
    proof {
        assert(s.subscribers.len() == 1);
        assert(s.tokens.len() == 1);
        assert(s.subscribers[0].id == id);
        assert(s.tokens[0].token@ == token@);
        let all = v.subscribers + s.subscribers;
        assert forall|i: int, j: int| 0 <= i < j < all.len() implies #[trigger] all[i].id
            != #[trigger] all[j].id by {
            if j == v.subscribers.len() {
                assert(all[i] == v.subscribers[i]);
            } else {
                assert(all[i] == v.subscribers[i]);
                assert(all[j] == v.subscribers[j]);
            }
        }
        let toks = v.tokens + s.tokens;
        assert forall|i: int, j: int| 0 <= i < j < toks.len() implies #[trigger] toks[i].token@
            != #[trigger] toks[j].token@ by {
            if j == v.tokens.len() {
                assert(toks[i] == v.tokens[i]);
            } else {
                assert(toks[i] == v.tokens[i]);
                assert(toks[j] == v.tokens[j]);
            }
        }
        assert(has_id(all, id)) by {
            assert(all[v.subscribers.len() as int].id == id);
        }
        assert(has_token_for(s.tokens, s.subscribers[0].id)) by {
            assert(s.tokens[0].subscriber_id == id);
        }
    }
    match store.commit(tx) {
        Ok(()) => {},
        Err(_) => {
            return Err(SubscribeError::TransactionCommitError);
        },
    }
    proof {
        let w = store@;
        assert(w.subscribers.drop_last() == v.subscribers);
        assert(w.tokens.drop_last() == v.tokens);
        assert(w.tokens[w.tokens.len() - 1].token@ == token@);
    }
    let email = confirmation_email(new_sub.email, base_link_url, token.as_str());
    Ok(PendingRegistration { subscriber_id: id, token, email })
}

/// Relies on `uuid::Uuid::new_v4`, read as a `u128`: a random identifier,
/// of which nothing is promised.
#[verifier::external_body]
fn new_subscriber_id() -> (r: u128) {
    uuid::Uuid::new_v4().as_u128()
}

/// Relies on `chrono::Utc::now`: the current time in seconds since the Unix
/// epoch, of which nothing is promised.
#[verifier::external_body]
fn now_timestamp() -> (r: i64) {
    chrono::Utc::now().timestamp()
}

/// Registers a prospective subscriber: checks the name and the address,
/// then writes the pending subscriber and a fresh token in one transaction,
/// and hands back the confirmation message to send. A refused form or a
/// failed write leaves the store as it was.
///
/// Addresses are not deduplicated: registering an address that the store
/// already holds writes a second pending subscriber, with its own id and
/// token. A write fails only when a drawn id or token is taken already, so
/// a valid form is always registered into an empty store.
pub fn register(
    store: &mut SubscriptionStore,
    name: String,
    email: String,
    base_link_url: &str,
) -> (r: Result<PendingRegistration, SubscribeError>)
    requires
        store_wf(old(store)@),
    ensures
        store_wf(final(store)@),
        r is Err ==> final(store)@ == old(store)@,
        !is_valid_name(name@) ==> (r matches Err(SubscribeError::ValidationError(m)) && m@
            == invalid_name_message(name@)),
        is_valid_name(name@) && !email_accepted(email@) ==> (r matches Err(
            SubscribeError::ValidationError(m),
        ) && m@ == invalid_email_message(email@)),
        is_valid_name(name@) && email_accepted(email@) ==> !(r is Err && r->Err_0 is ValidationError),
        is_valid_name(name@) && email_accepted(email@) && r is Err ==> (r->Err_0 is InsertSubError
            || r->Err_0 is StoreTokenError),
        is_valid_name(name@) && email_accepted(email@) && old(store)@.subscribers.len() == 0
            ==> r is Ok,
        r matches Ok(p) ==> {
            &&& is_token_shape(p.token@)
            &&& registered(old(store)@, final(store)@, p.subscriber_id, name@, email@, p.token@)
            &&& resolves_to(final(store)@, p.token@, Some(p.subscriber_id))
            &&& is_confirmation_email(p.email, email@, base_link_url@, p.token@)
        },
{
    let new_sub = match NewSubscriber::new(name, email) {
        Ok(s) => s,
        Err(e) => {
            return Err(SubscribeError::ValidationError(e));
        },
    };
    let id = new_subscriber_id();
    let at = now_timestamp();
    let token = generate_sub_token();
    proof {
        let v = store@;
        if v.subscribers.len() == 0 && v.tokens.len() > 0 {
            assert(has_id(v.subscribers, v.tokens[0].subscriber_id));
        }
    }
    register_with(store, new_sub, id, at, token, base_link_url)
}

} // verus!
