use crate::store::{
    confirm_rows, has_id, has_token, status_of, store_wf, token_owner, Status, StoreView,
    SubscriberRecord, SubscriptionStore, lemma_owner_unique,
};
use vstd::prelude::*;

verus! {

/// The query of a confirmation request.
pub struct Params {
    pub token: String,
}

/// What a confirmation request comes to.
#[derive(Clone, Copy, Debug, PartialEq, Eq, Structural)]
pub enum ConfirmOutcome {
    /// The token's owner is confirmed.
    Confirmed,
    /// No subscriber holds the token.
    Unauthorized,
    /// The store failed.
    InternalError,
}

impl ConfirmOutcome {
    /// The HTTP status that answers the request.
    pub fn status_code(&self) -> (r: u16)
        ensures
            *self == ConfirmOutcome::Confirmed ==> r == 200,
            *self == ConfirmOutcome::Unauthorized ==> r == 401,
            *self == ConfirmOutcome::InternalError ==> r == 500,
    {
        match self {
            ConfirmOutcome::Confirmed => 200,
            ConfirmOutcome::Unauthorized => 401,
            ConfirmOutcome::InternalError => 500,
        }
    }
}

/// What to do once the token was looked up.
#[derive(Clone, Copy, Debug, PartialEq, Eq, Structural)]
pub enum ConfirmStep {
    /// Mark this subscriber confirmed; the outcome is then `Confirmed`.
    MarkConfirmed(u128),
    /// Answer with this outcome.
    Done(ConfirmOutcome),
}

/// The decision on the store's answer to the lookup of a token.
pub fn confirm_step(resolved: Option<u128>) -> (r: ConfirmStep)
    ensures
        match resolved {
            Some(id) => r == ConfirmStep::MarkConfirmed(id),
            None => r == ConfirmStep::Done(ConfirmOutcome::Unauthorized),
        },
{
    match resolved {
        Some(id) => ConfirmStep::MarkConfirmed(id),
        None => ConfirmStep::Done(ConfirmOutcome::Unauthorized),
    }
}

/// The store after confirming with `token`: the owner's row marked
/// confirmed, everything else as it was; nothing changes for an unknown token.
pub open spec fn confirmed_by(old: StoreView, new: StoreView, token: Seq<char>) -> bool {
    &&& new.tokens == old.tokens
    &&& new.operators == old.operators
    &&& (forall|id: u128|
        token_owner(old.tokens, token, id) ==> new.subscribers == confirm_rows(
            old.subscribers,
            id,
        ))
    &&& (!has_token(old.tokens, token) ==> new == old)
}

/// Resolves `token` to its subscriber and marks that subscriber confirmed.
/// An unknown token is `Unauthorized` and changes nothing; a token that was
/// used already confirms again without error.
pub fn confirm(store: &mut SubscriptionStore, token: &str) -> (r: ConfirmOutcome)
    requires
        store_wf(old(store)@),
    ensures
        store_wf(final(store)@),
        r == ConfirmOutcome::Confirmed <==> has_token(old(store)@.tokens, token@),
        r == ConfirmOutcome::Unauthorized <==> !has_token(old(store)@.tokens, token@),
        confirmed_by(old(store)@, final(store)@, token@),
{
    match confirm_step(store.resolve_token(token)) {
        ConfirmStep::Done(outcome) => outcome,
        ConfirmStep::MarkConfirmed(id) => {
            let ghost v = store@;
            store.mark_confirmed(id);
            proof {
                assert(has_token(v.tokens, token@)) by {
                    let t = choose|t: int|
                        0 <= t < v.tokens.len() && #[trigger] v.tokens[t].token@ == token@
                            && v.tokens[t].subscriber_id == id;
                    assert(v.tokens[t].token@ == token@);
                }
                assert forall|other: u128| token_owner(v.tokens, token@, other) implies store@.subscribers
                    == confirm_rows(v.subscribers, other) by {
                    lemma_owner_unique(v, token@, id, other);
                }
            }
            ConfirmOutcome::Confirmed
        },
    }
}

/// Lemma: confirming with a token that the store holds leaves its owner
/// confirmed.
pub proof fn lemma_confirm_marks_owner(v: StoreView, token: Seq<char>, id: u128)
    requires
        store_wf(v),
        token_owner(v.tokens, token, id),
    ensures
        status_of(confirm_rows(v.subscribers, id), id, Status::Confirmed),
{
    let t = choose|t: int|
        0 <= t < v.tokens.len() && #[trigger] v.tokens[t].token@ == token && v.tokens[t].subscriber_id
            == id;
    assert(has_id(v.subscribers, v.tokens[t].subscriber_id));
    let i = choose|i: int| 0 <= i < v.subscribers.len() && #[trigger] v.subscribers[i].id == id;
    let rows = confirm_rows(v.subscribers, id);
    assert(rows[i].id == id && rows[i].status == Status::Confirmed);
}

/// Lemma: confirming twice leaves the table as confirming once does.
pub proof fn lemma_confirm_idempotent(subs: Seq<SubscriberRecord>, id: u128)
    ensures
        confirm_rows(confirm_rows(subs, id), id) == confirm_rows(subs, id),
{
    assert(confirm_rows(confirm_rows(subs, id), id) =~= confirm_rows(subs, id));
}

/// Lemma: the second confirmation with a token finds it again and changes
/// nothing more; both answer `Confirmed`.
pub proof fn lemma_confirm_twice(v: StoreView, w: StoreView, x: StoreView, token: Seq<char>)
    requires
        store_wf(v),
        has_token(v.tokens, token),
        confirmed_by(v, w, token),
        confirmed_by(w, x, token),
    ensures
        has_token(w.tokens, token),
        x == w,
{
    let t = choose|t: int| 0 <= t < v.tokens.len() && #[trigger] v.tokens[t].token@ == token;
    let id = v.tokens[t].subscriber_id;
    assert(token_owner(v.tokens, token, id));
    assert(token_owner(w.tokens, token, id));
    lemma_confirm_idempotent(v.subscribers, id);
    assert(x.subscribers == w.subscribers);
}

} // verus!
