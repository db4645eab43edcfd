use crate::credentials::{authenticate, basic_credentials, header_bytes, password_digest, AuthError};
use crate::email::{email_accepted, SubscriberEmail};
use crate::store::{checked_entry, confirmed_emails, store_wf, SubscriptionStore};
use vstd::prelude::*;

verus! {

/// Why a newsletter was not published.
#[derive(Clone, Copy, Debug, PartialEq, Eq, Structural)]
pub enum NewsletterError {
    /// The confirmed subscribers could not be read.
    ConfirmedSubsError,
    /// The mail sender failed for a recipient; the rest were not tried.
    SendLetterError,
    /// The operator was not let through.
    AuthError(AuthError),
}

/// The two bodies of a newsletter.
pub struct Content {
    pub html: String,
    pub text: String,
}

/// A newsletter issue as an operator submits it.
pub struct BodyData {
    pub title: String,
    pub content: Content,
}

/// The challenge that goes with every refusal of an operator.
pub open spec fn basic_challenge() -> Seq<char> {
    "Basic realm=\"publish\""@
}

impl NewsletterError {
    /// The HTTP status that answers the request.
    pub fn status_code(&self) -> (r: u16)
        ensures
            self is AuthError ==> r == 401,
            !(self is AuthError) ==> r == 500,
    {
        match self {
            NewsletterError::AuthError(_) => 401,
            _ => 500,
        }
    }

    /// The `WWW-Authenticate` value that asks for credentials: present
    /// exactly on a refusal of the operator.
    pub fn challenge(&self) -> (r: Option<&'static str>)
        ensures
            r is Some <==> self is AuthError,
            r matches Some(c) ==> c@ == basic_challenge(),
    {
        match self {
            NewsletterError::AuthError(_) => {
                proof {
                    reveal_strlit("Basic realm=\"publish\"");
                }
                Some("Basic realm=\"publish\"")
            },
            _ => None,
        }
    }
}

/// The addresses among `entries` that passed their check, in order.
pub open spec fn well_formed(entries: Seq<Result<SubscriberEmail, String>>) -> Seq<Seq<char>>
    decreases entries.len(),
{
    if entries.len() == 0 {
        Seq::empty()
    } else {
        let rest = well_formed(entries.drop_last());
        match entries.last() {
            Ok(e) => rest.push(e@),
            Err(_) => rest,
        }
    }
}

/// The addresses of `s` that the address check accepts, in order.
pub open spec fn accepted_emails(s: Seq<Seq<char>>) -> Seq<Seq<char>>
    decreases s.len(),
{
    if s.len() == 0 {
        Seq::empty()
    } else {
        let rest = accepted_emails(s.drop_last());
        if email_accepted(s.last()) {
            rest.push(s.last())
        } else {
            rest
        }
    }
}

/// Where a dispatch stands: its recipients, how many were sent to, and
/// whether a send failed.
pub struct DispatchView {
    pub recipients: Seq<Seq<char>>,
    pub sent: nat,
    pub failed: bool,
}

/// What the mail loop is to do next.
pub enum DispatchAction {
    /// Send the newsletter to this recipient, then report how it went.
    Send(SubscriberEmail),
    /// Stop, with this result.
    Finish(Result<(), NewsletterError>),
}

/// What the mail loop is to do next, in the model.
pub enum ActionView {
    Send(Seq<char>),
    Published,
    DeliveryFailed,
}

pub open spec fn action_view(a: DispatchAction) -> ActionView {
    match a {
        DispatchAction::Send(e) => ActionView::Send(e@),
        DispatchAction::Finish(Ok(())) => ActionView::Published,
        DispatchAction::Finish(Err(_)) => ActionView::DeliveryFailed,
    }
}

pub open spec fn dispatch_wf(d: DispatchView) -> bool {
    d.sent <= d.recipients.len()
}

pub open spec fn start(recipients: Seq<Seq<char>>) -> DispatchView {
    DispatchView { recipients, sent: 0, failed: false }
}

/// A failed send ends the dispatch; else the next recipient is due; else
/// all were sent to.
pub open spec fn action_of(d: DispatchView) -> ActionView {
    if d.failed {
        ActionView::DeliveryFailed
    } else if d.sent < d.recipients.len() {
        ActionView::Send(d.recipients[d.sent as int])
    } else {
        ActionView::Published
    }
}

/// The dispatch after the due send went through, or failed.
pub open spec fn after_send(d: DispatchView, delivered: bool) -> DispatchView {
    if delivered {
        DispatchView { sent: d.sent + 1, ..d }
    } else {
        DispatchView { failed: true, ..d }
    }
}

/// The dispatch after the mail sender answered each due send in turn with
/// the next of `results`, until it stopped.
pub open spec fn drive(d: DispatchView, results: Seq<bool>) -> DispatchView
    decreases results.len(),
{
    if results.len() > 0 && action_of(d) is Send {
        drive(after_send(d, results[0]), results.drop_first())
    } else {
        d
    }
}

/// How many times the mail sender was called.
pub open spec fn sends_made(d: DispatchView) -> nat {
    d.sent + if d.failed {
        1nat
    } else {
        0nat
    }
}

/// The fan-out of one newsletter: each well-formed recipient in turn, and
/// stop at the first failed send.
pub struct Dispatch {
    recipients: Vec<SubscriberEmail>,
    sent: usize,
    failed: bool,
}

impl View for Dispatch {
    type V = DispatchView;

    closed spec fn view(&self) -> DispatchView {
        DispatchView {
            recipients: self.recipients@.map_values(|e: SubscriberEmail| e@),
            sent: self.sent as nat,
            failed: self.failed,
        }
    }
}

impl Dispatch {
    /// A dispatch to the entries that hold an address; an entry that holds
    /// a refused address is skipped and does not stop the others.
    pub fn new(entries: Vec<Result<SubscriberEmail, String>>) -> (r: Dispatch)
        ensures
            r@ == start(well_formed(entries@)),
            dispatch_wf(r@),
    {
        let ghost es = entries@;
        let mut recipients: Vec<SubscriberEmail> = Vec::new();
        for entry in it: entries.into_iter()
            invariant
                it.seq() == es,
                recipients@.map_values(|e: SubscriberEmail| e@) == well_formed(
                    es.subrange(0, it.index() as int),
                ),
        {
            let ghost i = it.index();
            let ghost before = recipients@;
            proof {
                assert(entry == es[i as int]);
                assert(es.subrange(0, i + 1).drop_last() == es.subrange(0, i as int));
            }
            match entry {
                Ok(e) => {
                    recipients.push(e);
                    assert(recipients@.map_values(|e: SubscriberEmail| e@) == before.map_values(
                        |e: SubscriberEmail| e@,
                    ).push(es[i as int]->Ok_0@));
                },
                Err(_) => {},
            }
        }
        assert(es.subrange(0, es.len() as int) == es);
        Dispatch { recipients, sent: 0, failed: false }
    }

    /// The next step of the mail loop.
    pub fn next_action(&self) -> (r: DispatchAction)
        requires
            dispatch_wf(self@),
        ensures
            action_view(r) == action_of(self@),
            r matches DispatchAction::Finish(Err(e)) ==> e == NewsletterError::SendLetterError,
    {
        if self.failed {
            DispatchAction::Finish(Err(NewsletterError::SendLetterError))
        } else if self.sent < self.recipients.len() {
            DispatchAction::Send(self.recipients[self.sent].clone())
        } else {
            DispatchAction::Finish(Ok(()))
        }
    }

    /// Records how the due send went.
    pub fn record(&mut self, delivered: bool)
        requires
            dispatch_wf(old(self)@),
            action_of(old(self)@) is Send,
        ensures
            final(self)@ == after_send(old(self)@, delivered),
            dispatch_wf(final(self)@),
    {
        let n = self.recipients.len();
        assert(self@.recipients.len() == n);
        if delivered {
            self.sent = self.sent + 1;
        } else {
            self.failed = true;
        }
    }
}

/// Lemma: checking the confirmed addresses again and skipping the refused
/// ones leaves the accepted addresses, in order.
pub proof fn lemma_checked_entries(
    entries: Seq<Result<SubscriberEmail, String>>,
    emails: Seq<Seq<char>>,
)
    requires
        entries.len() == emails.len(),
        forall|k: int| 0 <= k < entries.len() ==> checked_entry(#[trigger] entries[k], emails[k]),
    ensures
        well_formed(entries) == accepted_emails(emails),
    decreases entries.len(),
{
    if entries.len() > 0 {
        let n = entries.len() - 1;
        assert(checked_entry(entries[n as int], emails[n as int]));
        lemma_checked_entries(entries.drop_last(), emails.drop_last());
    }
}

/// Lemma: the dispatch publishes when every due send goes through, after
/// one call of the mail sender per recipient; at the first failed send it
/// stops, after one call more than the sends that went through, and fails.
pub proof fn lemma_dispatch_outcome(recipients: Seq<Seq<char>>, results: Seq<bool>)
    requires
        results.len() >= recipients.len(),
    ensures
        (forall|i: int| 0 <= i < recipients.len() ==> results[i]) ==> {
            &&& action_of(drive(start(recipients), results)) == ActionView::Published
            &&& sends_made(drive(start(recipients), results)) == recipients.len()
        },
        forall|f: int|
            0 <= f < recipients.len() && !results[f] && (forall|i: int| 0 <= i < f ==> results[i])
                ==> {
                &&& action_of(drive(start(recipients), results)) == ActionView::DeliveryFailed
                &&& sends_made(drive(start(recipients), results)) == f + 1
            },
{
    lemma_drive_from(start(recipients), results);
}

proof fn lemma_drive_from(d: DispatchView, results: Seq<bool>)
    requires
        dispatch_wf(d),
        !d.failed,
        results.len() >= d.recipients.len() - d.sent,
    ensures
        (forall|i: int| 0 <= i < d.recipients.len() - d.sent ==> results[i]) ==> {
            &&& action_of(drive(d, results)) == ActionView::Published
            &&& sends_made(drive(d, results)) == d.recipients.len()
        },
        forall|f: int|
            0 <= f < d.recipients.len() - d.sent && !results[f] && (forall|i: int|
                0 <= i < f ==> results[i]) ==> {
                &&& action_of(drive(d, results)) == ActionView::DeliveryFailed
                &&& sends_made(drive(d, results)) == d.sent + f + 1
            },
    decreases d.recipients.len() - d.sent,
{
    if d.sent < d.recipients.len() {
        let next = after_send(d, results[0]);
        let rest = results.drop_first();
        assert(drive(d, results) == drive(next, rest));
        if results[0] {
            lemma_drive_from(next, rest);
            assert forall|f: int|
                0 <= f < d.recipients.len() - d.sent && !results[f] && (forall|i: int|
                    0 <= i < f ==> results[i]) implies {
                &&& action_of(drive(d, results)) == ActionView::DeliveryFailed
                &&& sends_made(drive(d, results)) == d.sent + f + 1
            } by {
                assert(f > 0);
                assert(!rest[f - 1]);
                assert forall|i: int| 0 <= i < f - 1 implies rest[i] by {
                    assert(results[i + 1]);
                }
            }
            if forall|i: int| 0 <= i < d.recipients.len() - d.sent ==> results[i] {
                assert forall|i: int| 0 <= i < next.recipients.len() - next.sent implies rest[i] by {
                    assert(results[i + 1]);
                }
            }
        } else {
            assert(drive(next, rest) == next);
        }
    }
}

/// The first part of publishing: lets the operator through, reads the
/// confirmed subscribers, and sets up the fan-out to those whose address
/// still passes its check.
pub fn publish_begin(store: &SubscriptionStore, header: Option<&[u8]>) -> (r: Result<
    Dispatch,
    NewsletterError,
>)
    requires
        store_wf(store@),
    ensures
        match basic_credentials(header_bytes(header)) {
            Err(e) => r == Err::<Dispatch, NewsletterError>(NewsletterError::AuthError(e)),
            Ok((u, p)) => {
                let known = exists|k: int|
                    0 <= k < store@.operators.len() && #[trigger] store@.operators[k].username@
                        == u && store@.operators[k].password_hash@ == password_digest(p);
                &&& !known ==> r == Err::<Dispatch, NewsletterError>(
                    NewsletterError::AuthError(AuthError::InvalidCredentials),
                )
                &&& known ==> (r matches Ok(d) && d@ == start(
                    accepted_emails(confirmed_emails(store@.subscribers)),
                ) && dispatch_wf(d@))
            },
        },
{
    match authenticate(store, header) {
        Err(e) => Err(NewsletterError::AuthError(e)),
        Ok(_) => {
            let entries = store.list_confirmed_emails();
            proof {
                lemma_checked_entries(entries@, confirmed_emails(store@.subscribers));
            }
            Ok(Dispatch::new(entries))
        },
    }
}

} // verus!
