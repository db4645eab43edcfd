use crate::email::{email_accepted, invalid_email_message, SubscriberEmail};
use crate::new_subscriber::NewSubscriber;
use crate::text::text_eq;
use vstd::prelude::*;

verus! {

/// Where a subscriber stands: registered, or registered and confirmed.
#[derive(Clone, Copy, Debug, PartialEq, Eq, Structural)]
pub enum Status {
    Pending,
    Confirmed,
}

impl Status {
    /// The word the relational store keeps for this status.
    pub fn as_str(&self) -> (r: &'static str)
        ensures
            r@ == status_word(*self),
    {
        match self {
            Status::Pending => "pending",
            Status::Confirmed => "confirmed",
        }
    }
}

pub open spec fn status_word(s: Status) -> Seq<char> {
    match s {
        Status::Pending => "pending"@,
        Status::Confirmed => "confirmed"@,
    }
}

/// One row of the subscribers table.
pub struct SubscriberRecord {
    pub id: u128,
    pub email: String,
    pub name: String,
    pub subscribed_at: i64,
    pub status: Status,
}

/// One row of the tokens table: a token and the subscriber that owns it.
pub struct TokenRecord {
    pub token: String,
    pub subscriber_id: u128,
}

/// A credential of an operator: a user name and the digest of a password.
pub struct OperatorCredential {
    pub user_id: u128,
    pub username: String,
    pub password_hash: String,
}

/// Why the store refused an operation.
#[derive(Clone, Copy, Debug, PartialEq, Eq, Structural)]
pub enum StoreError {
    /// A subscriber id or a token is taken already.
    ConstraintViolation,
    /// A token names a subscriber that the store does not hold.
    UnknownSubscriber,
    /// A subscriber would be kept without a token.
    MissingToken,
}

/// What the store holds: the two tables and the operators' credentials.
pub struct StoreView {
    pub subscribers: Seq<SubscriberRecord>,
    pub tokens: Seq<TokenRecord>,
    pub operators: Seq<OperatorCredential>,
}

/// What a transaction has written and not yet committed.
pub struct StagedView {
    pub subscribers: Seq<SubscriberRecord>,
    pub tokens: Seq<TokenRecord>,
}

pub open spec fn id_in(subs: Seq<SubscriberRecord>, end: int, id: u128) -> bool {
    exists|i: int| 0 <= i < end && i < subs.len() && #[trigger] subs[i].id == id
}

pub open spec fn has_id(subs: Seq<SubscriberRecord>, id: u128) -> bool {
    id_in(subs, subs.len() as int, id)
}

pub open spec fn token_in(toks: Seq<TokenRecord>, end: int, token: Seq<char>) -> bool {
    exists|t: int| 0 <= t < end && t < toks.len() && #[trigger] toks[t].token@ == token
}

pub open spec fn has_token(toks: Seq<TokenRecord>, token: Seq<char>) -> bool {
    token_in(toks, toks.len() as int, token)
}

pub open spec fn has_token_for(toks: Seq<TokenRecord>, id: u128) -> bool {
    exists|t: int| 0 <= t < toks.len() && #[trigger] toks[t].subscriber_id == id
}

/// `token` is kept in the store for the subscriber `id`.
pub open spec fn token_owner(toks: Seq<TokenRecord>, token: Seq<char>, id: u128) -> bool {
    exists|t: int| 0 <= t < toks.len() && #[trigger] toks[t].token@ == token && toks[t].subscriber_id == id
}

pub open spec fn ids_unique(subs: Seq<SubscriberRecord>) -> bool {
    forall|i: int, j: int| 0 <= i < j < subs.len() ==> #[trigger] subs[i].id != #[trigger] subs[j].id
}

pub open spec fn tokens_unique(toks: Seq<TokenRecord>) -> bool {
    forall|i: int, j: int|
        0 <= i < j < toks.len() ==> #[trigger] toks[i].token@ != #[trigger] toks[j].token@
}

/// Every token names a subscriber of the table.
pub open spec fn tokens_refer(subs: Seq<SubscriberRecord>, toks: Seq<TokenRecord>) -> bool {
    forall|t: int| 0 <= t < toks.len() ==> has_id(subs, #[trigger] toks[t].subscriber_id)
}

/// No subscriber is kept without a token to confirm it by.
pub open spec fn every_subscriber_has_token(
    subs: Seq<SubscriberRecord>,
    toks: Seq<TokenRecord>,
) -> bool {
    forall|i: int| 0 <= i < subs.len() ==> has_token_for(toks, #[trigger] subs[i].id)
}

/// The invariant of the store.
pub open spec fn store_wf(v: StoreView) -> bool {
    &&& ids_unique(v.subscribers)
    &&& tokens_unique(v.tokens)
    &&& tokens_refer(v.subscribers, v.tokens)
    &&& every_subscriber_has_token(v.subscribers, v.tokens)
}

/// What `token` resolves to: its owner, or nothing when no row holds it.
pub open spec fn resolves_to(v: StoreView, token: Seq<char>, r: Option<u128>) -> bool {
    match r {
        Some(id) => token_owner(v.tokens, token, id),
        None => !has_token(v.tokens, token),
    }
}

/// The subscribers table after the subscriber `id` was marked confirmed.
pub open spec fn confirm_rows(subs: Seq<SubscriberRecord>, id: u128) -> Seq<SubscriberRecord> {
    Seq::new(
        subs.len(),
        |i: int|
            if subs[i].id == id {
                SubscriberRecord { status: Status::Confirmed, ..subs[i] }
            } else {
                subs[i]
            },
    )
}

/// The status of the subscriber `id`, if the table holds it.
pub open spec fn status_of(subs: Seq<SubscriberRecord>, id: u128, s: Status) -> bool {
    exists|i: int| 0 <= i < subs.len() && #[trigger] subs[i].id == id && subs[i].status == s
}

/// The addresses of the confirmed subscribers, in table order.
pub open spec fn confirmed_emails(subs: Seq<SubscriberRecord>) -> Seq<Seq<char>>
    decreases subs.len(),
{
    if subs.len() == 0 {
        Seq::empty()
    } else {
        let rest = confirmed_emails(subs.drop_last());
        if subs.last().status == Status::Confirmed {
            rest.push(subs.last().email@)
        } else {
            rest
        }
    }
}

/// A read address, checked again: the address itself, or the refusal.
pub open spec fn checked_entry(e: Result<SubscriberEmail, String>, s: Seq<char>) -> bool {
    match e {
        Ok(m) => email_accepted(s) && m@ == s,
        Err(msg) => !email_accepted(s) && msg@ == invalid_email_message(s),
    }
}

/// A transaction can be committed when the ids and tokens stay unique, every
/// new token names a subscriber, and every new subscriber has a new token.
pub open spec fn commit_ok(v: StoreView, tx: StagedView) -> bool {
    &&& ids_unique(v.subscribers + tx.subscribers)
    &&& tokens_unique(v.tokens + tx.tokens)
    &&& tokens_refer(v.subscribers + tx.subscribers, tx.tokens)
    &&& every_subscriber_has_token(tx.subscribers, tx.tokens)
}

/// Relational store of subscribers, tokens and operator credentials, kept in
/// memory. Writes go through a `Transaction` and become visible together.
pub struct SubscriptionStore {
    subscribers: Vec<SubscriberRecord>,
    tokens: Vec<TokenRecord>,
    operators: Vec<OperatorCredential>,
}

/// Writes that become visible in the store only when committed.
pub struct Transaction {
    subscribers: Vec<SubscriberRecord>,
    tokens: Vec<TokenRecord>,
}

impl View for SubscriptionStore {
    type V = StoreView;

    closed spec fn view(&self) -> StoreView {
        StoreView {
            subscribers: self.subscribers@,
            tokens: self.tokens@,
            operators: self.operators@,
        }
    }
}

impl View for Transaction {
    type V = StagedView;

    closed spec fn view(&self) -> StagedView {
        StagedView { subscribers: self.subscribers@, tokens: self.tokens@ }
    }
}

/// Looks for a subscriber id among the first `end` rows.
fn find_id(subs: &Vec<SubscriberRecord>, end: usize, id: u128) -> (r: bool)
    requires
        end <= subs@.len(),
    ensures
        r == id_in(subs@, end as int, id),
{
    let mut i: usize = 0;
    while i < end
        invariant
            end <= subs@.len(),
            i <= end,
            !id_in(subs@, i as int, id),
        decreases end - i,
    {
        if subs[i].id == id {
            return true;
        }
        i = i + 1;
    }
    false
}

/// Looks for a token among the first `end` rows.
fn find_token(toks: &Vec<TokenRecord>, end: usize, token: &str) -> (r: bool)
    requires
        end <= toks@.len(),
    ensures
        r == token_in(toks@, end as int, token@),
{
    let mut i: usize = 0;
    while i < end
        invariant
            end <= toks@.len(),
            i <= end,
            !token_in(toks@, i as int, token@),
        decreases end - i,
    {
        if text_eq(toks[i].token.as_str(), token) {
            return true;
        }
        i = i + 1;
    }
    false
}

/// Looks for a token that belongs to the subscriber `id`.
fn find_token_for(toks: &Vec<TokenRecord>, id: u128) -> (r: bool)
    ensures
        r == has_token_for(toks@, id),
{
    let mut i: usize = 0;
    while i < toks.len()
        invariant
            i <= toks@.len(),
            forall|t: int| 0 <= t < i ==> #[trigger] toks@[t].subscriber_id != id,
        decreases toks@.len() - i,
    {
        if toks[i].subscriber_id == id {
            return true;
        }
        i = i + 1;
    }
    false
}

/// Lemma: in a well-formed store a token has at most one owner.
pub proof fn lemma_owner_unique(v: StoreView, token: Seq<char>, a: u128, b: u128)
    requires
        store_wf(v),
        token_owner(v.tokens, token, a),
        token_owner(v.tokens, token, b),
    ensures
        a == b,
{
    let i = choose|t: int|
        0 <= t < v.tokens.len() && #[trigger] v.tokens[t].token@ == token && v.tokens[t].subscriber_id
            == a;
    let j = choose|t: int|
        0 <= t < v.tokens.len() && #[trigger] v.tokens[t].token@ == token && v.tokens[t].subscriber_id
            == b;
    if i < j {
        assert(v.tokens[i].token@ != v.tokens[j].token@);
    } else if j < i {
        assert(v.tokens[j].token@ != v.tokens[i].token@);
    }
}

impl SubscriptionStore {
    /// An empty store.
    pub fn new() -> (r: SubscriptionStore)
        ensures
            store_wf(r@),
            r@.subscribers.len() == 0,
            r@.tokens.len() == 0,
            r@.operators.len() == 0,
    {
        SubscriptionStore { subscribers: Vec::new(), tokens: Vec::new(), operators: Vec::new() }
    }

    /// Adds an operator's credential to the reference data.
    pub fn add_operator(&mut self, user_id: u128, username: String, password_hash: String)
        requires
            store_wf(old(self)@),
        ensures
            store_wf(final(self)@),
            final(self)@.subscribers == old(self)@.subscribers,
            final(self)@.tokens == old(self)@.tokens,
            final(self)@.operators == old(self)@.operators.push(
                OperatorCredential { user_id, username, password_hash },
            ),
    {
        self.operators.push(OperatorCredential { user_id, username, password_hash });
    }

    /// Opens a transaction with nothing written yet.
    pub fn begin(&self) -> (r: Transaction)
        ensures
            r@.subscribers.len() == 0,
            r@.tokens.len() == 0,
    {
        Transaction { subscribers: Vec::new(), tokens: Vec::new() }
    }

    /// Makes what `tx` wrote visible, all of it, or refuses it all and
    /// leaves the store as it was.
    pub fn commit(&mut self, tx: Transaction) -> (r: Result<(), StoreError>)
        requires
            store_wf(old(self)@),
        ensures
            store_wf(final(self)@),
            r is Ok <==> commit_ok(old(self)@, tx@),
            r is Ok ==> final(self)@ == (StoreView {
                subscribers: old(self)@.subscribers + tx@.subscribers,
                tokens: old(self)@.tokens + tx@.tokens,
                operators: old(self)@.operators,
            }),
            r is Err ==> final(self)@ == old(self)@,
    {
        let ghost v = self@;
        let ghost s = tx@;
        let n = tx.subscribers.len();
        let mut k: usize = 0;
        while k < n
            invariant
                n == s.subscribers.len(),
                k <= n,
                self@ == v,
                tx@ == s,
                store_wf(v),
                ids_unique(v.subscribers + s.subscribers.subrange(0, k as int)),
                every_subscriber_has_token(s.subscribers.subrange(0, k as int), s.tokens),
            decreases n - k,
        {
            let id = tx.subscribers[k].id;
            if find_id(&self.subscribers, self.subscribers.len(), id) || find_id(
                &tx.subscribers,
                k,
                id,
            ) {
                proof {
                    self.lemma_commit_dup_id(v, s, k as int);
                }
                return Err(StoreError::ConstraintViolation);
            }
            if !find_token_for(&tx.tokens, id) {
                assert(!every_subscriber_has_token(s.subscribers, s.tokens)) by {
                    assert(s.subscribers[k as int].id == id);
                }
                return Err(StoreError::MissingToken);
            }
            proof {
                let a = v.subscribers + s.subscribers.subrange(0, k as int);
                let b = v.subscribers + s.subscribers.subrange(0, k + 1);
                assert(b == a.push(s.subscribers[k as int]));
                assert forall|i: int, j: int| 0 <= i < j < b.len() implies #[trigger] b[i].id
                    != #[trigger] b[j].id by {
                    if j == b.len() - 1 {
                        if i < v.subscribers.len() {
                            assert(v.subscribers[i].id == b[i].id);
                        } else {
                            assert(s.subscribers[i - v.subscribers.len()].id == b[i].id);
                        }
                    } else {
                        assert(a[i].id != a[j].id);
                    }
                }
                let c = s.subscribers.subrange(0, k + 1);
                assert forall|i: int| 0 <= i < c.len() implies has_token_for(
                    s.tokens,
                    #[trigger] c[i].id,
                ) by {
                    if i < k {
                        assert(s.subscribers.subrange(0, k as int)[i] == c[i]);
                    }
                }
            }
            k = k + 1;
        }
        assert(s.subscribers.subrange(0, n as int) == s.subscribers);
        let m = tx.tokens.len();
        let mut k: usize = 0;
        while k < m
            invariant
                m == s.tokens.len(),
                k <= m,
                self@ == v,
                tx@ == s,
                store_wf(v),
                tokens_unique(v.tokens + s.tokens.subrange(0, k as int)),
                tokens_refer(v.subscribers + s.subscribers, s.tokens.subrange(0, k as int)),
            decreases m - k,
        {
            if find_token(&self.tokens, self.tokens.len(), tx.tokens[k].token.as_str())
                || find_token(&tx.tokens, k, tx.tokens[k].token.as_str()) {
                proof {
                    self.lemma_commit_dup_token(v, s, k as int);
                }
                return Err(StoreError::ConstraintViolation);
            }
            let sid = tx.tokens[k].subscriber_id;
            if !find_id(&self.subscribers, self.subscribers.len(), sid) && !find_id(
                &tx.subscribers,
                tx.subscribers.len(),
                sid,
            ) {
                proof {
                    let all = v.subscribers + s.subscribers;
                    assert(!has_id(all, sid)) by {
                        if has_id(all, sid) {
                            let i = choose|i: int| 0 <= i < all.len() && #[trigger] all[i].id == sid;
                            if i < v.subscribers.len() {
                                assert(v.subscribers[i].id == sid);
                            } else {
                                assert(s.subscribers[i - v.subscribers.len()].id == sid);
                            }
                        }
                    }
                    assert(s.tokens[k as int].subscriber_id == sid);
                }
                return Err(StoreError::UnknownSubscriber);
            }
            proof {
                let all = v.subscribers + s.subscribers;
                assert(has_id(all, sid)) by {
                    if id_in(v.subscribers, v.subscribers.len() as int, sid) {
                        let i = choose|i: int|
                            0 <= i < v.subscribers.len() && #[trigger] v.subscribers[i].id == sid;
                        assert(all[i].id == sid);
                    } else {
                        let i = choose|i: int|
                            0 <= i < s.subscribers.len() && #[trigger] s.subscribers[i].id == sid;
                        assert(all[v.subscribers.len() + i].id == sid);
                    }
                }
                let a = v.tokens + s.tokens.subrange(0, k as int);
                let b = v.tokens + s.tokens.subrange(0, k + 1);
                assert(b == a.push(s.tokens[k as int]));
                assert forall|i: int, j: int| 0 <= i < j < b.len() implies #[trigger] b[i].token@
                    != #[trigger] b[j].token@ by {
                    if j == b.len() - 1 {
                        if i < v.tokens.len() {
                            assert(v.tokens[i].token@ == b[i].token@);
                        } else {
                            assert(s.tokens[i - v.tokens.len()].token@ == b[i].token@);
                        }
                    } else {
                        assert(a[i].token@ != a[j].token@);
                    }
                }
                let c = s.tokens.subrange(0, k + 1);
                assert forall|t: int| 0 <= t < c.len() implies has_id(
                    all,
                    #[trigger] c[t].subscriber_id,
                ) by {
                    if t < k {
                        assert(s.tokens.subrange(0, k as int)[t] == c[t]);
                    }
                }
            }
            k = k + 1;
        }
        assert(s.tokens.subrange(0, m as int) == s.tokens);
        let Transaction { subscribers: mut new_subs, tokens: mut new_toks } = tx;
        self.subscribers.append(&mut new_subs);
        self.tokens.append(&mut new_toks);
        proof {
            let w = self@;
            assert(w.subscribers == v.subscribers + s.subscribers);
            assert(w.tokens == v.tokens + s.tokens);
            assert forall|t: int| 0 <= t < w.tokens.len() implies has_id(
                w.subscribers,
                #[trigger] w.tokens[t].subscriber_id,
            ) by {
                if t < v.tokens.len() {
                    let id = v.tokens[t].subscriber_id;
                    assert(has_id(v.subscribers, id));
                    let i = choose|i: int|
                        0 <= i < v.subscribers.len() && #[trigger] v.subscribers[i].id == id;
                    assert(w.subscribers[i].id == id);
                } else {
                    assert(w.tokens[t] == s.tokens[t - v.tokens.len()]);
                }
            }
            assert forall|i: int| 0 <= i < w.subscribers.len() implies has_token_for(
                w.tokens,
                #[trigger] w.subscribers[i].id,
            ) by {
                if i < v.subscribers.len() {
                    let id = v.subscribers[i].id;
                    assert(has_token_for(v.tokens, id));
                    let t = choose|t: int|
                        0 <= t < v.tokens.len() && #[trigger] v.tokens[t].subscriber_id == id;
                    assert(w.tokens[t].subscriber_id == id);
                } else {
                    let id = s.subscribers[i - v.subscribers.len()].id;
                    assert(has_token_for(s.tokens, id));
                    let t = choose|t: int|
                        0 <= t < s.tokens.len() && #[trigger] s.tokens[t].subscriber_id == id;
                    assert(w.tokens[v.tokens.len() + t].subscriber_id == id);
                }
            }
        }
        Ok(())
    }

    proof fn lemma_commit_dup_id(&self, v: StoreView, s: StagedView, k: int)
        requires
            0 <= k < s.subscribers.len(),
            id_in(v.subscribers, v.subscribers.len() as int, s.subscribers[k].id) || id_in(
                s.subscribers,
                k,
                s.subscribers[k].id,
            ),
        ensures
            !commit_ok(v, s),
    {
        let all = v.subscribers + s.subscribers;
        let id = s.subscribers[k].id;
        let j = v.subscribers.len() + k;
        assert(all[j].id == id);
        if id_in(v.subscribers, v.subscribers.len() as int, id) {
            let i = choose|i: int|
                0 <= i < v.subscribers.len() && i < v.subscribers.len() && #[trigger] v.subscribers[i].id
                    == id;
            assert(all[i].id == id);
            assert(!ids_unique(all));
        } else {
            let i = choose|i: int| 0 <= i < k && i < s.subscribers.len() && #[trigger] s.subscribers[i].id == id;
            assert(all[v.subscribers.len() + i].id == id);
            assert(!ids_unique(all));
        }
    }

    proof fn lemma_commit_dup_token(&self, v: StoreView, s: StagedView, k: int)
        requires
            0 <= k < s.tokens.len(),
            token_in(v.tokens, v.tokens.len() as int, s.tokens[k].token@) || token_in(
                s.tokens,
                k,
                s.tokens[k].token@,
            ),
        ensures
            !commit_ok(v, s),
    {
        let all = v.tokens + s.tokens;
        let tok = s.tokens[k].token@;
        let j = v.tokens.len() + k;
        assert(all[j].token@ == tok);
        if token_in(v.tokens, v.tokens.len() as int, tok) {
            let i = choose|i: int|
                0 <= i < v.tokens.len() && i < v.tokens.len() && #[trigger] v.tokens[i].token@ == tok;
            assert(all[i].token@ == tok);
            assert(!tokens_unique(all));
        } else {
            let i = choose|i: int| 0 <= i < k && i < s.tokens.len() && #[trigger] s.tokens[i].token@ == tok;
            assert(all[v.tokens.len() + i].token@ == tok);
            assert(!tokens_unique(all));
        }
    }
}

impl Transaction {
    /// Writes a pending subscriber with the given id and time of
    /// registration; refused when the id is taken, in the store or in this
    /// transaction.
    pub fn insert_pending(
        &mut self,
        store: &SubscriptionStore,
        new_sub: &NewSubscriber,
        id: u128,
        subscribed_at: i64,
    ) -> (r: Result<(), StoreError>)
        ensures
            r is Ok <==> !has_id(store@.subscribers, id) && !has_id(old(self)@.subscribers, id),
            r is Ok ==> final(self)@.subscribers.len() == old(self)@.subscribers.len() + 1,
            r is Ok ==> final(self)@.subscribers.last().id == id,
            r is Ok ==> final(self)@.subscribers.last().email@ == new_sub.email@,
            r is Ok ==> final(self)@.subscribers.last().name@ == new_sub.name@,
            r is Ok ==> final(self)@.subscribers.last().subscribed_at == subscribed_at,
            r is Ok ==> final(self)@.subscribers.last().status == Status::Pending,
            r is Ok ==> final(self)@.subscribers.drop_last() == old(self)@.subscribers,
            r is Err ==> r == Err::<(), StoreError>(StoreError::ConstraintViolation),
            r is Err ==> final(self)@ == old(self)@,
            final(self)@.tokens == old(self)@.tokens,
    {
        if find_id(&store.subscribers, store.subscribers.len(), id) || find_id(
            &self.subscribers,
            self.subscribers.len(),
            id,
        ) {
            return Err(StoreError::ConstraintViolation);
        }
        let email = new_sub.email.as_ref().to_owned();
        let name = new_sub.name.as_ref().to_owned();
        let ghost before = self.subscribers@;
        self.subscribers.push(
            SubscriberRecord { id, email, name, subscribed_at, status: Status::Pending },
        );
        assert(self.subscribers@.drop_last() == before);
        Ok(())
    }

    /// Writes `token` for the subscriber `id`; refused when no subscriber of
    /// the store or of this transaction has that id, or when the token is
    /// taken.
    pub fn store_token(&mut self, store: &SubscriptionStore, id: u128, token: &str) -> (r: Result<
        (),
        StoreError,
    >)
        ensures
            !has_id(store@.subscribers, id) && !has_id(old(self)@.subscribers, id) ==> r == Err::<
                (),
                StoreError,
            >(StoreError::UnknownSubscriber),
            (has_id(store@.subscribers, id) || has_id(old(self)@.subscribers, id)) && (has_token(
                store@.tokens,
                token@,
            ) || has_token(old(self)@.tokens, token@)) ==> r == Err::<(), StoreError>(
                StoreError::ConstraintViolation,
            ),
            r is Ok <==> (has_id(store@.subscribers, id) || has_id(old(self)@.subscribers, id))
                && !has_token(store@.tokens, token@) && !has_token(old(self)@.tokens, token@),
            r is Ok ==> final(self)@.tokens.len() == old(self)@.tokens.len() + 1,
            r is Ok ==> final(self)@.tokens.last().token@ == token@,
            r is Ok ==> final(self)@.tokens.last().subscriber_id == id,
            r is Ok ==> final(self)@.tokens.drop_last() == old(self)@.tokens,
            r is Err ==> final(self)@ == old(self)@,
            final(self)@.subscribers == old(self)@.subscribers,
    {
        if !find_id(&store.subscribers, store.subscribers.len(), id) && !find_id(
            &self.subscribers,
            self.subscribers.len(),
            id,
        ) {
            return Err(StoreError::UnknownSubscriber);
        }
        if find_token(&store.tokens, store.tokens.len(), token) || find_token(
            &self.tokens,
            self.tokens.len(),
            token,
        ) {
            return Err(StoreError::ConstraintViolation);
        }
        let ghost before = self.tokens@;
        self.tokens.push(TokenRecord { token: token.to_owned(), subscriber_id: id });
        assert(self.tokens@.drop_last() == before);
        Ok(())
    }
}

impl SubscriptionStore {
    /// The subscriber that owns `token`, or `None` when no row holds it.
    pub fn resolve_token(&self, token: &str) -> (r: Option<u128>)
        requires
            store_wf(self@),
        ensures
            resolves_to(self@, token@, r),
    {
        let mut i: usize = 0;
        while i < self.tokens.len()
            invariant
                i <= self.tokens@.len(),
                !token_in(self.tokens@, i as int, token@),
            decreases self.tokens@.len() - i,
        {
            if text_eq(self.tokens[i].token.as_str(), token) {
                assert(self.tokens@[i as int].token@ == token@);
                return Some(self.tokens[i].subscriber_id);
            }
            i = i + 1;
        }
        None
    }

    /// Marks the subscriber `id` confirmed. Marking twice is no error, and an
    /// id that no row holds changes nothing.
    pub fn mark_confirmed(&mut self, id: u128)
        requires
            store_wf(old(self)@),
        ensures
            store_wf(final(self)@),
            final(self)@.subscribers == confirm_rows(old(self)@.subscribers, id),
            final(self)@.tokens == old(self)@.tokens,
            final(self)@.operators == old(self)@.operators,
    {
        let ghost old_subs = self.subscribers@;
        let ghost old_v = self@;
        let mut i: usize = 0;
        while i < self.subscribers.len()
            invariant
                old_v.subscribers == old_subs,
                store_wf(old_v),
                self.tokens@ == old_v.tokens,
                self.operators@ == old_v.operators,
                self.subscribers@.len() == old_subs.len(),
                i <= old_subs.len(),
                forall|j: int|
                    0 <= j < i ==> #[trigger] self.subscribers@[j] == confirm_rows(old_subs, id)[j],
                forall|j: int| i <= j < old_subs.len() ==> #[trigger] self.subscribers@[j] == old_subs[j],
            decreases old_subs.len() - i,
        {
            if self.subscribers[i].id == id {
                self.subscribers[i].status = Status::Confirmed;
            }
            i = i + 1;
        }
        assert(self.subscribers@ == confirm_rows(old_subs, id));
        proof {
            let w = self.subscribers@;
            assert forall|k: int| 0 <= k < w.len() implies #[trigger] w[k].id == old_subs[k].id by {}
            let v = self@;
            assert forall|t: int| 0 <= t < v.tokens.len() implies has_id(
                w,
                #[trigger] v.tokens[t].subscriber_id,
            ) by {
                let sid = v.tokens[t].subscriber_id;
                assert(has_id(old_subs, sid));
                let k = choose|k: int| 0 <= k < old_subs.len() && #[trigger] old_subs[k].id == sid;
                assert(w[k].id == sid);
            }
            assert forall|a: int, b: int| 0 <= a < b < w.len() implies #[trigger] w[a].id
                != #[trigger] w[b].id by {
                assert(old_subs[a].id != old_subs[b].id);
            }
            assert forall|k: int| 0 <= k < w.len() implies has_token_for(
                v.tokens,
                #[trigger] w[k].id,
            ) by {
                assert(has_token_for(v.tokens, old_subs[k].id));
            }
        }
    }

    /// Every confirmed subscriber's address, in table order, each checked
    /// again: a row whose address no longer passes comes back as its own
    /// error and does not fail the call.
    pub fn list_confirmed_emails(&self) -> (r: Vec<Result<SubscriberEmail, String>>)
        ensures
            r@.len() == confirmed_emails(self@.subscribers).len(),
            forall|k: int|
                0 <= k < r@.len() ==> checked_entry(
                    #[trigger] r@[k],
                    confirmed_emails(self@.subscribers)[k],
                ),
    {
        let mut out: Vec<Result<SubscriberEmail, String>> = Vec::new();
        let mut i: usize = 0;
        while i < self.subscribers.len()
            invariant
                i <= self.subscribers@.len(),
                out@.len() == confirmed_emails(self.subscribers@.subrange(0, i as int)).len(),
                forall|k: int|
                    0 <= k < out@.len() ==> checked_entry(
                        #[trigger] out@[k],
                        confirmed_emails(self.subscribers@.subrange(0, i as int))[k],
                    ),
            decreases self.subscribers@.len() - i,
        {
            let ghost pre = self.subscribers@.subrange(0, i as int);
            let ghost next = self.subscribers@.subrange(0, i + 1);
            assert(next.drop_last() == pre);
            if self.subscribers[i].status == Status::Confirmed {
                let entry = SubscriberEmail::try_from(self.subscribers[i].email.clone());
                out.push(entry);
            }
            i = i + 1;
        }
        assert(self.subscribers@.subrange(0, self.subscribers@.len() as int) == self.subscribers@);
        out
    }

    /// The id of the operator whose user name and password digest are both
    /// the given ones, if there is one.
    pub fn find_operator(&self, username: &str, password_hash: &str) -> (r: Option<u128>)
        ensures
            r is None <==> !(exists|k: int|
                0 <= k < self@.operators.len() && #[trigger] self@.operators[k].username@
                    == username@ && self@.operators[k].password_hash@ == password_hash@),
            r matches Some(id) ==> exists|k: int|
                0 <= k < self@.operators.len() && #[trigger] self@.operators[k].username@
                    == username@ && self@.operators[k].password_hash@ == password_hash@
                    && self@.operators[k].user_id == id,
    {
        let mut i: usize = 0;
        while i < self.operators.len()
            invariant
                i <= self.operators@.len(),
                forall|k: int|
                    0 <= k < i ==> !(#[trigger] self.operators@[k].username@ == username@
                        && self.operators@[k].password_hash@ == password_hash@),
            decreases self.operators@.len() - i,
        {
            if text_eq(self.operators[i].username.as_str(), username) && text_eq(
                self.operators[i].password_hash.as_str(),
                password_hash,
            ) {
                assert(self@.operators[i as int].username@ == username@);
                return Some(self.operators[i].user_id);
            }
            i = i + 1;
        }
        proof {
            assert forall|k: int|
                0 <= k < self@.operators.len() && #[trigger] self@.operators[k].username@
                    == username@ implies self@.operators[k].password_hash@ != password_hash@ by {
                assert(self.operators@[k] == self@.operators[k]);
            }
        }
        None
    }

    /// Number of subscribers held.
    pub fn subscriber_count(&self) -> (r: usize)
        ensures
            r == self@.subscribers.len(),
    {
        self.subscribers.len()
    }

    /// The status of the subscriber `id`, or `None` when no row holds it.
    pub fn status_of(&self, id: u128) -> (r: Option<Status>)
        ensures
            r matches Some(s) ==> status_of(self@.subscribers, id, s),
            r is None <==> !has_id(self@.subscribers, id),
    {
        let mut i: usize = 0;
        while i < self.subscribers.len()
            invariant
                i <= self.subscribers@.len(),
                !id_in(self.subscribers@, i as int, id),
            decreases self.subscribers@.len() - i,
        {
            if self.subscribers[i].id == id {
                assert(self@.subscribers[i as int].id == id);
                return Some(self.subscribers[i].status);
            }
            i = i + 1;
        }
        None
    }

    /// The tokens kept for the subscriber `id`, in table order.
    pub fn tokens_of(&self, id: u128) -> (r: Vec<String>)
        ensures
            r@.len() <= self@.tokens.len(),
            forall|k: int| 0 <= k < r@.len() ==> token_owner(self@.tokens, #[trigger] r@[k]@, id),
            forall|t: int|
                0 <= t < self@.tokens.len() && #[trigger] self@.tokens[t].subscriber_id == id
                    ==> exists|k: int| 0 <= k < r@.len() && #[trigger] r@[k]@ == self@.tokens[t].token@,
    {
        let mut out: Vec<String> = Vec::new();
        let mut i: usize = 0;
        while i < self.tokens.len()
            invariant
                i <= self.tokens@.len(),
                out@.len() <= i,
                forall|k: int| 0 <= k < out@.len() ==> token_owner(self@.tokens, #[trigger] out@[k]@, id),
                forall|t: int|
                    0 <= t < i && #[trigger] self@.tokens[t].subscriber_id == id ==> exists|k: int|
                        0 <= k < out@.len() && #[trigger] out@[k]@ == self@.tokens[t].token@,
            decreases self.tokens@.len() - i,
        {
            if self.tokens[i].subscriber_id == id {
                let ghost before = out@;
                out.push(self.tokens[i].token.clone());
                proof {
                    assert(out@[out@.len() - 1]@ == self@.tokens[i as int].token@);
                    assert forall|t: int|
                        0 <= t < i + 1 && #[trigger] self@.tokens[t].subscriber_id == id implies exists|k: int|
                            0 <= k < out@.len() && #[trigger] out@[k]@ == self@.tokens[t].token@ by {
                        if t < i {
                            let k = choose|k: int| 0 <= k < before.len() && #[trigger] before[k]@ == self@.tokens[t].token@;
                            assert(out@[k] == before[k]);
                        } else {
                            assert(out@[out@.len() - 1]@ == self@.tokens[t].token@);
                        }
                    }
                }
            }
            i = i + 1;
        }
        out
    }
}

} // verus!
