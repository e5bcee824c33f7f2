//! The payment store: users with their balances and payments keyed by the
//! gateway's session id, with lookup by session, the conditional transition
//! of a payment from pending to completed, and the balance increment.

use vstd::prelude::*;
use crate::error::PaymentError;
use crate::models::{NewPayment, NewUser, Payment, PaymentStatus, PaymentView, User, UserView};

verus! {

/// The mathematical content of a [`Ledger`]: the users by their id, the
/// payments by their session id, and the ids that the next rows will get.
#[verifier::ext_equal]
pub struct LedgerView {
    pub users: Map<int, UserView>,
    pub payments: Map<Seq<char>, PaymentView>,
    pub next_user_id: int,
    pub next_payment_id: int,
}

impl LedgerView {
    /// The content of a ledger without rows.
    pub open spec fn empty() -> LedgerView {
        LedgerView {
            users: Map::empty(),
            payments: Map::empty(),
            next_user_id: 1,
            next_payment_id: 1,
        }
    }

    /// The constraints of the store: each row is filed under its own key,
    /// ids were handed out below the next one, no two payments share an id,
    /// each payment has a positive amount and a user, and every number is
    /// one that a row can hold.
    pub open spec fn wf(self) -> bool {
        &&& self.users.dom().finite()
        &&& self.payments.dom().finite()
        &&& 1 <= self.next_user_id <= i32::MAX
        &&& 1 <= self.next_payment_id <= i32::MAX
        &&& forall|id: int| #[trigger]
            self.users.dom().contains(id) ==> {
                &&& self.users[id].id == id
                &&& 1 <= id < self.next_user_id
                &&& self.users[id].balance <= u64::MAX
            }
        &&& forall|sid: Seq<char>| #[trigger]
            self.payments.dom().contains(sid) ==> {
                &&& self.payments[sid].session_id == sid
                &&& 1 <= self.payments[sid].id < self.next_payment_id
                &&& 1 <= self.payments[sid].amount <= u64::MAX
                &&& self.users.dom().contains(self.payments[sid].user_id)
            }
        &&& forall|a: Seq<char>, b: Seq<char>|
            #![trigger self.payments[a], self.payments[b]]
            self.payments.dom().contains(a) && self.payments.dom().contains(b) && a != b
                ==> self.payments[a].id != self.payments[b].id
    }

    /// Whether a user with this id is stored.
    pub open spec fn has_user(self, id: int) -> bool {
        self.users.dom().contains(id)
    }

    /// Whether a payment with this session id is stored.
    pub open spec fn has_session(self, session_id: Seq<char>) -> bool {
        self.payments.dom().contains(session_id)
    }

    /// Whether the payment of this session is stored and still pending.
    pub open spec fn is_pending(self, session_id: Seq<char>) -> bool {
        self.has_session(session_id) && self.payments[session_id].status == PaymentStatus::Pending
    }

    /// The balance of a stored user.
    pub open spec fn balance_of(self, id: int) -> nat {
        self.users[id].balance
    }

    /// The row that a new user gets: the next id and a balance of zero.
    pub open spec fn new_user_row(self, username: Seq<char>, email: Seq<char>) -> UserView {
        UserView { id: self.next_user_id, username, email, balance: 0 }
    }

    /// This content with one more user.
    pub open spec fn add_user(self, username: Seq<char>, email: Seq<char>) -> LedgerView {
        LedgerView {
            users: self.users.insert(self.next_user_id, self.new_user_row(username, email)),
            next_user_id: self.next_user_id + 1,
            ..self
        }
    }

    /// The row that a new payment gets: the next id and the status pending.
    pub open spec fn new_payment_row(
        self,
        user_id: int,
        amount: nat,
        session_id: Seq<char>,
        created_at: Seq<char>,
    ) -> PaymentView {
        PaymentView {
            id: self.next_payment_id,
            user_id,
            amount,
            status: PaymentStatus::Pending,
            session_id,
            created_at,
        }
    }

    /// Why the store refuses a new payment, if it does: the amount is zero,
    /// the user is unknown, the session id is taken, or no id is left.
    pub open spec fn payment_refusal(
        self,
        user_id: int,
        amount: nat,
        session_id: Seq<char>,
    ) -> Option<PaymentError> {
        if amount == 0 {
            Some(PaymentError::InvalidAmount)
        } else if !self.has_user(user_id) {
            Some(PaymentError::UnknownUser)
        } else if self.has_session(session_id) {
            Some(PaymentError::DuplicateSession)
        } else if self.next_payment_id >= i32::MAX {
            Some(PaymentError::IdentifiersExhausted)
        } else {
            None
        }
    }

    /// This content with one more payment, pending.
    pub open spec fn add_payment(
        self,
        user_id: int,
        amount: nat,
        session_id: Seq<char>,
        created_at: Seq<char>,
    ) -> LedgerView {
        LedgerView {
            payments: self.payments.insert(
                session_id,
                self.new_payment_row(user_id, amount, session_id, created_at),
            ),
            next_payment_id: self.next_payment_id + 1,
            ..self
        }
    }

    /// This content with the payment of the session set to completed.
    pub open spec fn complete(self, session_id: Seq<char>) -> LedgerView {
        LedgerView {
            payments: self.payments.insert(session_id, self.payments[session_id].completed()),
            ..self
        }
    }

    /// This content with `amount` added to the balance of the user.
    pub open spec fn credit(self, user_id: int, amount: nat) -> LedgerView {
        LedgerView {
            users: self.users.insert(user_id, self.users[user_id].credited(amount)),
            ..self
        }
    }

    /// What the transition with its credit comes to for this session: the
    /// completed row, or the reason for which nothing changes.
    pub open spec fn settlement(self, session_id: Seq<char>) -> Result<PaymentView, PaymentError> {
        if !self.has_session(session_id) {
            Err(PaymentError::PaymentNotFound)
        } else if self.payments[session_id].status != PaymentStatus::Pending {
            Err(PaymentError::AlreadyCompleted)
        } else if self.balance_of(self.payments[session_id].user_id)
            + self.payments[session_id].amount > u64::MAX {
            Err(PaymentError::BalanceOverflow)
        } else {
            Ok(self.payments[session_id].completed())
        }
    }

    /// This content after the transition with its credit: the payment
    /// completed and its amount added to the balance of its user, both or
    /// neither.
    pub open spec fn settle(self, session_id: Seq<char>) -> LedgerView {
        if self.settlement(session_id) is Ok {
            self.complete(session_id).credit(
                self.payments[session_id].user_id,
                self.payments[session_id].amount,
            )
        } else {
            self
        }
    }

    /// Nothing of `earlier` is lost or taken back in `self`: every user is
    /// still there with no smaller a balance, every payment is still there
    /// with its id, user, amount, session and time, and a payment that was
    /// completed is completed.
    pub open spec fn extends(self, earlier: LedgerView) -> bool {
        &&& forall|id: int| #[trigger]
            earlier.has_user(id) ==> {
                &&& self.has_user(id)
                &&& self.users[id] == (UserView {
                    balance: self.users[id].balance,
                    ..earlier.users[id]
                })
                &&& self.users[id].balance >= earlier.users[id].balance
            }
        &&& forall|session_id: Seq<char>| #[trigger]
            earlier.has_session(session_id) ==> {
                &&& self.has_session(session_id)
                &&& self.payments[session_id] == (PaymentView {
                    status: self.payments[session_id].status,
                    ..earlier.payments[session_id]
                })
                &&& earlier.payments[session_id].status == PaymentStatus::Completed
                    ==> self.payments[session_id].status == PaymentStatus::Completed
            }
    }
}

/// Whatever the store does, it takes nothing back: a new user, a new
/// payment, and a settlement each leave a ledger that extends the one
/// before, and that meets the constraints of the store if that one did.
pub proof fn lemma_store_takes_nothing_back(
    ledger: LedgerView,
    username: Seq<char>,
    email: Seq<char>,
    user_id: int,
    amount: nat,
    session_id: Seq<char>,
    created_at: Seq<char>,
)
    requires
        ledger.wf(),
    ensures
        ledger.add_user(username, email).extends(ledger),
        ledger.next_user_id < i32::MAX ==> ledger.add_user(username, email).wf(),
        ledger.payment_refusal(user_id, amount, session_id) is None ==> ledger.add_payment(
            user_id,
            amount,
            session_id,
            created_at,
        ).extends(ledger),
        ledger.settle(session_id).extends(ledger),
        ledger.settle(session_id).wf(),
{
    let settled = ledger.settle(session_id);
    if ledger.settlement(session_id) is Ok {
        let payment = ledger.payments[session_id];
        assert(ledger.users.dom().contains(payment.user_id));
        assert(settled.users.dom() =~= ledger.users.dom());
        assert(settled.payments.dom() =~= ledger.payments.dom());
        assert forall|a: Seq<char>, b: Seq<char>|
            #![trigger settled.payments[a], settled.payments[b]]
            settled.payments.dom().contains(a) && settled.payments.dom().contains(b) && a
                != b implies settled.payments[a].id != settled.payments[b].id by {
            assert(ledger.payments.dom().contains(a));
            assert(ledger.payments.dom().contains(b));
        }
    }
    let grown = ledger.add_user(username, email);
    if ledger.next_user_id < i32::MAX {
        assert forall|a: Seq<char>, b: Seq<char>|
            #![trigger grown.payments[a], grown.payments[b]]
            grown.payments.dom().contains(a) && grown.payments.dom().contains(b) && a
                != b implies grown.payments[a].id != grown.payments[b].id by {
            assert(ledger.payments.dom().contains(a));
            assert(ledger.payments.dom().contains(b));
        }
    }
}

/// To extend is transitive, and every ledger extends itself: over any run
/// of operations balances only grow and completed payments stay completed.
pub proof fn lemma_extends_composes(first: LedgerView, second: LedgerView, third: LedgerView)
    requires
        second.extends(first),
        third.extends(second),
    ensures
        third.extends(first),
        first.extends(first),
{
    assert forall|id: int| #[trigger] first.has_user(id) implies {
        &&& third.has_user(id)
        &&& third.users[id] == (UserView { balance: third.users[id].balance, ..first.users[id] })
        &&& third.users[id].balance >= first.users[id].balance
    } by {
        assert(second.has_user(id));
    }
    assert forall|session_id: Seq<char>| #[trigger] first.has_session(session_id) implies {
        &&& third.has_session(session_id)
        &&& third.payments[session_id] == (PaymentView {
            status: third.payments[session_id].status,
            ..first.payments[session_id]
        })
        &&& first.payments[session_id].status == PaymentStatus::Completed
            ==> third.payments[session_id].status == PaymentStatus::Completed
    } by {
        assert(second.has_session(session_id));
    }
}

/// An in-memory payment store.
pub struct Ledger {
    users: Vec<User>,
    payments: Vec<Payment>,
    next_user_id: i32,
    next_payment_id: i32,
    model: Ghost<LedgerView>,
}

impl View for Ledger {
    type V = LedgerView;

    closed spec fn view(&self) -> LedgerView {
        self.model@
    }
}

impl Ledger {
    /// The rows held are exactly those of the view, each once, and the view
    /// meets the constraints of the store.
    pub closed spec fn wf(&self) -> bool {
        &&& self@.wf()
        &&& self@.next_user_id == self.next_user_id
        &&& self@.next_payment_id == self.next_payment_id
        &&& forall|i: int|
            0 <= i < self.users.len() ==> {
                &&& self@.users.dom().contains((#[trigger] self.users[i]).id as int)
                &&& self@.users[self.users[i].id as int] == self.users[i]@
            }
        &&& forall|id: int| #[trigger]
            self@.users.dom().contains(id) ==> exists|i: int|
                0 <= i < self.users.len() && (#[trigger] self.users[i]).id == id
        &&& forall|i: int|
            0 <= i < self.payments.len() ==> {
                &&& self@.payments.dom().contains((#[trigger] self.payments[i]).session_id@)
                &&& self@.payments[self.payments[i].session_id@] == self.payments[i]@
            }
        &&& forall|sid: Seq<char>| #[trigger]
            self@.payments.dom().contains(sid) ==> exists|i: int|
                0 <= i < self.payments.len() && (#[trigger] self.payments[i]).session_id@ == sid
        &&& forall|i: int, j: int|
            0 <= i < j < self.users.len() ==> (#[trigger] self.users[i]).id != (
            #[trigger] self.users[j]).id
        &&& forall|i: int, j: int|
            0 <= i < j < self.payments.len() ==> (#[trigger] self.payments[i]).session_id@ != (
            #[trigger] self.payments[j]).session_id@
    }

    /// A well-formed ledger has well-formed content.
    pub proof fn lemma_view_wf(&self)
        requires
            self.wf(),
        ensures
            self@.wf(),
    {
    }

    /// A ledger without rows; the first ids to be handed out are 1.
    pub fn new() -> (ledger: Ledger)
        ensures
            ledger.wf(),
            ledger@ == LedgerView::empty(),
    {
        Ledger {
            users: Vec::new(),
            payments: Vec::new(),
            next_user_id: 1,
            next_payment_id: 1,
            model: Ghost(LedgerView::empty()),
        }
    }

    /// A ledger without rows whose first user and first payment get the
    /// given ids; `None` where an id is below 1.
    pub fn starting_at(first_user_id: i32, first_payment_id: i32) -> (r: Option<Ledger>)
        ensures
            match r {
                Some(ledger) => {
                    &&& first_user_id >= 1 && first_payment_id >= 1
                    &&& ledger.wf()
                    &&& ledger@ == (LedgerView {
                        next_user_id: first_user_id as int,
                        next_payment_id: first_payment_id as int,
                        ..LedgerView::empty()
                    })
                },
                None => first_user_id < 1 || first_payment_id < 1,
            },
    {
        if first_user_id < 1 || first_payment_id < 1 {
            return None;
        }
        Some(
            Ledger {
                users: Vec::new(),
                payments: Vec::new(),
                next_user_id: first_user_id,
                next_payment_id: first_payment_id,
                model: Ghost(
                    LedgerView {
                        next_user_id: first_user_id as int,
                        next_payment_id: first_payment_id as int,
                        ..LedgerView::empty()
                    },
                ),
            },
        )
    }

    /// Where the user with this id stands among the rows, if it is stored.
    fn user_position(&self, id: i32) -> (r: Option<usize>)
        requires
            self.wf(),
        ensures
            match r {
                Some(i) => i < self.users.len() && self.users[i as int].id == id && self@.has_user(
                    id as int,
                ),
                None => !self@.has_user(id as int),
            },
    {
        let mut i: usize = 0;
        while i < self.users.len()
            invariant
                self.wf(),
                i <= self.users.len(),
                forall|j: int| 0 <= j < i ==> (#[trigger] self.users[j]).id != id,
            decreases self.users.len() - i,
        {
            if self.users[i].id == id {
                return Some(i);
            }
            i = i + 1;
        }
        None
    }

    /// Where the payment of this session stands among the rows, if it is stored.
    fn payment_position(&self, session_id: &String) -> (r: Option<usize>)
        requires
            self.wf(),
        ensures
            match r {
                Some(i) => i < self.payments.len() && self.payments[i as int].session_id@
                    == session_id@ && self@.has_session(session_id@),
                None => !self@.has_session(session_id@),
            },
    {
        let mut i: usize = 0;
        while i < self.payments.len()
            invariant
                self.wf(),
                i <= self.payments.len(),
                forall|j: int| 0 <= j < i ==> (#[trigger] self.payments[j]).session_id@ != session_id@,
            decreases self.payments.len() - i,
        {
            if self.payments[i].session_id == *session_id {
                return Some(i);
            }
            i = i + 1;
        }
        None
    }

    /// The user with this id, if it is stored.
    pub fn find_user(&self, id: i32) -> (r: Option<User>)
        requires
            self.wf(),
        ensures
            match r {
                Some(user) => self@.has_user(id as int) && user@ == self@.users[id as int],
                None => !self@.has_user(id as int),
            },
    {
        match self.user_position(id) {
            Some(i) => Some(self.users[i].duplicate()),
            None => None,
        }
    }

    /// The balance of the user with this id, if it is stored.
    pub fn balance_of(&self, id: i32) -> (r: Option<u64>)
        requires
            self.wf(),
        ensures
            match r {
                Some(balance) => self@.has_user(id as int) && balance == self@.balance_of(id as int),
                None => !self@.has_user(id as int),
            },
    {
        match self.user_position(id) {
            Some(i) => Some(self.users[i].balance),
            None => None,
        }
    }

    /// The payment that carries this session id, if one is stored.
    pub fn find_payment_by_session(&self, session_id: &str) -> (r: Option<Payment>)
        requires
            self.wf(),
        ensures
            match r {
                Some(payment) => self@.has_session(session_id@) && payment@
                    == self@.payments[session_id@],
                None => !self@.has_session(session_id@),
            },
    {
        let key = session_id.to_owned();
        match self.payment_position(&key) {
            Some(i) => Some(self.payments[i].duplicate()),
            None => None,
        }
    }

    /// Every stored user, each once.
    pub fn list_users(&self) -> (rows: Vec<User>)
        requires
            self.wf(),
        ensures
            forall|i: int|
                0 <= i < rows.len() ==> self@.has_user((#[trigger] rows[i]).id as int)
                    && rows[i]@ == self@.users[rows[i].id as int],
            forall|id: int| #[trigger]
                self@.has_user(id) ==> exists|i: int|
                    0 <= i < rows.len() && (#[trigger] rows[i]).id == id,
            forall|i: int, j: int|
                0 <= i < j < rows.len() ==> (#[trigger] rows[i]).id != (#[trigger] rows[j]).id,
    {
        let mut rows: Vec<User> = Vec::new();
        let mut i: usize = 0;
        while i < self.users.len()
            invariant
                i <= self.users.len(),
                rows.len() == i,
                forall|j: int| 0 <= j < i ==> (#[trigger] rows[j])@ == self.users[j]@,
            decreases self.users.len() - i,
        {
            rows.push(self.users[i].duplicate());
            i = i + 1;
        }
        assert forall|id: int| #[trigger] self@.has_user(id) implies exists|k: int|
            0 <= k < rows.len() && (#[trigger] rows[k]).id == id by {
            let k = choose|k: int| 0 <= k < self.users.len() && (#[trigger] self.users[k]).id == id;
            assert(rows[k]@ == self.users[k]@);
        }
        assert forall|a: int, b: int| 0 <= a < b < rows.len() implies (#[trigger] rows[a]).id != (
        #[trigger] rows[b]).id by {
            assert(rows[a]@ == self.users[a]@);
            assert(rows[b]@ == self.users[b]@);
        }
        assert forall|a: int| 0 <= a < rows.len() implies self@.has_user(
            (#[trigger] rows[a]).id as int,
        ) && rows[a]@ == self@.users[rows[a].id as int] by {
            assert(rows[a]@ == self.users[a]@);
        }
        rows
    }

    /// Stores a new user with a balance of zero under the next id.
    pub fn create_user(&mut self, new_user: NewUser) -> (r: Result<User, PaymentError>)
        requires
            old(self).wf(),
        ensures
            final(self).wf(),
            match r {
                Ok(user) => {
                    &&& old(self)@.next_user_id < i32::MAX
                    &&& user@ == old(self)@.new_user_row(new_user.username@, new_user.email@)
                    &&& final(self)@ == old(self)@.add_user(new_user.username@, new_user.email@)
                },
                Err(e) => {
                    &&& old(self)@.next_user_id >= i32::MAX
                    &&& e == PaymentError::IdentifiersExhausted
                    &&& final(self)@ == old(self)@
                },
            },
    {
        if self.next_user_id == i32::MAX {
            return Err(PaymentError::IdentifiersExhausted);
        }
        let id: i32 = self.next_user_id;
        let ghost before = self@;
        let ghost after = before.add_user(new_user.username@, new_user.email@);
        let row = User { id, username: new_user.username, email: new_user.email, balance: 0 };
        let copy = row.duplicate();
        self.users.push(row);
        self.next_user_id = id + 1;
        self.model = Ghost(after);
        proof {
            let n = old(self).users.len() as int;
            assert forall|i: int| 0 <= i < self.users.len() implies {
                &&& self@.users.dom().contains((#[trigger] self.users[i]).id as int)
                &&& self@.users[self.users[i].id as int] == self.users[i]@
            } by {
                if i < n {
                    assert(self.users[i] == old(self).users[i]);
                }
            }
            assert forall|uid: int| #[trigger] self@.users.dom().contains(uid) implies exists|i: int|
                0 <= i < self.users.len() && (#[trigger] self.users[i]).id == uid by {
                if uid == id {
                    assert(self.users[n].id == uid);
                } else {
                    assert(before.users.dom().contains(uid));
                    let k = choose|k: int|
                        0 <= k < old(self).users.len() && (#[trigger] old(self).users[k]).id == uid;
                    assert(self.users[k] == old(self).users[k]);
                }
            }
            assert forall|i: int, j: int| 0 <= i < j < self.users.len() implies (
            #[trigger] self.users[i]).id != (#[trigger] self.users[j]).id by {
                assert(self.users[i] == old(self).users[i]);
                if j < n {
                    assert(self.users[j] == old(self).users[j]);
                }
            }
            assert forall|i: int| 0 <= i < self.payments.len() implies {
                &&& self@.payments.dom().contains((#[trigger] self.payments[i]).session_id@)
                &&& self@.payments[self.payments[i].session_id@] == self.payments[i]@
            } by {
                assert(self.payments[i] == old(self).payments[i]);
            }
        }
        Ok(copy)
    }

    /// Stores a new payment, pending, under the next id. Nothing is stored
    /// where the amount is zero, the user is unknown, the session id is
    /// taken or no id is left.
    pub fn insert_payment(&mut self, new_payment: NewPayment, created_at: String) -> (r: Result<
        Payment,
        PaymentError,
    >)
        requires
            old(self).wf(),
        ensures
            final(self).wf(),
            match old(self)@.payment_refusal(
                new_payment.user_id as int,
                new_payment.amount as nat,
                new_payment.session_id@,
            ) {
                Some(reason) => r == Err::<Payment, PaymentError>(reason) && final(self)@ == old(
                    self,
                )@,
                None => {
                    &&& r is Ok
                    &&& r->Ok_0@ == old(self)@.new_payment_row(
                        new_payment.user_id as int,
                        new_payment.amount as nat,
                        new_payment.session_id@,
                        created_at@,
                    )
                    &&& final(self)@ == old(self)@.add_payment(
                        new_payment.user_id as int,
                        new_payment.amount as nat,
                        new_payment.session_id@,
                        created_at@,
                    )
                },
            },
    {
        if new_payment.amount == 0 {
            return Err(PaymentError::InvalidAmount);
        }
        if self.user_position(new_payment.user_id).is_none() {
            return Err(PaymentError::UnknownUser);
        }
        if self.payment_position(&new_payment.session_id).is_some() {
            return Err(PaymentError::DuplicateSession);
        }
        if self.next_payment_id == i32::MAX {
            return Err(PaymentError::IdentifiersExhausted);
        }
        let id: i32 = self.next_payment_id;
        let ghost before = self@;
        let ghost sid = new_payment.session_id@;
        let ghost after = before.add_payment(
            new_payment.user_id as int,
            new_payment.amount as nat,
            sid,
            created_at@,
        );
        let row = Payment {
            id,
            user_id: new_payment.user_id,
            amount: new_payment.amount,
            status: PaymentStatus::Pending,
            session_id: new_payment.session_id,
            created_at,
        };
        let copy = row.duplicate();
        self.payments.push(row);
        self.next_payment_id = id + 1;
        self.model = Ghost(after);
        proof {
            let n = old(self).payments.len() as int;
            assert forall|i: int| 0 <= i < self.payments.len() implies {
                &&& self@.payments.dom().contains((#[trigger] self.payments[i]).session_id@)
                &&& self@.payments[self.payments[i].session_id@] == self.payments[i]@
            } by {
                if i < n {
                    assert(self.payments[i] == old(self).payments[i]);
                }
            }
            assert forall|key: Seq<char>| #[trigger]
                self@.payments.dom().contains(key) implies exists|i: int|
                0 <= i < self.payments.len() && (#[trigger] self.payments[i]).session_id@ == key by {
                if key == sid {
                    assert(self.payments[n].session_id@ == key);
                } else {
                    assert(before.payments.dom().contains(key));
                    let k = choose|k: int|
                        0 <= k < old(self).payments.len() && (#[trigger] old(
                            self,
                        ).payments[k]).session_id@ == key;
                    assert(self.payments[k] == old(self).payments[k]);
                }
            }
            assert forall|i: int, j: int| 0 <= i < j < self.payments.len() implies (
            #[trigger] self.payments[i]).session_id@ != (#[trigger] self.payments[j]).session_id@ by {
                assert(self.payments[i] == old(self).payments[i]);
                if j < n {
                    assert(self.payments[j] == old(self).payments[j]);
                }
            }
            assert forall|i: int| 0 <= i < self.users.len() implies {
                &&& self@.users.dom().contains((#[trigger] self.users[i]).id as int)
                &&& self@.users[self.users[i].id as int] == self.users[i]@
            } by {
                assert(self.users[i] == old(self).users[i]);
            }
        }
        Ok(copy)
    }
    /// The conditional transition: sets the payment of this session to
    /// completed if it is stored and pending, and changes nothing otherwise.
    pub fn complete_if_pending(&mut self, session_id: &str) -> (r: Result<Payment, PaymentError>)
        requires
            old(self).wf(),
        ensures
            final(self).wf(),
            match r {
                Ok(payment) => {
                    &&& old(self)@.is_pending(session_id@)
                    &&& final(self)@ == old(self)@.complete(session_id@)
                    &&& payment@ == old(self)@.payments[session_id@].completed()
                },
                Err(e) => {
                    &&& !old(self)@.is_pending(session_id@)
                    &&& final(self)@ == old(self)@
                    &&& e == if old(self)@.has_session(session_id@) {
                        PaymentError::AlreadyCompleted
                    } else {
                        PaymentError::PaymentNotFound
                    }
                },
            },
    {
        let key = session_id.to_owned();
        let i = match self.payment_position(&key) {
            Some(i) => i,
            None => {
                return Err(PaymentError::PaymentNotFound);
            },
        };
        match self.payments[i].status {
            PaymentStatus::Completed => {
                return Err(PaymentError::AlreadyCompleted);
            },
            PaymentStatus::Pending => {},
        }
        let mut row = self.payments[i].duplicate();
        row.status = PaymentStatus::Completed;
        let copy = row.duplicate();
        self.store_payment(i, row);
        Ok(copy)
    }

    /// The balance increment: adds `amount` to the balance of the user and
    /// returns the new balance. Nothing changes where the user is unknown or
    /// the sum is beyond what a row can hold.
    pub fn credit_balance(&mut self, user_id: i32, amount: u64) -> (r: Result<u64, PaymentError>)
        requires
            old(self).wf(),
        ensures
            final(self).wf(),
            match r {
                Ok(balance) => {
                    &&& old(self)@.has_user(user_id as int)
                    &&& balance == old(self)@.balance_of(user_id as int) + amount
                    &&& final(self)@ == old(self)@.credit(user_id as int, amount as nat)
                },
                Err(e) => {
                    &&& final(self)@ == old(self)@
                    &&& e == if old(self)@.has_user(user_id as int) {
                        PaymentError::BalanceOverflow
                    } else {
                        PaymentError::UnknownUser
                    }
                    &&& old(self)@.has_user(user_id as int) ==> old(self)@.balance_of(
                        user_id as int,
                    ) + amount > u64::MAX
                },
            },
    {
        let i = match self.user_position(user_id) {
            Some(i) => i,
            None => {
                return Err(PaymentError::UnknownUser);
            },
        };
        let balance: u64 = self.users[i].balance;
        if amount > u64::MAX - balance {
            return Err(PaymentError::BalanceOverflow);
        }
        let mut row = self.users[i].duplicate();
        row.balance = balance + amount;
        self.store_user(i, row);
        Ok(balance + amount)
    }

    /// The transition together with its credit, as one step: where the
    /// payment of this session is stored and pending, it is set to completed
    /// and its amount is added to the balance of its user. Where it is not,
    /// or the balance could not hold the sum, nothing changes.
    pub fn settle(&mut self, session_id: &str) -> (r: Result<Payment, PaymentError>)
        requires
            old(self).wf(),
        ensures
            final(self).wf(),
            final(self)@ == old(self)@.settle(session_id@),
            match r {
                Ok(payment) => old(self)@.settlement(session_id@) == Ok::<
                    PaymentView,
                    PaymentError,
                >(payment@),
                Err(e) => old(self)@.settlement(session_id@) == Err::<PaymentView, PaymentError>(e),
            },
    {
        let pending = match self.find_payment_by_session(session_id) {
            Some(payment) => payment,
            None => {
                return Err(PaymentError::PaymentNotFound);
            },
        };
        match pending.status {
            PaymentStatus::Completed => {
                return Err(PaymentError::AlreadyCompleted);
            },
            PaymentStatus::Pending => {},
        }
        // A stored payment has a stored user, so the balance is there.
        let balance: u64 = match self.balance_of(pending.user_id) {
            Some(balance) => balance,
            None => {
                return Err(PaymentError::UnknownUser);
            },
        };
        if pending.amount > u64::MAX - balance {
            return Err(PaymentError::BalanceOverflow);
        }
        // From here on neither step can fail: the payment is pending and
        // the balance can take the amount.
        let completed = match self.complete_if_pending(session_id) {
            Ok(payment) => payment,
            Err(e) => {
                return Err(e);
            },
        };
        match self.credit_balance(pending.user_id, pending.amount) {
            Ok(_) => Ok(completed),
            Err(e) => Err(e),
        }
    }

    /// Puts `row` in the place of the payment at `i`, which has the same
    /// keys and amount.
    fn store_payment(&mut self, i: usize, row: Payment)
        requires
            old(self).wf(),
            i < old(self).payments.len(),
            row@ == (PaymentView { status: row.status, ..old(self).payments[i as int]@ }),
        ensures
            final(self).wf(),
            final(self)@ == (LedgerView {
                payments: old(self)@.payments.insert(row.session_id@, row@),
                ..old(self)@
            }),
            final(self).users == old(self).users,
    {
        let ghost before = self@;
        let ghost sid = row.session_id@;
        let ghost after = LedgerView { payments: before.payments.insert(sid, row@), ..before };
        self.payments.set(i, row);
        self.model = Ghost(after);
        proof {
            assert forall|k: int| 0 <= k < self.payments.len() implies {
                &&& self@.payments.dom().contains((#[trigger] self.payments[k]).session_id@)
                &&& self@.payments[self.payments[k].session_id@] == self.payments[k]@
            } by {
                if k != i {
                    assert(self.payments[k] == old(self).payments[k]);
                    if k < i {
                        assert(old(self).payments[k].session_id@ != old(self).payments[i as int].session_id@);
                    } else {
                        assert(old(self).payments[i as int].session_id@ != old(self).payments[k].session_id@);
                    }
                }
            }
            assert forall|key: Seq<char>| #[trigger]
                self@.payments.dom().contains(key) implies exists|k: int|
                0 <= k < self.payments.len() && (#[trigger] self.payments[k]).session_id@ == key by {
                if key == sid {
                    assert(self.payments[i as int].session_id@ == key);
                } else {
                    assert(before.payments.dom().contains(key));
                    let k = choose|k: int|
                        0 <= k < old(self).payments.len() && (#[trigger] old(
                            self,
                        ).payments[k]).session_id@ == key;
                    assert(self.payments[k] == old(self).payments[k]);
                }
            }
            assert forall|a: int, b: int| 0 <= a < b < self.payments.len() implies (
            #[trigger] self.payments[a]).session_id@ != (#[trigger] self.payments[b]).session_id@ by {
                assert(self.payments[a].session_id@ == old(self).payments[a].session_id@);
                assert(self.payments[b].session_id@ == old(self).payments[b].session_id@);
            }
            assert forall|k: int| 0 <= k < self.users.len() implies {
                &&& self@.users.dom().contains((#[trigger] self.users[k]).id as int)
                &&& self@.users[self.users[k].id as int] == self.users[k]@
            } by {
                assert(self.users[k] == old(self).users[k]);
            }
            assert(before.payments.dom().contains(sid));
            assert(after.payments.dom() =~= before.payments.dom());
        }
    }

    /// Puts `row` in the place of the user at `i`, which has the same id.
    fn store_user(&mut self, i: usize, row: User)
        requires
            old(self).wf(),
            i < old(self).users.len(),
            row@ == (UserView { balance: row.balance as nat, ..old(self).users[i as int]@ }),
        ensures
            final(self).wf(),
            final(self)@ == (LedgerView {
                users: old(self)@.users.insert(row.id as int, row@),
                ..old(self)@
            }),
            final(self).payments == old(self).payments,
    {
        let ghost before = self@;
        let ghost uid = row.id as int;
        let ghost after = LedgerView { users: before.users.insert(uid, row@), ..before };
        self.users.set(i, row);
        self.model = Ghost(after);
        proof {
            assert forall|k: int| 0 <= k < self.users.len() implies {
                &&& self@.users.dom().contains((#[trigger] self.users[k]).id as int)
                &&& self@.users[self.users[k].id as int] == self.users[k]@
            } by {
                if k != i {
                    assert(self.users[k] == old(self).users[k]);
                    if k < i {
                        assert(old(self).users[k].id != old(self).users[i as int].id);
                    } else {
                        assert(old(self).users[i as int].id != old(self).users[k].id);
                    }
                }
            }
            assert forall|key: int| #[trigger] self@.users.dom().contains(key) implies exists|k: int|
                0 <= k < self.users.len() && (#[trigger] self.users[k]).id == key by {
                if key == uid {
                    assert(self.users[i as int].id == key);
                } else {
                    assert(before.users.dom().contains(key));
                    let k = choose|k: int|
                        0 <= k < old(self).users.len() && (#[trigger] old(self).users[k]).id == key;
                    assert(self.users[k] == old(self).users[k]);
                }
            }
            assert forall|a: int, b: int| 0 <= a < b < self.users.len() implies (
            #[trigger] self.users[a]).id != (#[trigger] self.users[b]).id by {
                assert(self.users[a].id == old(self).users[a].id);
                assert(self.users[b].id == old(self).users[b].id);
            }
            assert forall|k: int| 0 <= k < self.payments.len() implies {
                &&& self@.payments.dom().contains((#[trigger] self.payments[k]).session_id@)
                &&& self@.payments[self.payments[k].session_id@] == self.payments[k]@
            } by {
                assert(self.payments[k] == old(self).payments[k]);
            }
            assert(before.users.dom().contains(uid));
            assert(after.users.dom() =~= before.users.dom());
        }
    }
}

} // verus!
