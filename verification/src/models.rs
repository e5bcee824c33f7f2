//! The rows of the ledger: users with a balance, and payments tied to a
//! checkout session of the gateway. Amounts are whole minor currency units.

use vstd::prelude::*;

verus! {

/// A user row. The balance only ever grows, by the amount of a payment
/// whose completion was reconciled.
#[derive(Debug, Clone, PartialEq, Eq)]
pub struct User {
    pub id: i32,
    pub username: String,
    pub email: String,
    pub balance: u64,
}

/// What a caller supplies to register a user.
#[derive(Debug, Clone, PartialEq, Eq)]
pub struct NewUser {
    pub username: String,
    pub email: String,
}

/// Where a payment stands. `Pending` is initial, `Completed` is terminal.
#[derive(Debug, Clone, Copy, PartialEq, Eq, Structural)]
pub enum PaymentStatus {
    Pending,
    Completed,
}

/// A payment row. `session_id` is the gateway's checkout session and is
/// unique over all payments of a ledger.
#[derive(Debug, Clone, PartialEq, Eq)]
pub struct Payment {
    pub id: i32,
    pub user_id: i32,
    pub amount: u64,
    pub status: PaymentStatus,
    pub session_id: String,
    pub created_at: String,
}

/// What is known of a payment before the ledger has stored it.
#[derive(Debug, Clone, PartialEq, Eq)]
pub struct NewPayment {
    pub user_id: i32,
    pub amount: u64,
    pub session_id: String,
}

/// The mathematical content of a [`User`].
pub struct UserView {
    pub id: int,
    pub username: Seq<char>,
    pub email: Seq<char>,
    pub balance: nat,
}

/// The mathematical content of a [`Payment`].
pub struct PaymentView {
    pub id: int,
    pub user_id: int,
    pub amount: nat,
    pub status: PaymentStatus,
    pub session_id: Seq<char>,
    pub created_at: Seq<char>,
}

impl View for User {
    type V = UserView;

    open spec fn view(&self) -> UserView {
        UserView {
            id: self.id as int,
            username: self.username@,
            email: self.email@,
            balance: self.balance as nat,
        }
    }
}

impl View for Payment {
    type V = PaymentView;

    open spec fn view(&self) -> PaymentView {
        PaymentView {
            id: self.id as int,
            user_id: self.user_id as int,
            amount: self.amount as nat,
            status: self.status,
            session_id: self.session_id@,
            created_at: self.created_at@,
        }
    }
}

impl PaymentView {
    /// This payment with its status set to `Completed`, all else kept.
    pub open spec fn completed(self) -> PaymentView {
        PaymentView { status: PaymentStatus::Completed, ..self }
    }
}

impl UserView {
    /// This user with `amount` added to the balance, all else kept.
    pub open spec fn credited(self, amount: nat) -> UserView {
        UserView { balance: self.balance + amount, ..self }
    }
}

impl PaymentStatus {
    /// The text under which the status is stored: `"pending"` or `"completed"`.
    pub fn as_text(&self) -> (r: &'static str)
        ensures
            r@ == (match *self {
                PaymentStatus::Pending => "pending"@,
                PaymentStatus::Completed => "completed"@,
            }),
    {
        match self {
            PaymentStatus::Pending => "pending",
            PaymentStatus::Completed => "completed",
        }
    }
}

impl PaymentStatus {
    /// The status that is stored under `text`, if it is one.
    pub open spec fn of_text(text: Seq<char>) -> Option<PaymentStatus> {
        if text == "pending"@ {
            Some(PaymentStatus::Pending)
        } else if text == "completed"@ {
            Some(PaymentStatus::Completed)
        } else {
            None
        }
    }

    /// Reads a status from the text under which it is stored.
    pub fn from_text(text: &str) -> (r: Option<PaymentStatus>)
        ensures
            r == PaymentStatus::of_text(text@),
    {
        let given = text.to_owned();
        if given == "pending".to_owned() {
            Some(PaymentStatus::Pending)
        } else if given == "completed".to_owned() {
            Some(PaymentStatus::Completed)
        } else {
            None
        }
    }

    /// A status reads back from its own text.
    pub proof fn lemma_text_reads_back(self)
        ensures
            PaymentStatus::of_text(
                match self {
                    PaymentStatus::Pending => "pending"@,
                    PaymentStatus::Completed => "completed"@,
                },
            ) == Some(self),
    {
        reveal_strlit("pending");
        reveal_strlit("completed");
        assert("pending"@.len() == 7);
        assert("completed"@.len() == 9);
    }
}

impl User {
    /// A copy of this row.
    pub fn duplicate(&self) -> (r: User)
        ensures
            r@ == self@,
    {
        User {
            id: self.id,
            username: self.username.clone(),
            email: self.email.clone(),
            balance: self.balance,
        }
    }
}

impl Payment {
    /// A copy of this row.
    pub fn duplicate(&self) -> (r: Payment)
        ensures
            r@ == self@,
    {
        Payment {
            id: self.id,
            user_id: self.user_id,
            amount: self.amount,
            status: self.status,
            session_id: self.session_id.clone(),
            created_at: self.created_at.clone(),
        }
    }
}

} // verus!
