use vstd::prelude::*;
use crate::model::{LedgerState, TransferRecord};

verus! {

/// One request to the ledger, with what the collaborators answered: the
/// identifier that was generated, the identifier that the sender's secret
/// derived (`None` where it derived none), the time that the clock gave.
pub enum Operation {
    CreateWallet { id: Seq<char> },
    Deposit { id: Seq<char>, amount: nat },
    Payment { sender: Option<Seq<char>>, receiver: Seq<char>, amount: nat, timestamp: Seq<char> },
}

impl LedgerState {
    /// Whether the ledger, as it stands, carries the request out.
    pub open spec fn accepts(self, op: Operation) -> bool {
        match op {
            Operation::CreateWallet { .. } => true,
            Operation::Deposit { amount, .. } => self.deposit_outcome(amount) is Ok,
            Operation::Payment { sender, receiver, amount, timestamp } => self.send_payment(
                sender,
                receiver,
                amount,
                timestamp,
            ).0 is Ok,
        }
    }

    /// The state after one request. A refused request changes nothing.
    pub open spec fn step(self, op: Operation) -> LedgerState {
        match op {
            Operation::CreateWallet { id } => self.register(id),
            Operation::Deposit { id, amount } => if self.deposit_outcome(amount) is Ok {
                self.deposit(id, amount)
            } else {
                self
            },
            Operation::Payment { sender, receiver, amount, timestamp } => self.send_payment(
                sender,
                receiver,
                amount,
                timestamp,
            ).1,
        }
    }

    /// The state after a run of requests, the first one first.
    pub open spec fn run(self, ops: Seq<Operation>) -> LedgerState
        decreases ops.len(),
    {
        if ops.len() == 0 {
            self
        } else {
            self.run(ops.drop_last()).step(ops.last())
        }
    }

    /// What one request adds to the log: the record of a payment that is
    /// carried out, and nothing otherwise.
    pub open spec fn logged(self, op: Operation) -> Seq<TransferRecord> {
        match op {
            Operation::Payment { sender: Some(id), receiver, amount, timestamp } => if self.accepts(
                op,
            ) {
                seq![TransferRecord { sender: id, receiver, amount, timestamp }]
            } else {
                Seq::empty()
            },
            _ => Seq::empty(),
        }
    }

    /// What a run of requests adds to the log: the records of the payments
    /// that were carried out, in the order of the requests.
    pub open spec fn logged_by(self, ops: Seq<Operation>) -> Seq<TransferRecord>
        decreases ops.len(),
    {
        if ops.len() == 0 {
            Seq::empty()
        } else {
            self.logged_by(ops.drop_last()) + self.run(ops.drop_last()).logged(ops.last())
        }
    }
}

} // verus!
