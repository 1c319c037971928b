use vstd::prelude::*;
use vstd::hash_map::StringHashMap;
use crate::clock::utc_now_rfc3339;
use crate::error::LedgerError;
use crate::keys::{derive_public_id, generate_wallet, public_id_of, Wallet};
use crate::report::{heading_lines, history_lines, push_record_lines, texts_of};
use crate::model::{
    lemma_balance_within_total, lemma_total_with_balance, LedgerState, TransferRecord, MAX_SUPPLY,
};

verus! {

/// The record of one completed transfer. It is made when the transfer is
/// applied and never changed afterwards.
#[derive(Debug)]
pub struct Transaction {
    pub sender: String,
    pub receiver: String,
    pub amount: u64,
    pub timestamp: String,
}

impl View for Transaction {
    type V = TransferRecord;

    open spec fn view(&self) -> TransferRecord {
        TransferRecord {
            sender: self.sender@,
            receiver: self.receiver@,
            amount: self.amount as nat,
            timestamp: self.timestamp@,
        }
    }
}

/// The records that a list of transactions stands for, in the same order.
pub open spec fn records_of(transactions: Seq<Transaction>) -> Seq<TransferRecord> {
    transactions.map_values(|t: Transaction| t@)
}

/// The ledger: what every account holds, in whole units, and the log of the
/// transfers that were applied.
pub struct PaymentSystem {
    balances: StringHashMap<u64>,
    transaction_history: Vec<Transaction>,
    total: u64,
}

impl View for PaymentSystem {
    type V = LedgerState;

    closed spec fn view(&self) -> LedgerState {
        LedgerState {
            balances: self.balances@.map_values(|units: u64| units as nat),
            history: records_of(self.transaction_history@),
        }
    }
}

impl PaymentSystem {
    /// What every operation keeps: the state is valid, and the ledger knows
    /// what all its accounts hold together.
    pub closed spec fn wf(&self) -> bool {
        &&& self.balances@.dom().finite()
        &&& self@.valid()
        &&& self.total as nat == self@.total()
    }

    /// A well-formed ledger is in a valid state and within its capacity.
    pub proof fn lemma_wf_valid(&self)
        requires
            self.wf(),
        ensures
            self@.valid(),
            self@.total() <= MAX_SUPPLY,
    {
    }

    /// A ledger with no account and no transfer.
    pub fn new() -> (system: PaymentSystem)
        ensures
            system.wf(),
            system@ == LedgerState::empty(),
    {
        let system = PaymentSystem {
            balances: StringHashMap::new(),
            transaction_history: Vec::new(),
            total: 0,
        };
        assert(system@.balances =~= LedgerState::empty().balances);
        assert(system@.history =~= LedgerState::empty().history);
        system
    }

    /// What `public_key` holds. An identifier that was never seen holds
    /// nothing, and asking for it opens no account.
    pub fn check_balance(&self, public_key: &str) -> (balance: u64)
        ensures
            balance as nat == self@.balance_of(public_key@),
    {
        match self.balances.get(public_key) {
            Some(units) => *units,
            None => 0,
        }
    }

    /// The transfers that were applied, oldest first.
    pub fn transaction_history(&self) -> (history: &Vec<Transaction>)
        ensures
            records_of(history@) == self@.history,
            history@.len() == self@.history.len(),
            forall|i: int|
                0 <= i < history@.len() ==> (#[trigger] history@[i])@ == self@.history[i],
    {
        &self.transaction_history
    }

    /// What all accounts hold together.
    pub fn total_supply(&self) -> (total: u64)
        requires
            self.wf(),
        ensures
            total as nat == self@.total(),
    {
        self.total
    }

    /// Makes `public_key` hold exactly `units`, and keeps the running total
    /// in step. The new total must fit.
    fn set_balance(&mut self, public_key: &str, units: u64)
        requires
            old(self).wf(),
            old(self)@.total() - old(self)@.balance_of(public_key@) + units <= MAX_SUPPLY,
        ensures
            final(self)@ == old(self)@.with_balance(public_key@, units as nat),
            final(self).wf(),
    {
        let held = self.check_balance(public_key);
        proof {
            lemma_balance_within_total(self@, public_key@);
            lemma_total_with_balance(self@, public_key@, units as nat);
        }
        self.balances.insert(public_key.to_owned(), units);
        self.total = self.total - held + units;
        assert(self@.balances =~= old(self)@.with_balance(public_key@, units as nat).balances);
    }

    /// Registers `public_key` as a fresh wallet that holds nothing.
    pub fn register_wallet(&mut self, public_key: &str)
        requires
            old(self).wf(),
        ensures
            final(self).wf(),
            final(self)@ == old(self)@.register(public_key@),
    {
        proof {
            lemma_balance_within_total(self@, public_key@);
        }
        self.set_balance(public_key, 0);
    }

    /// Credits `amount` to `public_key`, opening the account if there is
    /// none. A deposit is not a transfer: nothing is recorded. An amount of
    /// zero, or one that the ledger cannot hold, is refused.
    pub fn add_balance(&mut self, public_key: &str, amount: u64) -> (r: Result<(), LedgerError>)
        requires
            old(self).wf(),
        ensures
            final(self).wf(),
            r == old(self)@.deposit_outcome(amount as nat),
            r is Ok ==> final(self)@ == old(self)@.deposit(public_key@, amount as nat),
            r is Err ==> final(self)@ == old(self)@,
    {
        if amount == 0 || amount > MAX_SUPPLY - self.total {
            return Err(LedgerError::InvalidAmount);
        }
        let held = self.check_balance(public_key);
        proof {
            lemma_balance_within_total(self@, public_key@);
        }
        self.set_balance(public_key, held + amount);
        Ok(())
    }

    /// Draws a fresh keypair and registers its public identifier holding
    /// nothing. Both halves are handed to the caller; the ledger keeps no
    /// secret. Whatever was drawn, the secret derives the identifier that was
    /// registered; where the keypair provider fails, nothing changes.
    pub fn create_wallet(&mut self) -> (r: Result<Wallet, LedgerError>)
        requires
            old(self).wf(),
        ensures
            final(self).wf(),
            match r {
                Ok(wallet) => {
                    &&& final(self)@ == old(self)@.register(wallet.public_key@)
                    &&& public_id_of(wallet.secret_key@) == Some(wallet.public_key@)
                },
                Err(e) => e == LedgerError::KeyProvider && final(self)@ == old(self)@,
            },
    {
        match generate_wallet() {
            Ok(wallet) => {
                self.register_wallet(wallet.public_key.as_str());
                Ok(wallet)
            },
            Err(e) => Err(e),
        }
    }

    /// Whether `sender_public_key` may send `amount` as the ledger stands.
    pub fn check_transfer(&self, sender_public_key: &str, amount: u64) -> (r: Result<
        (),
        LedgerError,
    >)
        ensures
            r == self@.transfer_outcome(sender_public_key@, amount as nat),
    {
        if amount == 0 {
            Err(LedgerError::InvalidAmount)
        } else if self.check_balance(sender_public_key) < amount {
            Err(LedgerError::InsufficientBalance)
        } else {
            Ok(())
        }
    }

    /// Debits the sender, credits the receiver and appends the record of a
    /// transfer that `check_transfer` has allowed. The credit cannot
    /// overflow: what the receiver then holds is part of the unchanged total.
    fn apply_transfer(
        &mut self,
        sender_public_key: String,
        receiver_public_key: &str,
        amount: u64,
        timestamp: String,
    )
        requires
            old(self).wf(),
            old(self)@.transfer_outcome(sender_public_key@, amount as nat) is Ok,
        ensures
            final(self).wf(),
            final(self)@ == old(self)@.transfer(
                sender_public_key@,
                receiver_public_key@,
                amount as nat,
                timestamp@,
            ),
    {
        let sender_held = self.check_balance(sender_public_key.as_str());
        proof {
            lemma_balance_within_total(self@, sender_public_key@);
            lemma_total_with_balance(self@, sender_public_key@, (sender_held - amount) as nat);
        }
        self.set_balance(sender_public_key.as_str(), sender_held - amount);
        let receiver_held = self.check_balance(receiver_public_key);
        proof {
            lemma_balance_within_total(self@, receiver_public_key@);
        }
        self.set_balance(receiver_public_key, receiver_held + amount);
        let transaction = Transaction {
            sender: sender_public_key,
            receiver: receiver_public_key.to_owned(),
            amount,
            timestamp,
        };
        self.transaction_history.push(transaction);
        assert(self@.history =~= old(self)@.history.push(transaction@));
    }

    /// Moves `amount` from one account to another and records the transfer
    /// under `timestamp`. The sender must hold the amount: an unknown sender
    /// holds nothing and is not opened. The receiver's account is opened if
    /// there is none. A refused transfer changes nothing.
    pub fn transfer(
        &mut self,
        sender_public_key: String,
        receiver_public_key: &str,
        amount: u64,
        timestamp: String,
    ) -> (r: Result<(), LedgerError>)
        requires
            old(self).wf(),
        ensures
            final(self).wf(),
            (r, final(self)@) == old(self)@.send_payment(
                Some(sender_public_key@),
                receiver_public_key@,
                amount as nat,
                timestamp@,
            ),
    {
        match self.check_transfer(sender_public_key.as_str(), amount) {
            Ok(_) => {
                self.apply_transfer(sender_public_key, receiver_public_key, amount, timestamp);
                Ok(())
            },
            Err(e) => Err(e),
        }
    }

    /// Sends `amount` from the account that `sender_secret_key` stands for to
    /// `receiver_public_key`. The secret is used to derive the sender and is
    /// not kept; the record names the derived identifier. The time of the
    /// record is read from the clock when the transfer is applied, so the
    /// contract fixes everything but that text.
    pub fn send_payment(
        &mut self,
        sender_secret_key: &str,
        receiver_public_key: &str,
        amount: u64,
    ) -> (r: Result<(), LedgerError>)
        requires
            old(self).wf(),
        ensures
            final(self).wf(),
            (r, final(self)@) == old(self)@.send_payment(
                public_id_of(sender_secret_key@),
                receiver_public_key@,
                amount as nat,
                final(self)@.history.last().timestamp,
            ),
    {
        let sender_public_key = match derive_public_id(sender_secret_key) {
            Ok(id) => id,
            Err(e) => {
                return Err(e);
            },
        };
        match self.check_transfer(sender_public_key.as_str(), amount) {
            Ok(_) => {
                let timestamp = utc_now_rfc3339();
                self.apply_transfer(sender_public_key, receiver_public_key, amount, timestamp);
                Ok(())
            },
            Err(e) => Err(e),
        }
    }

    /// The report of the log, line by line and ready to print: the heading,
    /// then every transfer with its place in the log, counted from one.
    pub fn display_transaction_history(&self) -> (lines: Vec<String>)
        ensures
            texts_of(lines@) == history_lines(self@.history),
    {
        let mut lines = heading_lines();
        let count = self.transaction_history.len();
        let mut i: usize = 0;
        assert(self@.history.take(0) =~= Seq::empty());
        while i < count
            invariant
                i <= count,
                count == self.transaction_history@.len(),
                texts_of(lines@) == history_lines(self@.history.take(i as int)),
            decreases count - i,
        {
            let position = (i + 1) as u64;
            push_record_lines(&mut lines, position, &self.transaction_history[i]);
            proof {
                let log = self@.history;
                assert(log.take(i + 1).drop_last() =~= log.take(i as int));
                assert(log.take(i + 1).last() == self.transaction_history@[i as int]@);
            }
            i = i + 1;
        }
        assert(self@.history.take(count as int) =~= self@.history);
        lines
    }
}

} // verus!
