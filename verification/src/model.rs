use vstd::prelude::*;
use crate::error::LedgerError;

verus! {

/// The most that all accounts of one ledger can hold together.
pub const MAX_SUPPLY: u64 = 0xffff_ffff_ffff_ffff;

/// One completed transfer, as contracts speak of it.
pub struct TransferRecord {
    pub sender: Seq<char>,
    pub receiver: Seq<char>,
    pub amount: nat,
    pub timestamp: Seq<char>,
}

/// The mathematical state of a ledger: what every account holds, and the
/// transfers that were applied, oldest first.
pub struct LedgerState {
    pub balances: Map<Seq<char>, nat>,
    pub history: Seq<TransferRecord>,
}

/// The sum of all balances of a finite map.
pub open spec fn total_of(balances: Map<Seq<char>, nat>) -> nat
    decreases balances.dom().len(),
    when balances.dom().finite()
{
    if balances.dom().len() == 0 {
        0
    } else {
        let id = balances.dom().choose();
        balances[id] + total_of(balances.remove(id))
    }
}

impl LedgerState {
    /// The ledger with no account and no transfer.
    pub open spec fn empty() -> LedgerState {
        LedgerState { balances: Map::empty(), history: Seq::empty() }
    }

    /// What `id` holds: an identifier that was never seen holds nothing.
    pub open spec fn balance_of(self, id: Seq<char>) -> nat {
        if self.balances.contains_key(id) {
            self.balances[id]
        } else {
            0
        }
    }

    /// What all accounts hold together.
    pub open spec fn total(self) -> nat {
        total_of(self.balances)
    }

    /// Finitely many accounts, and every party of a recorded transfer has one.
    pub open spec fn valid(self) -> bool {
        &&& self.balances.dom().finite()
        &&& forall|i: int|
            0 <= i < self.history.len() ==> {
                &&& self.balances.contains_key((#[trigger] self.history[i]).sender)
                &&& self.balances.contains_key(self.history[i].receiver)
            }
    }

    /// The state in which `id` holds exactly `balance`.
    pub open spec fn with_balance(self, id: Seq<char>, balance: nat) -> LedgerState {
        LedgerState { balances: self.balances.insert(id, balance), history: self.history }
    }

    /// A fresh wallet: `id` is registered holding nothing.
    pub open spec fn register(self, id: Seq<char>) -> LedgerState {
        self.with_balance(id, 0)
    }

    /// `amount` more for `id`, whose account is opened if it has none.
    pub open spec fn credit(self, id: Seq<char>, amount: nat) -> LedgerState {
        self.with_balance(id, self.balance_of(id) + amount)
    }

    /// `amount` less for `id`; meant for `amount <= self.balance_of(id)`.
    pub open spec fn debit(self, id: Seq<char>, amount: nat) -> LedgerState {
        self.with_balance(id, (self.balance_of(id) - amount) as nat)
    }

    /// Whether a deposit of `amount` is accepted: it is positive, and the
    /// ledger can hold it.
    pub open spec fn deposit_outcome(self, amount: nat) -> Result<(), LedgerError> {
        if amount == 0 || self.total() + amount > MAX_SUPPLY {
            Err(LedgerError::InvalidAmount)
        } else {
            Ok(())
        }
    }

    /// The state after an accepted deposit. No transfer is recorded.
    pub open spec fn deposit(self, id: Seq<char>, amount: nat) -> LedgerState {
        self.credit(id, amount)
    }

    /// Whether `sender` may send `amount`: the amount is positive and the
    /// sender holds at least as much. An unknown sender holds nothing.
    pub open spec fn transfer_outcome(self, sender: Seq<char>, amount: nat) -> Result<
        (),
        LedgerError,
    > {
        if amount == 0 {
            Err(LedgerError::InvalidAmount)
        } else if self.balance_of(sender) < amount {
            Err(LedgerError::InsufficientBalance)
        } else {
            Ok(())
        }
    }

    /// The state after a transfer that `transfer_outcome` allows: the sender
    /// is debited, the receiver credited, and one record appended.
    pub open spec fn transfer(
        self,
        sender: Seq<char>,
        receiver: Seq<char>,
        amount: nat,
        timestamp: Seq<char>,
    ) -> LedgerState {
        let moved = self.debit(sender, amount).credit(receiver, amount);
        LedgerState {
            balances: moved.balances,
            history: self.history.push(
                TransferRecord { sender, receiver, amount, timestamp },
            ),
        }
    }

    /// A payment as a whole. `sender` is what the sender's secret derives:
    /// `None` where it does not decode. Gives the verdict and the next state.
    pub open spec fn send_payment(
        self,
        sender: Option<Seq<char>>,
        receiver: Seq<char>,
        amount: nat,
        timestamp: Seq<char>,
    ) -> (Result<(), LedgerError>, LedgerState) {
        match sender {
            None => (Err(LedgerError::InvalidKey), self),
            Some(id) => match self.transfer_outcome(id, amount) {
                Err(e) => (Err(e), self),
                Ok(_) => (Ok(()), self.transfer(id, receiver, amount, timestamp)),
            },
        }
    }
}

/// The total is the balance of any one account plus the total of the others.
pub proof fn lemma_total_split(balances: Map<Seq<char>, nat>, id: Seq<char>)
    requires
        balances.dom().finite(),
        balances.contains_key(id),
    ensures
        total_of(balances) == balances[id] + total_of(balances.remove(id)),
    decreases balances.dom().len(),
{
    let first = balances.dom().choose();
    if first != id {
        let rest = balances.remove(first);
        lemma_total_split(rest, id);
        lemma_total_split(balances.remove(id), first);
        assert(rest.remove(id) =~= balances.remove(id).remove(first));
    }
}

/// Setting one balance changes the total by the difference.
pub proof fn lemma_total_with_balance(state: LedgerState, id: Seq<char>, balance: nat)
    requires
        state.balances.dom().finite(),
    ensures
        state.with_balance(id, balance).total() + state.balance_of(id) == state.total() + balance,
{
    let after = state.balances.insert(id, balance);
    lemma_total_split(after, id);
    assert(after.remove(id) =~= state.balances.remove(id));
    if state.balances.contains_key(id) {
        lemma_total_split(state.balances, id);
    } else {
        assert(state.balances.remove(id) =~= state.balances);
    }
}

/// No account holds more than all accounts together.
pub proof fn lemma_balance_within_total(state: LedgerState, id: Seq<char>)
    requires
        state.balances.dom().finite(),
    ensures
        state.balance_of(id) <= state.total(),
{
    if state.balances.contains_key(id) {
        lemma_total_split(state.balances, id);
    }
}

} // verus!
