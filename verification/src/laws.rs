use vstd::prelude::*;
use crate::error::LedgerError;
use crate::keys::public_id_of;
use crate::model::{lemma_total_with_balance, LedgerState, TransferRecord, MAX_SUPPLY};
use crate::trace::Operation;

verus! {

/// An identifier that was never seen holds nothing.
pub proof fn lemma_unknown_account_holds_nothing(state: LedgerState, id: Seq<char>)
    requires
        !state.balances.contains_key(id),
    ensures
        state.balance_of(id) == 0,
{
}

/// A deposit adds its amount to what the account held, leaves every other
/// account alone, and records nothing.
pub proof fn lemma_deposit_credits_account(state: LedgerState, id: Seq<char>, amount: nat)
    ensures
        state.deposit(id, amount).balance_of(id) == state.balance_of(id) + amount,
        forall|other: Seq<char>|
            other != id ==> state.deposit(id, amount).balance_of(other) == state.balance_of(other),
        state.deposit(id, amount).history == state.history,
{
}

/// An accepted deposit raises the total by its amount, and the total stays
/// within what the ledger can hold.
pub proof fn lemma_deposit_raises_total(state: LedgerState, id: Seq<char>, amount: nat)
    requires
        state.valid(),
        state.deposit_outcome(amount) is Ok,
    ensures
        state.deposit(id, amount).total() == state.total() + amount,
        state.deposit(id, amount).total() <= MAX_SUPPLY,
{
    lemma_total_with_balance(state, id, state.balance_of(id) + amount);
}

/// A payment between two different accounts that is carried out takes the
/// amount from the sender, gives it to the receiver, leaves every other
/// account alone, and appends exactly one record, which names the derived
/// sender, the receiver, the amount and the time.
pub proof fn lemma_payment_moves_amount(
    state: LedgerState,
    sender: Seq<char>,
    receiver: Seq<char>,
    amount: nat,
    timestamp: Seq<char>,
)
    requires
        sender != receiver,
        state.send_payment(Some(sender), receiver, amount, timestamp).0 is Ok,
    ensures
        ({
            let after = state.send_payment(Some(sender), receiver, amount, timestamp).1;
            &&& after.balance_of(sender) == state.balance_of(sender) - amount
            &&& after.balance_of(receiver) == state.balance_of(receiver) + amount
            &&& forall|other: Seq<char>|
                other != sender && other != receiver ==> after.balance_of(other)
                    == state.balance_of(other)
            &&& after.history == state.history.push(
                TransferRecord { sender, receiver, amount, timestamp },
            )
            &&& after.history.len() == state.history.len() + 1
        }),
{
}

/// A payment from an account to itself that is carried out leaves every
/// balance as it was, and is recorded all the same.
pub proof fn lemma_payment_to_self_keeps_balances(
    state: LedgerState,
    id: Seq<char>,
    amount: nat,
    timestamp: Seq<char>,
)
    requires
        state.send_payment(Some(id), id, amount, timestamp).0 is Ok,
    ensures
        ({
            let after = state.send_payment(Some(id), id, amount, timestamp).1;
            &&& forall|other: Seq<char>| after.balance_of(other) == state.balance_of(other)
            &&& after.history == state.history.push(
                TransferRecord { sender: id, receiver: id, amount, timestamp },
            )
        }),
{
}

/// A payment creates and destroys nothing: the total is what it was.
pub proof fn lemma_payment_conserves_total(
    state: LedgerState,
    sender: Option<Seq<char>>,
    receiver: Seq<char>,
    amount: nat,
    timestamp: Seq<char>,
)
    requires
        state.valid(),
    ensures
        state.send_payment(sender, receiver, amount, timestamp).1.total() == state.total(),
{
    if let Some(id) = sender {
        if state.transfer_outcome(id, amount) is Ok {
            let debited = state.debit(id, amount);
            lemma_total_with_balance(state, id, (state.balance_of(id) - amount) as nat);
            lemma_total_with_balance(debited, receiver, debited.balance_of(receiver) + amount);
        }
    }
}

/// A payment of more than the sender holds is refused with
/// `InsufficientBalance` and changes nothing. An unknown sender holds
/// nothing, so this is the answer to every positive amount it sends.
pub proof fn lemma_overdraft_is_refused(
    state: LedgerState,
    sender: Seq<char>,
    receiver: Seq<char>,
    amount: nat,
    timestamp: Seq<char>,
)
    requires
        amount > state.balance_of(sender),
    ensures
        state.send_payment(Some(sender), receiver, amount, timestamp) == (
            Err::<(), LedgerError>(LedgerError::InsufficientBalance),
            state,
        ),
        !state.balances.contains_key(sender) && amount > 0 ==> amount > state.balance_of(sender),
{
}

/// A payment whose secret derives no identifier is refused with `InvalidKey`
/// and changes nothing, whatever the receiver and the amount.
pub proof fn lemma_undecodable_secret_is_refused(
    state: LedgerState,
    secret: Seq<char>,
    receiver: Seq<char>,
    amount: nat,
    timestamp: Seq<char>,
)
    requires
        public_id_of(secret) is None,
    ensures
        state.send_payment(public_id_of(secret), receiver, amount, timestamp) == (
            Err::<(), LedgerError>(LedgerError::InvalidKey),
            state,
        ),
{
}

/// A payment of nothing is refused with `InvalidAmount` once the secret has
/// derived a sender, and changes nothing.
pub proof fn lemma_empty_payment_is_refused(
    state: LedgerState,
    sender: Seq<char>,
    receiver: Seq<char>,
    timestamp: Seq<char>,
)
    ensures
        state.send_payment(Some(sender), receiver, 0, timestamp) == (
            Err::<(), LedgerError>(LedgerError::InvalidAmount),
            state,
        ),
{
}

/// Every request takes a valid state to a valid state that holds no more
/// than the ledger's capacity, and only lengthens the log.
pub proof fn lemma_step_keeps_valid(state: LedgerState, op: Operation)
    requires
        state.valid(),
        state.total() <= MAX_SUPPLY,
    ensures
        state.step(op).valid(),
        state.step(op).total() <= MAX_SUPPLY,
        state.history.is_prefix_of(state.step(op).history),
        state.step(op).history == state.history + state.logged(op),
        !state.accepts(op) ==> state.step(op) == state,
        forall|id: Seq<char>|
            state.balances.contains_key(id) ==> state.step(op).balances.contains_key(id),
{
    match op {
        Operation::CreateWallet { id } => {
            lemma_total_with_balance(state, id, 0);
            assert(state.step(op).history =~= state.history + state.logged(op));
        },
        Operation::Deposit { id, amount } => {
            if state.deposit_outcome(amount) is Ok {
                lemma_deposit_raises_total(state, id, amount);
            }
            assert(state.step(op).history =~= state.history + state.logged(op));
        },
        Operation::Payment { sender, receiver, amount, timestamp } => {
            lemma_payment_conserves_total(state, sender, receiver, amount, timestamp);
            assert(state.step(op).history =~= state.history + state.logged(op));
        },
    }
}

/// A run of requests takes a valid state to a valid state within capacity,
/// and its log is the log before it followed by the records of the payments
/// that were carried out, in the order of the requests.
pub proof fn lemma_run_appends_in_order(state: LedgerState, ops: Seq<Operation>)
    requires
        state.valid(),
        state.total() <= MAX_SUPPLY,
    ensures
        state.run(ops).valid(),
        state.run(ops).total() <= MAX_SUPPLY,
        state.run(ops).history == state.history + state.logged_by(ops),
    decreases ops.len(),
{
    if ops.len() == 0 {
        assert(state.run(ops).history =~= state.history + state.logged_by(ops));
    } else {
        let before = state.run(ops.drop_last());
        lemma_run_appends_in_order(state, ops.drop_last());
        lemma_step_keeps_valid(before, ops.last());
        assert(state.run(ops).history =~= state.history + state.logged_by(ops));
    }
}

/// The record that a payment leaves when it is carried out.
pub open spec fn record_of(op: Operation) -> TransferRecord {
    match op {
        Operation::Payment { sender: Some(id), receiver, amount, timestamp } => TransferRecord {
            sender: id,
            receiver,
            amount,
            timestamp,
        },
        _ => arbitrary(),
    }
}

/// Whether every request of the run is a payment that the ledger carries
/// out in the state that the requests before it have left.
pub open spec fn all_payments_carried_out(state: LedgerState, ops: Seq<Operation>) -> bool {
    forall|i: int|
        0 <= i < ops.len() ==> {
            &&& (#[trigger] ops[i]) is Payment
            &&& state.run(ops.take(i)).accepts(ops[i])
        }
}

/// After a run of payments that were all carried out, the log holds the log
/// before it and then exactly one record for each payment, in the order in
/// which they were applied.
pub proof fn lemma_payments_logged_in_order(state: LedgerState, ops: Seq<Operation>)
    requires
        state.valid(),
        state.total() <= MAX_SUPPLY,
        all_payments_carried_out(state, ops),
    ensures
        state.run(ops).history.len() == state.history.len() + ops.len(),
        state.run(ops).history.take(state.history.len() as int) == state.history,
        forall|i: int|
            0 <= i < ops.len() ==> state.run(ops).history[state.history.len() + i] == record_of(
                #[trigger] ops[i],
            ),
    decreases ops.len(),
{
    if ops.len() == 0 {
        assert(state.run(ops).history.take(state.history.len() as int) =~= state.history);
    } else {
        let earlier = ops.drop_last();
        let before = state.run(earlier);
        assert forall|i: int| 0 <= i < earlier.len() implies (#[trigger] earlier[i]) is Payment
            && state.run(earlier.take(i)).accepts(earlier[i]) by {
            assert(earlier.take(i) =~= ops.take(i));
            assert(earlier[i] == ops[i]);
        }
        lemma_payments_logged_in_order(state, earlier);
        lemma_run_appends_in_order(state, earlier);
        lemma_step_keeps_valid(before, ops.last());
        assert(ops.take(ops.len() - 1) =~= earlier);
        assert(ops[ops.len() - 1] is Payment);
        assert(before.accepts(ops.last()));
        assert(state.run(ops).history =~= before.history.push(record_of(ops.last())));
        assert(state.run(ops).history.take(state.history.len() as int) =~= state.history);
        assert forall|i: int| 0 <= i < ops.len() implies state.run(ops).history[state.history.len()
            + i] == record_of(#[trigger] ops[i]) by {
            if i < earlier.len() {
                assert(earlier[i] == ops[i]);
            }
        }
    }
}

} // verus!
