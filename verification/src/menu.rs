use vstd::prelude::*;
use vstd::string::*;
use crate::amount::{amount_of, parse_amount};
use crate::error::LedgerError;
use crate::keys::{public_id_of, Wallet};
use crate::ledger::PaymentSystem;
use crate::report::{history_lines, texts_of};

verus! {

/// What the user can pick from the menu.
#[derive(Clone, Copy, Debug, PartialEq, Eq, Structural)]
pub enum MenuChoice {
    CreateWallet,
    CheckBalance,
    AddBalance,
    SendPayment,
    TransactionHistory,
    Exit,
}

/// The choice that a line of input stands for: the digits one to six, each
/// alone on the line, in the order of the menu. Any other line is no choice.
pub open spec fn menu_choice_of(line: Seq<char>) -> Option<MenuChoice> {
    if line.len() != 1 {
        None
    } else if line[0] == '1' {
        Some(MenuChoice::CreateWallet)
    } else if line[0] == '2' {
        Some(MenuChoice::CheckBalance)
    } else if line[0] == '3' {
        Some(MenuChoice::AddBalance)
    } else if line[0] == '4' {
        Some(MenuChoice::SendPayment)
    } else if line[0] == '5' {
        Some(MenuChoice::TransactionHistory)
    } else if line[0] == '6' {
        Some(MenuChoice::Exit)
    } else {
        None
    }
}

/// Reads the user's choice from a line of input.
pub fn parse_menu_choice(line: &str) -> (choice: Option<MenuChoice>)
    ensures
        choice == menu_choice_of(line@),
{
    if line.unicode_len() != 1 {
        return None;
    }
    let c = line.get_char(0);
    if c == '1' {
        Some(MenuChoice::CreateWallet)
    } else if c == '2' {
        Some(MenuChoice::CheckBalance)
    } else if c == '3' {
        Some(MenuChoice::AddBalance)
    } else if c == '4' {
        Some(MenuChoice::SendPayment)
    } else if c == '5' {
        Some(MenuChoice::TransactionHistory)
    } else if c == '6' {
        Some(MenuChoice::Exit)
    } else {
        None
    }
}

/// A request to the ledger together with what the user typed for it.
/// Amounts are still text: reading them is part of carrying the request out.
#[derive(Debug)]
pub enum Command {
    CreateWallet,
    CheckBalance { public_key: String },
    AddBalance { public_key: String, amount: String },
    SendPayment { secret_key: String, receiver: String, amount: String },
    TransactionHistory,
}

/// What the ledger answers to a request.
#[derive(Debug)]
pub enum Reply {
    WalletCreated(Wallet),
    Balance(u64),
    BalanceAdded,
    PaymentSent,
    History(Vec<String>),
    Refused(LedgerError),
}

impl PaymentSystem {
    /// Carries out one request and says what came of it. An amount is read
    /// before anything else is looked at, so a text that is no amount is
    /// refused with `InvalidAmount` whatever the keys are. A refused request
    /// changes nothing.
    pub fn execute(&mut self, command: &Command) -> (reply: Reply)
        requires
            old(self).wf(),
        ensures
            final(self).wf(),
            match *command {
                Command::CreateWallet => match reply {
                    Reply::WalletCreated(wallet) => {
                        &&& final(self)@ == old(self)@.register(wallet.public_key@)
                        &&& public_id_of(wallet.secret_key@) == Some(wallet.public_key@)
                    },
                    Reply::Refused(e) => e == LedgerError::KeyProvider && final(self)@ == old(
                        self,
                    )@,
                    _ => false,
                },
                Command::CheckBalance { public_key } => {
                    &&& reply matches Reply::Balance(units)
                    &&& units as nat == old(self)@.balance_of(public_key@)
                    &&& final(self)@ == old(self)@
                },
                Command::AddBalance { public_key, amount } => match amount_of(amount@) {
                    Err(e) => reply matches Reply::Refused(f) && f == e && final(self)@ == old(
                        self,
                    )@,
                    Ok(units) => match old(self)@.deposit_outcome(units as nat) {
                        Err(e) => reply matches Reply::Refused(f) && f == e && final(self)@
                            == old(self)@,
                        Ok(_) => reply is BalanceAdded && final(self)@ == old(self)@.deposit(
                            public_key@,
                            units as nat,
                        ),
                    },
                },
                Command::SendPayment { secret_key, receiver, amount } => match amount_of(
                    amount@,
                ) {
                    Err(e) => reply matches Reply::Refused(f) && f == e && final(self)@ == old(
                        self,
                    )@,
                    Ok(units) => {
                        let (verdict, after) = old(self)@.send_payment(
                            public_id_of(secret_key@),
                            receiver@,
                            units as nat,
                            final(self)@.history.last().timestamp,
                        );
                        &&& final(self)@ == after
                        &&& match verdict {
                            Ok(_) => reply is PaymentSent,
                            Err(e) => reply matches Reply::Refused(f) && f == e,
                        }
                    },
                },
                Command::TransactionHistory => {
                    &&& reply matches Reply::History(lines)
                    &&& texts_of(lines@) == history_lines(old(self)@.history)
                    &&& final(self)@ == old(self)@
                },
            },
    {
        match command {
            Command::CreateWallet => match self.create_wallet() {
                Ok(wallet) => Reply::WalletCreated(wallet),
                Err(e) => Reply::Refused(e),
            },
            Command::CheckBalance { public_key } => Reply::Balance(
                self.check_balance(public_key.as_str()),
            ),
            Command::AddBalance { public_key, amount } => match parse_amount(amount.as_str()) {
                Err(e) => Reply::Refused(e),
                Ok(units) => match self.add_balance(public_key.as_str(), units) {
                    Ok(_) => Reply::BalanceAdded,
                    Err(e) => Reply::Refused(e),
                },
            },
            Command::SendPayment { secret_key, receiver, amount } => match parse_amount(
                amount.as_str(),
            ) {
                Err(e) => Reply::Refused(e),
                Ok(units) => match self.send_payment(
                    secret_key.as_str(),
                    receiver.as_str(),
                    units,
                ) {
                    Ok(_) => Reply::PaymentSent,
                    Err(e) => Reply::Refused(e),
                },
            },
            Command::TransactionHistory => Reply::History(self.display_transaction_history()),
        }
    }
}

} // verus!
