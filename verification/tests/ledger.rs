use payment_ledger::error::LedgerError;
use payment_ledger::keys::{derive_public_id, generate_wallet, wallet_of_secret};
use payment_ledger::ledger::PaymentSystem;

const SECRET: &str = "SBK2VIYYSVG76E7VC3QHYARNFLY2EAQXDHRC7BMXBBGIFG74ARPRMNQM";

#[test]
fn new_ledger_is_empty() {
    let system = PaymentSystem::new();
    assert_eq!(system.transaction_history().len(), 0);
    assert_eq!(system.total_supply(), 0);
    assert_eq!(system.check_balance("anyone"), 0);
}

#[test]
fn wallet_scenario_deposit_pay_and_overdraw() {
    let mut system = PaymentSystem::new();
    let a = system.create_wallet().unwrap();
    assert_eq!(system.check_balance(&a.public_key), 0);
    assert_eq!(system.add_balance(&a.public_key, 100), Ok(()));
    assert_eq!(system.check_balance(&a.public_key), 100);
    let b = system.create_wallet().unwrap();
    assert_eq!(system.check_balance(&b.public_key), 0);

    assert_eq!(system.send_payment(&a.secret_key, &b.public_key, 40), Ok(()));
    assert_eq!(system.check_balance(&a.public_key), 60);
    assert_eq!(system.check_balance(&b.public_key), 40);
    assert_eq!(system.transaction_history().len(), 1);

    assert_eq!(
        system.send_payment(&a.secret_key, &b.public_key, 1000),
        Err(LedgerError::InsufficientBalance)
    );
    assert_eq!(system.check_balance(&a.public_key), 60);
    assert_eq!(system.check_balance(&b.public_key), 40);
    assert_eq!(system.transaction_history().len(), 1);
}

#[test]
fn deposit_adds_to_prior_balance_and_logs_nothing() {
    let mut system = PaymentSystem::new();
    assert_eq!(system.add_balance("alice", 25), Ok(()));
    assert_eq!(system.add_balance("alice", 17), Ok(()));
    assert_eq!(system.add_balance("bob", 3), Ok(()));
    assert_eq!(system.check_balance("alice"), 42);
    assert_eq!(system.check_balance("bob"), 3);
    assert_eq!(system.total_supply(), 45);
    assert_eq!(system.transaction_history().len(), 0);
}

#[test]
fn deposit_of_nothing_is_refused() {
    let mut system = PaymentSystem::new();
    assert_eq!(system.add_balance("alice", 0), Err(LedgerError::InvalidAmount));
    assert_eq!(system.check_balance("alice"), 0);
    assert_eq!(system.total_supply(), 0);
}

#[test]
fn deposit_beyond_capacity_is_refused() {
    let mut system = PaymentSystem::new();
    assert_eq!(system.add_balance("alice", u64::MAX - 1), Ok(()));
    assert_eq!(system.add_balance("bob", 2), Err(LedgerError::InvalidAmount));
    assert_eq!(system.check_balance("bob"), 0);
    assert_eq!(system.add_balance("bob", 1), Ok(()));
    assert_eq!(system.total_supply(), u64::MAX);
    assert_eq!(system.add_balance("alice", 1), Err(LedgerError::InvalidAmount));
    assert_eq!(system.check_balance("alice"), u64::MAX - 1);
}

#[test]
fn unknown_identifier_holds_nothing() {
    let mut system = PaymentSystem::new();
    system.add_balance("alice", 5).unwrap();
    assert_eq!(system.check_balance("nobody"), 0);
    assert_eq!(system.check_balance(""), 0);
    assert_eq!(system.total_supply(), 5);
}

#[test]
fn derive_public_id_is_a_function_of_the_secret() {
    let first = derive_public_id(SECRET).unwrap();
    let second = derive_public_id(SECRET).unwrap();
    assert_eq!(first, second);
    assert_eq!(first, "GDHMW6QZOL73SHKG2JA3YHXFDHM46SS5ZRWEYF5BCYHX2C5TVO6KZBYL");
    assert_ne!(first, SECRET);
}

#[test]
fn derive_public_id_refuses_malformed_secrets() {
    assert_eq!(derive_public_id(""), Err(LedgerError::InvalidKey));
    assert_eq!(derive_public_id("SA======"), Err(LedgerError::InvalidKey));
    assert_eq!(derive_public_id("not a secret"), Err(LedgerError::InvalidKey));
    let public_key = derive_public_id(SECRET).unwrap();
    assert_eq!(derive_public_id(&public_key), Err(LedgerError::InvalidKey));
    let mut damaged = String::from(SECRET);
    damaged.pop();
    damaged.push('A');
    assert_eq!(derive_public_id(&damaged), Err(LedgerError::InvalidKey));
    let wide = "\u{e9}".repeat(56);
    assert_eq!(derive_public_id(&wide), Err(LedgerError::InvalidKey));
}

#[test]
fn generated_secret_derives_the_wallet_identifier() {
    let wallet = generate_wallet().unwrap();
    assert_eq!(wallet.secret_key.len(), 56);
    assert_eq!(derive_public_id(&wallet.secret_key), Ok(wallet.public_key.clone()));
    let other = generate_wallet().unwrap();
    assert_ne!(wallet.public_key, other.public_key);
}

#[test]
fn wallet_of_secret_keeps_the_secret() {
    let wallet = wallet_of_secret(String::from(SECRET)).unwrap();
    assert_eq!(wallet.secret_key, SECRET);
    assert_eq!(Ok(wallet.public_key), derive_public_id(SECRET));
    assert_eq!(
        wallet_of_secret(String::from("short")).map(|w| w.public_key),
        Err(LedgerError::KeyProvider)
    );
}

#[test]
fn payment_with_invalid_key_changes_nothing() {
    let mut system = PaymentSystem::new();
    system.add_balance("alice", 10).unwrap();
    assert_eq!(system.send_payment("garbage", "alice", 5), Err(LedgerError::InvalidKey));
    assert_eq!(system.send_payment("", "alice", 5), Err(LedgerError::InvalidKey));
    assert_eq!(system.send_payment("garbage", "alice", 0), Err(LedgerError::InvalidKey));
    assert_eq!(system.check_balance("alice"), 10);
    assert_eq!(system.total_supply(), 10);
    assert_eq!(system.transaction_history().len(), 0);
}

#[test]
fn payment_from_unknown_sender_is_refused_and_opens_no_account() {
    let mut system = PaymentSystem::new();
    let sender = derive_public_id(SECRET).unwrap();
    assert_eq!(system.send_payment(SECRET, "bob", 1), Err(LedgerError::InsufficientBalance));
    assert_eq!(system.check_balance(&sender), 0);
    assert_eq!(system.check_balance("bob"), 0);
    assert_eq!(system.total_supply(), 0);
    assert_eq!(system.transaction_history().len(), 0);
}

#[test]
fn payment_of_nothing_is_refused() {
    let mut system = PaymentSystem::new();
    let sender = derive_public_id(SECRET).unwrap();
    system.add_balance(&sender, 10).unwrap();
    assert_eq!(system.send_payment(SECRET, "bob", 0), Err(LedgerError::InvalidAmount));
    assert_eq!(system.check_balance(&sender), 10);
    assert_eq!(system.transaction_history().len(), 0);
}

#[test]
fn payment_records_the_derived_sender() {
    let mut system = PaymentSystem::new();
    let sender = derive_public_id(SECRET).unwrap();
    system.add_balance(&sender, 10).unwrap();
    assert_eq!(system.send_payment(SECRET, "bob", 10), Ok(()));
    assert_eq!(system.check_balance(&sender), 0);
    assert_eq!(system.check_balance("bob"), 10);
    assert_eq!(system.total_supply(), 10);
    let history = system.transaction_history();
    assert_eq!(history.len(), 1);
    assert_eq!(history[0].sender, sender);
    assert_ne!(history[0].sender, SECRET);
    assert_eq!(history[0].receiver, "bob");
    assert_eq!(history[0].amount, 10);
    assert!(history[0].timestamp.len() >= 20);
    assert!(history[0].timestamp.contains('T'));
    assert!(history[0].timestamp.ends_with("+00:00"));
}

#[test]
fn payment_to_self_keeps_the_balance_and_is_recorded() {
    let mut system = PaymentSystem::new();
    let sender = derive_public_id(SECRET).unwrap();
    system.add_balance(&sender, 10).unwrap();
    assert_eq!(system.send_payment(SECRET, &sender, 4), Ok(()));
    assert_eq!(system.check_balance(&sender), 10);
    assert_eq!(system.total_supply(), 10);
    assert_eq!(system.transaction_history().len(), 1);
}

#[test]
fn transfers_are_logged_in_the_order_applied() {
    let mut system = PaymentSystem::new();
    system.add_balance("alice", 100).unwrap();
    let steps = [("alice", "bob", 30u64), ("bob", "carol", 20), ("alice", "carol", 5)];
    for (i, (from, to, amount)) in steps.iter().enumerate() {
        let stamp = format!("t{}", i);
        assert_eq!(system.transfer(String::from(*from), to, *amount, stamp), Ok(()));
    }
    assert_eq!(
        system.transfer(String::from("carol"), "alice", 26, String::from("late")),
        Err(LedgerError::InsufficientBalance)
    );
    let history = system.transaction_history();
    assert_eq!(history.len(), 3);
    for (i, (from, to, amount)) in steps.iter().enumerate() {
        assert_eq!(history[i].sender, *from);
        assert_eq!(history[i].receiver, *to);
        assert_eq!(history[i].amount, *amount);
        assert_eq!(history[i].timestamp, format!("t{}", i));
    }
    assert_eq!(system.check_balance("alice"), 65);
    assert_eq!(system.check_balance("bob"), 10);
    assert_eq!(system.check_balance("carol"), 25);
    assert_eq!(system.total_supply(), 100);
}

#[test]
fn check_transfer_gives_each_verdict() {
    let mut system = PaymentSystem::new();
    system.add_balance("alice", 10).unwrap();
    assert_eq!(system.check_transfer("alice", 10), Ok(()));
    assert_eq!(system.check_transfer("alice", 11), Err(LedgerError::InsufficientBalance));
    assert_eq!(system.check_transfer("alice", 0), Err(LedgerError::InvalidAmount));
    assert_eq!(system.check_transfer("nobody", 0), Err(LedgerError::InvalidAmount));
    assert_eq!(system.check_transfer("nobody", 1), Err(LedgerError::InsufficientBalance));
}

#[test]
fn register_wallet_opens_an_account_holding_nothing() {
    let mut system = PaymentSystem::new();
    system.register_wallet("alice");
    assert_eq!(system.check_balance("alice"), 0);
    assert_eq!(system.check_transfer("alice", 1), Err(LedgerError::InsufficientBalance));
    system.add_balance("bob", 9).unwrap();
    system.register_wallet("bob");
    assert_eq!(system.check_balance("bob"), 0);
    assert_eq!(system.total_supply(), 0);
}
