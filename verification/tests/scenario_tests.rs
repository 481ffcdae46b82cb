use ledger::clients::{create_client, Client};
use ledger::fixed_number::FixedNumber;
use ledger::transactions::{Transaction, TransactionType};

fn deposit_tx(id: u32, client_id: u16, scaled: i64) -> Transaction {
    Transaction {
        id,
        client_id,
        amount: Some(FixedNumber::from_scaled(scaled)),
        transaction_type: TransactionType::Deposit,
        disputed: false,
    }
}

fn withdrawal_tx(id: u32, client_id: u16, scaled: i64) -> Transaction {
    Transaction {
        id,
        client_id,
        amount: Some(FixedNumber::from_scaled(scaled)),
        transaction_type: TransactionType::Withdrawal,
        disputed: false,
    }
}

fn reference_tx(id: u32, client_id: u16, transaction_type: TransactionType) -> Transaction {
    Transaction {
        id,
        client_id,
        amount: None,
        transaction_type,
        disputed: false,
    }
}

fn assert_balances(client: &Client, available: &str, held: &str, total: &str, locked: bool) {
    assert_eq!(client.available.get_displayed_value(), available);
    assert_eq!(client.held.get_displayed_value(), held);
    assert_eq!(client.total.get_displayed_value(), total);
    assert_eq!(client.locked, locked);
}

#[test]
fn single_deposit_credits_available() {
    let mut client = create_client(0);
    client.deposit(&deposit_tx(0, 0, 20000));
    assert_balances(&client, "2.0000", "0.0000", "2.0000", false);
}

#[test]
fn negative_deposit_leaves_state_unchanged() {
    let mut client = create_client(0);
    client.deposit(&deposit_tx(0, 0, 20000));
    client.deposit(&deposit_tx(1, 0, -20000));
    assert_balances(&client, "2.0000", "0.0000", "2.0000", false);
    assert_eq!(client.transactions.len(), 1);
}

#[test]
fn dispute_holds_the_deposited_amount() {
    let mut client = create_client(0);
    client.deposit(&deposit_tx(0, 0, 20000));
    client.dispute(&reference_tx(0, 0, TransactionType::Dispute));
    assert_balances(&client, "0.0000", "2.0000", "2.0000", false);
    assert!(client.transactions[0].disputed);
}

#[test]
fn resolve_returns_the_held_amount() {
    let mut client = create_client(0);
    client.deposit(&deposit_tx(0, 0, 20000));
    client.dispute(&reference_tx(0, 0, TransactionType::Dispute));
    client.resolve(&reference_tx(0, 0, TransactionType::Resolve));
    assert_balances(&client, "2.0000", "0.0000", "2.0000", false);
    assert!(!client.transactions[0].disputed);
}

#[test]
fn chargeback_removes_the_held_amount_and_locks() {
    let mut client = create_client(0);
    client.deposit(&deposit_tx(0, 0, 20000));
    client.dispute(&reference_tx(0, 0, TransactionType::Dispute));
    client.chargeback(&reference_tx(0, 0, TransactionType::Chargeback));
    assert_balances(&client, "0.0000", "0.0000", "0.0000", true);
    assert!(!client.transactions[0].disputed);
}

#[test]
fn withdrawing_the_full_balance_then_resolving_undisputed_is_a_no_op() {
    let mut client = create_client(0);
    client.deposit(&deposit_tx(0, 0, 20000));
    client.withdraw(&withdrawal_tx(1, 0, 20000));
    assert_balances(&client, "0.0000", "0.0000", "0.0000", false);
    client.resolve(&reference_tx(1, 0, TransactionType::Resolve));
    assert_balances(&client, "0.0000", "0.0000", "0.0000", false);
    assert!(!client.transactions[1].disputed);
    assert_eq!(client.transactions.len(), 2);
}

#[test]
fn withdrawal_beyond_available_is_ignored() {
    let mut client = create_client(0);
    client.deposit(&deposit_tx(0, 0, 20000));
    client.withdraw(&withdrawal_tx(1, 0, 20001));
    assert_balances(&client, "2.0000", "0.0000", "2.0000", false);
    assert_eq!(client.transactions.len(), 1);
}

#[test]
fn dispute_of_unknown_id_is_ignored() {
    let mut client = create_client(0);
    client.deposit(&deposit_tx(0, 0, 20000));
    client.dispute(&reference_tx(7, 0, TransactionType::Dispute));
    assert_balances(&client, "2.0000", "0.0000", "2.0000", false);
    assert!(!client.transactions[0].disputed);
}

#[test]
fn chargeback_of_non_disputed_tx_is_ignored() {
    let mut client = create_client(0);
    client.deposit(&deposit_tx(0, 0, 20000));
    client.chargeback(&reference_tx(0, 0, TransactionType::Chargeback));
    assert_balances(&client, "2.0000", "0.0000", "2.0000", false);
    assert!(!client.locked);
}

#[test]
fn disputed_withdrawal_holds_its_amount_without_touching_available() {
    let mut client = create_client(0);
    client.deposit(&deposit_tx(0, 0, 30000));
    client.withdraw(&withdrawal_tx(1, 0, 10000));
    client.dispute(&reference_tx(1, 0, TransactionType::Dispute));
    assert_balances(&client, "2.0000", "1.0000", "3.0000", false);
    assert!(client.transactions[1].disputed);
}

#[test]
fn locked_stays_set_once_a_chargeback_happened() {
    let mut client = create_client(0);
    client.deposit(&deposit_tx(0, 0, 20000));
    client.dispute(&reference_tx(0, 0, TransactionType::Dispute));
    client.chargeback(&reference_tx(0, 0, TransactionType::Chargeback));
    assert!(client.locked);
    client.deposit(&deposit_tx(1, 0, 10000));
    assert!(client.locked);
    client.withdraw(&withdrawal_tx(2, 0, 5000));
    assert!(client.locked);
    assert_balances(&client, "0.5000", "0.0000", "0.5000", true);
}

#[test]
fn total_stays_available_plus_held_across_a_session() {
    let mut client = create_client(3);
    client.deposit(&deposit_tx(0, 3, 52500));
    client.withdraw(&withdrawal_tx(1, 3, 12500));
    client.dispute(&reference_tx(0, 3, TransactionType::Dispute));
    assert_eq!(
        client.total.value,
        client.available.value + client.held.value
    );
    client.resolve(&reference_tx(0, 3, TransactionType::Resolve));
    assert_eq!(
        client.total.value,
        client.available.value + client.held.value
    );
    client.dispute(&reference_tx(1, 3, TransactionType::Dispute));
    client.chargeback(&reference_tx(1, 3, TransactionType::Chargeback));
    assert_eq!(
        client.total.value,
        client.available.value + client.held.value
    );
    assert!(client.locked);
}
