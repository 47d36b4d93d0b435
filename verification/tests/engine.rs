use atm::account::Account;
use atm::parser::{Operation, TypeOperation};
use atm::processor::{OperationStatus, Processor};
use atm::transaction::{Transaction, TransactionType};
use std::collections::HashMap;

fn op(type_operation: TypeOperation, client: u16, tx: u32, amount: Option<u64>) -> Operation {
    Operation { type_operation, client, tx, amount }
}

fn run_all(list_operations: Vec<Operation>) -> Processor {
    let mut processor = Processor::build();
    for operation in list_operations {
        processor.process_data(operation);
    }
    processor
}

fn check_results(processor: &Processor, expected_results: &HashMap<u16, Account>) {
    let clients = processor.client_ids();
    assert_eq!(clients.len(), expected_results.len());
    for client in clients {
        let account = processor.get_account(client).expect("account must exist");
        let expected = expected_results.get(&client).expect("unexpected client");
        assert_eq!(account, expected);
    }
}

#[test]
fn test_simple() {
    let list_operations = vec![
        op(TypeOperation::deposit, 1, 1, None),
        op(TypeOperation::deposit, 3, 0, Some(20_001)),
        op(TypeOperation::deposit, 1, 2, Some(1)),
        op(TypeOperation::withdrawal, 1, 202, Some(1)),
        op(TypeOperation::deposit, 3, 1, Some(10_001)),
        op(TypeOperation::deposit, 3, 1, Some(10_001)),
        op(TypeOperation::deposit, 5, 4, Some(50_001)),
        op(TypeOperation::withdrawal, 10, 15, Some(50_001)),
        op(TypeOperation::withdrawal, 5, 105, Some(50_002)),
        op(TypeOperation::withdrawal, 5, 105, Some(50_000)),
    ];

    let expected_results: HashMap<u16, Account> = HashMap::from([
        (
            1,
            Account {
                client_id: 1,
                held_funds: 0,
                available_funds: 0,
                locked: false,
                transaction_history: HashMap::from([
                    (
                        2,
                        Transaction {
                            client_id: 1,
                            amount: 1,
                            type_transaction: TransactionType::Deposit,
                        },
                    ),
                    (
                        202,
                        Transaction {
                            client_id: 1,
                            amount: 1,
                            type_transaction: TransactionType::Withdrawal,
                        },
                    ),
                ]),
            },
        ),
        (
            3,
            Account {
                client_id: 3,
                held_funds: 0,
                available_funds: 30_002,
                locked: false,
                transaction_history: HashMap::from([
                    (
                        0,
                        Transaction {
                            client_id: 3,
                            amount: 20_001,
                            type_transaction: TransactionType::Deposit,
                        },
                    ),
                    (
                        1,
                        Transaction {
                            client_id: 3,
                            amount: 10_001,
                            type_transaction: TransactionType::Deposit,
                        },
                    ),
                ]),
            },
        ),
        (
            5,
            Account {
                client_id: 5,
                held_funds: 0,
                available_funds: 1,
                locked: false,
                transaction_history: HashMap::from([
                    (
                        4,
                        Transaction {
                            client_id: 5,
                            amount: 50_001,
                            type_transaction: TransactionType::Deposit,
                        },
                    ),
                    (
                        105,
                        Transaction {
                            client_id: 5,
                            amount: 50_000,
                            type_transaction: TransactionType::Withdrawal,
                        },
                    ),
                ]),
            },
        ),
    ]);

    let processor = run_all(list_operations);
    check_results(&processor, &expected_results);
}

#[test]
fn test_complex() {
    let list_operations = vec![
        op(TypeOperation::deposit, 1, 0, Some(5_020_001)),
        op(TypeOperation::deposit, 1, 2, Some(3_200_001)),
        op(TypeOperation::dispute, 1, 2, Some(1)),
        op(TypeOperation::dispute, 2, 0, None),
        op(TypeOperation::dispute, 1, 3, None),
        op(TypeOperation::dispute, 1, 2, None),
        op(TypeOperation::resolve, 1, 3, Some(1)),
        op(TypeOperation::deposit, 1, 200, Some(1)),
        op(TypeOperation::resolve, 1, 2, Some(1)),
        op(TypeOperation::resolve, 1, 2, None),
        op(TypeOperation::deposit, 1, 201, Some(1)),
        op(TypeOperation::deposit, 2, 300, Some(10_000_000)),
        op(TypeOperation::dispute, 2, 300, None),
        op(TypeOperation::deposit, 2, 301, Some(10_000_000)),
        op(TypeOperation::chargeback, 2, 300, None),
        op(TypeOperation::deposit, 2, 301, Some(10_000_000)),
        op(TypeOperation::deposit, 5, 500, Some(1_000_000_000_000_000)),
        op(TypeOperation::dispute, 5, 500, None),
        op(TypeOperation::deposit, 5, 501, Some(1_000_000_000_000_000)),
        op(TypeOperation::chargeback, 4, 500, None),
        op(TypeOperation::resolve, 5, 500, None),
        op(TypeOperation::deposit, 10, 600, Some(10_000_000)),
        op(TypeOperation::dispute, 10, 600, None),
        op(TypeOperation::resolve, 10, 600, None),
        op(TypeOperation::dispute, 10, 600, None),
        op(TypeOperation::chargeback, 10, 600, None),
    ];

    let expected_results: HashMap<u16, Account> = HashMap::from([
        (
            1,
            Account {
                client_id: 1,
                held_funds: 0,
                available_funds: 8_220_004,
                locked: false,
                transaction_history: HashMap::from([
                    (
                        0,
                        Transaction {
                            client_id: 1,
                            amount: 5_020_001,
                            type_transaction: TransactionType::Deposit,
                        },
                    ),
                    (
                        2,
                        Transaction {
                            client_id: 1,
                            amount: 3_200_001,
                            type_transaction: TransactionType::Deposit,
                        },
                    ),
                    (
                        200,
                        Transaction {
                            client_id: 1,
                            amount: 1,
                            type_transaction: TransactionType::Deposit,
                        },
                    ),
                    (
                        201,
                        Transaction {
                            client_id: 1,
                            amount: 1,
                            type_transaction: TransactionType::Deposit,
                        },
                    ),
                ]),
            },
        ),
        (
            2,
            Account {
                client_id: 2,
                held_funds: 0,
                available_funds: 10_000_000,
                locked: true,
                transaction_history: HashMap::from([
                    (
                        300,
                        Transaction {
                            client_id: 2,
                            amount: 10_000_000,
                            type_transaction: TransactionType::ChargedBack,
                        },
                    ),
                    (
                        301,
                        Transaction {
                            client_id: 2,
                            amount: 10_000_000,
                            type_transaction: TransactionType::Deposit,
                        },
                    ),
                ]),
            },
        ),
        (
            5,
            Account {
                client_id: 5,
                held_funds: 1_000_000_000_000_000,
                available_funds: 1_000_000_000_000_000,
                locked: false,
                transaction_history: HashMap::from([
                    (
                        500,
                        Transaction {
                            client_id: 5,
                            amount: 1_000_000_000_000_000,
                            type_transaction: TransactionType::Dispute,
                        },
                    ),
                    (
                        501,
                        Transaction {
                            client_id: 5,
                            amount: 1_000_000_000_000_000,
                            type_transaction: TransactionType::Deposit,
                        },
                    ),
                ]),
            },
        ),
        (
            10,
            Account {
                client_id: 10,
                held_funds: 0,
                available_funds: 0,
                locked: true,
                transaction_history: HashMap::from([
                    (
                        600,
                        Transaction {
                            client_id: 10,
                            amount: 10_000_000,
                            type_transaction: TransactionType::ChargedBack,
                        },
                    ),
                ]),
            },
        ),
    ]);

    let processor = run_all(list_operations);
    check_results(&processor, &expected_results);
}

#[test]
fn deposit_then_withdrawal_leaves_the_difference() {
    let mut p = Processor::build();
    assert!(matches!(
        p.process_data(op(TypeOperation::deposit, 1, 1, Some(10_000))),
        OperationStatus::Successful(_)
    ));
    assert!(matches!(
        p.process_data(op(TypeOperation::withdrawal, 1, 2, Some(5_000))),
        OperationStatus::Successful(_)
    ));
    let a = p.get_account(1).unwrap();
    assert_eq!(a.available_funds(), "0.5000");
    assert_eq!(a.held_funds(), "0.0000");
    assert!(!a.locked());
}

#[test]
fn dispute_then_chargeback_locks_the_account() {
    let mut p = Processor::build();
    assert!(matches!(
        p.process_data(op(TypeOperation::deposit, 1, 1, Some(100_000))),
        OperationStatus::Successful(_)
    ));
    assert!(matches!(
        p.process_data(op(TypeOperation::dispute, 1, 1, None)),
        OperationStatus::UpdateTransaction(1, _)
    ));
    {
        let a = p.get_account(1).unwrap();
        assert_eq!(a.available_funds(), "0.0000");
        assert_eq!(a.held_funds(), "10.0000");
    }
    assert!(matches!(
        p.process_data(op(TypeOperation::chargeback, 1, 1, None)),
        OperationStatus::UpdateTransaction(1, _)
    ));
    {
        let a = p.get_account(1).unwrap();
        assert_eq!(a.available_funds(), "0.0000");
        assert_eq!(a.held_funds(), "0.0000");
        assert!(a.locked());
    }
    // any further deposit to this client is rejected
    assert_eq!(
        p.process_data(op(TypeOperation::deposit, 1, 2, Some(1))),
        OperationStatus::AccountLocked
    );
    let a = p.get_account(1).unwrap();
    assert_eq!(a.available_funds(), "0.0000");
    assert!(a.transaction_history.get(&2).is_none());
}

#[test]
fn reused_transaction_id_is_rejected_globally() {
    let mut p = Processor::build();
    assert!(matches!(
        p.process_data(op(TypeOperation::deposit, 1, 5, Some(30_000))),
        OperationStatus::Successful(_)
    ));
    // a second deposit reusing tx 5, for a different client
    assert_eq!(
        p.process_data(op(TypeOperation::deposit, 2, 5, Some(40_000))),
        OperationStatus::RepeatedTransaction
    );
    // the first deposit's effect stands, and no second account was created
    assert_eq!(p.get_account(1).unwrap().available_funds(), "3.0000");
    assert!(p.get_account(2).is_none());
}

#[test]
fn dispute_of_unknown_transaction_is_rejected() {
    let mut p = Processor::build();
    assert!(matches!(
        p.process_data(op(TypeOperation::deposit, 1, 1, Some(10_000))),
        OperationStatus::Successful(_)
    ));
    assert_eq!(
        p.process_data(op(TypeOperation::dispute, 1, 999, None)),
        OperationStatus::NonExistingTx
    );
    let a = p.get_account(1).unwrap();
    assert_eq!(a.available_funds(), "1.0000");
    assert_eq!(a.held_funds(), "0.0000");
    assert!(a.transaction_history.get(&999).is_none());
}

#[test]
fn dispute_of_withdrawal_or_with_amount_is_rejected() {
    let mut p = Processor::build();
    assert!(matches!(
        p.process_data(op(TypeOperation::deposit, 1, 1, Some(20_000))),
        OperationStatus::Successful(_)
    ));
    assert!(matches!(
        p.process_data(op(TypeOperation::withdrawal, 1, 2, Some(5_000))),
        OperationStatus::Successful(_)
    ));
    // disputing the withdrawal's id is rejected
    assert_eq!(
        p.process_data(op(TypeOperation::dispute, 1, 2, None)),
        OperationStatus::DisputeError
    );
    // a dispute that carries an amount is rejected too
    assert_eq!(
        p.process_data(op(TypeOperation::dispute, 1, 1, Some(1))),
        OperationStatus::DisputeError
    );
    let a = p.get_account(1).unwrap();
    assert_eq!(a.available_funds(), "1.5000");
    assert_eq!(a.held_funds(), "0.0000");
    assert_eq!(
        a.transaction_history.get(&1).unwrap().type_transaction,
        TransactionType::Deposit
    );
    assert_eq!(
        a.transaction_history.get(&2).unwrap().type_transaction,
        TransactionType::Withdrawal
    );
}

#[test]
fn held_equals_sum_of_disputed_amounts() {
    let mut p = Processor::build();
    p.process_data(op(TypeOperation::deposit, 1, 1, Some(10_000)));
    p.process_data(op(TypeOperation::deposit, 1, 2, Some(20_000)));
    p.process_data(op(TypeOperation::deposit, 1, 3, Some(40_000)));
    p.process_data(op(TypeOperation::dispute, 1, 1, None));
    p.process_data(op(TypeOperation::dispute, 1, 3, None));
    let a = p.get_account(1).unwrap();
    assert_eq!(a.held_funds(), "5.0000");
    assert_eq!(a.available_funds(), "2.0000");
    // resolve one of them: held drops by exactly its amount
    p.process_data(op(TypeOperation::resolve, 1, 1, None));
    let a = p.get_account(1).unwrap();
    assert_eq!(a.held_funds(), "4.0000");
    assert_eq!(a.available_funds(), "3.0000");
}

#[test]
fn conservation_without_disputes() {
    let mut p = Processor::build();
    p.process_data(op(TypeOperation::deposit, 9, 1, Some(12_345)));
    p.process_data(op(TypeOperation::deposit, 9, 2, Some(54_321)));
    p.process_data(op(TypeOperation::withdrawal, 9, 3, Some(11_111)));
    p.process_data(op(TypeOperation::withdrawal, 9, 4, Some(99_999_999)));  // rejected
    p.process_data(op(TypeOperation::withdrawal, 9, 5, Some(5_555)));
    let a = p.get_account(9).unwrap();
    // 12345 + 54321 - 11111 - 5555 == 50000 ticks
    assert_eq!(a.available_funds(), "5.0000");
    assert_eq!(a.held_funds(), "0.0000");
}

#[test]
fn rejected_operations_change_nothing() {
    let mut p = Processor::build();
    p.process_data(op(TypeOperation::deposit, 1, 1, Some(10_000)));
    let before_available = p.get_account(1).unwrap().available_funds();
    let before_held = p.get_account(1).unwrap().held_funds();

    // every rejection kind in turn
    assert_eq!(
        p.process_data(op(TypeOperation::deposit, 1, 2, None)),
        OperationStatus::EmptyAmount
    );
    assert_eq!(
        p.process_data(op(TypeOperation::deposit, 1, 1, Some(1))),
        OperationStatus::RepeatedTransaction
    );
    assert_eq!(
        p.process_data(op(TypeOperation::withdrawal, 1, 3, Some(999_999))),
        OperationStatus::Unknown
    );
    assert_eq!(
        p.process_data(op(TypeOperation::resolve, 1, 1, None)),
        OperationStatus::DisputeError
    );
    assert_eq!(
        p.process_data(op(TypeOperation::chargeback, 1, 1, None)),
        OperationStatus::DisputeError
    );
    assert_eq!(
        p.process_data(op(TypeOperation::dispute, 1, 42, None)),
        OperationStatus::NonExistingTx
    );
    // an operation other than a deposit for an unknown client is dropped
    assert_eq!(
        p.process_data(op(TypeOperation::withdrawal, 77, 50, Some(1))),
        OperationStatus::Unknown
    );
    assert!(p.get_account(77).is_none());

    let a = p.get_account(1).unwrap();
    assert_eq!(a.available_funds(), before_available);
    assert_eq!(a.held_funds(), before_held);
    assert!(!a.locked());
    assert_eq!(a.transaction_history.len(), 1);
}

#[test]
fn resolved_transaction_can_be_disputed_again() {
    let mut p = Processor::build();
    p.process_data(op(TypeOperation::deposit, 1, 1, Some(10_000)));
    assert!(matches!(
        p.process_data(op(TypeOperation::dispute, 1, 1, None)),
        OperationStatus::UpdateTransaction(_, _)
    ));
    assert!(matches!(
        p.process_data(op(TypeOperation::resolve, 1, 1, None)),
        OperationStatus::UpdateTransaction(_, _)
    ));
    // once resolved, the record is a plain deposit again and may be
    // disputed once more
    assert!(matches!(
        p.process_data(op(TypeOperation::dispute, 1, 1, None)),
        OperationStatus::UpdateTransaction(_, _)
    ));
    let a = p.get_account(1).unwrap();
    assert_eq!(a.held_funds(), "1.0000");
    assert_eq!(a.available_funds(), "0.0000");
}
