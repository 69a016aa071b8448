use bank_ledger::bank_repo::InMemoryBankService;
use bank_ledger::domain::{Amount, Currency, Transfer};
use bank_ledger::errors::BankError;

fn usd_transfer(from: &str, to: &str, value: u64) -> Transfer {
    Transfer {
        amount: Amount { value, currency: Currency::Usd },
        from_account: from.to_string(),
        to_account: to.to_string(),
    }
}

#[test]
fn open_account_assigns_requested_fields() {
    let mut bank = InMemoryBankService::new();
    let account = bank
        .new_client("Ivan".to_string(), 250, Currency::Rub)
        .expect("opening a fresh owner must succeed");
    assert_eq!(account.owner_name, "Ivan");
    assert_eq!(account.balance, 250);
    assert_eq!(account.currency, Currency::Rub);
}

#[test]
fn open_account_assigns_distinct_ids() {
    let mut bank = InMemoryBankService::new();
    let a = bank.new_client("Ivan".to_string(), 0, Currency::Usd).unwrap();
    let b = bank.new_client("Maria".to_string(), 0, Currency::Usd).unwrap();
    assert_ne!(a.id, b.id);
}

#[test]
fn duplicate_owner_is_rejected_case_insensitively() {
    let mut bank = InMemoryBankService::new();
    bank.new_client("Ivan".to_string(), 100, Currency::Usd).unwrap();
    let upper = bank.new_client("IVAN".to_string(), 5, Currency::Usd);
    assert!(matches!(upper, Err(BankError::Database(_))));
    let lower = bank.new_client("ivan".to_string(), 5, Currency::Usd);
    assert!(matches!(lower, Err(BankError::Database(_))));
    assert_eq!(bank.clients_all().len(), 1);
}

#[test]
fn lookup_is_case_insensitive() {
    let mut bank = InMemoryBankService::new();
    bank.new_client("Alice".to_string(), 42, Currency::Eur).unwrap();
    let found = bank.get_client("aLiCe").expect("case-folded lookup must hit");
    assert_eq!(found.owner_name, "Alice");
    assert_eq!(found.balance, 42);
}

#[test]
fn lookup_of_unknown_owner_is_not_found() {
    let bank = InMemoryBankService::new();
    let missing = bank.get_client("Nobody");
    assert!(matches!(missing, Err(BankError::NotFound(_))));
}

#[test]
fn clients_all_returns_a_snapshot_of_every_account() {
    let mut bank = InMemoryBankService::new();
    bank.new_client("Alice".to_string(), 1, Currency::Usd).unwrap();
    bank.new_client("Bob".to_string(), 2, Currency::Eur).unwrap();
    let all = bank.clients_all();
    assert_eq!(all.len(), 2);
    let names: Vec<&str> = all.iter().map(|a| a.owner_name.as_str()).collect();
    assert!(names.contains(&"Alice"));
    assert!(names.contains(&"Bob"));
}

#[test]
fn transfer_moves_the_exact_amount() {
    let mut bank = InMemoryBankService::new();
    bank.new_client("Alice".to_string(), 1000, Currency::Usd).unwrap();
    bank.new_client("Bob".to_string(), 0, Currency::Usd).unwrap();

    bank.transfer(usd_transfer("Alice", "Bob", 300)).expect("transfer must succeed");

    assert_eq!(bank.get_client("alice").unwrap().balance, 700);
    assert_eq!(bank.get_client("bob").unwrap().balance, 300);
}

#[test]
fn transfer_conserves_the_total_balance() {
    let mut bank = InMemoryBankService::new();
    bank.new_client("Alice".to_string(), 900, Currency::Usd).unwrap();
    bank.new_client("Bob".to_string(), 100, Currency::Usd).unwrap();
    let before: u64 = bank.clients_all().iter().map(|a| a.balance).sum();

    bank.transfer(usd_transfer("Alice", "Bob", 450)).unwrap();

    let after: u64 = bank.clients_all().iter().map(|a| a.balance).sum();
    assert_eq!(before, after);
    assert_eq!(bank.get_client("Alice").unwrap().balance, 450);
    assert_eq!(bank.get_client("Bob").unwrap().balance, 550);
}

#[test]
fn transfer_to_missing_owner_is_not_found_and_changes_nothing() {
    let mut bank = InMemoryBankService::new();
    bank.new_client("Alice".to_string(), 100, Currency::Usd).unwrap();

    let result = bank.transfer(usd_transfer("Alice", "Bob", 500));

    assert!(matches!(result, Err(BankError::NotFound(_))));
    assert_eq!(bank.get_client("Alice").unwrap().balance, 100);
}

#[test]
fn transfer_from_missing_owner_is_not_found() {
    let mut bank = InMemoryBankService::new();
    bank.new_client("Bob".to_string(), 100, Currency::Usd).unwrap();

    let result = bank.transfer(usd_transfer("Ghost", "Bob", 1));

    assert!(matches!(result, Err(BankError::NotFound(_))));
    assert_eq!(bank.get_client("Bob").unwrap().balance, 100);
}

#[test]
fn currency_mismatch_fails_validation_and_changes_nothing() {
    let mut bank = InMemoryBankService::new();
    bank.new_client("Alice".to_string(), 100, Currency::Usd).unwrap();
    bank.new_client("Carol".to_string(), 50, Currency::Eur).unwrap();

    let result = bank.transfer(usd_transfer("Alice", "Carol", 10));

    assert!(matches!(result, Err(BankError::Validation(_))));
    assert_eq!(bank.get_client("Alice").unwrap().balance, 100);
    assert_eq!(bank.get_client("Carol").unwrap().balance, 50);
}

#[test]
fn insufficient_funds_fails_and_leaves_both_balances_unchanged() {
    let mut bank = InMemoryBankService::new();
    bank.new_client("Alice".to_string(), 100, Currency::Usd).unwrap();
    bank.new_client("Bob".to_string(), 7, Currency::Usd).unwrap();

    let result = bank.transfer(usd_transfer("Alice", "Bob", 101));

    assert!(matches!(result, Err(BankError::InsufficientFunds)));
    assert_eq!(bank.get_client("Alice").unwrap().balance, 100);
    assert_eq!(bank.get_client("Bob").unwrap().balance, 7);
}

#[test]
fn self_transfer_fails_validation_whatever_the_amount() {
    let mut bank = InMemoryBankService::new();
    bank.new_client("Ivan".to_string(), 100, Currency::Usd).unwrap();

    let zero = bank.transfer(usd_transfer("Ivan", "Ivan", 0));
    assert!(matches!(zero, Err(BankError::Validation(_))));

    // the two names fold to the same account
    let folded = bank.transfer(usd_transfer("ivan", "IVAN", 10));
    assert!(matches!(folded, Err(BankError::Validation(_))));

    assert_eq!(bank.get_client("Ivan").unwrap().balance, 100);
}

#[test]
fn credit_overflow_fails_validation_and_changes_nothing() {
    let mut bank = InMemoryBankService::new();
    bank.new_client("Alice".to_string(), 10, Currency::Usd).unwrap();
    bank.new_client("Rich".to_string(), u64::MAX, Currency::Usd).unwrap();

    let result = bank.transfer(usd_transfer("Alice", "Rich", 1));

    assert!(matches!(result, Err(BankError::Validation(_))));
    assert_eq!(bank.get_client("Alice").unwrap().balance, 10);
    assert_eq!(bank.get_client("Rich").unwrap().balance, u64::MAX);
}

#[test]
fn n_transfers_of_the_whole_balance_all_succeed_then_stop() {
    let n: u64 = 10;
    let amount: u64 = 25;
    let mut bank = InMemoryBankService::new();
    bank.new_client("Source".to_string(), n * amount, Currency::Usd).unwrap();
    bank.new_client("Sink".to_string(), 0, Currency::Usd).unwrap();

    let mut successes = 0u64;
    for _ in 0..n {
        if bank.transfer(usd_transfer("Source", "Sink", amount)).is_ok() {
            successes += 1;
        }
    }
    assert_eq!(successes, n);
    assert_eq!(bank.get_client("Source").unwrap().balance, 0);
    assert_eq!(bank.get_client("Sink").unwrap().balance, n * amount);

    let one_more = bank.transfer(usd_transfer("Source", "Sink", amount));
    assert!(matches!(one_more, Err(BankError::InsufficientFunds)));
}

#[test]
fn is_owner_exists_sees_stored_owners_only() {
    let mut bank = InMemoryBankService::new();
    assert!(!bank.is_owner_exists("Alice"));
    bank.new_client("Alice".to_string(), 0, Currency::Usd).unwrap();
    assert!(bank.is_owner_exists("Alice"));
    assert!(bank.is_owner_exists("ALICE"));
    assert!(!bank.is_owner_exists("Bob"));
}

#[test]
fn open_account_at_pins_the_creation_time() {
    let mut bank = InMemoryBankService::new();
    let account = bank
        .open_account_at("Alice".to_string(), 5, Currency::Usd, 1700000000)
        .unwrap();
    assert_eq!(account.created_at, 1700000000);
}

#[test]
fn transfers_to_distinct_destinations_drain_the_source() {
    let n: u64 = 5;
    let amount: u64 = 20;
    let mut bank = InMemoryBankService::new();
    bank.new_client("Source".to_string(), n * amount, Currency::Usd).unwrap();
    let sinks = ["Anna", "Boris", "Clara", "Dmitri", "Elena"];
    for sink in sinks {
        bank.new_client(sink.to_string(), 1, Currency::Usd).unwrap();
    }

    for sink in sinks {
        bank.transfer(usd_transfer("Source", sink, amount)).expect("each fan-out leg must succeed");
    }

    assert_eq!(bank.get_client("Source").unwrap().balance, 0);
    for sink in sinks {
        assert_eq!(bank.get_client(sink).unwrap().balance, 1 + amount);
    }
}
