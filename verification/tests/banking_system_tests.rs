use banking_rs::account::{Account, AccountError, Cents};
use banking_rs::banking_system::{BankingSystem, BankingSystemError, OperationError};

const DEFAULT_NAME: &str = "user";

#[test]
fn test_account_exists() {
    let bs = BankingSystem(Vec::from([Account {
        name: DEFAULT_NAME.to_owned(),
        balance: Cents(20),
    }]));

    assert!(bs.account_exists(DEFAULT_NAME));
    assert!(!bs.account_exists("user1"));
}

#[test]
fn test_get_account_mut() {
    let account = Account {
        name: DEFAULT_NAME.to_owned(),
        balance: Cents(20),
    };
    let mut bs = BankingSystem(Vec::from([account]));

    assert_eq!(bs.get_account_mut(DEFAULT_NAME).unwrap().name, DEFAULT_NAME);
    assert_eq!(
        bs.get_account_mut("user1"),
        Err(BankingSystemError::AccountNotFound(String::from("user1")))
    );
}

#[test]
fn test_create_duplicate_account_name() {
    let mut bs = BankingSystem(Vec::from([Account {
        name: DEFAULT_NAME.to_owned(),
        balance: Cents(20),
    }]));

    assert_eq!(
        bs.create(DEFAULT_NAME, "1000").unwrap_err(),
        OperationError::System(BankingSystemError::DuplicateAccountName(
            DEFAULT_NAME.to_owned()
        ))
    );
}

#[test]
fn test_create_account_success() {
    let mut bs = BankingSystem(Vec::new());
    bs.create(DEFAULT_NAME, "20").unwrap();

    assert!(bs.account_exists(DEFAULT_NAME));
}

#[test]
fn test_create_account_failure() {
    let mut bs = BankingSystem(Vec::new());

    assert_eq!(
        bs.create("", "20").unwrap_err(),
        OperationError::Account(AccountError::EmptyAccountName)
    );
}

#[test]
fn test_deposit_success() {
    let mut bs = BankingSystem(Vec::from([Account {
        name: DEFAULT_NAME.to_owned(),
        balance: Cents(20),
    }]));
    bs.deposit(DEFAULT_NAME, "20").unwrap();

    assert_eq!(
        bs.get_account_mut(DEFAULT_NAME).unwrap().balance,
        Cents(2020)
    );
}

#[test]
fn test_deposit_failure() {
    let mut bs = BankingSystem(Vec::from([Account {
        name: DEFAULT_NAME.to_owned(),
        balance: Cents(u64::MAX),
    }]));

    assert_eq!(
        bs.deposit(DEFAULT_NAME, "2").unwrap_err(),
        OperationError::Account(AccountError::BalanceOverflow {
            name: DEFAULT_NAME.to_owned(),
            deposit_amount: Cents(200)
        })
    );
}

#[test]
fn test_withdraw_success() {
    let mut bs = BankingSystem(Vec::from([Account {
        name: DEFAULT_NAME.to_owned(),
        balance: Cents(2000),
    }]));
    bs.withdraw(DEFAULT_NAME, "20").unwrap();

    assert_eq!(bs.get_account_mut(DEFAULT_NAME).unwrap().balance, Cents(0));
}

#[test]
fn test_withdraw_failure() {
    let mut bs = BankingSystem(Vec::from([Account {
        name: DEFAULT_NAME.to_owned(),
        balance: Cents(2),
    }]));

    assert_eq!(
        bs.withdraw(DEFAULT_NAME, "2").unwrap_err(),
        OperationError::Account(AccountError::AccountOverdraft {
            name: DEFAULT_NAME.to_owned(),
            balance: Cents(2),
            withdraw_amount: Cents(200)
        })
    );
}

#[test]
fn test_transfer_success() {
    let mut bs = BankingSystem(Vec::from([
        Account {
            name: String::from("user1"),
            balance: Cents(2000),
        },
        Account {
            name: String::from("user2"),
            balance: Cents(1000),
        },
    ]));
    bs.transfer("user1", "user2", "10").unwrap();

    assert_eq!(bs.get_account_mut("user1").unwrap().balance, Cents(1000));
    assert_eq!(bs.get_account_mut("user2").unwrap().balance, Cents(2000));
}

#[test]
fn test_transfer_failure() {
    let mut bs = BankingSystem(Vec::from([
        Account {
            name: String::from("user1"),
            balance: Cents(2000),
        },
        Account {
            name: String::from("user2"),
            balance: Cents(u64::MAX),
        },
    ]));

    // test failed withdrawal
    assert_eq!(
        bs.transfer("user1", "user2", "30").unwrap_err(),
        OperationError::Account(AccountError::AccountOverdraft {
            name: String::from("user1"),
            balance: Cents(2000),
            withdraw_amount: Cents(3000)
        })
    );
    assert_eq!(bs.get_account_mut("user1").unwrap().balance, Cents(2000));
    assert_eq!(
        bs.get_account_mut("user2").unwrap().balance,
        Cents(u64::MAX)
    );

    // test failed deposit
    assert_eq!(
        bs.transfer("user1", "user2", "10").unwrap_err(),
        OperationError::Account(AccountError::BalanceOverflow {
            name: String::from("user2"),
            deposit_amount: Cents(1000)
        })
    );
    assert_eq!(bs.get_account_mut("user1").unwrap().balance, Cents(2000));
    assert_eq!(
        bs.get_account_mut("user2").unwrap().balance,
        Cents(u64::MAX)
    );
}
