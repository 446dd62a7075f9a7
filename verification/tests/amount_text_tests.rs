use std::cmp::Ordering;

use banking_rs::account::{Account, AccountError, Cents};
use banking_rs::banking_system::BankingSystemError;

fn invalid(text: &str) -> Result<Cents, BankingSystemError> {
    Err(BankingSystemError::InvalidAmount(text.to_owned()))
}

fn too_large(text: &str) -> Result<Cents, BankingSystemError> {
    Err(BankingSystemError::AmountOverflow(text.to_owned()))
}

#[test]
fn written_amounts_read_back() {
    let values = [
        0,
        1,
        9,
        10,
        11,
        99,
        100,
        101,
        4023,
        999_999,
        1_000_000,
        12_345_678_901_234,
        u64::MAX - 16,
        u64::MAX - 15,
        u64::MAX - 1,
        u64::MAX,
    ];
    for v in values {
        let text = Cents(v).to_decimal_string();
        assert_eq!(Cents::from_str(text.as_str()), Ok(Cents(v)), "{}", text);
    }
}

#[test]
fn decimal_string_has_whole_units_and_two_digits() {
    assert_eq!(Cents(0).to_decimal_string(), "0.00");
    assert_eq!(Cents(5).to_decimal_string(), "0.05");
    assert_eq!(Cents(50).to_decimal_string(), "0.50");
    assert_eq!(Cents(100).to_decimal_string(), "1.00");
    assert_eq!(Cents(1234).to_decimal_string(), "12.34");
    assert_eq!(Cents(100_000_001).to_decimal_string(), "1000000.01");
    assert_eq!(Cents(u64::MAX).to_decimal_string(), "184467440737095516.15");
}

#[test]
fn display_string_is_the_sign_and_the_decimal_string() {
    for v in [0, 7, 70, 700, 7007, u64::MAX] {
        assert_eq!(
            Cents(v).to_string(),
            format!("${}", Cents(v).to_decimal_string())
        );
    }
    assert_eq!(Cents(u64::MAX).to_string(), "$184467440737095516.15");
}

#[test]
fn a_single_decimal_digit_counts_tenths() {
    assert_eq!(Cents::from_str(".1"), Ok(Cents(10)));
    assert_eq!(Cents::from_str(".02"), Ok(Cents(2)));
    assert_eq!(Cents::from_str("1.00"), Ok(Cents(100)));
    assert_eq!(Cents::from_str("40.2"), Ok(Cents(4020)));
    assert_eq!(Cents::from_str("40.20"), Ok(Cents(4020)));
    assert_eq!(Cents::from_str("40.2"), Cents::from_str("40.20"));
    assert_eq!(Cents::from_str("0.9"), Ok(Cents(90)));
    assert_eq!(Cents::from_str("0.09"), Ok(Cents(9)));
}

#[test]
fn leading_zeros_do_not_count() {
    assert_eq!(Cents::from_str("007"), Ok(Cents(700)));
    assert_eq!(Cents::from_str("000.50"), Ok(Cents(50)));
    assert_eq!(Cents::from_str("00"), Ok(Cents(0)));
    assert_eq!(
        Cents::from_str("0000000000000000000000000000000000000001"),
        Ok(Cents(100))
    );
    assert_eq!(
        Cents::from_str("0000000000000000000000184467440737095516.15"),
        Ok(Cents(u64::MAX))
    );
}

#[test]
fn the_largest_amount_is_read_and_the_next_is_not() {
    assert_eq!(
        Cents::from_str("184467440737095516.15"),
        Ok(Cents(u64::MAX))
    );
    assert_eq!(
        Cents::from_str("184467440737095516"),
        Ok(Cents(u64::MAX - 15))
    );
    assert_eq!(
        Cents::from_str("184467440737095516.1"),
        Ok(Cents(u64::MAX - 5))
    );
    assert_eq!(
        Cents::from_str("184467440737095516.16"),
        too_large("184467440737095516.16")
    );
    assert_eq!(
        Cents::from_str("184467440737095516.2"),
        too_large("184467440737095516.2")
    );
    assert_eq!(
        Cents::from_str("184467440737095517"),
        too_large("184467440737095517")
    );
    assert_eq!(
        Cents::from_str("184467440737095517.0"),
        too_large("184467440737095517.0")
    );
}

#[test]
fn whole_units_beyond_sixty_four_bits_are_too_large() {
    assert_eq!(
        Cents::from_str("18446744073709551616"),
        too_large("18446744073709551616")
    );
    assert_eq!(
        Cents::from_str("99999999999999999999"),
        too_large("99999999999999999999")
    );
    assert_eq!(
        Cents::from_str("100000000000000000000000000000000000.5"),
        too_large("100000000000000000000000000000000000.5")
    );
    for decimal in ["", ".0", ".00", ".1", ".99"] {
        let text = u64::MAX.to_string() + decimal;
        assert_eq!(Cents::from_str(text.as_str()), too_large(text.as_str()));
    }
}

#[test]
fn a_malformed_text_is_invalid_however_large() {
    assert_eq!(
        Cents::from_str("99999999999999999999x"),
        invalid("99999999999999999999x")
    );
    assert_eq!(
        Cents::from_str("99999999999999999999."),
        invalid("99999999999999999999.")
    );
    assert_eq!(
        Cents::from_str("99999999999999999999.123"),
        invalid("99999999999999999999.123")
    );
    assert_eq!(
        Cents::from_str("-99999999999999999999"),
        invalid("-99999999999999999999")
    );
}

#[test]
fn texts_outside_the_grammar_are_invalid() {
    let texts = [
        "", ".", "..", "-", "-1", "1-", "1-2", "--1", "-.5", ".-5", "1.-1", "+", "+5", "+5.0",
        ".+5", "5 ", " 5", "5 .0", "1,5", "1,50", "1e2", "0x10", "1_000", "$1.00", "1.", "12.",
        "1.234", ".123", "1.2.", "1..2", "1.2.3", "..1", "1.2a", "1.a", "a", "a.b", "١", "1.٣",
        "１２", "1.5\n", "\t1", "½", "1.½",
    ];
    for text in texts {
        assert_eq!(Cents::from_str(text), invalid(text), "{:?}", text);
    }
}

#[test]
fn amounts_compare_by_their_minor_units() {
    assert_eq!(Cents(5), Cents(5));
    assert_ne!(Cents(5), Cents(6));
    assert!(Cents(5) < Cents(6));
    assert!(Cents(100) > Cents(99));
    assert!(Cents(0) <= Cents(0));
    assert_eq!(
        Cents::from_str("1").unwrap().max(Cents::from_str(".99").unwrap()),
        Cents(100)
    );
}

#[test]
fn amounts_are_ordered_as_their_minor_units() {
    assert_eq!(Cents(5).partial_cmp(&Cents(6)), Some(Ordering::Less));
    assert_eq!(Cents(6).partial_cmp(&Cents(5)), Some(Ordering::Greater));
    assert_eq!(Cents(6).partial_cmp(&Cents(6)), Some(Ordering::Equal));
    assert_eq!(Cents(5).cmp(&Cents(6)), Ordering::Less);
    assert_eq!(Cents(u64::MAX).cmp(&Cents(0)), Ordering::Greater);
    let mut amounts = vec![Cents(30), Cents(0), Cents(u64::MAX), Cents(7)];
    amounts.sort();
    assert_eq!(amounts, vec![Cents(0), Cents(7), Cents(30), Cents(u64::MAX)]);
}

#[test]
fn a_cloned_account_is_the_same_account() {
    let account = Account::new(String::from("alice"), Cents(1250)).unwrap();
    let mut copy = account.clone();
    assert_eq!(copy, account);
    copy.deposit(Cents(1)).unwrap();
    assert_eq!(account.balance, Cents(1250));
    assert_eq!(copy.balance, Cents(1251));
}

#[test]
fn checked_sum_and_difference() {
    assert_eq!(Cents(20).checked_add(Cents(22)), Some(Cents(42)));
    assert_eq!(Cents(u64::MAX - 1).checked_add(Cents(1)), Some(Cents(u64::MAX)));
    assert_eq!(Cents(u64::MAX).checked_add(Cents(0)), Some(Cents(u64::MAX)));
    assert_eq!(Cents(u64::MAX).checked_add(Cents(1)), None);
    assert_eq!(Cents(u64::MAX).checked_add(Cents(u64::MAX)), None);
    assert_eq!(Cents(42).checked_sub(Cents(22)), Some(Cents(20)));
    assert_eq!(Cents(42).checked_sub(Cents(42)), Some(Cents(0)));
    assert_eq!(Cents(42).checked_sub(Cents(43)), None);
    assert_eq!(Cents(0).checked_sub(Cents(u64::MAX)), None);
}

#[test]
fn a_new_account_keeps_name_and_balance() {
    let account = Account::new(String::from("alice"), Cents(1250)).unwrap();
    assert_eq!(account.name, "alice");
    assert_eq!(account.balance, Cents(1250));
    assert_eq!(
        account,
        Account {
            name: String::from("alice"),
            balance: Cents(1250)
        }
    );
}

#[test]
fn an_account_is_written_as_one_line() {
    let account = Account::new(String::from("alice"), Cents(20)).unwrap();
    assert_eq!(account.to_string(), "name: alice\tbalance: $0.20");
    let account = Account::new(String::from("b o b"), Cents(u64::MAX)).unwrap();
    assert_eq!(
        account.to_string(),
        "name: b o b\tbalance: $184467440737095516.15"
    );
}

#[test]
fn a_refused_deposit_leaves_the_account() {
    let mut account = Account::new(String::from("alice"), Cents(u64::MAX - 5)).unwrap();
    assert_eq!(
        account.deposit(Cents(6)),
        Err(AccountError::BalanceOverflow {
            name: String::from("alice"),
            deposit_amount: Cents(6)
        })
    );
    assert_eq!(account.balance, Cents(u64::MAX - 5));
    assert_eq!(account.name, "alice");
    assert_eq!(account.deposit(Cents(5)).unwrap().balance, Cents(u64::MAX));
    assert_eq!(account.balance, Cents(u64::MAX));
}

#[test]
fn a_refused_withdrawal_leaves_the_account() {
    let mut account = Account::new(String::from("alice"), Cents(500)).unwrap();
    assert_eq!(
        account.withdraw(Cents(501)),
        Err(AccountError::AccountOverdraft {
            name: String::from("alice"),
            balance: Cents(500),
            withdraw_amount: Cents(501)
        })
    );
    assert_eq!(account.balance, Cents(500));
    assert_eq!(account.name, "alice");
}

#[test]
fn the_whole_balance_can_be_withdrawn() {
    let mut account = Account::new(String::from("alice"), Cents(500)).unwrap();
    assert_eq!(account.withdraw(Cents(500)).unwrap().balance, Cents(0));
    assert_eq!(account.balance, Cents(0));
    assert_eq!(account.withdraw(Cents(0)).unwrap().balance, Cents(0));
    assert_eq!(
        account.withdraw(Cents(1)),
        Err(AccountError::AccountOverdraft {
            name: String::from("alice"),
            balance: Cents(0),
            withdraw_amount: Cents(1)
        })
    );
}

#[test]
fn deposits_and_withdrawals_follow_one_another() {
    let mut account = Account::new(String::from("alice"), Cents(0)).unwrap();
    account
        .deposit(Cents(100))
        .unwrap()
        .deposit(Cents(50))
        .unwrap()
        .withdraw(Cents(30))
        .unwrap();
    assert_eq!(account.balance, Cents(120));
}
