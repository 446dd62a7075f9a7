//! Amounts of money and the accounts that hold them.

use std::cmp::Ordering;
use vstd::prelude::*;
use vstd::std_specs::cmp::PartialOrdSpecImpl;
use vstd::string::*;
use crate::banking_system::{BankingSystemError, BankingSystemErrorView};
use crate::decimal::{
    amount_text, amount_value, decimal_part, decimal_value, digits_value, fraction_digits_value,
    integer_part, is_amount, is_digit, lemma_amount_grammar, lemma_amount_text_round_trip,
    push_decimal, push_digit, scan_amount,
};

verus! {

/// An exact amount of money, counted in minor units (hundredths). Amounts
/// are equal, and ordered, as their numbers of minor units are.
#[derive(Debug, Clone, Copy, PartialEq, Eq, Ord, Structural)]
pub struct Cents(pub u64);

impl View for Cents {
    type V = nat;

    open spec fn view(&self) -> nat {
        self.0 as nat
    }
}

impl PartialOrd for Cents {
    /// Compares two amounts by their numbers of minor units.
    fn partial_cmp(&self, other: &Cents) -> (r: Option<Ordering>) {
        if self.0 < other.0 {
            Some(Ordering::Less)
        } else if self.0 > other.0 {
            Some(Ordering::Greater)
        } else {
            Some(Ordering::Equal)
        }
    }
}

impl PartialOrdSpecImpl for Cents {
    open spec fn obeys_partial_cmp_spec() -> bool {
        true
    }

    open spec fn partial_cmp_spec(&self, other: &Cents) -> Option<Ordering> {
        if self.0 < other.0 {
            Some(Ordering::Less)
        } else if self.0 > other.0 {
            Some(Ordering::Greater)
        } else {
            Some(Ordering::Equal)
        }
    }
}

/// A result with its value and its error each seen as what they stand for.
pub open spec fn result_view<T: View, E: View>(r: Result<T, E>) -> Result<T::V, E::V> {
    match r {
        Ok(value) => Ok(value@),
        Err(e) => Err(e@),
    }
}

/// What reading an amount text gives: the minor units it denotes, or why it
/// denotes none that can be held.
pub open spec fn parse_amount(text: Seq<char>) -> Result<nat, BankingSystemErrorView> {
    if !is_amount(text) {
        Err(BankingSystemErrorView::InvalidAmount(text))
    } else if amount_value(text) > u64::MAX {
        Err(BankingSystemErrorView::AmountOverflow(text))
    } else {
        Ok(amount_value(text))
    }
}

/// The text that an amount is shown as: the currency sign and the amount text.
pub open spec fn display_text(v: nat) -> Seq<char> {
    seq!['$'] + amount_text(v)
}

/// Reading the text that an amount is written as gives the amount back.
pub proof fn lemma_format_parse_round_trip(v: nat)
    requires
        v <= u64::MAX,
    ensures
        parse_amount(amount_text(v)) == Ok::<nat, BankingSystemErrorView>(v),
{
    lemma_amount_text_round_trip(v);
}

/// A text is refused as no amount where it holds a minus sign or any other
/// character that is neither a digit nor the separator, more than one
/// separator, or a separator with no digit or more than two characters after
/// it.
pub proof fn lemma_parse_rejects_malformed(text: Seq<char>)
    requires
        ({
            ||| text.contains('-')
            ||| exists|i: int| 0 <= i < text.len() && !is_digit(text[i]) && text[i] != '.'
            ||| exists|i: int, j: int| 0 <= i < j < text.len() && text[i] == '.' && text[j] == '.'
            ||| exists|i: int|
                0 <= i < text.len() && text[i] == '.' && !(1 <= text.len() - 1 - i <= 2)
        }),
    ensures
        parse_amount(text) == Err::<nat, BankingSystemErrorView>(
            BankingSystemErrorView::InvalidAmount(text),
        ),
{
    lemma_amount_grammar(text);
}

/// An amount whose whole units alone are more than can be held is refused as
/// too large, whatever stands after the separator.
pub proof fn lemma_parse_overflow(text: Seq<char>)
    requires
        is_amount(text),
        decimal_value(integer_part(text)) * 100 > u64::MAX,
    ensures
        parse_amount(text) == Err::<nat, BankingSystemErrorView>(
            BankingSystemErrorView::AmountOverflow(text),
        ),
{
}

impl Cents {
    /// Reads an amount from its decimal text.
    pub fn from_str(s: &str) -> (r: Result<Cents, BankingSystemError>)
        ensures
            result_view(r) == parse_amount(s@),
    {
        let int_len = match scan_amount(s) {
            Some(k) => k,
            None => return Err(BankingSystemError::InvalidAmount(s.to_owned())),
        };
        assert(s@.take(int_len as int) == integer_part(s@));
        let hundredths: u64 = if int_len < s.unicode_len() {
            fraction_digits_value(s, int_len + 1)
        } else {
            0
        };
        let units = match digits_value(s, 0, int_len) {
            Some(units) => units,
            None => return Err(BankingSystemError::AmountOverflow(s.to_owned())),
        };
        match units.checked_mul(100) {
            Some(scaled) => match scaled.checked_add(hundredths) {
                Some(total) => Ok(Cents(total)),
                None => Err(BankingSystemError::AmountOverflow(s.to_owned())),
            },
            None => Err(BankingSystemError::AmountOverflow(s.to_owned())),
        }
    }

    /// Writes the amount as decimal text: the whole units, the separator and
    /// two digits of hundredths.
    pub fn to_decimal_string(&self) -> (r: String)
        ensures
            r@ == amount_text(self@),
            parse_amount(r@) == Ok::<nat, BankingSystemErrorView>(self@),
    {
        proof {
            lemma_format_parse_round_trip(self@);
            reveal_strlit(".");
        }
        let mut out = String::new();
        push_decimal(&mut out, self.0 / 100);
        out.append(".");
        push_digit(&mut out, self.0 % 100 / 10);
        push_digit(&mut out, self.0 % 10);
        out
    }

    /// Writes the amount for display, with the currency sign in front.
    pub fn to_string(&self) -> (r: String)
        ensures
            r@ == display_text(self@),
    {
        proof {
            reveal_strlit("$");
        }
        let mut out = "$".to_owned();
        out.append(self.to_decimal_string().as_str());
        out
    }

    /// The sum of two amounts, where it can be held.
    pub fn checked_add(self, other: Cents) -> (r: Option<Cents>)
        ensures
            match r {
                Some(sum) => sum@ == self@ + other@,
                None => self@ + other@ > u64::MAX,
            },
    {
        match self.0.checked_add(other.0) {
            Some(sum) => Some(Cents(sum)),
            None => None,
        }
    }

    /// What is left of an amount when another is taken from it, where that
    /// much is there.
    pub fn checked_sub(self, other: Cents) -> (r: Option<Cents>)
        ensures
            match r {
                Some(rest) => rest@ == self@ - other@,
                None => self@ < other@,
            },
    {
        match self.0.checked_sub(other.0) {
            Some(rest) => Some(Cents(rest)),
            None => None,
        }
    }
}

/// Why an account could not be made or refused an operation.
#[derive(Debug, PartialEq)]
pub enum AccountError {
    /// The account holds less than was to be withdrawn.
    AccountOverdraft { name: String, balance: Cents, withdraw_amount: Cents },
    /// The account cannot hold what it has and the deposit together.
    BalanceOverflow { name: String, deposit_amount: Cents },
    /// An account needs a name.
    EmptyAccountName,
}

impl Clone for AccountError {
    /// A copy that says the same.
    fn clone(&self) -> (r: Self)
        ensures
            r == *self,
    {
        match self {
            AccountError::AccountOverdraft { name, balance, withdraw_amount } => {
                AccountError::AccountOverdraft {
                    name: name.clone(),
                    balance: *balance,
                    withdraw_amount: *withdraw_amount,
                }
            },
            AccountError::BalanceOverflow { name, deposit_amount } => {
                AccountError::BalanceOverflow { name: name.clone(), deposit_amount: *deposit_amount }
            },
            AccountError::EmptyAccountName => AccountError::EmptyAccountName,
        }
    }
}

/// What an `AccountError` says, with names as sequences of characters and
/// amounts as numbers.
pub enum AccountErrorView {
    AccountOverdraft { name: Seq<char>, balance: nat, withdraw_amount: nat },
    BalanceOverflow { name: Seq<char>, deposit_amount: nat },
    EmptyAccountName,
}

impl View for AccountError {
    type V = AccountErrorView;

    open spec fn view(&self) -> AccountErrorView {
        match self {
            AccountError::AccountOverdraft { name, balance, withdraw_amount } => {
                AccountErrorView::AccountOverdraft {
                    name: name@,
                    balance: balance@,
                    withdraw_amount: withdraw_amount@,
                }
            },
            AccountError::BalanceOverflow { name, deposit_amount } => {
                AccountErrorView::BalanceOverflow { name: name@, deposit_amount: deposit_amount@ }
            },
            AccountError::EmptyAccountName => AccountErrorView::EmptyAccountName,
        }
    }
}

/// A named balance.
#[derive(Debug, PartialEq, Eq)]
pub struct Account {
    /// What the account is called; never empty in an account made by `new`.
    pub name: String,
    /// What the account holds.
    pub balance: Cents,
}

impl Clone for Account {
    /// A copy with the same name and balance.
    fn clone(&self) -> (r: Self)
        ensures
            r == *self,
    {
        Account { name: self.name.clone(), balance: self.balance }
    }
}

/// An account as its name's characters and its balance in minor units.
pub struct AccountView {
    pub name: Seq<char>,
    pub balance: nat,
}

impl View for Account {
    type V = AccountView;

    open spec fn view(&self) -> AccountView {
        AccountView { name: self.name@, balance: self.balance@ }
    }
}

/// The line that an account is shown as.
pub open spec fn account_line(account: AccountView) -> Seq<char> {
    "name: "@ + account.name + "\tbalance: "@ + display_text(account.balance)
}

impl Account {
    /// The account has a name.
    pub open spec fn well_formed(&self) -> bool {
        self.name@.len() > 0
    }

    /// A new account; its name must not be empty.
    pub fn new(name: String, balance: Cents) -> (r: Result<Self, AccountError>)
        ensures
            match r {
                Ok(account) => {
                    &&& name@.len() > 0
                    &&& account.name == name
                    &&& account.balance == balance
                    &&& account.well_formed()
                },
                Err(e) => name@.len() == 0 && e == AccountError::EmptyAccountName,
            },
    {
        if name.as_str().is_empty() {
            return Err(AccountError::EmptyAccountName);
        }
        Ok(Self { name, balance })
    }

    /// Adds `amount` to the balance, unless the sum cannot be held; then the
    /// account stays as it was.
    pub fn deposit(&mut self, amount: Cents) -> (r: Result<&mut Self, AccountError>)
        ensures
            match r {
                Ok(account) => {
                    &&& old(self).balance@ + amount@ <= u64::MAX
                    &&& account.name == old(self).name
                    &&& account.balance@ == old(self).balance@ + amount@
                    &&& account.well_formed() == old(self).well_formed()
                    &&& *final(self) == *final(account)
                },
                Err(e) => {
                    &&& old(self).balance@ + amount@ > u64::MAX
                    &&& e@ == (AccountErrorView::BalanceOverflow {
                        name: old(self).name@,
                        deposit_amount: amount@,
                    })
                    &&& *final(self) == *old(self)
                },
            },
    {
        match self.balance.checked_add(amount) {
            Some(sum) => {
                self.balance = sum;
                Ok(self)
            },
            None => Err(
                AccountError::BalanceOverflow { name: self.name.clone(), deposit_amount: amount },
            ),
        }
    }

    /// Takes `amount` from the balance, unless the account holds less; then
    /// the account stays as it was.
    pub fn withdraw(&mut self, amount: Cents) -> (r: Result<&mut Self, AccountError>)
        ensures
            match r {
                Ok(account) => {
                    &&& amount@ <= old(self).balance@
                    &&& account.name == old(self).name
                    &&& account.balance@ == old(self).balance@ - amount@
                    &&& account.well_formed() == old(self).well_formed()
                    &&& *final(self) == *final(account)
                },
                Err(e) => {
                    &&& amount@ > old(self).balance@
                    &&& e@ == (AccountErrorView::AccountOverdraft {
                        name: old(self).name@,
                        balance: old(self).balance@,
                        withdraw_amount: amount@,
                    })
                    &&& *final(self) == *old(self)
                },
            },
    {
        match self.balance.checked_sub(amount) {
            Some(rest) => {
                self.balance = rest;
                Ok(self)
            },
            None => Err(
                AccountError::AccountOverdraft {
                    name: self.name.clone(),
                    balance: self.balance,
                    withdraw_amount: amount,
                },
            ),
        }
    }

    /// Writes the account as one line: its name and its balance.
    pub fn to_string(&self) -> (r: String)
        ensures
            r@ == account_line(self@),
    {
        let mut out = "name: ".to_owned();
        out.append(self.name.as_str());
        out.append("\tbalance: ");
        out.append(self.balance.to_string().as_str());
        out
    }
}

} // verus!
