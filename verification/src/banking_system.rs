//! The banking system: the ordered collection of accounts and the operations
//! on it.

use vstd::prelude::*;
use crate::account::{
    account_line, result_view, Account, AccountError, AccountErrorView, AccountView, Cents,
};
use crate::ledger::{
    account_index, after_create, after_deposit, after_transfer, after_withdraw, create_result,
    deposit_result, has_account, is_first_named, lemma_names_stay_valid,
    lemma_transfer_keeps_names_valid, names_valid, transfer_result, withdraw_result,
};

verus! {

/// Why the banking system refused a request before any account was asked.
#[derive(Debug, PartialEq)]
pub enum BankingSystemError {
    /// An account with this name already exists.
    DuplicateAccountName(String),
    /// No account has this name.
    AccountNotFound(String),
    /// The text is no amount.
    InvalidAmount(String),
    /// The text is an amount too large to hold.
    AmountOverflow(String),
}

impl Clone for BankingSystemError {
    /// A copy that says the same.
    fn clone(&self) -> (r: Self)
        ensures
            r == *self,
    {
        match self {
            BankingSystemError::DuplicateAccountName(name) => {
                BankingSystemError::DuplicateAccountName(name.clone())
            },
            BankingSystemError::AccountNotFound(name) => {
                BankingSystemError::AccountNotFound(name.clone())
            },
            BankingSystemError::InvalidAmount(text) => {
                BankingSystemError::InvalidAmount(text.clone())
            },
            BankingSystemError::AmountOverflow(text) => {
                BankingSystemError::AmountOverflow(text.clone())
            },
        }
    }
}

/// What a `BankingSystemError` says, with texts as sequences of characters.
pub enum BankingSystemErrorView {
    DuplicateAccountName(Seq<char>),
    AccountNotFound(Seq<char>),
    InvalidAmount(Seq<char>),
    AmountOverflow(Seq<char>),
}

impl View for BankingSystemError {
    type V = BankingSystemErrorView;

    open spec fn view(&self) -> BankingSystemErrorView {
        match self {
            BankingSystemError::DuplicateAccountName(name) => {
                BankingSystemErrorView::DuplicateAccountName(name@)
            },
            BankingSystemError::AccountNotFound(name) => {
                BankingSystemErrorView::AccountNotFound(name@)
            },
            BankingSystemError::InvalidAmount(text) => {
                BankingSystemErrorView::InvalidAmount(text@)
            },
            BankingSystemError::AmountOverflow(text) => {
                BankingSystemErrorView::AmountOverflow(text@)
            },
        }
    }
}

/// Why an operation on the banking system failed.
#[derive(Debug, PartialEq)]
pub enum OperationError {
    /// The account refused the operation.
    Account(AccountError),
    /// The request itself was refused.
    System(BankingSystemError),
}

impl Clone for OperationError {
    /// A copy that says the same.
    fn clone(&self) -> (r: Self)
        ensures
            r == *self,
    {
        match self {
            OperationError::Account(e) => OperationError::Account(e.clone()),
            OperationError::System(e) => OperationError::System(e.clone()),
        }
    }
}

/// What an `OperationError` says.
pub enum OperationErrorView {
    Account(AccountErrorView),
    System(BankingSystemErrorView),
}

impl View for OperationError {
    type V = OperationErrorView;

    open spec fn view(&self) -> OperationErrorView {
        match self {
            OperationError::Account(e) => OperationErrorView::Account(e@),
            OperationError::System(e) => OperationErrorView::System(e@),
        }
    }
}

/// The accounts of the system, in the order in which they were created.
#[derive(Debug)]
pub struct BankingSystem(pub Vec<Account>);

impl Clone for BankingSystem {
    /// A copy with the same accounts in the same order.
    fn clone(&self) -> (r: Self)
        ensures
            r.0@ == self.0@,
    {
        let mut accounts: Vec<Account> = Vec::new();
        let mut i: usize = 0;
        while i < self.0.len()
            invariant
                i <= self.0.len(),
                accounts@ == self.0@.take(i as int),
            decreases self.0.len() - i,
        {
            accounts.push(self.0[i].clone());
            assert(accounts@ =~= self.0@.take(i + 1));
            i += 1;
        }
        assert(self.0@.take(self.0.len() as int) =~= self.0@);
        BankingSystem(accounts)
    }
}

impl View for BankingSystem {
    type V = Seq<AccountView>;

    open spec fn view(&self) -> Seq<AccountView> {
        self.0@.map_values(|account: Account| account@)
    }
}

impl BankingSystem {
    /// Every account has a name, and no two accounts have the same name.
    pub open spec fn well_formed(&self) -> bool {
        names_valid(self@)
    }

    /// Whether every account has a name and no two accounts have the same.
    pub fn is_well_formed(&self) -> (b: bool)
        ensures
            b == self.well_formed(),
    {
        let mut j: usize = 0;
        while j < self.0.len()
            invariant
                j <= self.0.len(),
                names_valid(self@.take(j as int)),
            decreases self.0.len() - j,
        {
            if self.0[j].name.as_str().is_empty() {
                assert(self@[j as int].name.len() == 0);
                return false;
            }
            let mut i: usize = 0;
            while i < j
                invariant
                    i <= j < self.0.len(),
                    forall|k: int|
                        0 <= k < i ==> (#[trigger] self@[k]).name != self@[j as int].name,
                decreases j - i,
            {
                if self.0[i].name == self.0[j].name {
                    assert(self@[i as int].name == self@[j as int].name);
                    return false;
                }
                i += 1;
            }
            assert(names_valid(self@.take(j + 1))) by {
                assert(self@.take(j + 1).drop_last() =~= self@.take(j as int));
            }
            j += 1;
        }
        assert(self@.take(self.0.len() as int) =~= self@);
        true
    }

    /// The position of the first account named `name`.
    fn find(&self, name: &str) -> (r: Option<usize>)
        ensures
            match r {
                Some(i) => is_first_named(self@, name@, i as int),
                None => !has_account(self@, name@),
            },
    {
        let wanted = name.to_owned();
        let mut i: usize = 0;
        while i < self.0.len()
            invariant
                i <= self.0.len(),
                wanted@ == name@,
                forall|j: int| 0 <= j < i ==> (#[trigger] self@[j]).name != name@,
            decreases self.0.len() - i,
        {
            if self.0[i].name == wanted {
                return Some(i);
            }
            i += 1;
        }
        None
    }

    /// Whether an account is named `name`.
    pub fn account_exists(&self, name: &str) -> (r: bool)
        ensures
            r == has_account(self@, name@),
    {
        self.find(name).is_some()
    }

    /// The first account named `name`, to read or to change.
    pub fn get_account_mut(&mut self, name: &str) -> (r: Result<&mut Account, BankingSystemError>)
        ensures
            match r {
                Ok(account) => {
                    &&& is_first_named(old(self)@, name@, account_index(old(self)@, name@))
                    &&& *account == old(self).0@[account_index(old(self)@, name@)]
                    &&& final(self).0@ == old(self).0@.update(
                        account_index(old(self)@, name@),
                        *final(account),
                    )
                },
                Err(e) => {
                    &&& !has_account(old(self)@, name@)
                    &&& e@ == BankingSystemErrorView::AccountNotFound(name@)
                    &&& *final(self) == *old(self)
                },
            },
    {
        match self.find(name) {
            Some(i) => Ok(&mut self.0[i]),
            None => Err(BankingSystemError::AccountNotFound(name.to_owned())),
        }
    }

    /// Deposits the amount that `amount` denotes to the account named `name`
    /// and returns the new balance.
    pub fn deposit(&mut self, name: &str, amount: &str) -> (r: Result<Cents, OperationError>)
        ensures
            result_view(r) == deposit_result(old(self)@, name@, amount@),
            final(self)@ == after_deposit(old(self)@, name@, amount@),
            r is Err ==> final(self)@ == old(self)@,
            old(self).well_formed() ==> final(self).well_formed(),
    {
        proof {
            if self.well_formed() {
                lemma_names_stay_valid(self@, name@, amount@);
            }
        }
        let account = match self.get_account_mut(name) {
            Ok(account) => account,
            Err(e) => return Err(OperationError::System(e)),
        };
        let cents = match Cents::from_str(amount) {
            Ok(cents) => cents,
            Err(e) => return Err(OperationError::System(e)),
        };
        let r = match account.deposit(cents) {
            Ok(account) => Ok(account.balance),
            Err(e) => Err(OperationError::Account(e)),
        };
        assert(self@ =~= after_deposit(old(self)@, name@, amount@));
        r
    }

    /// Withdraws the amount that `amount` denotes from the account named
    /// `name` and returns the new balance.
    pub fn withdraw(&mut self, name: &str, amount: &str) -> (r: Result<Cents, OperationError>)
        ensures
            result_view(r) == withdraw_result(old(self)@, name@, amount@),
            final(self)@ == after_withdraw(old(self)@, name@, amount@),
            r is Err ==> final(self)@ == old(self)@,
            old(self).well_formed() ==> final(self).well_formed(),
    {
        proof {
            if self.well_formed() {
                lemma_names_stay_valid(self@, name@, amount@);
            }
        }
        let account = match self.get_account_mut(name) {
            Ok(account) => account,
            Err(e) => return Err(OperationError::System(e)),
        };
        let cents = match Cents::from_str(amount) {
            Ok(cents) => cents,
            Err(e) => return Err(OperationError::System(e)),
        };
        let r = match account.withdraw(cents) {
            Ok(account) => Ok(account.balance),
            Err(e) => Err(OperationError::Account(e)),
        };
        assert(self@ =~= after_withdraw(old(self)@, name@, amount@));
        r
    }

    /// Creates an account named `name` with the balance that `balance`
    /// denotes, after the accounts that are there, and returns that balance.
    pub fn create(&mut self, name: &str, balance: &str) -> (r: Result<Cents, OperationError>)
        ensures
            result_view(r) == create_result(old(self)@, name@, balance@),
            final(self)@ == after_create(old(self)@, name@, balance@),
            r is Err ==> final(self)@ == old(self)@,
            old(self).well_formed() ==> final(self).well_formed(),
    {
        proof {
            if self.well_formed() {
                lemma_names_stay_valid(self@, name@, balance@);
            }
        }
        if name.is_empty() {
            return Err(OperationError::Account(AccountError::EmptyAccountName));
        }
        if self.account_exists(name) {
            return Err(
                OperationError::System(BankingSystemError::DuplicateAccountName(name.to_owned())),
            );
        }
        let cents = match Cents::from_str(balance) {
            Ok(cents) => cents,
            Err(e) => return Err(OperationError::System(e)),
        };
        match Account::new(name.to_owned(), cents) {
            Ok(account) => {
                self.0.push(account);
                assert(self@ =~= after_create(old(self)@, name@, balance@));
                Ok(cents)
            },
            Err(e) => Err(OperationError::Account(e)),
        }
    }

    /// Moves the amount that `amount` denotes from the account named `from`
    /// to the one named `to`, wholly or not at all, and returns the balances
    /// of the two after the transfer.
    pub fn transfer(&mut self, from: &str, to: &str, amount: &str) -> (r: Result<
        (Cents, Cents),
        OperationError,
    >)
        ensures
            result_view(r) == transfer_result(old(self)@, from@, to@, amount@),
            final(self)@ == after_transfer(old(self)@, from@, to@, amount@),
            r is Err ==> final(self)@ == old(self)@,
            old(self).well_formed() ==> final(self).well_formed(),
    {
        proof {
            if self.well_formed() {
                lemma_transfer_keeps_names_valid(self@, from@, to@, amount@);
            }
        }
        let source = match self.find(from) {
            Some(i) => i,
            None => return Err(
                OperationError::System(BankingSystemError::AccountNotFound(from.to_owned())),
            ),
        };
        let target = match self.find(to) {
            Some(i) => i,
            None => return Err(
                OperationError::System(BankingSystemError::AccountNotFound(to.to_owned())),
            ),
        };
        let cents = match Cents::from_str(amount) {
            Ok(cents) => cents,
            Err(e) => return Err(OperationError::System(e)),
        };
        // The withdrawal is tried on a copy of the source account first.
        let mut trial = self.0[source].clone();
        match trial.withdraw(cents) {
            Ok(_) => {},
            Err(e) => return Err(OperationError::Account(e)),
        }
        // The deposit is made on the target account itself.
        match self.0[target].deposit(cents) {
            Ok(_) => {},
            Err(e) => {
                assert(self@ =~= old(self)@);
                return Err(OperationError::Account(e));
            },
        }
        // Both have succeeded: the source account holds the amount, so the
        // withdrawal from it cannot fail.
        match self.0[source].withdraw(cents) {
            Ok(_) => {},
            Err(e) => {
                assert(false);
                return Err(OperationError::Account(e));
            },
        }
        assert(self@ =~= after_transfer(old(self)@, from@, to@, amount@));
        Ok((self.0[source].balance, self.0[target].balance))
    }

    /// The accounts as lines of text, one for each, in their order.
    pub fn show(&self) -> (lines: Vec<String>)
        ensures
            lines@.len() == self@.len(),
            forall|i: int|
                0 <= i < lines@.len() ==> (#[trigger] lines@[i])@ == account_line(self@[i]),
    {
        let mut lines: Vec<String> = Vec::new();
        let mut i: usize = 0;
        while i < self.0.len()
            invariant
                i <= self.0.len(),
                lines@.len() == i,
                forall|j: int| 0 <= j < i ==> (#[trigger] lines@[j])@ == account_line(self@[j]),
            decreases self.0.len() - i,
        {
            lines.push(self.0[i].to_string());
            i += 1;
        }
        lines
    }
}

} // verus!
