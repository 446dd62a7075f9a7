//! The accounts of a banking system as a sequence of names and balances:
//! what each operation gives and leaves behind, and what holds of them.

use vstd::prelude::*;
use crate::account::{parse_amount, AccountErrorView, AccountView};
use crate::banking_system::{BankingSystemErrorView, OperationErrorView};

verus! {

/// Some account of `accounts` is named `name`.
pub open spec fn has_account(accounts: Seq<AccountView>, name: Seq<char>) -> bool {
    exists|i: int| 0 <= i < accounts.len() && (#[trigger] accounts[i]).name == name
}

/// The account at `i` is the first of `accounts` that is named `name`.
pub open spec fn is_first_named(accounts: Seq<AccountView>, name: Seq<char>, i: int) -> bool {
    &&& 0 <= i < accounts.len()
    &&& accounts[i].name == name
    &&& forall|j: int| 0 <= j < i ==> (#[trigger] accounts[j]).name != name
}

/// The position of the first account that is named `name`, where there is one.
pub open spec fn account_index(accounts: Seq<AccountView>, name: Seq<char>) -> int {
    choose|i: int| is_first_named(accounts, name, i)
}

/// Every account has a name, and no two accounts have the same name.
pub open spec fn names_valid(accounts: Seq<AccountView>) -> bool {
    &&& forall|i: int| 0 <= i < accounts.len() ==> (#[trigger] accounts[i]).name.len() > 0
    &&& forall|i: int, j: int|
        0 <= i < j < accounts.len() ==> (#[trigger] accounts[i]).name
            != (#[trigger] accounts[j]).name
}

/// All the money in the accounts together.
pub open spec fn total_balance(accounts: Seq<AccountView>) -> nat
    decreases accounts.len(),
{
    if accounts.len() == 0 {
        0
    } else {
        total_balance(accounts.drop_last()) + accounts.last().balance
    }
}

/// The accounts with the balance of the one at `i` replaced.
pub open spec fn with_balance(
    accounts: Seq<AccountView>,
    i: int,
    balance: nat,
) -> Seq<AccountView> {
    accounts.update(i, AccountView { name: accounts[i].name, balance })
}

/// What creating an account named `name` with the balance that `text`
/// denotes gives: the new account's balance, or the first reason against it.
pub open spec fn create_result(
    accounts: Seq<AccountView>,
    name: Seq<char>,
    text: Seq<char>,
) -> Result<nat, OperationErrorView> {
    if name.len() == 0 {
        Err(OperationErrorView::Account(AccountErrorView::EmptyAccountName))
    } else if has_account(accounts, name) {
        Err(OperationErrorView::System(BankingSystemErrorView::DuplicateAccountName(name)))
    } else {
        match parse_amount(text) {
            Ok(balance) => Ok(balance),
            Err(e) => Err(OperationErrorView::System(e)),
        }
    }
}

/// The accounts after that creation: with the new account at the end, or
/// unchanged where it was refused.
pub open spec fn after_create(
    accounts: Seq<AccountView>,
    name: Seq<char>,
    text: Seq<char>,
) -> Seq<AccountView> {
    match create_result(accounts, name, text) {
        Ok(balance) => accounts.push(AccountView { name, balance }),
        Err(_) => accounts,
    }
}

/// What depositing the amount that `text` denotes to the account named
/// `name` gives: the account's new balance, or the first reason against it.
pub open spec fn deposit_result(
    accounts: Seq<AccountView>,
    name: Seq<char>,
    text: Seq<char>,
) -> Result<nat, OperationErrorView> {
    if !has_account(accounts, name) {
        Err(OperationErrorView::System(BankingSystemErrorView::AccountNotFound(name)))
    } else {
        match parse_amount(text) {
            Err(e) => Err(OperationErrorView::System(e)),
            Ok(amount) => {
                let balance = accounts[account_index(accounts, name)].balance;
                if balance + amount > u64::MAX {
                    Err(
                        OperationErrorView::Account(
                            AccountErrorView::BalanceOverflow { name, deposit_amount: amount },
                        ),
                    )
                } else {
                    Ok(balance + amount)
                }
            },
        }
    }
}

/// The accounts after that deposit: unchanged where it was refused.
pub open spec fn after_deposit(
    accounts: Seq<AccountView>,
    name: Seq<char>,
    text: Seq<char>,
) -> Seq<AccountView> {
    match deposit_result(accounts, name, text) {
        Ok(balance) => with_balance(accounts, account_index(accounts, name), balance),
        Err(_) => accounts,
    }
}

/// What withdrawing the amount that `text` denotes from the account named
/// `name` gives: the account's new balance, or the first reason against it.
pub open spec fn withdraw_result(
    accounts: Seq<AccountView>,
    name: Seq<char>,
    text: Seq<char>,
) -> Result<nat, OperationErrorView> {
    if !has_account(accounts, name) {
        Err(OperationErrorView::System(BankingSystemErrorView::AccountNotFound(name)))
    } else {
        match parse_amount(text) {
            Err(e) => Err(OperationErrorView::System(e)),
            Ok(amount) => {
                let balance = accounts[account_index(accounts, name)].balance;
                if amount > balance {
                    Err(
                        OperationErrorView::Account(
                            AccountErrorView::AccountOverdraft {
                                name,
                                balance,
                                withdraw_amount: amount,
                            },
                        ),
                    )
                } else {
                    Ok((balance - amount) as nat)
                }
            },
        }
    }
}

/// The accounts after that withdrawal: unchanged where it was refused.
pub open spec fn after_withdraw(
    accounts: Seq<AccountView>,
    name: Seq<char>,
    text: Seq<char>,
) -> Seq<AccountView> {
    match withdraw_result(accounts, name, text) {
        Ok(balance) => with_balance(accounts, account_index(accounts, name), balance),
        Err(_) => accounts,
    }
}

/// The accounts after `amount` has gone from the account at `source` to the
/// one at `target`: the deposit first, then the withdrawal. Where the two are
/// the same account, it holds what it held before.
pub open spec fn moved(
    accounts: Seq<AccountView>,
    source: int,
    target: int,
    amount: nat,
) -> Seq<AccountView> {
    let deposited = with_balance(accounts, target, accounts[target].balance + amount);
    with_balance(deposited, source, (deposited[source].balance - amount) as nat)
}

/// What transferring the amount that `text` denotes from the account named
/// `from` to the one named `to` gives: the balances of the two after the
/// transfer, or the first reason against it.
pub open spec fn transfer_result(
    accounts: Seq<AccountView>,
    from: Seq<char>,
    to: Seq<char>,
    text: Seq<char>,
) -> Result<(nat, nat), OperationErrorView> {
    if !has_account(accounts, from) {
        Err(OperationErrorView::System(BankingSystemErrorView::AccountNotFound(from)))
    } else if !has_account(accounts, to) {
        Err(OperationErrorView::System(BankingSystemErrorView::AccountNotFound(to)))
    } else {
        match parse_amount(text) {
            Err(e) => Err(OperationErrorView::System(e)),
            Ok(amount) => {
                let source = account_index(accounts, from);
                let target = account_index(accounts, to);
                if amount > accounts[source].balance {
                    Err(
                        OperationErrorView::Account(
                            AccountErrorView::AccountOverdraft {
                                name: from,
                                balance: accounts[source].balance,
                                withdraw_amount: amount,
                            },
                        ),
                    )
                } else if accounts[target].balance + amount > u64::MAX {
                    Err(
                        OperationErrorView::Account(
                            AccountErrorView::BalanceOverflow { name: to, deposit_amount: amount },
                        ),
                    )
                } else {
                    let after = moved(accounts, source, target, amount);
                    Ok((after[source].balance, after[target].balance))
                }
            },
        }
    }
}

/// The accounts after that transfer: unchanged where it was refused.
pub open spec fn after_transfer(
    accounts: Seq<AccountView>,
    from: Seq<char>,
    to: Seq<char>,
    text: Seq<char>,
) -> Seq<AccountView> {
    match transfer_result(accounts, from, to, text) {
        Ok(_) => moved(
            accounts,
            account_index(accounts, from),
            account_index(accounts, to),
            parse_amount(text)->Ok_0,
        ),
        Err(_) => accounts,
    }
}

/// Where an account is named `name`, one of them is the first: the one at
/// `account_index`.
pub proof fn lemma_account_index(accounts: Seq<AccountView>, name: Seq<char>)
    requires
        has_account(accounts, name),
    ensures
        is_first_named(accounts, name, account_index(accounts, name)),
{
    let k = choose|k: int| 0 <= k < accounts.len() && (#[trigger] accounts[k]).name == name;
    lemma_first_named_before(accounts, name, k);
}

/// At or before an account named `name` stands the first of that name.
proof fn lemma_first_named_before(accounts: Seq<AccountView>, name: Seq<char>, k: int)
    requires
        0 <= k < accounts.len(),
        accounts[k].name == name,
    ensures
        exists|i: int| is_first_named(accounts, name, i),
    decreases k,
{
    if exists|j: int| 0 <= j < k && (#[trigger] accounts[j]).name == name {
        let j = choose|j: int| 0 <= j < k && (#[trigger] accounts[j]).name == name;
        lemma_first_named_before(accounts, name, j);
    } else {
        assert(is_first_named(accounts, name, k));
    }
}

/// Where the names are valid, an account named `name` is the only one of
/// that name.
pub proof fn lemma_valid_names_are_unique(accounts: Seq<AccountView>, name: Seq<char>, i: int)
    requires
        names_valid(accounts),
        0 <= i < accounts.len(),
        accounts[i].name == name,
    ensures
        account_index(accounts, name) == i,
{
    lemma_account_index(accounts, name);
}

/// Replacing one balance changes the total by the difference of the two.
pub proof fn lemma_total_with_balance(accounts: Seq<AccountView>, i: int, balance: nat)
    requires
        0 <= i < accounts.len(),
    ensures
        total_balance(with_balance(accounts, i, balance)) + accounts[i].balance == total_balance(
            accounts,
        ) + balance,
    decreases accounts.len(),
{
    let after = with_balance(accounts, i, balance);
    if i == accounts.len() - 1 {
        assert(after.drop_last() =~= accounts.drop_last());
    } else {
        lemma_total_with_balance(accounts.drop_last(), i, balance);
        assert(after.drop_last() =~= with_balance(accounts.drop_last(), i, balance));
    }
}

/// A creation, deposit or withdrawal that is refused leaves every account
/// as it was.
pub proof fn lemma_refusal_changes_nothing(
    accounts: Seq<AccountView>,
    name: Seq<char>,
    text: Seq<char>,
)
    ensures
        create_result(accounts, name, text) is Err ==> after_create(accounts, name, text)
            == accounts,
        deposit_result(accounts, name, text) is Err ==> after_deposit(accounts, name, text)
            == accounts,
        withdraw_result(accounts, name, text) is Err ==> after_withdraw(accounts, name, text)
            == accounts,
{
}

/// A creation, deposit or withdrawal keeps the names valid: an account is
/// created only under a new name that is not empty, and the other two change
/// a balance alone.
pub proof fn lemma_names_stay_valid(accounts: Seq<AccountView>, name: Seq<char>, text: Seq<char>)
    requires
        names_valid(accounts),
    ensures
        names_valid(after_create(accounts, name, text)),
        names_valid(after_deposit(accounts, name, text)),
        names_valid(after_withdraw(accounts, name, text)),
{
    if has_account(accounts, name) {
        lemma_account_index(accounts, name);
    }
}

/// A transfer keeps the names valid: it changes balances alone.
pub proof fn lemma_transfer_keeps_names_valid(
    accounts: Seq<AccountView>,
    from: Seq<char>,
    to: Seq<char>,
    text: Seq<char>,
)
    requires
        names_valid(accounts),
    ensures
        names_valid(after_transfer(accounts, from, to, text)),
{
    if has_account(accounts, from) && has_account(accounts, to) {
        lemma_account_index(accounts, from);
        lemma_account_index(accounts, to);
    }
}

/// A deposit that would take the balance past what can be held is refused
/// as a balance overflow, and the accounts stay as they were.
pub proof fn lemma_deposit_overflow(
    accounts: Seq<AccountView>,
    name: Seq<char>,
    text: Seq<char>,
    amount: nat,
)
    requires
        has_account(accounts, name),
        parse_amount(text) == Ok::<nat, BankingSystemErrorView>(amount),
        accounts[account_index(accounts, name)].balance + amount > u64::MAX,
    ensures
        deposit_result(accounts, name, text) == Err::<nat, OperationErrorView>(
            OperationErrorView::Account(
                AccountErrorView::BalanceOverflow { name, deposit_amount: amount },
            ),
        ),
        after_deposit(accounts, name, text) == accounts,
{
}

/// A withdrawal of more than the balance is refused as an overdraft, and the
/// accounts stay as they were; a withdrawal of the whole balance succeeds and
/// leaves the account with nothing.
pub proof fn lemma_withdraw_boundary(
    accounts: Seq<AccountView>,
    name: Seq<char>,
    text: Seq<char>,
    amount: nat,
)
    requires
        has_account(accounts, name),
        parse_amount(text) == Ok::<nat, BankingSystemErrorView>(amount),
    ensures
        ({
            let index = account_index(accounts, name);
            let balance = accounts[index].balance;
            &&& amount > balance ==> {
                &&& withdraw_result(accounts, name, text) == Err::<nat, OperationErrorView>(
                    OperationErrorView::Account(
                        AccountErrorView::AccountOverdraft {
                            name,
                            balance,
                            withdraw_amount: amount,
                        },
                    ),
                )
                &&& after_withdraw(accounts, name, text) == accounts
            }
            &&& amount == balance ==> {
                &&& withdraw_result(accounts, name, text) == Ok::<nat, OperationErrorView>(0)
                &&& after_withdraw(accounts, name, text)[index].balance == 0
            }
        }),
{
    lemma_account_index(accounts, name);
}

/// A transfer that is refused, for whatever reason, leaves every account as
/// it was.
pub proof fn lemma_transfer_refusal_changes_nothing(
    accounts: Seq<AccountView>,
    from: Seq<char>,
    to: Seq<char>,
    text: Seq<char>,
)
    ensures
        transfer_result(accounts, from, to, text) is Err ==> after_transfer(
            accounts,
            from,
            to,
            text,
        ) == accounts,
{
}

/// A transfer whose withdrawal would fail, or whose deposit would, is
/// refused with that failure, and no account changes.
pub proof fn lemma_transfer_refused(
    accounts: Seq<AccountView>,
    from: Seq<char>,
    to: Seq<char>,
    text: Seq<char>,
    amount: nat,
)
    requires
        has_account(accounts, from),
        has_account(accounts, to),
        parse_amount(text) == Ok::<nat, BankingSystemErrorView>(amount),
    ensures
        ({
            let source = accounts[account_index(accounts, from)];
            let target = accounts[account_index(accounts, to)];
            &&& amount > source.balance ==> {
                &&& transfer_result(accounts, from, to, text) == Err::<
                    (nat, nat),
                    OperationErrorView,
                >(
                    OperationErrorView::Account(
                        AccountErrorView::AccountOverdraft {
                            name: from,
                            balance: source.balance,
                            withdraw_amount: amount,
                        },
                    ),
                )
                &&& after_transfer(accounts, from, to, text) == accounts
            }
            &&& amount <= source.balance && target.balance + amount > u64::MAX ==> {
                &&& transfer_result(accounts, from, to, text) == Err::<
                    (nat, nat),
                    OperationErrorView,
                >(
                    OperationErrorView::Account(
                        AccountErrorView::BalanceOverflow { name: to, deposit_amount: amount },
                    ),
                )
                &&& after_transfer(accounts, from, to, text) == accounts
            }
        }),
{
}

/// A transfer between two accounts whose withdrawal and deposit both succeed
/// takes exactly the amount from the one and adds exactly the amount to the
/// other, so that the two hold together what they held before; every other
/// account stays as it was.
pub proof fn lemma_transfer_moves_amount(
    accounts: Seq<AccountView>,
    from: Seq<char>,
    to: Seq<char>,
    text: Seq<char>,
    amount: nat,
)
    requires
        has_account(accounts, from),
        has_account(accounts, to),
        from != to,
        parse_amount(text) == Ok::<nat, BankingSystemErrorView>(amount),
        amount <= accounts[account_index(accounts, from)].balance,
        accounts[account_index(accounts, to)].balance + amount <= u64::MAX,
    ensures
        ({
            let source = account_index(accounts, from);
            let target = account_index(accounts, to);
            let after = after_transfer(accounts, from, to, text);
            &&& transfer_result(accounts, from, to, text) == Ok::<(nat, nat), OperationErrorView>(
                (after[source].balance, after[target].balance),
            )
            &&& after.len() == accounts.len()
            &&& after[source].balance == accounts[source].balance - amount
            &&& after[target].balance == accounts[target].balance + amount
            &&& after[source].balance + after[target].balance == accounts[source].balance
                + accounts[target].balance
            &&& after[source].name == from
            &&& after[target].name == to
            &&& forall|k: int|
                0 <= k < accounts.len() && k != source && k != target ==> after[k] == accounts[k]
        }),
{
    lemma_account_index(accounts, from);
    lemma_account_index(accounts, to);
}

/// A transfer from an account to itself that succeeds leaves every account
/// as it was.
pub proof fn lemma_transfer_to_same_account(
    accounts: Seq<AccountView>,
    name: Seq<char>,
    text: Seq<char>,
)
    requires
        transfer_result(accounts, name, name, text) is Ok,
    ensures
        after_transfer(accounts, name, name, text) == accounts,
{
    lemma_account_index(accounts, name);
}

/// No transfer changes the money that all the accounts hold together.
pub proof fn lemma_transfer_conserves_total(
    accounts: Seq<AccountView>,
    from: Seq<char>,
    to: Seq<char>,
    text: Seq<char>,
)
    ensures
        total_balance(after_transfer(accounts, from, to, text)) == total_balance(accounts),
{
    if transfer_result(accounts, from, to, text) is Ok {
        lemma_account_index(accounts, from);
        lemma_account_index(accounts, to);
        let source = account_index(accounts, from);
        let target = account_index(accounts, to);
        let amount = parse_amount(text)->Ok_0;
        let deposited = with_balance(accounts, target, accounts[target].balance + amount);
        lemma_total_with_balance(accounts, target, accounts[target].balance + amount);
        lemma_total_with_balance(deposited, source, (deposited[source].balance - amount) as nat);
    }
}

} // verus!
