//! An in-memory ledger. A [`Bank`] owns an ordered collection of [`User`]
//! accounts, each with a balance and a credit line, and offers balance-sheet
//! aggregation, funds transfer with credit-limit enforcement, and periodic
//! interest accrual.

use vstd::prelude::*;

verus! {

/// The mathematical value of an account: its identifier as a sequence of
/// characters, and its credit line and balance as unbounded integers.
pub ghost struct UserView {
    pub name: Seq<char>,
    pub credit_line: int,
    pub balance: int,
}

/// An account. The balance is signed: positive means funds held, negative
/// means funds borrowed against the credit line.
#[derive(Debug)]
pub struct User {
    pub name: String,
    pub credit_line: u64,
    pub balance: i64,
}

impl View for User {
    type V = UserView;

    open spec fn view(&self) -> UserView {
        UserView {
            name: self.name@,
            credit_line: self.credit_line as int,
            balance: self.balance as int,
        }
    }
}

/// The credit-limit invariant: an account may be overdrawn at most by its
/// credit line, so `balance + credit_line` never goes negative.
pub open spec fn account_inv(account: UserView) -> bool {
    -account.credit_line <= account.balance
}

impl User {
    pub fn new(name: String, credit_line: u64, balance: i64) -> (user: User)
        ensures
            user@ == (UserView { name: name@, credit_line: credit_line as int, balance: balance as int }),
    {
        User { name, credit_line, balance }
    }

    pub fn get_balance(&self) -> (balance: i64)
        ensures
            balance == self@.balance,
    {
        self.balance
    }

    /// Sets the balance directly, with no clamping: the caller is responsible
    /// for keeping the account within its credit line.
    pub fn set_balance(&mut self, value: i64)
        ensures
            final(self)@ == (UserView { balance: value as int, ..old(self)@ }),
    {
        self.balance = value;
    }

    /// Total spending capacity before the credit line is exceeded. Defined
    /// when the credit-limit invariant holds and the sum fits the result type.
    pub fn max_credit(&self) -> (capacity: u64)
        requires
            account_inv(self@),
            self@.balance + self@.credit_line <= u64::MAX,
        ensures
            capacity == self@.balance + self@.credit_line,
    {
        let total: i128 = self.balance as i128 + self.credit_line as i128;
        total as u64
    }
}

impl PartialEq for User {
    fn eq(&self, other: &User) -> (equal: bool) {
        self.name == other.name && self.credit_line == other.credit_line
            && self.balance == other.balance
    }
}

impl vstd::std_specs::cmp::PartialEqSpecImpl for User {
    open spec fn obeys_eq_spec() -> bool {
        true
    }

    open spec fn eq_spec(&self, other: &User) -> bool {
        &&& self.name@ == other.name@
        &&& self.credit_line == other.credit_line
        &&& self.balance == other.balance
    }
}

/// Sum of all account balances, in account order. May be negative in
/// aggregate when borrowers outweigh depositors.
pub open spec fn total_assets(accounts: Seq<UserView>) -> int
    decreases accounts.len(),
{
    if accounts.len() == 0 {
        0
    } else {
        total_assets(accounts.drop_last()) + accounts.last().balance
    }
}

/// Sum of all account credit lines, in account order: the bank's maximum
/// exposure.
pub open spec fn total_liabilities(accounts: Seq<UserView>) -> int
    decreases accounts.len(),
{
    if accounts.len() == 0 {
        0
    } else {
        total_liabilities(accounts.drop_last()) + accounts.last().credit_line
    }
}

/// Every running total met while summing the accounts in order fits the
/// machine words that the balance sheet is returned in.
pub open spec fn sheet_fits(accounts: Seq<UserView>) -> bool {
    forall|prefix: int| 0 <= prefix <= accounts.len() ==> {
        &&& i64::MIN <= #[trigger] total_assets(accounts.take(prefix)) <= i64::MAX
        &&& 0 <= total_liabilities(accounts.take(prefix)) <= u64::MAX
    }
}

/// Whether a transfer is accepted: the amount is strictly positive, both
/// identifiers resolve to accounts, and the origin account's spending
/// capacity (balance plus credit line) covers the amount.
pub open spec fn transfer_ok(
    accounts: Seq<UserView>,
    origin: Seq<char>,
    destination: Seq<char>,
    amount: int,
) -> bool {
    let origin_index = first_index_of(accounts, origin);
    let destination_index = first_index_of(accounts, destination);
    &&& amount > 0
    &&& origin_index >= 0
    &&& destination_index >= 0
    &&& accounts[origin_index].balance + accounts[origin_index].credit_line >= amount
}

/// The accounts after an accepted transfer: the amount is debited from the
/// origin's balance, then credited to the destination's balance. When origin
/// and destination name the same account the two steps cancel.
pub open spec fn apply_transfer(
    accounts: Seq<UserView>,
    origin: Seq<char>,
    destination: Seq<char>,
    amount: int,
) -> Seq<UserView> {
    let origin_index = first_index_of(accounts, origin);
    let destination_index = first_index_of(accounts, destination);
    let debited = accounts.update(
        origin_index,
        (UserView { balance: accounts[origin_index].balance - amount, ..accounts[origin_index] }),
    );
    debited.update(
        destination_index,
        (UserView { balance: debited[destination_index].balance + amount, ..debited[destination_index] }),
    )
}

/// Both balances written by an accepted transfer fit the balance's machine
/// word. (For a rejected transfer nothing is written, so nothing is asked.)
pub open spec fn transfer_fits(
    accounts: Seq<UserView>,
    origin: Seq<char>,
    destination: Seq<char>,
    amount: int,
) -> bool {
    transfer_ok(accounts, origin, destination, amount) ==> {
        let origin_index = first_index_of(accounts, origin);
        let destination_index = first_index_of(accounts, destination);
        let debited = accounts[origin_index].balance - amount;
        let credited = if origin_index == destination_index {
            debited + amount
        } else {
            accounts[destination_index].balance + amount
        };
        &&& i64::MIN <= debited
        &&& credited <= i64::MAX
    }
}

/// A balance after one accrual cycle at `debit_rate` percent: interest is
/// earned on funds held, so a non-negative balance grows by the truncated
/// percentage and a negative (borrowed) balance is left unchanged.
pub open spec fn accrued_balance(balance: int, debit_rate: int) -> int {
    if balance >= 0 {
        balance + (balance * debit_rate) / 100
    } else {
        balance
    }
}

/// A credit line after one accrual cycle at `credit_rate` percent: it grows
/// by the truncated percentage.
pub open spec fn accrued_credit_line(credit_line: int, credit_rate: int) -> int {
    credit_line + (credit_line * credit_rate) / 100
}

/// An account after one accrual cycle.
pub open spec fn accrue_account(account: UserView, debit_rate: int, credit_rate: int) -> UserView {
    UserView {
        name: account.name,
        balance: accrued_balance(account.balance, debit_rate),
        credit_line: accrued_credit_line(account.credit_line, credit_rate),
    }
}

/// The interest computation for one account stays within the machine words it
/// is carried out in: each percentage product fits a u64, and each accrued
/// value fits the field it is written back to.
pub open spec fn accrual_fits(account: UserView, debit_rate: int, credit_rate: int) -> bool {
    &&& account.balance >= 0 ==> {
        &&& account.balance * debit_rate <= u64::MAX
        &&& accrued_balance(account.balance, debit_rate) <= i64::MAX
    }
    &&& account.credit_line * credit_rate <= u64::MAX
    &&& accrued_credit_line(account.credit_line, credit_rate) <= u64::MAX
}

/// The aggregate position of a ledger: total assets (sum of balances) and
/// total liabilities (sum of credit lines).
#[derive(Debug)]
pub struct BalanceSheet {
    pub liabilities: u64,
    pub assets: i64,
}

/// The mathematical value of a ledger: its label, its accounts in order, and
/// the two interest rates as unbounded integers.
pub ghost struct BankView {
    pub name: Seq<char>,
    pub accounts: Seq<UserView>,
    pub credit_interest: int,
    pub debit_interest: int,
}

/// A ledger: an ordered collection of accounts, a descriptive label, and the
/// bank-wide credit and debit interest rates (integer percentages per accrual
/// cycle).
#[derive(Debug)]
pub struct Bank {
    pub users: Vec<User>,
    pub name: String,
    pub credit_interest: u64,
    pub debit_interest: u64,
}

impl View for Bank {
    type V = BankView;

    open spec fn view(&self) -> BankView {
        BankView {
            name: self.name@,
            accounts: self.users@.map_values(|user: User| user@),
            credit_interest: self.credit_interest as int,
            debit_interest: self.debit_interest as int,
        }
    }
}

impl PartialEq for Bank {
    fn eq(&self, other: &Bank) -> (equal: bool) {
        self.name == other.name && self.credit_interest == other.credit_interest
            && self.debit_interest == other.debit_interest && self.users == other.users
    }
}

impl vstd::std_specs::cmp::PartialEqSpecImpl for Bank {
    open spec fn obeys_eq_spec() -> bool {
        true
    }

    open spec fn eq_spec(&self, other: &Bank) -> bool {
        &&& self.name@ == other.name@
        &&& self.credit_interest == other.credit_interest
        &&& self.debit_interest == other.debit_interest
        &&& self.users@.len() == other.users@.len()
        &&& forall|i: int| #![auto] 0 <= i < self.users@.len()
            ==> vstd::std_specs::cmp::PartialEqSpec::eq_spec(&self.users@[i], &other.users@[i])
    }
}

/// The index of the first account named `name`, scanning from index `from`;
/// -1 when no account at or after `from` carries that name.
pub open spec fn first_index_from(accounts: Seq<UserView>, name: Seq<char>, from: int) -> int
    decreases accounts.len() - from,
{
    if from < 0 || from >= accounts.len() {
        -1
    } else if accounts[from].name == name {
        from
    } else {
        first_index_from(accounts, name, from + 1)
    }
}

/// The index of the first account named `name`; -1 when the ledger holds no
/// account of that name.
pub open spec fn first_index_of(accounts: Seq<UserView>, name: Seq<char>) -> int {
    first_index_from(accounts, name, 0)
}

/// Whether the ledger holds an account named `name`.
pub open spec fn has_account(accounts: Seq<UserView>, name: Seq<char>) -> bool {
    first_index_of(accounts, name) >= 0
}

impl Bank {
    pub fn new(users: Vec<User>, name: String, credit_interest: u64, debit_interest: u64) -> (bank: Bank)
        ensures
            bank@ == (BankView {
                name: name@,
                accounts: users@.map_values(|user: User| user@),
                credit_interest: credit_interest as int,
                debit_interest: debit_interest as int,
            }),
    {
        Bank { users, name, credit_interest, debit_interest }
    }

    /// Computes the ledger's balance sheet: the sum of all balances and the
    /// sum of all credit lines. A pure read; calling it twice without a
    /// mutation in between yields identical results, since the outcome is a
    /// function of the ledger's accounts alone.
    pub fn balance(&self) -> (sheet: BalanceSheet)
        requires
            sheet_fits(self@.accounts),
        ensures
            sheet.assets == total_assets(self@.accounts),
            sheet.liabilities == total_liabilities(self@.accounts),
    {
        let ghost accounts = self@.accounts;
        let mut assets: i64 = 0;
        let mut liabilities: u64 = 0;
        let mut index: usize = 0;
        while index < self.users.len()
            invariant
                index <= self.users.len(),
                accounts == self@.accounts,
                accounts.len() == self.users.len(),
                sheet_fits(accounts),
                assets == total_assets(accounts.take(index as int)),
                liabilities == total_liabilities(accounts.take(index as int)),
            decreases self.users.len() - index,
        {
            proof {
                let next = index as int + 1;
                assert(accounts.take(next).drop_last() =~= accounts.take(index as int));
                assert(accounts.take(next).last() == accounts[index as int]);
                assert(total_assets(accounts.take(next))
                    == total_assets(accounts.take(index as int)) + accounts[index as int].balance);
                assert(total_liabilities(accounts.take(next))
                    == total_liabilities(accounts.take(index as int)) + accounts[index as int].credit_line);
            }
            assets = assets + self.users[index].get_balance();
            liabilities = liabilities + self.users[index].credit_line;
            index += 1;
        }
        proof {
            assert(accounts.take(accounts.len() as int) =~= accounts);
        }
        BalanceSheet { assets, liabilities }
    }

    /// The index of the first account named `*user_id`, or `None`.
    fn find_index(&self, user_id: &String) -> (found: Option<usize>)
        ensures
            match found {
                Some(index) => index < self.users.len() && first_index_of(self@.accounts, user_id@) == index,
                None => first_index_of(self@.accounts, user_id@) == -1,
            },
    {
        let ghost accounts = self@.accounts;
        let mut index: usize = 0;
        while index < self.users.len()
            invariant
                index <= self.users.len(),
                accounts == self@.accounts,
                accounts.len() == self.users.len(),
                first_index_of(accounts, user_id@) == first_index_from(accounts, user_id@, index as int),
            decreases self.users.len() - index,
        {
            if self.users[index].name == *user_id {
                assert(accounts[index as int].name == user_id@);
                return Some(index);
            }
            assert(first_index_from(accounts, user_id@, index as int)
                == first_index_from(accounts, user_id@, index as int + 1));
            index += 1;
        }
        None
    }

    /// Transfers `amount` from the account named `origin_username` to the
    /// account named `destination_username`. The transfer is rejected — and
    /// no balance is touched — unless the amount is strictly positive, both
    /// identifiers resolve, and the origin's spending capacity covers the
    /// amount; the checks are made in that order, and all of them precede any
    /// mutation. The capacity comparison is made in a wider integer type, so
    /// it is defined for every account.
    pub fn transfer(&mut self, origin_username: &str, destination_username: &str, amount: i64) -> (success: bool)
        requires
            transfer_fits(old(self)@.accounts, origin_username@, destination_username@, amount as int),
        ensures
            success == transfer_ok(old(self)@.accounts, origin_username@, destination_username@, amount as int),
            final(self)@.accounts == (if success {
                apply_transfer(old(self)@.accounts, origin_username@, destination_username@, amount as int)
            } else {
                old(self)@.accounts
            }),
            final(self)@.name == old(self)@.name,
            final(self)@.credit_interest == old(self)@.credit_interest,
            final(self)@.debit_interest == old(self)@.debit_interest,
    {
        let ghost accounts = self@.accounts;
        if amount <= 0 {
            return false;
        }
        let origin_key: String = origin_username.to_owned();
        let destination_key: String = destination_username.to_owned();
        let maybe_origin_index = self.find_index(&origin_key);
        let maybe_destination_index = self.find_index(&destination_key);
        let (origin_index, destination_index) = match (maybe_origin_index, maybe_destination_index) {
            (Some(origin_index), Some(destination_index)) => (origin_index, destination_index),
            (None, _) => {
                return false;
            },
            (_, None) => {
                return false;
            },
        };
        let origin = &self.users[origin_index];
        let has_credit_limit = origin.balance as i128 + origin.credit_line as i128 >= amount as i128;
        if !has_credit_limit {
            return false;
        }
        let origin_balance = self.users[origin_index].get_balance() - amount;
        self.users[origin_index].set_balance(origin_balance);
        proof {
            assert(self@.accounts =~= accounts.update(
                origin_index as int,
                (UserView { balance: accounts[origin_index as int].balance - amount, ..accounts[origin_index as int] }),
            ));
        }
        let ghost debited = self@.accounts;
        let destination_balance = self.users[destination_index].get_balance() + amount;
        self.users[destination_index].set_balance(destination_balance);
        proof {
            assert(self@.accounts =~= debited.update(
                destination_index as int,
                (UserView { balance: debited[destination_index as int].balance + amount, ..debited[destination_index as int] }),
            ));
        }
        true
    }

    /// Applies one interest cycle to every account: each non-negative balance
    /// grows by the debit rate, each credit line grows by the credit rate,
    /// both truncated to whole units. Negative (borrowed) balances are left
    /// unchanged, so no account ever shrinks. Always succeeds.
    pub fn accrue_interest(&mut self) -> (success: bool)
        requires
            forall|i: int| 0 <= i < old(self)@.accounts.len() ==> accrual_fits(
                #[trigger] old(self)@.accounts[i],
                old(self)@.debit_interest,
                old(self)@.credit_interest,
            ),
        ensures
            success,
            final(self)@.accounts.len() == old(self)@.accounts.len(),
            forall|i: int| 0 <= i < old(self)@.accounts.len() ==> final(self)@.accounts[i]
                == accrue_account(
                    #[trigger] old(self)@.accounts[i],
                    old(self)@.debit_interest,
                    old(self)@.credit_interest,
                ),
            final(self)@.name == old(self)@.name,
            final(self)@.credit_interest == old(self)@.credit_interest,
            final(self)@.debit_interest == old(self)@.debit_interest,
    {
        let ghost initial = self@;
        let debit_rate: u64 = self.debit_interest;
        let credit_rate: u64 = self.credit_interest;
        let mut index: usize = 0;
        while index < self.users.len()
            invariant
                index <= self.users.len(),
                self.users.len() == initial.accounts.len(),
                debit_rate == initial.debit_interest,
                credit_rate == initial.credit_interest,
                self@.name == initial.name,
                self@.credit_interest == initial.credit_interest,
                self@.debit_interest == initial.debit_interest,
                forall|j: int| 0 <= j < initial.accounts.len() ==> accrual_fits(
                    #[trigger] initial.accounts[j],
                    initial.debit_interest,
                    initial.credit_interest,
                ),
                forall|j: int| 0 <= j < index ==> self@.accounts[j] == accrue_account(
                    #[trigger] initial.accounts[j],
                    initial.debit_interest,
                    initial.credit_interest,
                ),
                forall|j: int| index <= j < initial.accounts.len()
                    ==> self@.accounts[j] == initial.accounts[j],
            decreases self.users.len() - index,
        {
            let ghost before = self@.accounts;
            let balance: i64 = self.users[index].get_balance();
            let credit_line: u64 = self.users[index].credit_line;
            proof {
                assert(balance == initial.accounts[index as int].balance);
                assert(credit_line == initial.accounts[index as int].credit_line);
            }
            let debit_interest: i64 = if balance >= 0 {
                (((balance as u64) * debit_rate) / 100) as i64
            } else {
                0
            };
            let credit_interest: u64 = (credit_line * credit_rate) / 100;
            let user = &mut self.users[index];
            user.balance = balance + debit_interest;
            user.credit_line = credit_line + credit_interest;
            proof {
                assert(self@.accounts =~= before.update(
                    index as int,
                    accrue_account(
                        initial.accounts[index as int],
                        initial.debit_interest,
                        initial.credit_interest,
                    ),
                ));
            }
            index += 1;
        }
        true
    }

    /// A read-only borrow of the first account named `user_id`, or `None`
    /// when the ledger holds no account of that name.
    pub fn get_user_by_id(&self, user_id: String) -> (found: Option<&User>)
        ensures
            match found {
                Some(user) => {
                    &&& has_account(self@.accounts, user_id@)
                    &&& 0 <= first_index_of(self@.accounts, user_id@) < self.users@.len()
                    &&& *user == self.users@[first_index_of(self@.accounts, user_id@)]
                },
                None => !has_account(self@.accounts, user_id@),
            },
    {
        match self.find_index(&user_id) {
            Some(index) => Some(&self.users[index]),
            None => None,
        }
    }
}

/// Where `first_index_from` lands: either -1 with no match at or after
/// `from`, or the first matching index at or after `from`.
proof fn lemma_first_index_from_props(accounts: Seq<UserView>, name: Seq<char>, from: int)
    requires
        0 <= from <= accounts.len(),
    ensures
        ({
            let found = first_index_from(accounts, name, from);
            ||| (found == -1 && forall|j: int| from <= j < accounts.len()
                    ==> accounts[j].name != name)
            ||| (from <= found < accounts.len() && accounts[found].name == name
                    && forall|j: int| from <= j < found ==> accounts[j].name != name)
        }),
    decreases accounts.len() - from,
{
    if from < accounts.len() && accounts[from].name != name {
        lemma_first_index_from_props(accounts, name, from + 1);
    }
}

/// A found index lies within the accounts and names the account looked for.
pub proof fn lemma_first_index_of_props(accounts: Seq<UserView>, name: Seq<char>)
    ensures
        ({
            let found = first_index_of(accounts, name);
            ||| (found == -1 && forall|j: int| 0 <= j < accounts.len()
                    ==> accounts[j].name != name)
            ||| (0 <= found < accounts.len() && accounts[found].name == name
                    && forall|j: int| 0 <= j < found ==> accounts[j].name != name)
        }),
{
    lemma_first_index_from_props(accounts, name, 0);
}

/// Replacing one account changes the total assets by the difference of the
/// two balances.
proof fn lemma_total_assets_update(accounts: Seq<UserView>, index: int, account: UserView)
    requires
        0 <= index < accounts.len(),
    ensures
        total_assets(accounts.update(index, account))
            == total_assets(accounts) - accounts[index].balance + account.balance,
    decreases accounts.len(),
{
    let updated = accounts.update(index, account);
    if index == accounts.len() - 1 {
        assert(updated.drop_last() =~= accounts.drop_last());
    } else {
        assert(updated.drop_last() =~= accounts.drop_last().update(index, account));
        lemma_total_assets_update(accounts.drop_last(), index, account);
    }
}

/// Replacing one account changes the total liabilities by the difference of
/// the two credit lines.
proof fn lemma_total_liabilities_update(accounts: Seq<UserView>, index: int, account: UserView)
    requires
        0 <= index < accounts.len(),
    ensures
        total_liabilities(accounts.update(index, account))
            == total_liabilities(accounts) - accounts[index].credit_line + account.credit_line,
    decreases accounts.len(),
{
    let updated = accounts.update(index, account);
    if index == accounts.len() - 1 {
        assert(updated.drop_last() =~= accounts.drop_last());
    } else {
        assert(updated.drop_last() =~= accounts.drop_last().update(index, account));
        lemma_total_liabilities_update(accounts.drop_last(), index, account);
    }
}

/// An accepted transfer moves value but never creates or destroys it: the
/// total assets and the total liabilities both read the same before and
/// after.
pub proof fn lemma_transfer_preserves_balance_sheet(
    accounts: Seq<UserView>,
    origin: Seq<char>,
    destination: Seq<char>,
    amount: int,
)
    requires
        transfer_ok(accounts, origin, destination, amount),
    ensures
        total_assets(apply_transfer(accounts, origin, destination, amount))
            == total_assets(accounts),
        total_liabilities(apply_transfer(accounts, origin, destination, amount))
            == total_liabilities(accounts),
{
    let origin_index = first_index_of(accounts, origin);
    let destination_index = first_index_of(accounts, destination);
    lemma_first_index_of_props(accounts, origin);
    lemma_first_index_of_props(accounts, destination);
    let debited_account = UserView {
        balance: accounts[origin_index].balance - amount,
        ..accounts[origin_index]
    };
    let debited = accounts.update(origin_index, debited_account);
    let credited_account = UserView {
        balance: debited[destination_index].balance + amount,
        ..debited[destination_index]
    };
    lemma_total_assets_update(accounts, origin_index, debited_account);
    lemma_total_assets_update(debited, destination_index, credited_account);
    lemma_total_liabilities_update(accounts, origin_index, debited_account);
    lemma_total_liabilities_update(debited, destination_index, credited_account);
}

/// A transfer of zero or of a negative amount is never accepted; by
/// `transfer`'s contract the ledger is then left unchanged.
pub proof fn lemma_transfer_nonpositive_amount_fails(
    accounts: Seq<UserView>,
    origin: Seq<char>,
    destination: Seq<char>,
    amount: int,
)
    requires
        amount <= 0,
    ensures
        !transfer_ok(accounts, origin, destination, amount),
{
}

/// A transfer whose origin or destination identifier resolves to no account
/// is never accepted, whatever the amount; by `transfer`'s contract the
/// ledger is then left unchanged.
pub proof fn lemma_transfer_unknown_account_fails(
    accounts: Seq<UserView>,
    origin: Seq<char>,
    destination: Seq<char>,
    amount: int,
)
    requires
        !has_account(accounts, origin) || !has_account(accounts, destination),
    ensures
        !transfer_ok(accounts, origin, destination, amount),
{
}

/// An accepted transfer keeps every account within its credit line: the
/// origin is debited no more than its spending capacity, and the destination
/// only grows.
pub proof fn lemma_transfer_preserves_invariant(
    accounts: Seq<UserView>,
    origin: Seq<char>,
    destination: Seq<char>,
    amount: int,
)
    requires
        transfer_ok(accounts, origin, destination, amount),
        forall|i: int| 0 <= i < accounts.len() ==> account_inv(#[trigger] accounts[i]),
    ensures
        forall|i: int| 0 <= i < accounts.len()
            ==> account_inv(#[trigger] apply_transfer(accounts, origin, destination, amount)[i]),
{
    lemma_first_index_of_props(accounts, origin);
    lemma_first_index_of_props(accounts, destination);
}

/// Accrual at non-negative rates never decreases a balance or a credit line.
pub proof fn lemma_accrual_monotone(balance: int, credit_line: int, debit_rate: int, credit_rate: int)
    requires
        debit_rate >= 0,
        credit_rate >= 0,
        credit_line >= 0,
    ensures
        accrued_balance(balance, debit_rate) >= balance,
        accrued_credit_line(credit_line, credit_rate) >= credit_line,
{
    if balance >= 0 {
        assert((balance * debit_rate) / 100 >= 0) by (nonlinear_arith)
            requires
                balance >= 0,
                debit_rate >= 0,
        ;
    }
    assert((credit_line * credit_rate) / 100 >= 0) by (nonlinear_arith)
        requires
            credit_line >= 0,
            credit_rate >= 0,
    ;
}

/// An accrual cycle at non-negative rates keeps every account within its
/// credit line.
pub proof fn lemma_accrual_preserves_invariant(account: UserView, debit_rate: int, credit_rate: int)
    requires
        account_inv(account),
        debit_rate >= 0,
        credit_rate >= 0,
        account.credit_line >= 0,
    ensures
        account_inv(accrue_account(account, debit_rate, credit_rate)),
{
    lemma_accrual_monotone(account.balance, account.credit_line, debit_rate, credit_rate);
}

/// Reading the balance sheet is idempotent: two reads of the same ledger,
/// with no mutation in between, yield identical results.
pub proof fn lemma_balance_sheet_idempotent(bank: Bank, first: BalanceSheet, second: BalanceSheet)
    requires
        first.assets == total_assets(bank@.accounts),
        first.liabilities == total_liabilities(bank@.accounts),
        second.assets == total_assets(bank@.accounts),
        second.liabilities == total_liabilities(bank@.accounts),
    ensures
        first.assets == second.assets,
        first.liabilities == second.liabilities,
{
}

} // verus!

