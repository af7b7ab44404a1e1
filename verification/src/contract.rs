//! The vault's ledger, as the contract keeps it between calls.
//!
//! Every operation either succeeds and changes the ledger as its contract
//! says, or fails with a `LedgerError` and leaves the ledger as it was. Who
//! may call is decided outside, by the host's authorization of addresses: an
//! operation that needs an authorization takes the address on whose authority
//! the call is made, and compares it with the address it needs.
use crate::balances::{is_balances_report, tabulate_balances};
use crate::error::{balance_outcome, transfer_outcome, LedgerError, TransferFault};
use crate::fee::fee_on;
use crate::host::{
    asset_at, asset_count, asset_items, balance_entries, is_contract_address, names_contract,
    new_wallet_index, same_address, set_wallet_entry, token_balance, token_transfer,
    wallet_entries, wallet_entry,
};
use crate::layout::{
    ledger_of, lemma_ledger_fresh, lemma_ledger_push, lemma_ledger_update, lemma_ledger_valid,
    records_consistent, wallet_position,
};
use crate::model::{
    answers_fit, balances_report, can_be_asked, has_entry, is_first_fault,
    lemma_first_fault_is_one, LedgerView,
};
use crate::records::{BalanceQuery, EmployeeDetails, TokenInfo, TransferOrder};
use soroban_sdk::{Address, Env};
use vstd::prelude::*;

verus! {

/// The ledger of one vault.
///
/// The records are kept in the order of their ids, which count up from 1, so
/// the record of an id is found by its position. The index from wallet to id
/// is kept beside them, in a map of the host.
pub struct EarlyWageContract {
    vault: Address,
    admin: Option<Address>,
    tokens: Vec<TokenInfo>,
    employees: Vec<EmployeeDetails>,
    wallets: soroban_sdk::Map<Address, u128>,
}

impl View for EarlyWageContract {
    type V = LedgerView;

    closed spec fn view(&self) -> LedgerView {
        ledger_of(self.vault, self.admin, self.tokens@, self.employees@)
    }
}

impl EarlyWageContract {
    /// The invariant of the ledger. `new` and `restore` establish it and every
    /// operation keeps it.
    pub closed spec fn wf(&self) -> bool {
        &&& records_consistent(self.employees@)
        &&& wallet_entries(self.wallets) == self@.wallet_index
    }

    /// A ledger that satisfies its invariant stands for a valid `LedgerView`.
    pub proof fn lemma_view_valid(&self)
        requires
            self.wf(),
        ensures
            self@.valid(),
    {
        lemma_ledger_valid(self.vault, self.admin, self.tokens@, self.employees@);
    }

    /// The counter of a ledger is no more than the number of records that
    /// memory can hold, so an id is always left for the next registration.
    pub proof fn lemma_counter_bounded(&self)
        requires
            self.wf(),
        ensures
            self@.counter <= usize::MAX,
            self@.counter < u128::MAX,
    {
        assert(self.employees.len() == self@.counter);
    }

    /// The ledger of a vault that was just deployed at `vault`: no admin, no
    /// accepted assets, no employees.
    pub fn new(e: &Env, vault: Address) -> (ledger: Self)
        ensures
            ledger.wf(),
            ledger@ == LedgerView::fresh(vault),
    {
        proof {
            lemma_ledger_fresh(vault);
        }
        EarlyWageContract {
            vault,
            admin: None,
            tokens: Vec::new(),
            employees: Vec::new(),
            wallets: new_wallet_index(e),
        }
    }

    /// Puts a ledger together from records that were stored earlier. The
    /// records are taken in the order of their ids; they are refused unless
    /// the ids count up from 1 and no wallet occurs twice. The index from
    /// wallet to id is made anew from the records.
    pub fn restore(
        e: &Env,
        vault: Address,
        admin: Option<Address>,
        tokens: Vec<TokenInfo>,
        employees: Vec<EmployeeDetails>,
    ) -> (ledger: Option<Self>)
        ensures
            ledger is Some <==> records_consistent(employees@),
            ledger matches Some(l) ==> l.wf() && l@ == ledger_of(vault, admin, tokens@, employees@),
    {
        let mut wallets = new_wallet_index(e);
        let n = employees.len();
        let mut i: usize = 0;
        proof {
            lemma_ledger_fresh(vault);
            assert(employees@.subrange(0, 0) =~= Seq::empty());
        }
        while i < n
            invariant
                n == employees.len(),
                0 <= i <= n,
                records_consistent(employees@.subrange(0, i as int)),
                wallet_entries(wallets) == ledger_of(
                    vault,
                    None,
                    Seq::empty(),
                    employees@.subrange(0, i as int),
                ).wallet_index,
            decreases n - i,
        {
            let ghost done = employees@.subrange(0, i as int);
            if employees[i].emp_id != i as u128 + 1 {
                proof {
                    if records_consistent(employees@) {
                        assert(employees@[i as int].emp_id == i + 1);
                    }
                }
                return None;
            }
            if wallet_entry(&wallets, &employees[i].wallet).is_some() {
                proof {
                    let k = wallet_position(done, employees@[i as int].wallet);
                    assert(done[k] == employees@[k]);
                    if records_consistent(employees@) {
                        assert(employees@[k].wallet != employees@[i as int].wallet);
                    }
                }
                return None;
            }
            proof {
                lemma_ledger_push(vault, None, Seq::empty(), done, employees@[i as int]);
                assert(done.push(employees@[i as int]) =~= employees@.subrange(0, i + 1));
            }
            set_wallet_entry(&mut wallets, &employees[i].wallet, employees[i].emp_id);
            i += 1;
        }
        proof {
            assert(employees@.subrange(0, n as int) =~= employees@);
        }
        Some(EarlyWageContract { vault, admin, tokens, employees, wallets })
    }

    /// The index from wallet to id, as the host holds it.
    pub fn wallet_index(&self) -> (index: &soroban_sdk::Map<Address, u128>)
        requires
            self.wf(),
        ensures
            wallet_entries(*index) == self@.wallet_index,
    {
        &self.wallets
    }

    /// The address of the vault.
    pub fn vault(&self) -> (vault: &Address)
        ensures
            *vault == self@.vault,
    {
        &self.vault
    }

    /// The id given out last: the number of employees.
    pub fn employee_count(&self) -> (count: u128)
        requires
            self.wf(),
        ensures
            count == self@.counter,
    {
        self.employees.len() as u128
    }

    // ============================================
    // The admin
    // ============================================
    /// Sets the admin. Works once: as soon as an admin is set every call fails
    /// with `AlreadyInitialized`, whichever admin it names. Before that it
    /// fails with `Unauthorized` unless it is made on the authority of `admin`.
    pub fn initialize(&mut self, caller: &Address, admin: Address) -> (done: Result<(), LedgerError>)
        requires
            old(self).wf(),
        ensures
            final(self).wf(),
            done == old(self)@.initialize(*caller, admin),
            final(self)@ == old(self)@.after_initialize(*caller, admin),
    {
        if self.admin.is_some() {
            return Err(LedgerError::AlreadyInitialized);
        }
        if !same_address(caller, &admin) {
            return Err(LedgerError::Unauthorized);
        }
        self.admin = Some(admin);
        Ok(())
    }

    /// The admin; `NotInitialized` while none is set.
    pub fn get_admin(&self) -> (admin: Result<Address, LedgerError>)
        ensures
            admin == self@.get_admin(),
    {
        match &self.admin {
            Some(admin) => Ok(admin.clone()),
            None => Err(LedgerError::NotInitialized),
        }
    }

    // ============================================
    // Accepted assets
    // ============================================
    /// Appends an asset to the list of accepted assets. Fails with
    /// `NotInitialized` while no admin is set, and with `Unauthorized` unless
    /// the call is made on the authority of the admin that is stored. An asset
    /// that is listed already is listed once more.
    pub fn add_supported_token(
        &mut self,
        caller: &Address,
        token_address: Address,
        symbol: soroban_sdk::String,
        decimals: u32,
    ) -> (done: Result<(), LedgerError>)
        requires
            old(self).wf(),
        ensures
            final(self).wf(),
            done == old(self)@.add_supported_token(*caller),
            final(self)@ == old(self)@.after_add_supported_token(
                *caller,
                (TokenInfo { address: token_address, symbol, decimals }),
            ),
    {
        match &self.admin {
            None => {
                return Err(LedgerError::NotInitialized);
            },
            Some(admin) => {
                if !same_address(caller, admin) {
                    return Err(LedgerError::Unauthorized);
                }
            },
        }
        self.tokens.push(TokenInfo { address: token_address, symbol, decimals });
        Ok(())
    }

    /// The accepted assets, in the order in which they were added.
    pub fn get_supported_tokens(&self) -> (tokens: &Vec<TokenInfo>)
        ensures
            tokens@ == self@.tokens,
    {
        &self.tokens
    }

    // ============================================
    // Employees
    // ============================================
    /// Registers an employee: gives the wallet the next id, counting from 1,
    /// and stores the record with `salary` as the remaining salary. Fails with
    /// `WalletAlreadyRegistered` if the wallet has an id already. Any salary is
    /// accepted, and anyone may register.
    pub fn register_employee(&mut self, wallet: Address, salary: u128, salary_token: Address) -> (done:
        Result<(), LedgerError>)
        requires
            old(self).wf(),
        ensures
            final(self).wf(),
            done == old(self)@.register_employee(wallet),
            final(self)@ == old(self)@.after_register_employee(wallet, salary, salary_token),
    {
        if wallet_entry(&self.wallets, &wallet).is_some() {
            return Err(LedgerError::WalletAlreadyRegistered);
        }
        let emp_id: u128 = self.employees.len() as u128 + 1;
        set_wallet_entry(&mut self.wallets, &wallet, emp_id);
        let record = EmployeeDetails { emp_id, wallet, rem_salary: salary, salary_token };
        proof {
            lemma_ledger_push(self.vault, self.admin, self.tokens@, self.employees@, record);
        }
        self.employees.push(record);
        Ok(())
    }

    /// The position of the record with this id, if there is one.
    fn find_id(&self, emp_id: u128) -> (found: Option<usize>)
        requires
            self.wf(),
        ensures
            found is Some <==> self@.employees.dom().contains(emp_id),
            found matches Some(i) ==> i < self.employees.len() && i == emp_id - 1
                && self.employees@[i as int] == self@.employees[emp_id],
    {
        if emp_id == 0 || emp_id > self.employees.len() as u128 {
            None
        } else {
            Some((emp_id - 1) as usize)
        }
    }

    /// The position of the record with an id that is in use.
    fn position_of(&self, emp_id: u128) -> (i: usize)
        requires
            self.wf(),
            self@.employees.dom().contains(emp_id),
        ensures
            i < self.employees.len(),
            i + 1 == emp_id,
            self.employees@[i as int] == self@.employees[emp_id],
    {
        let count = self.employees.len();
        assert(1 <= emp_id <= count);
        (emp_id - 1) as usize
    }

    /// The record of an employee; `EmployeeNotFound` if the id was never given
    /// out.
    pub fn get_emp_details(&self, emp_id: u128) -> (details: Result<EmployeeDetails, LedgerError>)
        requires
            self.wf(),
        ensures
            details == self@.get_emp_details(emp_id),
    {
        match self.find_id(emp_id) {
            Some(i) => Ok(self.employees[i].clone()),
            None => Err(LedgerError::EmployeeNotFound),
        }
    }

    /// The id of a wallet, or 0 for a wallet that has none. Ids start at 1, so
    /// 0 is never the id of a registered wallet.
    pub fn get_emp_id_by_wallet(&self, wallet: &Address) -> (emp_id: u128)
        requires
            self.wf(),
        ensures
            emp_id == self@.get_emp_id_by_wallet(*wallet),
            emp_id != 0 <==> self@.wallet_index.dom().contains(*wallet),
    {
        proof {
            self.lemma_view_valid();
            if self@.wallet_index.dom().contains(*wallet) {
                assert(self@.employees.dom().contains(self@.wallet_index[*wallet]));
            }
        }
        match wallet_entry(&self.wallets, wallet) {
            Some(emp_id) => emp_id,
            None => 0,
        }
    }

    /// What is left of an employee's salary; `EmployeeNotFound` if the id was
    /// never given out.
    pub fn get_remaining_salary(&self, emp_id: u128) -> (left: Result<u128, LedgerError>)
        requires
            self.wf(),
        ensures
            left == self@.get_remaining_salary(emp_id),
    {
        match self.find_id(emp_id) {
            Some(i) => Ok(self.employees[i].rem_salary),
            None => Err(LedgerError::EmployeeNotFound),
        }
    }

    /// Sets the remaining salary of the record at position `i`.
    fn set_remaining(&mut self, i: usize, rem_salary: u128)
        requires
            old(self).wf(),
            i < old(self).employees.len(),
        ensures
            final(self).wf(),
            final(self)@ == old(self)@.with_remaining((i + 1) as u128, rem_salary),
    {
        let record = EmployeeDetails {
            emp_id: self.employees[i].emp_id,
            wallet: self.employees[i].wallet.clone(),
            rem_salary,
            salary_token: self.employees[i].salary_token.clone(),
        };
        proof {
            lemma_ledger_update(
                self.vault,
                self.admin,
                self.tokens@,
                self.employees@,
                i as int,
                rem_salary,
            );
        }
        self.employees.set(i, record);
    }

    // ============================================
    // The vault
    // ============================================
    /// The question that a deposit of `amount` of `token` by `from` starts
    /// with: what `from` holds of `token`. `Unauthorized` unless the call is
    /// made on the authority of `from`, `InvalidAmount` unless the amount is
    /// positive, and a failed transfer if `token` is no address of a contract.
    pub fn deposit_query(&self, caller: &Address, from: &Address, amount: i128, token: &Address) -> (query:
        Result<BalanceQuery, LedgerError>)
        ensures
            query == self@.deposit_query(*caller, *from, amount, *token),
    {
        if !same_address(caller, from) {
            Err(LedgerError::Unauthorized)
        } else if amount <= 0 {
            Err(LedgerError::InvalidAmount)
        } else if !names_contract(token) {
            Err(LedgerError::Transfer(TransferFault::NotAContract))
        } else {
            Ok(BalanceQuery { token: token.clone(), holder: from.clone() })
        }
    }

    /// Decides a deposit of `amount` of `token` by `from`, given the balance
    /// that the token contract reported for `from`: the transfer into the
    /// vault, or what `deposit_query` refuses, or `InsufficientBalance` if the
    /// balance is below the amount.
    pub fn plan_deposit(
        &self,
        caller: &Address,
        from: &Address,
        amount: i128,
        token: &Address,
        balance: i128,
    ) -> (plan: Result<TransferOrder, LedgerError>)
        ensures
            plan == self@.plan_deposit(*caller, *from, amount, *token, balance),
    {
        match self.deposit_query(caller, from, amount, token) {
            Err(error) => Err(error),
            Ok(query) => {
                if balance < amount {
                    Err(LedgerError::InsufficientBalance)
                } else {
                    Ok(
                        TransferOrder {
                            token: query.token,
                            from: query.holder,
                            to: self.vault.clone(),
                            amount,
                        },
                    )
                }
            },
        }
    }

    /// Moves `amount` of `token` from `from` into the vault. The balance of
    /// `from` is asked for first, and no transfer is attempted unless it
    /// covers the amount. Reports the transfer that was carried out. A query
    /// or a transfer that the token contract fails is reported as `Transfer`,
    /// and so is a `token` that is no address of a contract.
    pub fn deposit_to_vault(
        &self,
        e: &Env,
        caller: &Address,
        from: &Address,
        amount: i128,
        token: &Address,
    ) -> (done: Result<TransferOrder, LedgerError>)
        ensures
            exists|balance: Result<i128, TransferFault>, outcome: Result<(), TransferFault>|
                done == #[trigger] self@.deposit(*caller, *from, amount, *token, balance, outcome),
            self@.deposit_query(*caller, *from, amount, *token) matches Err(error) ==> done == Err::<
                TransferOrder,
                _,
            >(error),
            done matches Ok(order) ==> order == (TransferOrder {
                token: *token,
                from: *from,
                to: self@.vault,
                amount,
            }),
    {
        let query = match self.deposit_query(caller, from, amount, token) {
            Ok(query) => query,
            Err(error) => {
                assert(self@.deposit(*caller, *from, amount, *token, Ok(0), Ok(())) == Err::<
                    TransferOrder,
                    _,
                >(error));
                return Err(error);
            },
        };
        let balance = balance_outcome(token_balance(e, &query));
        let held = match balance {
            Ok(held) => held,
            Err(fault) => {
                assert(self@.deposit(*caller, *from, amount, *token, balance, Ok(())) == Err::<
                    TransferOrder,
                    _,
                >(LedgerError::Transfer(fault)));
                return Err(LedgerError::Transfer(fault));
            },
        };
        let order = match self.plan_deposit(caller, from, amount, token, held) {
            Ok(order) => order,
            Err(error) => {
                assert(self@.deposit(*caller, *from, amount, *token, balance, Ok(())) == Err::<
                    TransferOrder,
                    _,
                >(error));
                return Err(error);
            },
        };
        let outcome = transfer_outcome(token_transfer(e, &order));
        let done = match outcome {
            Ok(()) => Ok(order),
            Err(fault) => Err(LedgerError::Transfer(fault)),
        };
        assert(done == self@.deposit(*caller, *from, amount, *token, balance, outcome));
        done
    }

    /// Decides an advance of `amount` to the employee `emp_id`, to be paid in
    /// `token`: the transfer of the amount less the fee from the vault to the
    /// employee's wallet, or `InvalidAmount` unless the amount is positive,
    /// `EmployeeNotFound` if the id was never given out, and
    /// `AmountExceedsRemainingSalary` unless the amount is below the remaining
    /// salary. The fee is 1.25 % of the amount, rounded down. A `token` that is
    /// no address of a contract is reported as a failed transfer.
    pub fn plan_advance(&self, emp_id: u128, amount: i128, token: &Address) -> (plan: Result<
        TransferOrder,
        LedgerError,
    >)
        requires
            self.wf(),
        ensures
            plan == self@.plan_advance(emp_id, amount, *token),
    {
        if amount <= 0 {
            return Err(LedgerError::InvalidAmount);
        }
        let i = match self.find_id(emp_id) {
            Some(i) => i,
            None => {
                return Err(LedgerError::EmployeeNotFound);
            },
        };
        if amount as u128 >= self.employees[i].rem_salary {
            return Err(LedgerError::AmountExceedsRemainingSalary);
        }
        if !names_contract(token) {
            return Err(LedgerError::Transfer(TransferFault::NotAContract));
        }
        let fee = fee_on(amount);
        Ok(
            TransferOrder {
                token: token.clone(),
                from: self.vault.clone(),
                to: self.employees[i].wallet.clone(),
                amount: amount - fee,
            },
        )
    }

    /// Books an advance once the token contract has answered: if the transfer
    /// was carried out, the whole amount, fee included, is taken off the
    /// remaining salary; if not, nothing changes and the fault is reported.
    pub fn conclude_advance(
        &mut self,
        emp_id: u128,
        amount: i128,
        token: &Address,
        outcome: Result<(), TransferFault>,
    ) -> (done: Result<TransferOrder, LedgerError>)
        requires
            old(self).wf(),
        ensures
            final(self).wf(),
            done == old(self)@.advance(emp_id, amount, *token, outcome),
            final(self)@ == old(self)@.after_advance(emp_id, amount, *token, outcome),
    {
        let order = match self.plan_advance(emp_id, amount, token) {
            Ok(order) => order,
            Err(error) => {
                return Err(error);
            },
        };
        match outcome {
            Err(fault) => Err(LedgerError::Transfer(fault)),
            Ok(()) => {
                let i = self.position_of(emp_id);
                let left = self.employees[i].rem_salary - amount as u128;
                self.set_remaining(i, left);
                Ok(order)
            },
        }
    }

    /// Pays an advance: has the token contract move the amount less the fee
    /// from the vault to the employee's wallet, and takes the whole amount off
    /// the remaining salary. Reports the transfer that was carried out. If the
    /// advance is refused or the transfer fails, nothing changes. Anyone may
    /// ask; the money goes to the registered wallet only.
    pub fn request_advance(&mut self, e: &Env, emp_id: u128, amount: i128, token: &Address) -> (done:
        Result<TransferOrder, LedgerError>)
        requires
            old(self).wf(),
        ensures
            final(self).wf(),
            exists|outcome: Result<(), TransferFault>|
                done == #[trigger] old(self)@.advance(emp_id, amount, *token, outcome)
                    && final(self)@ == old(self)@.after_advance(emp_id, amount, *token, outcome),
            old(self)@.plan_advance(emp_id, amount, *token) matches Err(error) ==> done == Err::<
                TransferOrder,
                _,
            >(error) && final(self)@ == old(self)@,
            done matches Ok(order) ==> old(self)@.plan_advance(emp_id, amount, *token) == Ok::<
                _,
                LedgerError,
            >(order),
    {
        let order = match self.plan_advance(emp_id, amount, token) {
            Ok(order) => order,
            Err(error) => {
                assert(self@.advance(emp_id, amount, *token, Ok(())) == Err::<TransferOrder, _>(
                    error,
                ));
                return Err(error);
            },
        };
        let outcome = transfer_outcome(token_transfer(e, &order));
        self.conclude_advance(emp_id, amount, token, outcome)
    }

    /// The question that the balance of the vault comes to: what the vault
    /// itself holds of `token`. A `token` that is no address of a contract is
    /// refused as a failed transfer: no contract is there to ask.
    pub fn vault_query(&self, token: &Address) -> (query: Result<BalanceQuery, LedgerError>)
        ensures
            query == self@.vault_query(*token),
    {
        if names_contract(token) {
            Ok(BalanceQuery { token: token.clone(), holder: self.vault.clone() })
        } else {
            Err(LedgerError::Transfer(TransferFault::NotAContract))
        }
    }

    /// Reads the answer to a query: the amount, or the fault as `Transfer`.
    pub fn report_balance(answer: Result<i128, TransferFault>) -> (held: Result<i128, LedgerError>)
        ensures
            held == LedgerView::reported(answer),
    {
        match answer {
            Ok(amount) => Ok(amount),
            Err(fault) => Err(LedgerError::Transfer(fault)),
        }
    }

    /// What the vault holds of `token`: the token contract at `token` is asked
    /// for the balance of the vault, and its answer is reported.
    pub fn vault_balance(&self, e: &Env, token: &Address) -> (held: Result<i128, LedgerError>)
        ensures
            exists|answer: Result<i128, TransferFault>|
                held == #[trigger] self@.vault_balance(*token, answer),
            !is_contract_address(*token) ==> held == Err::<i128, _>(
                LedgerError::Transfer(TransferFault::NotAContract),
            ),
            held matches Err(error) ==> error is Transfer,
    {
        let query = match self.vault_query(token) {
            Ok(query) => query,
            Err(error) => {
                assert(self@.vault_balance(*token, Ok(0)) == Err::<i128, _>(error));
                return Err(error);
            },
        };
        let answer = balance_outcome(token_balance(e, &query));
        assert(LedgerView::reported(answer) == self@.vault_balance(*token, answer));
        Self::report_balance(answer)
    }

    /// Asks what the vault holds of one item of a list of assets. An item that
    /// cannot be asked has the answer `NotAContract`.
    fn ask_about(&self, e: &Env, asset: &Option<Address>) -> (answer: Result<i128, TransferFault>)
        ensures
            !can_be_asked(*asset) ==> answer == Err::<i128, _>(TransferFault::NotAContract),
    {
        match asset {
            None => Err(TransferFault::NotAContract),
            Some(token) => match self.vault_query(token) {
                Ok(query) => balance_outcome(token_balance(e, &query)),
                Err(_) => Err(TransferFault::NotAContract),
            },
        }
    }

    /// The answers so far, the fault that ended the asking, and for every asset
    /// that was not asked any more an answer that fits it.
    spec fn answers_cut_short(
        assets: Seq<Option<Address>>,
        so_far: Seq<Result<i128, TransferFault>>,
        fault: TransferFault,
    ) -> Seq<Result<i128, TransferFault>> {
        Seq::new(
            assets.len(),
            |k: int|
                if k < so_far.len() {
                    so_far[k]
                } else if k == so_far.len() {
                    Err(fault)
                } else if can_be_asked(assets[k]) {
                    Ok(0)
                } else {
                    Err(TransferFault::NotAContract)
                },
        )
    }

    /// What the vault holds of each of `tokens`, in a map of the host from
    /// asset to balance. The assets are asked in their order. An asset that is
    /// named more than once has one key, with the balance reported last; no
    /// assets give the empty map. Each asset is asked what `vault_query` says.
    /// The first query that the token contract fails ends the call with that
    /// fault as `Transfer`, and so does the first item that is no address of
    /// a contract.
    pub fn vault_balances_multi(&self, e: &Env, tokens: &soroban_sdk::Vec<Address>) -> (held: Result<
        soroban_sdk::Map<Address, i128>,
        LedgerError,
    >)
        ensures
            exists|answers: Seq<Result<i128, TransferFault>>| #[trigger]
                is_balances_report(held, asset_items(*tokens), answers),
            asset_items(*tokens).len() == 0 ==> held is Ok,
            held matches Ok(table) ==> forall|asset: Address| #[trigger]
                balance_entries(table).dom().contains(asset) <==> asset_items(*tokens).contains(
                    Some(asset),
                ),
            held matches Err(error) ==> error is Transfer,
    {
        let ghost assets = asset_items(*tokens);
        let count = asset_count(tokens);
        let mut entries: Vec<(Address, i128)> = Vec::new();
        let ghost mut answers: Seq<Result<i128, TransferFault>> = Seq::empty();
        let mut i: u32 = 0;
        while i < count
            invariant
                assets == asset_items(*tokens),
                count == assets.len(),
                0 <= i <= count,
                entries@.len() == i,
                answers.len() == i,
                forall|k: int| 0 <= k < i ==> assets[k] == Some((#[trigger] entries@[k]).0),
                forall|k: int|
                    0 <= k < i ==> (#[trigger] answers[k]) == Ok::<i128, TransferFault>(
                        entries@[k].1,
                    ),
                forall|k: int| 0 <= k < i ==> can_be_asked(#[trigger] assets[k]),
            decreases count - i,
        {
            let asset = asset_at(tokens, i);
            match self.ask_about(e, &asset) {
                Ok(amount) => {
                    entries.push((asset.unwrap(), amount));
                    proof {
                        answers = answers.push(Ok(amount));
                    }
                },
                Err(fault) => {
                    proof {
                        let all = Self::answers_cut_short(assets, answers, fault);
                        assert(all[i as int] == Err::<i128, _>(fault));
                        assert forall|j: int| 0 <= j < i implies (#[trigger] all[j]) is Ok by {
                            assert(all[j] == answers[j]);
                        }
                        assert(is_first_fault(all, i as int));
                        lemma_first_fault_is_one(
                            all,
                            i as int,
                            choose|k: int| is_first_fault(all, k),
                        );
                        assert(answers_fit(assets, all));
                        assert(is_balances_report(
                            Err(LedgerError::Transfer(fault)),
                            assets,
                            all,
                        ));
                    }
                    return Err(LedgerError::Transfer(fault));
                },
            }
            i += 1;
        }
        let table = tabulate_balances(e, &entries);
        proof {
            assert(!exists|k: int| is_first_fault(answers, k));
            assert(answers_fit(assets, answers));
            assert(balances_report(assets, answers)->Ok_0 =~= entries@);
            assert(is_balances_report(Ok(table), assets, answers));
            assert forall|asset: Address| #[trigger]
                balance_entries(table).dom().contains(asset) <==> assets.contains(
                    Some(asset),
                ) by {
                if has_entry(entries@, asset) {
                    let k = choose|k: int|
                        0 <= k < entries@.len() && (#[trigger] entries@[k]).0 == asset;
                    assert(assets[k] == Some(asset));
                }
                if assets.contains(Some(asset)) {
                    let k = choose|k: int| 0 <= k < assets.len() && assets[k] == Some(asset);
                    assert(entries@[k].0 == asset);
                }
            }
        }
        Ok(table)
    }

    /// Decides a release for the employee `emp_id`, to be paid in `token`: the
    /// transfer of all that is left of the salary from the vault to the
    /// employee's wallet, or `EmployeeNotFound` if the id was never given out
    /// and `NoRemainingSalary` if nothing is left. More than a token contract
    /// can move is reported as a failed transfer, and so is a `token` that is
    /// no address of a contract.
    pub fn plan_release(&self, emp_id: u128, token: &Address) -> (plan: Result<
        TransferOrder,
        LedgerError,
    >)
        requires
            self.wf(),
        ensures
            plan == self@.plan_release(emp_id, *token),
    {
        let i = match self.find_id(emp_id) {
            Some(i) => i,
            None => {
                return Err(LedgerError::EmployeeNotFound);
            },
        };
        let left = self.employees[i].rem_salary;
        if left == 0 {
            return Err(LedgerError::NoRemainingSalary);
        }
        if left > i128::MAX as u128 {
            return Err(LedgerError::Transfer(TransferFault::AmountOutOfRange));
        }
        if !names_contract(token) {
            return Err(LedgerError::Transfer(TransferFault::NotAContract));
        }
        Ok(
            TransferOrder {
                token: token.clone(),
                from: self.vault.clone(),
                to: self.employees[i].wallet.clone(),
                amount: left as i128,
            },
        )
    }

    /// Books a release once the token contract has answered: if the transfer
    /// was carried out, the remaining salary is set to `salary`; if not,
    /// nothing changes and the fault is reported.
    pub fn conclude_release(
        &mut self,
        emp_id: u128,
        token: &Address,
        salary: u128,
        outcome: Result<(), TransferFault>,
    ) -> (done: Result<TransferOrder, LedgerError>)
        requires
            old(self).wf(),
        ensures
            final(self).wf(),
            done == old(self)@.release(emp_id, *token, outcome),
            final(self)@ == old(self)@.after_release(emp_id, *token, salary, outcome),
    {
        let order = match self.plan_release(emp_id, token) {
            Ok(order) => order,
            Err(error) => {
                return Err(error);
            },
        };
        match outcome {
            Err(fault) => Err(LedgerError::Transfer(fault)),
            Ok(()) => {
                let i = self.position_of(emp_id);
                self.set_remaining(i, salary);
                Ok(order)
            },
        }
    }

    /// Releases the salary: has the token contract move all that is left of
    /// it from the vault to the employee's wallet, and then sets the remaining
    /// salary to `salary`, which may be 0. Reports the transfer that was
    /// carried out. If the release is refused or the transfer fails, nothing
    /// changes. Anyone may ask; the money goes to the registered wallet only.
    pub fn release_remaining_salary(
        &mut self,
        e: &Env,
        emp_id: u128,
        token: &Address,
        salary: u128,
    ) -> (done: Result<TransferOrder, LedgerError>)
        requires
            old(self).wf(),
        ensures
            final(self).wf(),
            exists|outcome: Result<(), TransferFault>|
                done == #[trigger] old(self)@.release(emp_id, *token, outcome) && final(self)@
                    == old(self)@.after_release(emp_id, *token, salary, outcome),
            old(self)@.plan_release(emp_id, *token) matches Err(error) ==> done == Err::<
                TransferOrder,
                _,
            >(error) && final(self)@ == old(self)@,
            done matches Ok(order) ==> old(self)@.plan_release(emp_id, *token) == Ok::<
                _,
                LedgerError,
            >(order),
    {
        let order = match self.plan_release(emp_id, token) {
            Ok(order) => order,
            Err(error) => {
                assert(self@.release(emp_id, *token, Ok(())) == Err::<TransferOrder, _>(error));
                return Err(error);
            },
        };
        let outcome = transfer_outcome(token_transfer(e, &order));
        self.conclude_release(emp_id, token, salary, outcome)
    }
}

} // verus!
