//! The ledger as a mathematical value, and each operation as a function on it.
//!
//! A `LedgerView` holds the five records that the vault keeps: the admin, the
//! accepted assets, the employee counter, the employee records by id, and the
//! index from wallet to id. The contracts of the executable ledger are stated
//! over these functions.
use crate::error::{LedgerError, TransferFault};
use crate::fee::advance_payout;
use crate::host::is_contract_address;
use crate::records::{BalanceQuery, EmployeeDetails, TokenInfo, TransferOrder};
use soroban_sdk::Address;
use vstd::prelude::*;

verus! {

/// What the vault keeps.
pub struct LedgerView {
    /// The vault's own address: the holder of the pooled funds.
    pub vault: Address,
    /// The admin, once set.
    pub admin: Option<Address>,
    /// The accepted assets, in the order in which they were added.
    pub tokens: Seq<TokenInfo>,
    /// The id given out last; 0 before the first registration.
    pub counter: nat,
    /// The employee records, by id.
    pub employees: Map<u128, EmployeeDetails>,
    /// The id of each registered wallet.
    pub wallet_index: Map<Address, u128>,
}

/// Whether a call made on the authority of `caller` may act as `principal`.
pub open spec fn authorized_as(caller: Address, principal: Address) -> bool {
    caller == principal
}

impl LedgerView {
    /// The ids in use are exactly `1..=counter`, each record carries its own
    /// id, no two records share a wallet, and the index holds exactly the
    /// wallets of the records, each with the id of its record.
    pub open spec fn valid(self) -> bool {
        &&& self.counter <= u128::MAX
        &&& forall|id: u128| #[trigger]
            self.employees.dom().contains(id) <==> 1 <= id <= self.counter
        &&& forall|id: u128| #[trigger]
            self.employees.dom().contains(id) ==> self.employees[id].emp_id == id
        &&& forall|a: u128, b: u128|
            #![trigger self.employees[a], self.employees[b]]
            self.employees.dom().contains(a) && self.employees.dom().contains(b)
                && self.employees[a].wallet == self.employees[b].wallet ==> a == b
        &&& forall|id: u128| #[trigger]
            self.employees.dom().contains(id) ==> self.wallet_index.dom().contains(
                self.employees[id].wallet,
            ) && self.wallet_index[self.employees[id].wallet] == id
        &&& forall|w: Address| #[trigger]
            self.wallet_index.dom().contains(w) ==> self.employees.dom().contains(
                self.wallet_index[w],
            ) && self.employees[self.wallet_index[w]].wallet == w
    }

    /// The ledger of a vault that was just deployed at `vault`.
    pub open spec fn fresh(vault: Address) -> LedgerView {
        LedgerView {
            vault,
            admin: None,
            tokens: Seq::empty(),
            counter: 0,
            employees: Map::empty(),
            wallet_index: Map::empty(),
        }
    }

    // ---- admin ----
    /// Setting the admin: refused once an admin is set, whoever asks and
    /// whichever admin is named; otherwise only on the authority of the admin
    /// named.
    pub open spec fn initialize(self, caller: Address, admin: Address) -> Result<(), LedgerError> {
        if self.admin is Some {
            Err(LedgerError::AlreadyInitialized)
        } else if !authorized_as(caller, admin) {
            Err(LedgerError::Unauthorized)
        } else {
            Ok(())
        }
    }

    /// The ledger after `initialize`.
    pub open spec fn after_initialize(self, caller: Address, admin: Address) -> LedgerView {
        if self.initialize(caller, admin) is Ok {
            LedgerView { admin: Some(admin), ..self }
        } else {
            self
        }
    }

    /// The admin, if one is set.
    pub open spec fn get_admin(self) -> Result<Address, LedgerError> {
        match self.admin {
            Some(admin) => Ok(admin),
            None => Err(LedgerError::NotInitialized),
        }
    }

    // ---- accepted assets ----
    /// Adding an asset: only on the authority of the admin that is stored.
    pub open spec fn add_supported_token(self, caller: Address) -> Result<(), LedgerError> {
        match self.admin {
            None => Err(LedgerError::NotInitialized),
            Some(admin) => if authorized_as(caller, admin) {
                Ok(())
            } else {
                Err(LedgerError::Unauthorized)
            },
        }
    }

    /// The ledger after `add_supported_token`: the entry is appended, whether
    /// or not the asset is listed already.
    pub open spec fn after_add_supported_token(self, caller: Address, info: TokenInfo) -> LedgerView {
        if self.add_supported_token(caller) is Ok {
            LedgerView { tokens: self.tokens.push(info), ..self }
        } else {
            self
        }
    }

    // ---- employees ----
    /// The id that the next registration gives out.
    pub open spec fn next_id(self) -> u128 {
        (self.counter + 1) as u128
    }

    /// Registering a wallet: refused if the wallet has an id already.
    pub open spec fn register_employee(self, wallet: Address) -> Result<(), LedgerError> {
        if self.wallet_index.dom().contains(wallet) {
            Err(LedgerError::WalletAlreadyRegistered)
        } else {
            Ok(())
        }
    }

    /// The ledger after `register_employee`: the counter is advanced by one,
    /// and the new record and its index entry are stored under the new id.
    pub open spec fn after_register_employee(
        self,
        wallet: Address,
        salary: u128,
        salary_token: Address,
    ) -> LedgerView {
        if self.register_employee(wallet) is Ok {
            let emp_id = self.next_id();
            LedgerView {
                counter: self.counter + 1,
                employees: self.employees.insert(
                    emp_id,
                    EmployeeDetails { emp_id, wallet, rem_salary: salary, salary_token },
                ),
                wallet_index: self.wallet_index.insert(wallet, emp_id),
                ..self
            }
        } else {
            self
        }
    }

    /// The record of an employee.
    pub open spec fn get_emp_details(self, emp_id: u128) -> Result<EmployeeDetails, LedgerError> {
        if self.employees.dom().contains(emp_id) {
            Ok(self.employees[emp_id])
        } else {
            Err(LedgerError::EmployeeNotFound)
        }
    }

    /// The id of a wallet, or 0 for a wallet that has none.
    pub open spec fn get_emp_id_by_wallet(self, wallet: Address) -> u128 {
        if self.wallet_index.dom().contains(wallet) {
            self.wallet_index[wallet]
        } else {
            0
        }
    }

    /// What is left of an employee's salary.
    pub open spec fn get_remaining_salary(self, emp_id: u128) -> Result<u128, LedgerError> {
        if self.employees.dom().contains(emp_id) {
            Ok(self.employees[emp_id].rem_salary)
        } else {
            Err(LedgerError::EmployeeNotFound)
        }
    }

    /// This ledger with the remaining salary of `emp_id` set to `rem_salary`.
    pub open spec fn with_remaining(self, emp_id: u128, rem_salary: u128) -> LedgerView {
        LedgerView {
            employees: self.employees.insert(
                emp_id,
                EmployeeDetails { rem_salary, ..self.employees[emp_id] },
            ),
            ..self
        }
    }

    // ---- balances ----
    /// The question that the balance of the vault comes to: what the vault
    /// itself holds of the asset. None unless the asset is the address of a
    /// contract: nothing else can be asked, or hold a balance for anyone.
    pub open spec fn vault_query(self, token: Address) -> Result<BalanceQuery, LedgerError> {
        if !is_contract_address(token) {
            Err(LedgerError::Transfer(TransferFault::NotAContract))
        } else {
            Ok(BalanceQuery { token, holder: self.vault })
        }
    }

    /// What a query reports, given the answer of the token contract: the
    /// amount, or the fault as `Transfer`.
    pub open spec fn reported(answer: Result<i128, TransferFault>) -> Result<i128, LedgerError> {
        match answer {
            Ok(amount) => Ok(amount),
            Err(fault) => Err(LedgerError::Transfer(fault)),
        }
    }

    /// What the balance of the vault reports, given the answer of the token
    /// contract.
    pub open spec fn vault_balance(self, token: Address, answer: Result<i128, TransferFault>) -> Result<
        i128,
        LedgerError,
    > {
        match self.vault_query(token) {
            Err(error) => Err(error),
            Ok(_) => Self::reported(answer),
        }
    }

    // ---- deposit ----
    /// The question that a deposit starts with: what the depositor holds of
    /// the asset. None unless the call is made on the depositor's authority,
    /// the amount is positive and the asset is the address of a contract.
    pub open spec fn deposit_query(self, caller: Address, from: Address, amount: i128, token: Address) -> Result<
        BalanceQuery,
        LedgerError,
    > {
        if !authorized_as(caller, from) {
            Err(LedgerError::Unauthorized)
        } else if amount <= 0 {
            Err(LedgerError::InvalidAmount)
        } else if !is_contract_address(token) {
            Err(LedgerError::Transfer(TransferFault::NotAContract))
        } else {
            Ok(BalanceQuery { token, holder: from })
        }
    }

    /// The transfer that a deposit comes to, given the balance that the token
    /// contract reported for the depositor: none unless the call is made on
    /// the depositor's authority, the amount is positive and the balance
    /// covers it.
    pub open spec fn plan_deposit(
        self,
        caller: Address,
        from: Address,
        amount: i128,
        token: Address,
        balance: i128,
    ) -> Result<TransferOrder, LedgerError> {
        match self.deposit_query(caller, from, amount, token) {
            Err(error) => Err(error),
            Ok(_) => if balance < amount {
                Err(LedgerError::InsufficientBalance)
            } else {
                Ok(TransferOrder { token, from, to: self.vault, amount })
            },
        }
    }

    // ---- advance ----
    /// The transfer that an advance comes to: the amount less the fee, from
    /// the vault to the employee's wallet. None unless the amount is positive,
    /// the employee exists, the amount is below the remaining salary and the
    /// asset is the address of a contract.
    pub open spec fn plan_advance(self, emp_id: u128, amount: i128, token: Address) -> Result<
        TransferOrder,
        LedgerError,
    > {
        if amount <= 0 {
            Err(LedgerError::InvalidAmount)
        } else if !self.employees.dom().contains(emp_id) {
            Err(LedgerError::EmployeeNotFound)
        } else if amount >= self.employees[emp_id].rem_salary {
            Err(LedgerError::AmountExceedsRemainingSalary)
        } else if !is_contract_address(token) {
            Err(LedgerError::Transfer(TransferFault::NotAContract))
        } else {
            Ok(
                TransferOrder {
                    token,
                    from: self.vault,
                    to: self.employees[emp_id].wallet,
                    amount: advance_payout(amount as int) as i128,
                },
            )
        }
    }

    /// The transfer that a release comes to: all that is left of the salary,
    /// from the vault to the employee's wallet. None unless the employee
    /// exists and something is left; and none for more than a token contract
    /// can move, nor for an asset that is no address of a contract.
    pub open spec fn plan_release(self, emp_id: u128, token: Address) -> Result<
        TransferOrder,
        LedgerError,
    > {
        if !self.employees.dom().contains(emp_id) {
            Err(LedgerError::EmployeeNotFound)
        } else if self.employees[emp_id].rem_salary == 0 {
            Err(LedgerError::NoRemainingSalary)
        } else if self.employees[emp_id].rem_salary > i128::MAX {
            Err(LedgerError::Transfer(TransferFault::AmountOutOfRange))
        } else if !is_contract_address(token) {
            Err(LedgerError::Transfer(TransferFault::NotAContract))
        } else {
            Ok(
                TransferOrder {
                    token,
                    from: self.vault,
                    to: self.employees[emp_id].wallet,
                    amount: self.employees[emp_id].rem_salary as i128,
                },
            )
        }
    }

    /// What an operation reports once the token contract has answered: the
    /// transfer that was carried out, or why there was none.
    pub open spec fn concluded(
        plan: Result<TransferOrder, LedgerError>,
        outcome: Result<(), TransferFault>,
    ) -> Result<TransferOrder, LedgerError> {
        match plan {
            Err(error) => Err(error),
            Ok(order) => match outcome {
                Ok(()) => Ok(order),
                Err(fault) => Err(LedgerError::Transfer(fault)),
            },
        }
    }

    /// What a deposit reports, given what the token contract answered to the
    /// balance query and to the transfer. The balance is asked for only once
    /// the caller, the amount and the asset have passed, and the transfer only
    /// if the balance covers the amount.
    pub open spec fn deposit(
        self,
        caller: Address,
        from: Address,
        amount: i128,
        token: Address,
        balance: Result<i128, TransferFault>,
        outcome: Result<(), TransferFault>,
    ) -> Result<TransferOrder, LedgerError> {
        match self.deposit_query(caller, from, amount, token) {
            Err(error) => Err(error),
            Ok(_) => match balance {
                Err(fault) => Err(LedgerError::Transfer(fault)),
                Ok(held) => Self::concluded(
                    self.plan_deposit(caller, from, amount, token, held),
                    outcome,
                ),
            },
        }
    }

    /// What an advance reports, given what the token contract answered to the
    /// transfer.
    pub open spec fn advance(
        self,
        emp_id: u128,
        amount: i128,
        token: Address,
        outcome: Result<(), TransferFault>,
    ) -> Result<TransferOrder, LedgerError> {
        Self::concluded(self.plan_advance(emp_id, amount, token), outcome)
    }

    /// What a release reports, given what the token contract answered to the
    /// transfer.
    pub open spec fn release(
        self,
        emp_id: u128,
        token: Address,
        outcome: Result<(), TransferFault>,
    ) -> Result<TransferOrder, LedgerError> {
        Self::concluded(self.plan_release(emp_id, token), outcome)
    }

    /// The ledger after an advance: the whole amount, fee included, is taken
    /// off the remaining salary if the transfer was carried out; nothing
    /// changes otherwise.
    pub open spec fn after_advance(
        self,
        emp_id: u128,
        amount: i128,
        token: Address,
        outcome: Result<(), TransferFault>,
    ) -> LedgerView {
        if self.advance(emp_id, amount, token, outcome) is Ok {
            self.with_remaining(emp_id, (self.employees[emp_id].rem_salary - amount) as u128)
        } else {
            self
        }
    }

    /// The ledger after a release: the remaining salary is set to `salary` if
    /// the transfer was carried out; nothing changes otherwise.
    pub open spec fn after_release(
        self,
        emp_id: u128,
        token: Address,
        salary: u128,
        outcome: Result<(), TransferFault>,
    ) -> LedgerView {
        if self.release(emp_id, token, outcome) is Ok {
            self.with_remaining(emp_id, salary)
        } else {
            self
        }
    }
}

/// Whether some entry is for this asset.
pub open spec fn has_entry(entries: Seq<(Address, i128)>, asset: Address) -> bool {
    exists|i: int| 0 <= i < entries.len() && (#[trigger] entries[i]).0 == asset
}

/// Whether no later entry is for the asset of entry `i`.
pub open spec fn is_last_entry(entries: Seq<(Address, i128)>, i: int) -> bool {
    forall|j: int| i < j < entries.len() ==> (#[trigger] entries[j]).0 != entries[i].0
}

/// Whether `table` is what a list of entries comes to: it has the assets of
/// the entries as its keys, and under each the amount of the last entry for
/// that asset.
pub open spec fn tabulates(table: Map<Address, i128>, entries: Seq<(Address, i128)>) -> bool {
    &&& forall|asset: Address| #[trigger] table.dom().contains(asset) <==> has_entry(entries, asset)
    &&& forall|i: int|
        0 <= i < entries.len() && is_last_entry(entries, i) ==> table[(#[trigger] entries[i]).0]
            == entries[i].1
}

/// Whether answer `k` is a fault and every answer before it is an amount.
pub open spec fn is_first_fault(answers: Seq<Result<i128, TransferFault>>, k: int) -> bool {
    &&& 0 <= k < answers.len()
    &&& answers[k] is Err
    &&& forall|j: int| 0 <= j < k ==> (#[trigger] answers[j]) is Ok
}

/// What the balances of `assets` come to, given the answer for each of them
/// in their order: one entry for each asset with the amount answered, or the
/// first fault among the answers. The assets are asked in their order and the
/// first fault ends the asking, so the answers behind it make no difference.
/// An item of the list is an address, or nothing where the list holds
/// something else.
pub open spec fn balances_report(
    assets: Seq<Option<Address>>,
    answers: Seq<Result<i128, TransferFault>>,
) -> Result<Seq<(Address, i128)>, LedgerError> {
    if exists|k: int| is_first_fault(answers, k) {
        Err(LedgerError::Transfer(answers[choose|k: int| is_first_fault(answers, k)]->Err_0))
    } else {
        Ok(Seq::new(assets.len(), |i: int| (assets[i]->Some_0, answers[i]->Ok_0)))
    }
}

/// Whether an item of a list of assets can be asked for a balance: it is an
/// address, and that of a contract.
pub open spec fn can_be_asked(asset: Option<Address>) -> bool {
    asset matches Some(token) && is_contract_address(token)
}

/// Whether `answers` can be the answers for `assets`: one for each, and the
/// fault `NotAContract` for each asset that cannot be asked, since no contract
/// is there to give another.
pub open spec fn answers_fit(
    assets: Seq<Option<Address>>,
    answers: Seq<Result<i128, TransferFault>>,
) -> bool {
    &&& answers.len() == assets.len()
    &&& forall|i: int|
        0 <= i < assets.len() && !can_be_asked(assets[i]) ==> (#[trigger] answers[i]) == Err::<
            i128,
            _,
        >(TransferFault::NotAContract)
}

/// Only one answer is the first fault.
pub proof fn lemma_first_fault_is_one(answers: Seq<Result<i128, TransferFault>>, a: int, b: int)
    requires
        is_first_fault(answers, a),
        is_first_fault(answers, b),
    ensures
        a == b,
{
    if a < b {
        assert(answers[a] is Ok);
    } else if b < a {
        assert(answers[b] is Ok);
    }
}

} // verus!
