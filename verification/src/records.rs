//! The records that the ledger keeps and hands out.
use soroban_sdk::Address;
use vstd::prelude::*;

verus! {

/// One employee: the id given at registration, the wallet that is paid, what
/// is left of the salary, and the asset the salary was agreed in.
#[derive(Debug, PartialEq, Eq)]
pub struct EmployeeDetails {
    pub emp_id: u128,
    pub wallet: Address,
    pub rem_salary: u128,
    pub salary_token: Address,
}

impl Clone for EmployeeDetails {
    fn clone(&self) -> (copy: Self)
        ensures
            copy == *self,
    {
        EmployeeDetails {
            emp_id: self.emp_id,
            wallet: self.wallet.clone(),
            rem_salary: self.rem_salary,
            salary_token: self.salary_token.clone(),
        }
    }
}

/// An asset that the vault accepts, as the admin entered it.
#[derive(Debug, PartialEq, Eq)]
pub struct TokenInfo {
    pub address: Address,
    pub symbol: soroban_sdk::String,
    pub decimals: u32,
}

impl Clone for TokenInfo {
    fn clone(&self) -> (copy: Self)
        ensures
            copy == *self,
    {
        TokenInfo {
            address: self.address.clone(),
            symbol: self.symbol.clone(),
            decimals: self.decimals,
        }
    }
}

/// One transfer for the token contract at `token`: `amount` from `from` to `to`.
#[derive(Debug, PartialEq, Eq)]
pub struct TransferOrder {
    pub token: Address,
    pub from: Address,
    pub to: Address,
    pub amount: i128,
}

impl Clone for TransferOrder {
    fn clone(&self) -> (copy: Self)
        ensures
            copy == *self,
    {
        TransferOrder {
            token: self.token.clone(),
            from: self.from.clone(),
            to: self.to.clone(),
            amount: self.amount,
        }
    }
}

/// One question for the token contract at `token`: what does `holder` hold?
#[derive(Debug, PartialEq, Eq)]
pub struct BalanceQuery {
    pub token: Address,
    pub holder: Address,
}

impl Clone for BalanceQuery {
    fn clone(&self) -> (copy: Self)
        ensures
            copy == *self,
    {
        BalanceQuery { token: self.token.clone(), holder: self.holder.clone() }
    }
}

} // verus!
