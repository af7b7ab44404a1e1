//! The boundary to the Soroban SDK.
//!
//! Everything in this file is believed, not proved: the SDK's types are declared
//! so that the ledger can hold and pass them, and each function makes exactly one
//! call into the SDK, with the values it is handed. The rest of the crate is
//! proved against these contracts.
//!
//! A call into the host can end the whole invocation, when the host runs out of
//! the budget it was given, goes beyond the ledger entries it was allowed to
//! touch, or is asked for a collection of more items than it can count. That is
//! to a contract what running out of memory is to a process, and no contract
//! here speaks of it.
//!
//! All values that meet in one call belong to one host. An address or a map is
//! a handle into the `Env` it was made in, and the SDK hands it to the host
//! without looking at that; the contracts below are claimed of addresses and
//! maps of the `Env` that the ledger works in, and of no mixture.
//!
//! Two `Address` values are equal in a contract when they denote the same account
//! or contract. The SDK compares addresses the same way, and `same_address` and
//! the contract of `Address::clone` are stated in those terms.
use crate::records::{BalanceQuery, TransferOrder};
use soroban_sdk::{Address, ConversionError, Env, Error, InvokeError};
use vstd::prelude::*;

verus! {

/// `soroban_sdk::Env`: the handle to the host in which the contract runs.
#[verifier::external_type_specification]
#[verifier::external_body]
pub struct ExEnv(soroban_sdk::Env);

/// `soroban_sdk::Address`: an account or a contract. Nothing of its inside is
/// visible here; addresses are compared with `same_address`.
#[verifier::external_type_specification]
#[verifier::external_body]
pub struct ExAddress(soroban_sdk::Address);

/// `soroban_sdk::String`: a string held by the host. The ledger only stores it.
#[verifier::external_type_specification]
#[verifier::external_body]
pub struct ExHostString(soroban_sdk::String);

/// `soroban_sdk::Map`: a key-ordered map held by the host.
#[verifier::external_type_specification]
#[verifier::external_body]
#[verifier::reject_recursive_types(K)]
#[verifier::reject_recursive_types(V)]
pub struct ExHostMap<K, V>(soroban_sdk::Map<K, V>);

/// `soroban_sdk::Vec`: a sequence held by the host.
#[verifier::external_type_specification]
#[verifier::external_body]
#[verifier::reject_recursive_types(T)]
pub struct ExHostVec<T>(soroban_sdk::Vec<T>);

/// `soroban_sdk::Error`: the error value with which the host or a contract
/// fails a call.
#[verifier::external_type_specification]
#[verifier::external_body]
pub struct ExHostError(soroban_sdk::Error);

/// `soroban_sdk::InvokeError`: what is left of a failed call whose error could
/// not be read as the type asked for.
#[verifier::external_type_specification]
#[verifier::external_body]
pub struct ExInvokeError(soroban_sdk::InvokeError);

/// `soroban_sdk::ConversionError`: a value handed back by the host was not of
/// the type asked for.
#[verifier::external_type_specification]
#[verifier::external_body]
pub struct ExConversionError(soroban_sdk::ConversionError);

/// The entries of a host map from asset to balance: its keys, and the amount
/// stored under each.
pub uninterp spec fn balance_entries(m: soroban_sdk::Map<Address, i128>) -> Map<Address, i128>;

/// The entries of a host map from wallet to employee id: its keys, and the id
/// stored under each. An entry whose value cannot be read as an id, which no
/// function of this crate ever writes, counts as no entry.
pub uninterp spec fn wallet_entries(m: soroban_sdk::Map<Address, u128>) -> Map<Address, u128>;

/// The items of a host vector of assets, in their order: for each position the
/// address it holds, or nothing where what it holds cannot be read as an
/// address.
pub uninterp spec fn asset_items(v: soroban_sdk::Vec<Address>) -> Seq<Option<Address>>;

/// `Vec::len`. Claims that it counts the items.
#[verifier::external_body]
pub(crate) fn asset_count(v: &soroban_sdk::Vec<Address>) -> (count: u32)
    ensures
        count == asset_items(*v).len(),
{
    v.len()
}

/// `Vec::try_get` at a position within the vector, with an item that cannot
/// be read taken as nothing. Claims that it gives the item at that position.
#[verifier::external_body]
pub(crate) fn asset_at(v: &soroban_sdk::Vec<Address>, i: u32) -> (item: Option<Address>)
    requires
        i < asset_items(*v).len(),
    ensures
        item == asset_items(*v)[i as int],
{
    v.try_get(i).ok().flatten()
}

/// Whether an address is that of a contract, and not that of an account. Only
/// a contract can be called, so only such an address can name a token.
pub uninterp spec fn is_contract_address(a: Address) -> bool;

/// `Address::to_payload`. Claims that it tells the address of a contract from
/// every other: it gives the contract's hash for the one, and an account's key
/// or nothing for the others.
#[verifier::external_body]
pub(crate) fn names_contract(a: &Address) -> (yes: bool)
    ensures
        yes == is_contract_address(*a),
{
    match a.to_payload() {
        Some(soroban_sdk::address_payload::AddressPayload::ContractIdHash(_)) => true,
        Some(soroban_sdk::address_payload::AddressPayload::AccountIdPublicKeyEd25519(_)) => false,
        None => false,
    }
}

/// `Address::eq` (`==`). Claims that it answers `true` exactly for two addresses
/// that denote the same account or contract, which is what equality of
/// addresses means in this crate's contracts.
#[verifier::external_body]
pub(crate) fn same_address(a: &Address, b: &Address) -> (same: bool)
    ensures
        same == (*a == *b),
{
    a == b
}

/// `Address::clone`. Claims that the copy denotes the same account or contract.
pub assume_specification[ <Address as Clone>::clone ](a: &Address) -> (copy: Address)
    ensures
        copy == *a,
;

/// `String::clone` of the SDK's string. Claims that the copy is the same string.
pub assume_specification[ <soroban_sdk::String as Clone>::clone ](
    s: &soroban_sdk::String,
) -> (copy: soroban_sdk::String)
    ensures
        copy == *s,
;

/// `TokenClient::try_balance` on a client made with `TokenClient::new`: asks the
/// token contract at `query.token` for the balance of `query.holder`. The host
/// can only call the address of a contract, and ends the invocation on any
/// other, so the token has to be one. Nothing is claimed of the answer: it
/// depends on the ledger, and on whether a token contract is deployed at the
/// address at all.
#[verifier::external_body]
pub(crate) fn token_balance(e: &Env, query: &BalanceQuery) -> (answer: Result<
    Result<i128, Error>,
    Result<Error, InvokeError>,
>)
    requires
        is_contract_address(query.token),
{
    soroban_sdk::token::TokenClient::new(e, &query.token).try_balance(&query.holder)
}

/// `TokenClient::try_transfer` on a client made with `TokenClient::new`: asks
/// the token contract at `order.token` to move `order.amount` from
/// `order.from` to `order.to`. The host can only call the address of a
/// contract, and ends the invocation on any other, so the token has to be one.
/// Nothing is claimed of the answer: the token contract decides, by the
/// balance and the authorization of the sender.
#[verifier::external_body]
pub(crate) fn token_transfer(e: &Env, order: &TransferOrder) -> (answer: Result<
    Result<(), ConversionError>,
    Result<Error, InvokeError>,
>)
    requires
        is_contract_address(order.token),
{
    soroban_sdk::token::TokenClient::new(e, &order.token).try_transfer(
        &order.from,
        &order.to,
        &order.amount,
    )
}

/// `Map::new`. Claims that the new map has no entries.
#[verifier::external_body]
pub(crate) fn new_balance_map(e: &Env) -> (fresh: soroban_sdk::Map<Address, i128>)
    ensures
        balance_entries(fresh) =~= Map::empty(),
{
    soroban_sdk::Map::new(e)
}

/// `Map::set`. Claims that afterwards `asset` maps to `amount`, whether or not
/// it had an entry before, and that every other entry is as it was.
#[verifier::external_body]
pub(crate) fn set_balance(m: &mut soroban_sdk::Map<Address, i128>, asset: &Address, amount: i128)
    ensures
        balance_entries(*final(m)) == balance_entries(*old(m)).insert(*asset, amount),
{
    m.set(asset.clone(), amount)
}

/// `Map::new`. Claims that the new map has no entries.
#[verifier::external_body]
pub(crate) fn new_wallet_index(e: &Env) -> (fresh: soroban_sdk::Map<Address, u128>)
    ensures
        wallet_entries(fresh) =~= Map::empty(),
{
    soroban_sdk::Map::new(e)
}

/// `Map::try_get`, with a value that cannot be read taken as no entry. Claims
/// that it finds the id stored under `wallet`, and nothing if the map has no
/// entry for `wallet`.
#[verifier::external_body]
pub(crate) fn wallet_entry(index: &soroban_sdk::Map<Address, u128>, wallet: &Address) -> (id: Option<
    u128,
>)
    ensures
        wallet_entries(*index).dom().contains(*wallet) ==> id == Some(
            wallet_entries(*index)[*wallet],
        ),
        !wallet_entries(*index).dom().contains(*wallet) ==> id is None,
{
    index.try_get(wallet.clone()).ok().flatten()
}

/// `Map::set`. Claims that afterwards `wallet` maps to `id`, whether or not it
/// had an entry before, and that every other entry is as it was.
#[verifier::external_body]
pub(crate) fn set_wallet_entry(index: &mut soroban_sdk::Map<Address, u128>, wallet: &Address, id: u128)
    ensures
        wallet_entries(*final(index)) == wallet_entries(*old(index)).insert(*wallet, id),
{
    index.set(wallet.clone(), id)
}

} // verus!
