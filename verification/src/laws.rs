//! What holds of the ledger over one call and over several, proved from the
//! functions of `model` that the contracts of the executable ledger use.
use crate::error::{LedgerError, TransferFault};
use crate::fee::{advance_fee, lemma_fee_bounds};
use crate::host::is_contract_address;
use crate::model::{balances_report, is_first_fault, lemma_first_fault_is_one, LedgerView};
use crate::records::{BalanceQuery, TokenInfo, TransferOrder};
use soroban_sdk::Address;
use vstd::prelude::*;

verus! {

// ---- the invariant ----
/// A ledger that was just deployed is valid.
pub proof fn law_fresh_is_valid(vault: Address)
    ensures
        LedgerView::fresh(vault).valid(),
{
}

/// Setting the admin and adding an asset keep a valid ledger valid, and
/// change neither the employees nor the counter.
pub proof fn law_admin_operations_keep_valid(
    v: LedgerView,
    caller: Address,
    admin: Address,
    info: TokenInfo,
)
    requires
        v.valid(),
    ensures
        v.after_initialize(caller, admin).valid(),
        v.after_add_supported_token(caller, info).valid(),
        v.after_initialize(caller, admin).employees == v.employees,
        v.after_initialize(caller, admin).wallet_index == v.wallet_index,
        v.after_initialize(caller, admin).counter == v.counter,
        v.after_add_supported_token(caller, info).employees == v.employees,
        v.after_add_supported_token(caller, info).wallet_index == v.wallet_index,
        v.after_add_supported_token(caller, info).counter == v.counter,
{
}

/// A registration keeps a valid ledger valid, as long as an id is left to
/// give out.
pub proof fn law_registration_keeps_valid(
    v: LedgerView,
    wallet: Address,
    salary: u128,
    salary_token: Address,
)
    requires
        v.valid(),
        v.counter < u128::MAX,
    ensures
        v.after_register_employee(wallet, salary, salary_token).valid(),
{
    let after = v.after_register_employee(wallet, salary, salary_token);
    if v.register_employee(wallet) is Ok {
        let emp_id = v.next_id();
        assert(!v.employees.dom().contains(emp_id));
        assert forall|id: u128| #[trigger] after.employees.dom().contains(id) implies after.employees[id].wallet
            == wallet <==> id == emp_id by {
            if id != emp_id && v.employees[id].wallet == wallet {
                assert(v.wallet_index.dom().contains(v.employees[id].wallet));
            }
        }
        assert forall|a: u128, b: u128|
            after.employees.dom().contains(a) && after.employees.dom().contains(b)
                && after.employees[a].wallet == after.employees[b].wallet implies a == b by {
            if a != emp_id && b != emp_id {
                assert(v.employees.dom().contains(a) && v.employees.dom().contains(b));
            }
        }
        assert forall|w: Address| #[trigger] after.wallet_index.dom().contains(w) implies after.employees.dom().contains(
            after.wallet_index[w],
        ) && after.employees[after.wallet_index[w]].wallet == w by {
            if w != wallet {
                assert(v.wallet_index.dom().contains(w));
            }
        }
    }
}

/// An advance and a release keep a valid ledger valid, whatever the token
/// contract answers, and change neither the counter, nor the index, nor
/// anything of a record but its remaining salary.
pub proof fn law_payments_keep_valid(
    v: LedgerView,
    emp_id: u128,
    amount: i128,
    token: Address,
    salary: u128,
    outcome: Result<(), TransferFault>,
)
    requires
        v.valid(),
    ensures
        v.after_advance(emp_id, amount, token, outcome).valid(),
        v.after_release(emp_id, token, salary, outcome).valid(),
        v.after_advance(emp_id, amount, token, outcome).counter == v.counter,
        v.after_advance(emp_id, amount, token, outcome).wallet_index == v.wallet_index,
        v.after_release(emp_id, token, salary, outcome).counter == v.counter,
        v.after_release(emp_id, token, salary, outcome).wallet_index == v.wallet_index,
{
    if v.employees.dom().contains(emp_id) {
        lemma_with_remaining_valid(v, emp_id, salary);
        lemma_with_remaining_valid(
            v,
            emp_id,
            (v.employees[emp_id].rem_salary - amount) as u128,
        );
    }
}

/// Setting the remaining salary of an employee keeps a valid ledger valid.
proof fn lemma_with_remaining_valid(v: LedgerView, emp_id: u128, rem_salary: u128)
    requires
        v.valid(),
        v.employees.dom().contains(emp_id),
    ensures
        v.with_remaining(emp_id, rem_salary).valid(),
{
    let after = v.with_remaining(emp_id, rem_salary);
    assert forall|id: u128| #[trigger] after.employees.dom().contains(id) implies after.employees[id].wallet
        == v.employees[id].wallet && after.employees[id].emp_id == v.employees[id].emp_id
        && v.employees.dom().contains(id) by {}
    assert forall|a: u128, b: u128|
        after.employees.dom().contains(a) && after.employees.dom().contains(b)
            && after.employees[a].wallet == after.employees[b].wallet implies a == b by {
        assert(v.employees.dom().contains(a) && v.employees.dom().contains(b));
        assert(v.employees[a].wallet == v.employees[b].wallet);
    }
    assert forall|w: Address| #[trigger] after.wallet_index.dom().contains(w) implies after.employees.dom().contains(
        after.wallet_index[w],
    ) && after.employees[after.wallet_index[w]].wallet == w by {
        assert(v.employees.dom().contains(v.wallet_index[w]));
    }
}

/// Whether `later` has kept what `earlier` held: the vault, an admin that was
/// set, the accepted assets in their places, every id that was given out with
/// its wallet and its asset, and the id of every registered wallet.
pub open spec fn keeps(earlier: LedgerView, later: LedgerView) -> bool {
    &&& later.vault == earlier.vault
    &&& earlier.admin is Some ==> later.admin == earlier.admin
    &&& earlier.tokens.is_prefix_of(later.tokens)
    &&& earlier.counter <= later.counter
    &&& forall|id: u128| #[trigger]
        earlier.employees.dom().contains(id) ==> later.employees.dom().contains(id)
            && later.employees[id].emp_id == earlier.employees[id].emp_id
            && later.employees[id].wallet == earlier.employees[id].wallet
            && later.employees[id].salary_token == earlier.employees[id].salary_token
    &&& forall|w: Address| #[trigger]
        earlier.wallet_index.dom().contains(w) ==> later.wallet_index.dom().contains(w)
            && later.wallet_index[w] == earlier.wallet_index[w]
}

/// Nothing is ever removed or given anew: every operation keeps the admin,
/// the accepted assets, the ids and the wallets that the ledger held, and the
/// counter never goes down.
pub proof fn law_records_are_kept(
    v: LedgerView,
    caller: Address,
    admin: Address,
    info: TokenInfo,
    wallet: Address,
    salary: u128,
    token: Address,
    emp_id: u128,
    amount: i128,
    outcome: Result<(), TransferFault>,
)
    requires
        v.valid(),
        v.counter < u128::MAX,
    ensures
        keeps(v, v.after_initialize(caller, admin)),
        keeps(v, v.after_add_supported_token(caller, info)),
        keeps(v, v.after_register_employee(wallet, salary, token)),
        keeps(v, v.after_advance(emp_id, amount, token, outcome)),
        keeps(v, v.after_release(emp_id, token, salary, outcome)),
{
    assert(!v.employees.dom().contains(v.next_id()));
}

// ---- the admin ----
/// The admin is set once. On a ledger without an admin, a call made on the
/// authority of the admin it names succeeds; after a call that succeeded,
/// every further call fails with `AlreadyInitialized`, whoever makes it and
/// whichever admin it names, and the admin stays the one that was set.
pub proof fn law_initialize_once(
    v: LedgerView,
    caller: Address,
    admin: Address,
    later_caller: Address,
    later_admin: Address,
)
    ensures
        v.admin is None && caller == admin ==> v.initialize(caller, admin) is Ok,
        v.initialize(caller, admin) is Ok ==> {
            let set = v.after_initialize(caller, admin);
            &&& set.admin == Some(admin)
            &&& set.initialize(later_caller, later_admin) == Err::<(), _>(
                LedgerError::AlreadyInitialized,
            )
            &&& set.after_initialize(later_caller, later_admin) == set
        },
        v.admin is Some ==> v.initialize(caller, admin) == Err::<(), _>(
            LedgerError::AlreadyInitialized,
        ) && v.after_initialize(caller, admin) == v,
{
}

/// No operation changes an admin that is set.
pub proof fn law_admin_is_kept(
    v: LedgerView,
    caller: Address,
    admin: Address,
    info: TokenInfo,
    wallet: Address,
    salary: u128,
    token: Address,
    emp_id: u128,
    amount: i128,
    outcome: Result<(), TransferFault>,
)
    requires
        v.admin is Some,
    ensures
        v.after_initialize(caller, admin).admin == v.admin,
        v.after_add_supported_token(caller, info).admin == v.admin,
        v.after_register_employee(wallet, salary, token).admin == v.admin,
        v.after_advance(emp_id, amount, token, outcome).admin == v.admin,
        v.after_release(emp_id, token, salary, outcome).admin == v.admin,
{
}

// ---- accepted assets ----
/// An asset is added once for each call that succeeds: adding the same asset
/// twice leaves two entries, the later one last.
pub proof fn law_assets_are_appended(v: LedgerView, caller: Address, info: TokenInfo)
    requires
        v.add_supported_token(caller) is Ok,
    ensures
        ({
            let once = v.after_add_supported_token(caller, info);
            let twice = once.after_add_supported_token(caller, info);
            &&& once.add_supported_token(caller) is Ok
            &&& once.tokens.len() == v.tokens.len() + 1
            &&& twice.tokens.len() == v.tokens.len() + 2
            &&& twice.tokens[v.tokens.len() as int] == info
            &&& twice.tokens[v.tokens.len() as int + 1] == info
            &&& forall|i: int| 0 <= i < v.tokens.len() ==> twice.tokens[i] == v.tokens[i]
        }),
{
}

// ---- employees ----
/// Ids count up by one: of two registrations that succeed one after the
/// other, the first gets the id after the counter and the second the id after
/// that, and the first wallet keeps its id.
pub proof fn law_ids_count_up(
    v: LedgerView,
    first: (Address, u128, Address),
    second: (Address, u128, Address),
)
    requires
        v.valid(),
        v.counter + 2 <= u128::MAX,
        v.register_employee(first.0) is Ok,
        v.after_register_employee(first.0, first.1, first.2).register_employee(second.0) is Ok,
    ensures
        ({
            let one = v.after_register_employee(first.0, first.1, first.2);
            let two = one.after_register_employee(second.0, second.1, second.2);
            &&& one.get_emp_id_by_wallet(first.0) == v.counter + 1
            &&& two.get_emp_id_by_wallet(second.0) == one.get_emp_id_by_wallet(first.0) + 1
            &&& two.get_emp_id_by_wallet(first.0) == one.get_emp_id_by_wallet(first.0)
            &&& first.0 != second.0
            &&& one.counter == v.counter + 1
            &&& two.counter == v.counter + 2
        }),
{
}

/// A wallet has one id at most, and a registered wallet keeps its id and its
/// record's wallet through every later registration: a second registration of
/// the wallet is refused and changes nothing, and the registration of another
/// wallet leaves its id alone.
pub proof fn law_wallet_has_one_id(
    v: LedgerView,
    wallet: Address,
    other: Address,
    salary: u128,
    token: Address,
)
    requires
        v.valid(),
        v.counter < u128::MAX,
        v.wallet_index.dom().contains(wallet),
    ensures
        v.register_employee(wallet) == Err::<(), _>(LedgerError::WalletAlreadyRegistered),
        v.after_register_employee(wallet, salary, token) == v,
        v.after_register_employee(other, salary, token).get_emp_id_by_wallet(wallet)
            == v.get_emp_id_by_wallet(wallet),
        forall|a: u128, b: u128|
            v.employees.dom().contains(a) && v.employees.dom().contains(b) && v.employees[a].wallet
                == wallet && v.employees[b].wallet == wallet ==> a == b,
{
}

/// The id of a wallet is 0 exactly if the wallet is not registered: ids start
/// at 1.
pub proof fn law_zero_means_unregistered(v: LedgerView, wallet: Address)
    requires
        v.valid(),
    ensures
        v.get_emp_id_by_wallet(wallet) == 0 <==> !v.wallet_index.dom().contains(wallet),
        v.wallet_index.dom().contains(wallet) ==> 1 <= v.get_emp_id_by_wallet(wallet) <= v.counter,
{
    if v.wallet_index.dom().contains(wallet) {
        assert(v.employees.dom().contains(v.wallet_index[wallet]));
    }
}

/// The ledger after a run of registrations, each of a wallet, a salary and an
/// asset.
pub open spec fn after_registrations(v: LedgerView, asked: Seq<(Address, u128, Address)>) -> LedgerView
    decreases asked.len(),
{
    if asked.len() == 0 {
        v
    } else {
        after_registrations(v, asked.drop_last()).after_register_employee(
            asked.last().0,
            asked.last().1,
            asked.last().2,
        )
    }
}

/// Starting from a new vault, the wallets with an id are exactly the wallets
/// that a registration was asked for: a wallet that was never passed to a
/// registration has the id 0, and one that was passed has an id from 1 up to
/// the number of registrations asked for.
pub proof fn law_registered_wallets(vault: Address, asked: Seq<(Address, u128, Address)>, wallet: Address)
    requires
        asked.len() <= u128::MAX,
    ensures
        after_registrations(LedgerView::fresh(vault), asked).valid(),
        after_registrations(LedgerView::fresh(vault), asked).counter <= asked.len(),
        after_registrations(LedgerView::fresh(vault), asked).get_emp_id_by_wallet(wallet) != 0 <==> (
        exists|i: int| 0 <= i < asked.len() && (#[trigger] asked[i]).0 == wallet),
    decreases asked.len(),
{
    let start = LedgerView::fresh(vault);
    let end = after_registrations(start, asked);
    if asked.len() > 0 {
        let earlier = asked.drop_last();
        let before = after_registrations(start, earlier);
        law_registered_wallets(vault, earlier, wallet);
        law_registration_keeps_valid(before, asked.last().0, asked.last().1, asked.last().2);
        law_zero_means_unregistered(before, wallet);
        law_zero_means_unregistered(end, wallet);
        if exists|i: int| 0 <= i < earlier.len() && (#[trigger] earlier[i]).0 == wallet {
            let i = choose|i: int| 0 <= i < earlier.len() && (#[trigger] earlier[i]).0 == wallet;
            assert(asked[i].0 == wallet);
        }
        if exists|i: int| 0 <= i < asked.len() && (#[trigger] asked[i]).0 == wallet {
            let i = choose|i: int| 0 <= i < asked.len() && (#[trigger] asked[i]).0 == wallet;
            if i < earlier.len() {
                assert(earlier[i].0 == wallet);
            } else {
                assert(asked.last().0 == wallet);
            }
        }
        if asked.last().0 == wallet {
            assert(asked[asked.len() - 1].0 == wallet);
        }
    }
}

// ---- balances ----
/// The balances of several assets come to the amounts answered if every
/// answer is an amount, and to the first fault otherwise, whatever the
/// answers behind it are. No assets come to no entries.
pub proof fn law_balances_stop_at_the_first_fault(
    assets: Seq<Option<Address>>,
    answers: Seq<Result<i128, TransferFault>>,
    k: int,
)
    requires
        answers.len() == assets.len(),
    ensures
        is_first_fault(answers, k) ==> balances_report(assets, answers) == Err::<
            Seq<(Address, i128)>,
            _,
        >(LedgerError::Transfer(answers[k]->Err_0)),
        (forall|i: int| 0 <= i < answers.len() ==> (#[trigger] answers[i]) is Ok) ==> (
        balances_report(assets, answers) matches Ok(entries) && entries.len() == assets.len()
            && forall|i: int|
            0 <= i < assets.len() ==> #[trigger] entries[i] == (assets[i]->Some_0, answers[i]->Ok_0)),
        assets.len() == 0 ==> balances_report(assets, answers) == Ok::<_, LedgerError>(
            Seq::<(Address, i128)>::empty(),
        ),
{
    if is_first_fault(answers, k) {
        lemma_first_fault_is_one(answers, k, choose|j: int| is_first_fault(answers, j));
    }
    if forall|i: int| 0 <= i < answers.len() ==> (#[trigger] answers[i]) is Ok {
        assert forall|j: int| !is_first_fault(answers, j) by {
            if 0 <= j < answers.len() {
                assert(answers[j] is Ok);
            }
        }
    }
    if assets.len() == 0 {
        assert(balances_report(assets, answers)->Ok_0 =~= Seq::<(Address, i128)>::empty());
    }
}

/// An asset that is the address of an account and not of a contract cannot
/// be asked or moved: once an operation has passed its own refusals it
/// reports `NotAContract`, whatever a token contract would have answered, and
/// the ledger stays as it was.
pub proof fn law_asset_is_a_contract(
    v: LedgerView,
    from: Address,
    emp_id: u128,
    amount: i128,
    token: Address,
    salary: u128,
    balance: Result<i128, TransferFault>,
    answer: Result<i128, TransferFault>,
    outcome: Result<(), TransferFault>,
)
    requires
        !is_contract_address(token),
    ensures
        v.vault_balance(token, answer) == Err::<i128, _>(
            LedgerError::Transfer(TransferFault::NotAContract),
        ),
        amount > 0 ==> v.deposit(from, from, amount, token, balance, outcome) == Err::<
            TransferOrder,
            _,
        >(LedgerError::Transfer(TransferFault::NotAContract)),
        v.plan_advance(emp_id, amount, token) is Err,
        v.plan_release(emp_id, token) is Err,
        v.after_advance(emp_id, amount, token, outcome) == v,
        v.after_release(emp_id, token, salary, outcome) == v,
        v.employees.dom().contains(emp_id) && 0 < amount < v.employees[emp_id].rem_salary
            ==> v.advance(emp_id, amount, token, outcome) == Err::<TransferOrder, _>(
            LedgerError::Transfer(TransferFault::NotAContract),
        ),
{
}

/// The balance of the vault is asked of the token contract for the vault
/// itself, and a deposit starts by asking it for the depositor; what comes
/// back is reported as it is.
pub proof fn law_queries_name_the_holder(
    v: LedgerView,
    from: Address,
    amount: i128,
    token: Address,
    answer: Result<i128, TransferFault>,
)
    requires
        is_contract_address(token),
    ensures
        v.vault_query(token) == Ok::<_, LedgerError>(BalanceQuery { token, holder: v.vault }),
        amount > 0 ==> v.deposit_query(from, from, amount, token) == Ok::<_, LedgerError>(
            BalanceQuery { token, holder: from },
        ),
        v.vault_balance(token, answer) == LedgerView::reported(answer),
        answer matches Ok(held) ==> v.vault_balance(token, answer) == Ok::<_, LedgerError>(held),
{
}

// ---- deposit ----
/// A deposit by a depositor who holds less than the amount fails with
/// `InsufficientBalance` whatever a transfer would have come to: none is
/// attempted. A deposit that is covered comes to the transfer of the amount
/// from the depositor into the vault.
pub proof fn law_deposit_needs_balance(
    v: LedgerView,
    from: Address,
    amount: i128,
    token: Address,
    balance: i128,
    outcome: Result<(), TransferFault>,
)
    requires
        amount > 0,
        is_contract_address(token),
    ensures
        balance < amount ==> v.plan_deposit(from, from, amount, token, balance) == Err::<
            TransferOrder,
            _,
        >(LedgerError::InsufficientBalance) && v.deposit(
            from,
            from,
            amount,
            token,
            Ok(balance),
            outcome,
        ) == Err::<TransferOrder, _>(LedgerError::InsufficientBalance),
        balance >= amount ==> v.deposit(from, from, amount, token, Ok(balance), Ok(())) == Ok::<
            _,
            LedgerError,
        >(TransferOrder { token, from, to: v.vault, amount }),
{
}

// ---- advance ----
/// An advance of a positive amount below the remaining salary pays the
/// employee's wallet the amount less the fee of 1.25 %, rounded down, and
/// takes the whole amount off the remaining salary.
pub proof fn law_advance_pays_and_deducts(v: LedgerView, emp_id: u128, amount: i128, token: Address)
    requires
        v.employees.dom().contains(emp_id),
        0 < amount < v.employees[emp_id].rem_salary,
        is_contract_address(token),
    ensures
        v.advance(emp_id, amount, token, Ok(())) == Ok::<_, LedgerError>(
            TransferOrder {
                token,
                from: v.vault,
                to: v.employees[emp_id].wallet,
                amount: (amount - amount * 125 / 10000) as i128,
            },
        ),
        0 < amount - amount * 125 / 10000 <= amount,
        advance_fee(amount as int) == amount * 125 / 10000,
        v.after_advance(emp_id, amount, token, Ok(())).get_remaining_salary(emp_id) == Ok::<
            _,
            LedgerError,
        >((v.employees[emp_id].rem_salary - amount) as u128),
        v.employees[emp_id].rem_salary - amount >= 1,
{
    lemma_fee_bounds(amount as int);
}

/// An advance of the remaining salary or more is refused with
/// `AmountExceedsRemainingSalary`, the exact remaining salary included, and
/// changes nothing, whatever the token contract would have answered.
pub proof fn law_advance_is_bounded(
    v: LedgerView,
    emp_id: u128,
    amount: i128,
    token: Address,
    outcome: Result<(), TransferFault>,
)
    requires
        v.employees.dom().contains(emp_id),
        amount > 0,
        amount >= v.employees[emp_id].rem_salary,
    ensures
        v.plan_advance(emp_id, amount, token) == Err::<TransferOrder, _>(
            LedgerError::AmountExceedsRemainingSalary,
        ),
        v.advance(emp_id, amount, token, outcome) == Err::<TransferOrder, _>(
            LedgerError::AmountExceedsRemainingSalary,
        ),
        v.after_advance(emp_id, amount, token, outcome) == v,
{
}

/// An operation that fails leaves the ledger as it was.
pub proof fn law_failure_changes_nothing(
    v: LedgerView,
    caller: Address,
    admin: Address,
    info: TokenInfo,
    wallet: Address,
    salary: u128,
    token: Address,
    emp_id: u128,
    amount: i128,
    outcome: Result<(), TransferFault>,
)
    ensures
        v.initialize(caller, admin) is Err ==> v.after_initialize(caller, admin) == v,
        v.add_supported_token(caller) is Err ==> v.after_add_supported_token(caller, info) == v,
        v.register_employee(wallet) is Err ==> v.after_register_employee(wallet, salary, token)
            == v,
        v.advance(emp_id, amount, token, outcome) is Err ==> v.after_advance(
            emp_id,
            amount,
            token,
            outcome,
        ) == v,
        v.release(emp_id, token, outcome) is Err ==> v.after_release(emp_id, token, salary, outcome)
            == v,
{
}

// ---- release ----
/// A release for an employee with nothing left fails with
/// `NoRemainingSalary`. Otherwise it pays the employee's wallet all that was
/// left, and afterwards the remaining salary is the salary that the call
/// named, 0 included.
pub proof fn law_release_pays_all_and_resets(
    v: LedgerView,
    emp_id: u128,
    token: Address,
    salary: u128,
    outcome: Result<(), TransferFault>,
)
    requires
        v.employees.dom().contains(emp_id),
    ensures
        v.employees[emp_id].rem_salary == 0 ==> v.release(emp_id, token, outcome) == Err::<
            TransferOrder,
            _,
        >(LedgerError::NoRemainingSalary) && v.after_release(emp_id, token, salary, outcome) == v,
        0 < v.employees[emp_id].rem_salary <= i128::MAX && is_contract_address(token) ==> v.release(
            emp_id,
            token,
            Ok(()),
        )
            == Ok::<_, LedgerError>(
            TransferOrder {
                token,
                from: v.vault,
                to: v.employees[emp_id].wallet,
                amount: v.employees[emp_id].rem_salary as i128,
            },
        ) && v.after_release(emp_id, token, salary, Ok(())).get_remaining_salary(emp_id) == Ok::<
            _,
            LedgerError,
        >(salary),
{
}

} // verus!
