//! How the records are laid out in memory, and what that layout stands for.
//!
//! Ids are given out from 1 upwards and no record is ever removed, so the
//! record of id `n` is kept at position `n - 1` of a sequence. What the index
//! from wallet to id has to hold is read off the records here; the ledger
//! keeps that index in a map of the host, and its invariant says that the map
//! holds exactly this.
use crate::model::LedgerView;
use crate::records::{EmployeeDetails, TokenInfo};
use soroban_sdk::Address;
use vstd::prelude::*;

verus! {

/// The record at each position carries the id of that position, and no two
/// records share a wallet.
pub open spec fn records_consistent(recs: Seq<EmployeeDetails>) -> bool {
    &&& forall|i: int| 0 <= i < recs.len() ==> (#[trigger] recs[i]).emp_id == i + 1
    &&& forall|i: int, j: int|
        0 <= i < j < recs.len() ==> (#[trigger] recs[i]).wallet != (#[trigger] recs[j]).wallet
}

/// Whether some record has this wallet.
pub open spec fn has_wallet(recs: Seq<EmployeeDetails>, wallet: Address) -> bool {
    exists|i: int| 0 <= i < recs.len() && (#[trigger] recs[i]).wallet == wallet
}

/// The position of a record with this wallet.
pub open spec fn wallet_position(recs: Seq<EmployeeDetails>, wallet: Address) -> int {
    choose|i: int| 0 <= i < recs.len() && (#[trigger] recs[i]).wallet == wallet
}

/// The ledger that these parts stand for.
pub open spec fn ledger_of(
    vault: Address,
    admin: Option<Address>,
    tokens: Seq<TokenInfo>,
    recs: Seq<EmployeeDetails>,
) -> LedgerView {
    LedgerView {
        vault,
        admin,
        tokens,
        counter: recs.len(),
        employees: Map::new(|id: u128| 1 <= id <= recs.len(), |id: u128| recs[id - 1]),
        wallet_index: Map::new(
            |w: Address| has_wallet(recs, w),
            |w: Address| recs[wallet_position(recs, w)].emp_id,
        ),
    }
}

/// In consistent records a wallet is found at one position only.
pub proof fn lemma_wallet_position(recs: Seq<EmployeeDetails>, i: int)
    requires
        records_consistent(recs),
        0 <= i < recs.len(),
    ensures
        has_wallet(recs, recs[i].wallet),
        wallet_position(recs, recs[i].wallet) == i,
{
    let w = recs[i].wallet;
    let p = wallet_position(recs, w);
    assert(0 <= p < recs.len() && recs[p].wallet == w);
    if p < i {
        assert(recs[p].wallet != recs[i].wallet);
    } else if i < p {
        assert(recs[i].wallet != recs[p].wallet);
    }
}

/// Consistent records are no more than there are ids.
pub proof fn lemma_records_bounded(recs: Seq<EmployeeDetails>)
    requires
        records_consistent(recs),
    ensures
        recs.len() <= u128::MAX,
{
    if recs.len() > 0 {
        assert(recs[recs.len() - 1].emp_id == recs.len());
    }
}

/// Consistent records stand for a valid ledger.
pub proof fn lemma_ledger_valid(
    vault: Address,
    admin: Option<Address>,
    tokens: Seq<TokenInfo>,
    recs: Seq<EmployeeDetails>,
)
    requires
        records_consistent(recs),
    ensures
        ledger_of(vault, admin, tokens, recs).valid(),
{
    let v = ledger_of(vault, admin, tokens, recs);
    lemma_records_bounded(recs);
    assert forall|id: u128| #[trigger] v.employees.dom().contains(id) implies v.employees[id].emp_id
        == id && v.wallet_index.dom().contains(v.employees[id].wallet) && v.wallet_index[v.employees[id].wallet]
        == id by {
        lemma_wallet_position(recs, id - 1);
    }
    assert forall|a: u128, b: u128|
        v.employees.dom().contains(a) && v.employees.dom().contains(b) && v.employees[a].wallet
            == v.employees[b].wallet implies a == b by {
        lemma_wallet_position(recs, a - 1);
        lemma_wallet_position(recs, b - 1);
    }
    assert forall|w: Address| #[trigger] v.wallet_index.dom().contains(w) implies v.employees.dom().contains(
        v.wallet_index[w],
    ) && v.employees[v.wallet_index[w]].wallet == w by {
        let p = wallet_position(recs, w);
        assert(0 <= p < recs.len() && recs[p].wallet == w);
        assert(recs[p].emp_id == p + 1);
    }
}

/// No records stand for the ledger of a vault that was just deployed.
pub proof fn lemma_ledger_fresh(vault: Address)
    ensures
        records_consistent(Seq::empty()),
        ledger_of(vault, None, Seq::empty(), Seq::empty()) == LedgerView::fresh(vault),
{
    let v = ledger_of(vault, None, Seq::empty(), Seq::empty());
    assert(v.employees =~= Map::empty());
    assert(v.wallet_index =~= Map::empty());
}

/// Appending the record of a new wallet under the next id is a registration.
pub proof fn lemma_ledger_push(
    vault: Address,
    admin: Option<Address>,
    tokens: Seq<TokenInfo>,
    recs: Seq<EmployeeDetails>,
    rec: EmployeeDetails,
)
    requires
        records_consistent(recs),
        !has_wallet(recs, rec.wallet),
        rec.emp_id == recs.len() + 1,
    ensures
        records_consistent(recs.push(rec)),
        ledger_of(vault, admin, tokens, recs.push(rec)) == ledger_of(
            vault,
            admin,
            tokens,
            recs,
        ).after_register_employee(rec.wallet, rec.rem_salary, rec.salary_token),
{
    let more = recs.push(rec);
    let before = ledger_of(vault, admin, tokens, recs);
    let after = ledger_of(vault, admin, tokens, more);
    let stated = before.after_register_employee(rec.wallet, rec.rem_salary, rec.salary_token);
    assert forall|i: int, j: int| 0 <= i < j < more.len() implies (#[trigger] more[i]).wallet != (
    #[trigger] more[j]).wallet by {
        if j == recs.len() {
            assert(more[i] == recs[i]);
        } else {
            assert(more[i] == recs[i] && more[j] == recs[j]);
        }
    }
    assert forall|i: int| 0 <= i < more.len() implies (#[trigger] more[i]).emp_id == i + 1 by {
        if i < recs.len() {
            assert(more[i] == recs[i]);
        }
    }
    assert(more[recs.len() as int] == rec);
    assert(!before.wallet_index.dom().contains(rec.wallet));
    assert(after.employees =~= stated.employees) by {
        assert forall|id: u128| #[trigger] after.employees.dom().contains(id) implies after.employees[id]
            == stated.employees[id] by {
            if id <= recs.len() {
                assert(more[id - 1] == recs[id - 1]);
            }
        }
    }
    assert(after.wallet_index =~= stated.wallet_index) by {
        assert forall|w: Address| #[trigger]
            after.wallet_index.dom().contains(w) == stated.wallet_index.dom().contains(w) by {
            if has_wallet(more, w) {
                let p = wallet_position(more, w);
                if p < recs.len() {
                    assert(recs[p].wallet == w);
                }
            }
            if has_wallet(recs, w) {
                let p = wallet_position(recs, w);
                assert(more[p].wallet == w);
            }
        }
        assert forall|w: Address| #[trigger] after.wallet_index.dom().contains(w) implies after.wallet_index[w]
            == stated.wallet_index[w] by {
            if w == rec.wallet {
                lemma_wallet_position(more, recs.len() as int);
            } else {
                let p = wallet_position(more, w);
                assert(p < recs.len());
                assert(recs[p].wallet == w);
                lemma_wallet_position(recs, p);
            }
        }
    }
}

/// Replacing a record by one that differs in the remaining salary only sets
/// the remaining salary of its id.
pub proof fn lemma_ledger_update(
    vault: Address,
    admin: Option<Address>,
    tokens: Seq<TokenInfo>,
    recs: Seq<EmployeeDetails>,
    i: int,
    rem_salary: u128,
)
    requires
        records_consistent(recs),
        0 <= i < recs.len(),
    ensures
        records_consistent(recs.update(i, EmployeeDetails { rem_salary, ..recs[i] })),
        ledger_of(vault, admin, tokens, recs.update(i, EmployeeDetails { rem_salary, ..recs[i] }))
            == ledger_of(vault, admin, tokens, recs).with_remaining((i + 1) as u128, rem_salary),
{
    lemma_records_bounded(recs);
    let changed = recs.update(i, EmployeeDetails { rem_salary, ..recs[i] });
    let before = ledger_of(vault, admin, tokens, recs);
    let after = ledger_of(vault, admin, tokens, changed);
    let stated = before.with_remaining((i + 1) as u128, rem_salary);
    assert forall|k: int| 0 <= k < changed.len() implies (#[trigger] changed[k]).emp_id == recs[k].emp_id
        && changed[k].wallet == recs[k].wallet by {}
    assert(records_consistent(changed)) by {
        assert forall|a: int, b: int| 0 <= a < b < changed.len() implies (#[trigger] changed[a]).wallet
            != (#[trigger] changed[b]).wallet by {
            assert(recs[a].wallet != recs[b].wallet);
        }
    }
    assert(after.employees =~= stated.employees);
    assert(after.wallet_index =~= stated.wallet_index) by {
        assert forall|w: Address| has_wallet(changed, w) == has_wallet(recs, w) by {
            if has_wallet(changed, w) {
                let p = wallet_position(changed, w);
                assert(recs[p].wallet == w);
            }
            if has_wallet(recs, w) {
                let p = wallet_position(recs, w);
                assert(changed[p].wallet == w);
            }
        }
        assert forall|w: Address| #[trigger] after.wallet_index.dom().contains(w) implies after.wallet_index[w]
            == stated.wallet_index[w] by {
            let p = wallet_position(recs, w);
            lemma_wallet_position(recs, p);
            assert(changed[p].wallet == w);
            lemma_wallet_position(changed, p);
        }
    }
}

} // verus!
