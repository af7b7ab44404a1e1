//! Balances by asset, in a map of the host.
use crate::error::{LedgerError, TransferFault};
use crate::host::{balance_entries, new_balance_map, set_balance};
use crate::model::{answers_fit, balances_report, has_entry, is_last_entry, tabulates};
use soroban_sdk::{Address, Env};
use vstd::prelude::*;

verus! {

/// Whether `held` is what the balances of `assets` come to, given the answer
/// for each of them: the table of the amounts answered, or the first fault.
pub open spec fn is_balances_report(
    held: Result<soroban_sdk::Map<Address, i128>, LedgerError>,
    assets: Seq<Option<Address>>,
    answers: Seq<Result<i128, TransferFault>>,
) -> bool {
    &&& answers_fit(assets, answers)
    &&& match held {
        Ok(table) => balances_report(assets, answers) matches Ok(entries) && tabulates(
            balance_entries(table),
            entries,
        ),
        Err(error) => balances_report(assets, answers) == Err::<Seq<(Address, i128)>, _>(error),
    }
}

/// Setting the asset of one more entry to its amount tabulates the longer list.
proof fn lemma_tabulates_step(
    table: Map<Address, i128>,
    entries: Seq<(Address, i128)>,
    n: int,
)
    requires
        0 <= n < entries.len(),
        tabulates(table, entries.subrange(0, n)),
    ensures
        tabulates(table.insert(entries[n].0, entries[n].1), entries.subrange(0, n + 1)),
{
    let before = entries.subrange(0, n);
    let after = entries.subrange(0, n + 1);
    let more = table.insert(entries[n].0, entries[n].1);
    assert forall|asset: Address| #[trigger] more.dom().contains(asset) <==> has_entry(after, asset) by {
        if has_entry(before, asset) {
            let i = choose|i: int| 0 <= i < before.len() && (#[trigger] before[i]).0 == asset;
            assert(after[i].0 == asset);
        }
        if has_entry(after, asset) {
            let i = choose|i: int| 0 <= i < after.len() && (#[trigger] after[i]).0 == asset;
            if i < n {
                assert(before[i].0 == asset);
            }
        }
        assert(after[n].0 == entries[n].0);
    }
    assert forall|i: int| 0 <= i < after.len() && is_last_entry(after, i) implies more[(
    #[trigger] after[i]).0] == after[i].1 by {
        if i < n {
            assert(after[n].0 != after[i].0);
            assert forall|j: int| i < j < before.len() implies (#[trigger] before[j]).0
                != before[i].0 by {
                assert(after[j].0 != after[i].0);
            }
            assert(is_last_entry(before, i));
            assert(table[before[i].0] == before[i].1);
        }
    }
}

/// Puts a list of balances into a map of the host: one key for each asset in
/// the list, and under it the amount of the last entry for that asset.
pub fn tabulate_balances(e: &Env, entries: &Vec<(Address, i128)>) -> (table: soroban_sdk::Map<
    Address,
    i128,
>)
    ensures
        tabulates(balance_entries(table), entries@),
{
    let mut table = new_balance_map(e);
    let mut i: usize = 0;
    assert(entries@.subrange(0, 0) =~= Seq::empty());
    while i < entries.len()
        invariant
            0 <= i <= entries.len(),
            tabulates(balance_entries(table), entries@.subrange(0, i as int)),
        decreases entries.len() - i,
    {
        proof {
            lemma_tabulates_step(balance_entries(table), entries@, i as int);
        }
        set_balance(&mut table, &entries[i].0, entries[i].1);
        i += 1;
    }
    assert(entries@.subrange(0, i as int) =~= entries@);
    table
}

} // verus!
