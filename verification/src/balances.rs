//! The mathematics of a table of balances: what an account holds, and what
//! all accounts hold together.

use vstd::prelude::*;

verus! {

/// What `id` holds in `table`: its entry, or nothing where it has none.
pub open spec fn balance_in(table: Map<Seq<char>, u128>, id: Seq<char>) -> u128 {
    if table.contains_key(id) {
        table[id]
    } else {
        0
    }
}

/// The sum of all entries of a finite table.
pub open spec fn total_of(table: Map<Seq<char>, u128>) -> nat
    decreases table.dom().len(),
    when table.dom().finite()
{
    if table.dom().len() == 0 {
        0
    } else {
        let id = table.dom().choose();
        table[id] as nat + total_of(table.remove(id))
    }
}

/// The empty table holds nothing.
pub proof fn lemma_total_of_empty()
    ensures
        total_of(Map::<Seq<char>, u128>::empty()) == 0,
{
}

/// Any one entry can be split off the sum.
pub proof fn lemma_total_of_remove(table: Map<Seq<char>, u128>, id: Seq<char>)
    requires
        table.dom().finite(),
        table.contains_key(id),
    ensures
        total_of(table) == table[id] as nat + total_of(table.remove(id)),
    decreases table.dom().len(),
{
    let first = table.dom().choose();
    if first != id {
        lemma_total_of_remove(table.remove(first), id);
        lemma_total_of_remove(table.remove(id), first);
        assert(table.remove(first).remove(id) =~= table.remove(id).remove(first));
    }
}

/// Writing an entry changes the sum by the difference to what the account held.
pub proof fn lemma_total_of_insert(table: Map<Seq<char>, u128>, id: Seq<char>, amount: u128)
    requires
        table.dom().finite(),
    ensures
        total_of(table.insert(id, amount)) == total_of(table) - balance_in(table, id) + amount,
{
    let written = table.insert(id, amount);
    lemma_total_of_remove(written, id);
    if table.contains_key(id) {
        lemma_total_of_remove(table, id);
        assert(written.remove(id) =~= table.remove(id));
    } else {
        assert(written.remove(id) =~= table);
    }
}

/// No account holds more than all accounts together.
pub proof fn lemma_balance_within_total(table: Map<Seq<char>, u128>, id: Seq<char>)
    requires
        table.dom().finite(),
    ensures
        balance_in(table, id) <= total_of(table),
{
    if table.contains_key(id) {
        lemma_total_of_remove(table, id);
    }
}

/// Two different accounts together hold no more than all accounts together.
pub proof fn lemma_pair_within_total(table: Map<Seq<char>, u128>, a: Seq<char>, b: Seq<char>)
    requires
        table.dom().finite(),
        a != b,
    ensures
        balance_in(table, a) + balance_in(table, b) <= total_of(table),
{
    if table.contains_key(a) {
        lemma_total_of_remove(table, a);
        lemma_balance_within_total(table.remove(a), b);
    } else {
        lemma_balance_within_total(table, b);
    }
}

} // verus!
