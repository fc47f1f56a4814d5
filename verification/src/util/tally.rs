//! Sums over quantity tables: maps from an item key to a 32-bit quantity.

use std::collections::HashMap;
use vstd::prelude::*;

verus! {

broadcast use vstd::std_specs::hash::group_hash_axioms;

/// The quantity that a table holds for `key`: 0 where it has no entry.
pub open spec fn quantity(table: Map<u32, i32>, key: u32) -> int {
    if table.contains_key(key) {
        table[key] as int
    } else {
        0
    }
}

/// The sum of the quantities of all keys below `n`.
pub open spec fn sum_below(table: Map<u32, i32>, n: nat) -> int
    decreases n,
{
    if n == 0 {
        0
    } else {
        sum_below(table, (n - 1) as nat) + quantity(table, (n - 1) as u32)
    }
}

/// The sum of all quantities of a table.
pub open spec fn total(table: Map<u32, i32>) -> int {
    sum_below(table, 0x1_0000_0000)
}

/// The quotient of `a` by a positive `b`, rounded towards zero.
pub open spec fn div_trunc(a: int, b: int) -> int {
    if a >= 0 {
        a / b
    } else {
        -((-a) / b)
    }
}

/// An empty table sums to 0.
pub proof fn lemma_sum_below_empty(n: nat)
    ensures
        sum_below(Map::empty(), n) == 0,
    decreases n,
{
    if n > 0 {
        lemma_sum_below_empty((n - 1) as nat);
    }
}

/// Setting one entry moves a partial sum by the change of that entry.
pub proof fn lemma_sum_below_insert(table: Map<u32, i32>, key: u32, value: i32, n: nat)
    requires
        n <= 0x1_0000_0000,
    ensures
        sum_below(table.insert(key, value), n) == sum_below(table, n) + (if key < n {
            value - quantity(table, key)
        } else {
            0
        }),
    decreases n,
{
    if n > 0 {
        lemma_sum_below_insert(table, key, value, (n - 1) as nat);
    }
}

/// Setting one entry moves the total by the change of that entry.
pub proof fn lemma_total_insert(table: Map<u32, i32>, key: u32, value: i32)
    ensures
        total(table.insert(key, value)) == total(table) - quantity(table, key) + value,
{
    lemma_sum_below_insert(table, key, value, 0x1_0000_0000);
}

/// The total of a finite table lies between its size times a lower bound
/// and its size times an upper bound of its quantities.
pub proof fn lemma_total_bounds(table: Map<u32, i32>, lo: int, hi: int)
    requires
        table.dom().finite(),
        forall|key: u32| #[trigger] table.contains_key(key) ==> lo <= table[key] <= hi,
    ensures
        lo * table.len() <= total(table) <= hi * table.len(),
    decreases table.len(),
{
    if table.len() == 0 {
        assert(table =~= Map::empty()) by {
            table.dom().lemma_len0_is_empty();
        }
        lemma_sum_below_empty(0x1_0000_0000);
    } else {
        let key = table.dom().choose();
        assert(table.contains_key(key)) by {
            if table.dom().is_empty() {
                assert(table.dom() =~= Set::empty());
            }
        }
        let rest = table.remove(key);
        assert(rest.insert(key, table[key]) =~= table);
        lemma_total_bounds(rest, lo, hi);
        lemma_total_insert(rest, key, table[key]);
        assert(rest.len() == table.len() - 1);
        assert(lo * table.len() == lo * rest.len() + lo) by (nonlinear_arith)
            requires
                table.len() == rest.len() + 1,
        ;
        assert(hi * table.len() == hi * rest.len() + hi) by (nonlinear_arith)
            requires
                table.len() == rest.len() + 1,
        ;
    }
}

/// The keys of a table, each once, in no particular order.
pub fn keys_of<V>(table: &HashMap<u32, V>) -> (keys: Vec<u32>)
    ensures
        keys@.no_duplicates(),
        keys@.len() == table@.len(),
        forall|key: u32| table@.contains_key(key) <==> keys@.contains(key),
{
    let mut keys: Vec<u32> = Vec::new();
    proof {
        if table@.len() == 0 {
            table@.dom().lemma_len0_is_empty();
        }
    }
    for key in it: table.keys()
        invariant
            it.seq().no_duplicates(),
            it.seq().len() == table@.len(),
            it.seq().unref().to_set() == table@.dom(),
            keys@ == it.seq().unref().take(it.index()),
            it.index() == it.seq().len() ==> keys@.no_duplicates() && (forall|key: u32|
                table@.contains_key(key) <==> keys@.contains(key)),
    {
        keys.push(*key);
        assert(it.index() + 1 == it.seq().len() ==> keys@.no_duplicates() && (forall|key: u32|
            table@.contains_key(key) <==> keys@.contains(key))) by {
            let all = it.seq().unref();
            assert(keys@ =~= all.take(it.index() + 1));
            if it.index() + 1 == it.seq().len() {
                assert(all.take(it.index() + 1) =~= all);
                assert forall|i: int, j: int| 0 <= i < j < all.len() implies all[i] != all[j] by {
                    assert(it.seq()[i] != it.seq()[j]);
                }
                assert forall|key: u32| table@.contains_key(key) <==> keys@.contains(key) by {
                    assert(all.to_set().contains(key) <==> all.contains(key));
                }
            }
        }
    }
    keys
}

/// The quantity that a table holds for `key`.
pub fn quantity_of(table: &HashMap<u32, i32>, key: u32) -> (held: i32)
    ensures
        held == quantity(table@, key),
{
    match table.get(&key) {
        Some(value) => *value,
        None => 0,
    }
}

/// The sum of all quantities of a table.
pub fn total_of(table: &HashMap<u32, i32>) -> (sum: i128)
    ensures
        sum == total(table@),
{
    let keys = keys_of(table);
    let mut sum: i128 = 0;
    let ghost mut seen: Map<u32, i32> = Map::empty();
    let mut i: usize = 0;
    proof {
        lemma_sum_below_empty(0x1_0000_0000);
    }
    while i < keys.len()
        invariant
            i <= keys@.len(),
            keys@.no_duplicates(),
            forall|key: u32| table@.contains_key(key) <==> keys@.contains(key),
            forall|key: u32|
                seen.contains_key(key) <==> exists|j: int| 0 <= j < i && keys@[j] == key,
            forall|key: u32| #[trigger]
                seen.contains_key(key) ==> table@.contains_key(key) && seen[key] == table@[key],
            sum == total(seen),
            -0x8000_0000 * i <= sum <= 0x8000_0000 * i,
        decreases keys@.len() - i,
    {
        let key = keys[i];
        assert(keys@.contains(key));
        let value = quantity_of(table, key);
        proof {
            lemma_total_insert(seen, key, value);
            seen = seen.insert(key, value);
        }
        sum = sum + value as i128;
        i = i + 1;
    }
    assert(seen =~= table@) by {
        assert forall|key: u32| table@.contains_key(key) implies seen.contains_key(key) by {
            assert(keys@.contains(key));
        }
    }
    sum
}

/// A prefix that is one longer holds what the prefix held and the element
/// that came.
pub proof fn lemma_take_contains(keys: Seq<u32>, t: int, key: u32)
    requires
        0 <= t < keys.len(),
    ensures
        keys.take(t + 1).contains(key) <==> keys.take(t).contains(key) || keys[t] == key,
{
    if keys.take(t + 1).contains(key) {
        let longer = keys.take(t + 1);
        let j = choose|j: int| 0 <= j < longer.len() && longer[j] == key;
        if j < t {
            assert(keys.take(t)[j] == key);
        }
    }
    if keys.take(t).contains(key) {
        let shorter = keys.take(t);
        let j = choose|j: int| 0 <= j < shorter.len() && shorter[j] == key;
        assert(keys.take(t + 1)[j] == key);
    }
    if keys[t] == key {
        assert(keys.take(t + 1)[t] == key);
    }
}

/// A list that grew by one element holds what it held and that element.
pub proof fn lemma_push_contains(keys: Seq<u32>, added: u32, key: u32)
    ensures
        keys.push(added).contains(key) <==> keys.contains(key) || added == key,
{
    let longer = keys.push(added);
    if longer.contains(key) {
        let j = choose|j: int| 0 <= j < longer.len() && longer[j] == key;
        if j < keys.len() {
            assert(keys[j] == key);
        }
    }
    if keys.contains(key) {
        let j = choose|j: int| 0 <= j < keys.len() && keys[j] == key;
        assert(longer[j] == key);
    }
    if added == key {
        assert(longer[keys.len() as int] == key);
    }
}

/// Whether every quantity of the table lies from `low` to `high`.
pub fn all_within(table: &HashMap<u32, i32>, low: i32, high: i32) -> (ok: bool)
    ensures
        ok == (forall|key: u32| #[trigger] table@.contains_key(key) ==> low <= table@[key] <= high),
{
    let keys = keys_of(table);
    let mut i: usize = 0;
    while i < keys.len()
        invariant
            i <= keys@.len(),
            forall|key: u32| #[trigger] table@.contains_key(key) <==> keys@.contains(key),
            forall|j: int| 0 <= j < i ==> low <= table@[#[trigger] keys@[j]] <= high,
        decreases keys@.len() - i,
    {
        let key = keys[i];
        assert(keys@.contains(key));
        let held = quantity_of(table, key);
        if held < low || held > high {
            return false;
        }
        i = i + 1;
    }
    assert forall|key: u32| #[trigger] table@.contains_key(key) implies low <= table@[key]
        <= high by {
        assert(keys@.contains(key));
        let j = choose|j: int| 0 <= j < keys@.len() && keys@[j] == key;
        assert(low <= table@[keys@[j]] <= high);
    }
    true
}

/// Whether two tables list the same keys.
pub fn same_keys(table: &HashMap<u32, i32>, other: &HashMap<u32, i32>) -> (same: bool)
    ensures
        same == (table@.dom() == other@.dom()),
{
    if table.len() != other.len() {
        return false;
    }
    let keys = keys_of(table);
    let mut i: usize = 0;
    while i < keys.len()
        invariant
            i <= keys@.len(),
            forall|key: u32| #[trigger] table@.contains_key(key) <==> keys@.contains(key),
            forall|j: int| 0 <= j < i ==> other@.contains_key(#[trigger] keys@[j]),
        decreases keys@.len() - i,
    {
        let key = keys[i];
        assert(keys@.contains(key));
        if !other.contains_key(&key) {
            return false;
        }
        i = i + 1;
    }
    proof {
        assert forall|key: u32| table@.dom().contains(key) implies other@.dom().contains(key) by {
            assert(table@.contains_key(key));
            assert(keys@.contains(key));
            let j = choose|j: int| 0 <= j < keys@.len() && keys@[j] == key;
            assert(other@.contains_key(keys@[j]));
        }
        vstd::set_lib::lemma_subset_equality(table@.dom(), other@.dom());
    }
    true
}

} // verus!
