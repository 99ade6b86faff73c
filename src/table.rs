use vstd::prelude::*;

use crate::memory::wrap;

verus! {

/// Size in bytes of one exception-index entry (two words).
pub const ENTRY_SIZE: u32 = 8;

/// Start address of the function covered by entry `i` of a table stored at
/// `base`: the entry's own address plus its 31-bit offset plus `0x8000_0000`,
/// on 32-bit words.
pub open spec fn fn_start(base: u32, table: Seq<[u32; 2]>, i: int) -> u32 {
    wrap(base + 8 * i + table[i]@[0] + 0x8000_0000)
}

/// Among the first `n` entries, the index of the one with the greatest start
/// below `target` (the earliest such entry on a tie).
pub open spec fn best_below(base: u32, table: Seq<[u32; 2]>, target: u32, n: int) -> Option<int>
    decreases n,
{
    if n <= 0 {
        None
    } else {
        let b = best_below(base, table, target, n - 1);
        let s = fn_start(base, table, n - 1);
        if s < target && (b is None || s > fn_start(base, table, b->Some_0)) {
            Some(n - 1)
        } else {
            b
        }
    }
}

/// The entry that covers `target`, if any.
pub open spec fn locate_spec(base: u32, table: Seq<[u32; 2]>, target: u32) -> Option<int> {
    best_below(base, table, target, table.len() as int)
}

/// The result of [`best_below`] is the earliest entry with the greatest start
/// that is still below `target`, and there is none only when no start is below it.
pub proof fn lemma_best_below(base: u32, table: Seq<[u32; 2]>, target: u32, n: int)
    requires
        0 <= n <= table.len(),
    ensures
        best_below(base, table, target, n) is None <==> forall|j: int|
            0 <= j < n ==> fn_start(base, table, j) >= target,
        best_below(base, table, target, n) matches Some(i) ==> {
            &&& 0 <= i < n
            &&& fn_start(base, table, i) < target
            &&& forall|j: int|
                0 <= j < n && fn_start(base, table, j) < target ==> {
                    &&& fn_start(base, table, j) <= fn_start(base, table, i)
                    &&& j < i ==> fn_start(base, table, j) < fn_start(base, table, i)
                }
        },
    decreases n,
{
    if n > 0 {
        lemma_best_below(base, table, target, n - 1);
    }
}

/// Locating an address is a function of the table and the address: two
/// lookups with the same arguments name the same entry.
pub proof fn lemma_locate_idempotent(base: u32, table: Seq<[u32; 2]>, target: u32)
    ensures
        locate_spec(base, table, target) == locate_spec(base, table, target),
{
}

/// Finds the entry of `table` (stored at address `table_addr`) whose function
/// starts closest below `target`: the greatest start strictly less than
/// `target`, the earliest entry among equal starts. `None` when no function
/// starts below `target`.
pub fn locate(table_addr: u32, table: &[[u32; 2]], target: u32) -> (r: Option<usize>)
    requires
        table_addr + 8 * table@.len() <= 0x1_0000_0000,
        forall|i: int| 0 <= i < table@.len() ==> #[trigger] table@[i]@[0] < 0x8000_0000,
    ensures
        r matches Some(i) ==> locate_spec(table_addr, table@, target) == Some(i as int),
        r is None ==> locate_spec(table_addr, table@, target) is None,
        r is None <==> forall|j: int|
            0 <= j < table@.len() ==> fn_start(table_addr, table@, j) >= target,
        r matches Some(i) ==> {
            &&& i < table@.len()
            &&& fn_start(table_addr, table@, i as int) < target
            &&& forall|j: int|
                0 <= j < table@.len() && fn_start(table_addr, table@, j) < target ==> {
                    &&& fn_start(table_addr, table@, j) <= fn_start(table_addr, table@, i as int)
                    &&& j < i ==> fn_start(table_addr, table@, j) < fn_start(
                        table_addr,
                        table@,
                        i as int,
                    )
                }
        },
{
    let mut best: Option<usize> = None;
    let mut best_start: u32 = 0;
    let mut i: usize = 0;
    while i < table.len()
        invariant
            i <= table@.len(),
            table_addr + 8 * table@.len() <= 0x1_0000_0000,
            best_below(table_addr, table@, target, i as int) == match best {
                Some(b) => Some(b as int),
                None => None::<int>,
            },
            best matches Some(b) ==> best_start == fn_start(table_addr, table@, b as int),
        decreases table@.len() - i,
    {
        let entry = table[i];
        let start = ((table_addr as u64 + 8 * (i as u64) + entry[0] as u64 + 0x8000_0000u64)
            % 0x1_0000_0000u64) as u32;
        assert(start == fn_start(table_addr, table@, i as int));
        if start < target && (best.is_none() || start > best_start) {
            best = Some(i);
            best_start = start;
        }
        i = i + 1;
    }
    proof {
        lemma_best_below(table_addr, table@, target, table@.len() as int);
    }
    best
}

/// Number of entries of a table that spans the bytes from `start` to `end`;
/// `None` when that span is negative or not a whole number of entries.
pub fn table_len(start: u32, end: u32) -> (r: Option<usize>)
    ensures
        r matches Some(n) ==> start <= end && (end - start) % 8 == 0 && n == (end - start) / 8,
        r is None <==> !(start <= end && (end - start) % 8 == 0),
{
    if start > end || (end - start) % ENTRY_SIZE != 0 {
        None
    } else {
        Some(((end - start) / ENTRY_SIZE) as usize)
    }
}

} // verus!
