//! Rounding combinations: every way of rounding each selected holding's
//! fractional target up or down, enumerated as the binary numerals of a
//! counter, most significant digit first.

use vstd::arithmetic::power2::lemma2_to64;
use vstd::arithmetic::power2::lemma_pow2_pos;
use vstd::arithmetic::power2::lemma_pow2_strictly_increases;
use vstd::arithmetic::power2::lemma_pow2_unfold;
use vstd::arithmetic::power2::pow2;
use vstd::prelude::*;

use crate::model::SELECTED_MAX;

verus! {

/// The rounding flag of holding `j` in combination `k` over `n` holdings:
/// digit `n - 1 - j` of the binary numeral of `k` (so the most significant
/// digit governs holding `0`). `true` means round up.
pub open spec fn combo_bit(k: int, j: int, n: int) -> bool {
    (k / (pow2((n - 1 - j) as nat) as int)) % 2 == 1
}

/// Builds the table of the powers of two up to `2^n`.
fn pow2_table(n: usize) -> (r: Vec<usize>)
    requires
        n <= SELECTED_MAX,
    ensures
        r@.len() == n + 1,
        forall|m: int| 0 <= m <= n ==> (#[trigger] r@[m]) == pow2(m as nat),
{
    let mut table: Vec<usize> = Vec::new();
    let mut p: usize = 1;
    proof {
        lemma2_to64();
    }
    table.push(p);
    let mut m: usize = 0;
    while m < n
        invariant
            m <= n,
            n <= SELECTED_MAX,
            table@.len() == m + 1,
            p == pow2(m as nat),
            forall|t: int| 0 <= t <= m ==> (#[trigger] table@[t]) == pow2(t as nat),
        decreases n - m,
    {
        proof {
            lemma2_to64();
            lemma_pow2_unfold((m + 1) as nat);
            if (m as nat) < 16 {
                lemma_pow2_strictly_increases(m as nat, 16);
            }
        }
        p = p * 2;
        table.push(p);
        m = m + 1;
    }
    table
}

/// Generates all `2^length` rounding combinations, in ascending order of
/// the counter whose binary digits they are; entry `j` of combination `k`
/// is digit `length - 1 - j` of `k`.
pub fn get_rounding_combinations(length: usize) -> (r: Vec<Vec<bool>>)
    requires
        length <= SELECTED_MAX,
    ensures
        r@.len() == pow2(length as nat),
        forall|k: int| 0 <= k < r@.len() ==> (#[trigger] r@[k])@.len() == length,
        forall|k: int, j: int|
            0 <= k < r@.len() && 0 <= j < length ==> (#[trigger] r@[k]@[j]) == combo_bit(
                k,
                j,
                length as int,
            ),
{
    let table = pow2_table(length);
    let limit: usize = table[length];
    let mut combos: Vec<Vec<bool>> = Vec::new();
    let mut k: usize = 0;
    while k < limit
        invariant
            k <= limit,
            limit == pow2(length as nat),
            length <= SELECTED_MAX,
            table@.len() == length + 1,
            forall|m: int| 0 <= m <= length ==> (#[trigger] table@[m]) == pow2(m as nat),
            combos@.len() == k,
            forall|t: int| 0 <= t < k ==> (#[trigger] combos@[t])@.len() == length,
            forall|t: int, j: int|
                0 <= t < k && 0 <= j < length ==> (#[trigger] combos@[t]@[j]) == combo_bit(
                    t,
                    j,
                    length as int,
                ),
        decreases limit - k,
    {
        let mut combo: Vec<bool> = Vec::new();
        let mut j: usize = 0;
        while j < length
            invariant
                j <= length,
                length <= SELECTED_MAX,
                table@.len() == length + 1,
                forall|m: int| 0 <= m <= length ==> (#[trigger] table@[m]) == pow2(m as nat),
                combo@.len() == j,
                forall|t: int|
                    0 <= t < j ==> (#[trigger] combo@[t]) == combo_bit(
                        k as int,
                        t,
                        length as int,
                    ),
            decreases length - j,
        {
            let m = length - 1 - j;
            let p = table[m];
            proof {
                lemma_pow2_pos(m as nat);
            }
            let bit = (k / p) % 2 == 1;
            combo.push(bit);
            j = j + 1;
        }
        combos.push(combo);
        k = k + 1;
    }
    combos
}

} // verus!
