//! Raw, already-parsed level description data.
//!
//! A loading collaborator turns level documents into these plain values;
//! the level module then validates them and builds the runtime catalogs and
//! grid.  Nothing here reads files.

use vstd::prelude::*;

pub mod geometry;
pub mod material;

verus! {

/// The first symbol (in order of appearance) that occurs again later in
/// `s[k..]`, scanning from position `k`.
pub open spec fn first_dup_from(s: Seq<char>, k: int) -> Option<char>
    decreases s.len() - k,
    when 0 <= k
{
    if k >= s.len() {
        None
    } else if exists|j: int| k < j < s.len() && s[j] == s[k] {
        Some(s[k])
    } else {
        first_dup_from(s, k + 1)
    }
}

/// The first symbol that occurs twice in `symbols`, or `None` when all
/// symbols are distinct.
pub fn check_for_duplicate_symbols(symbols: &Vec<char>) -> (r: Option<char>)
    ensures
        r == first_dup_from(symbols@, 0),
{
    let n = symbols.len();
    let mut k: usize = 0;
    while k < n
        invariant
            0 <= k <= n,
            n == symbols@.len(),
            first_dup_from(symbols@, 0) == first_dup_from(symbols@, k as int),
        decreases n - k,
    {
        let c = symbols[k];
        let mut j: usize = k + 1;
        while j < n
            invariant
                k < j <= n,
                n == symbols@.len(),
                c == symbols@[k as int],
                first_dup_from(symbols@, 0) == first_dup_from(symbols@, k as int),
                forall|m: int| k < m < j ==> symbols@[m] != c,
            decreases n - j,
        {
            if symbols[j] == c {
                proof {
                    assert(k < j < symbols@.len() && symbols@[j as int] == symbols@[k as int]);
                    assert(exists|m: int|
                        k < m < symbols@.len() && symbols@[m] == symbols@[k as int]);
                    assert(first_dup_from(symbols@, k as int) == Some(c));
                }
                return Some(c);
            }
            j += 1;
        }
        proof {
            assert(forall|m: int| k < m < symbols@.len() ==> symbols@[m] != c);
            assert(first_dup_from(symbols@, k as int) == first_dup_from(symbols@, k as int + 1));
        }
        k += 1;
    }
    None
}

} // verus!
