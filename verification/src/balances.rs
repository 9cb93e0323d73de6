//! Balance arithmetic: per-asset sums, the equal-in-sum relation that
//! disputes must preserve, the capacity locked for token cells, and the
//! coverage predicates used by funding and payout checks.
//!
//! Specifications use unbounded integers; the executable comparisons
//! are exact (no wrapping), and sums that must fit a machine word
//! report overflow as a rejection, as the protocol requires.

use vstd::prelude::*;

use crate::records::{Balances, ScriptDesc, SudtDistribution, script_eq};
use crate::util::bytes_eq;

verus! {

/// The native-token total of a balance distribution.
pub open spec fn ckbytes_sum(b: Balances) -> int {
    b.ckbytes@[0] + b.ckbytes@[1]
}

/// A token's total over both parties.
pub open spec fn sudt_sum(s: SudtDistribution) -> int {
    s.distribution@[0] + s.distribution@[1]
}

/// Two balance distributions agree on every per-asset total: the native
/// totals are equal, and the token lists match pointwise in type script
/// and total. Locked allocations do not contribute.
pub open spec fn balances_equal_in_sum(a: Balances, b: Balances) -> bool {
    &&& ckbytes_sum(a) == ckbytes_sum(b)
    &&& a.sudts@.len() == b.sudts@.len()
    &&& forall|i: int|
        0 <= i < a.sudts@.len() ==> script_eq(
            (#[trigger] a.sudts@[i]).type_script,
            b.sudts@[i].type_script,
        ) && sudt_sum(a.sudts@[i]) == sudt_sum(b.sudts@[i])
}

/// Compares two `u128` pair sums without overflow.
fn pair_sum_eq(a0: u128, a1: u128, b0: u128, b1: u128) -> (r: bool)
    ensures
        r <==> a0 + a1 == b0 + b1,
{
    if a0 >= b0 {
        let d = a0 - b0;
        b1 >= d && b1 - d == a1
    } else {
        let d = b0 - a0;
        a1 >= d && a1 - d == b1
    }
}

fn script_desc_eq(a: &ScriptDesc, b: &ScriptDesc) -> (r: bool)
    ensures
        r <==> script_eq(*a, *b),
{
    bytes_eq(a.code_hash.as_slice(), b.code_hash.as_slice()) && a.hash_type == b.hash_type
        && bytes_eq(a.args.as_slice(), b.args.as_slice())
}

/// Decides the equal-in-sum relation.
pub fn equal_in_sum(a: &Balances, b: &Balances) -> (r: bool)
    ensures
        r <==> balances_equal_in_sum(*a, *b),
{
    let ca = a.ckbytes[0] as u128 + a.ckbytes[1] as u128;
    let cb = b.ckbytes[0] as u128 + b.ckbytes[1] as u128;
    if ca != cb {
        return false;
    }
    if a.sudts.len() != b.sudts.len() {
        return false;
    }
    let n = a.sudts.len();
    let mut i: usize = 0;
    while i < n
        invariant
            0 <= i <= n,
            n == a.sudts@.len() == b.sudts@.len(),
            forall|k: int|
                0 <= k < i ==> script_eq((#[trigger] a.sudts@[k]).type_script, b.sudts@[k].type_script)
                    && sudt_sum(a.sudts@[k]) == sudt_sum(b.sudts@[k]),
        decreases n - i,
    {
        let sa = &a.sudts[i];
        let sb = &b.sudts[i];
        if !script_desc_eq(&sa.type_script, &sb.type_script) {
            return false;
        }
        if !pair_sum_eq(
            sa.distribution[0],
            sa.distribution[1],
            sb.distribution[0],
            sb.distribution[1],
        ) {
            return false;
        }
        i += 1;
    }
    true
}

/// The capacity reserved with the token cells: the sum of the tokens'
/// `max_capacity` fields. It is reimbursed on closing.
pub open spec fn locked_ckbytes_prefix(ss: Seq<SudtDistribution>, i: int) -> int
    decreases i,
{
    if i <= 0 {
        0
    } else {
        locked_ckbytes_prefix(ss, i - 1) + ss[i - 1].max_capacity
    }
}

pub open spec fn locked_ckbytes_sum(ss: Seq<SudtDistribution>) -> int {
    locked_ckbytes_prefix(ss, ss.len() as int)
}

/// Sums the capacity locked for token cells; `None` when the sum
/// exceeds the native word, which every caller treats as a rejection.
pub fn get_locked_ckbytes(b: &Balances) -> (r: Option<u64>)
    ensures
        r is Some <==> locked_ckbytes_sum(b.sudts@) <= u64::MAX,
        r is Some ==> r->0 == locked_ckbytes_sum(b.sudts@),
{
    let mut acc: u64 = 0;
    let n = b.sudts.len();
    let mut i: usize = 0;
    while i < n
        invariant
            0 <= i <= n,
            n == b.sudts@.len(),
            acc == locked_ckbytes_prefix(b.sudts@, i as int),
        decreases n - i,
    {
        acc = match acc.checked_add(b.sudts[i].max_capacity) {
            Some(a) => a,
            None => {
                proof {
                    lemma_locked_prefix_mono(b.sudts@, i + 1 as int, b.sudts@.len() as int);
                }
                return None;
            },
        };
        i += 1;
    }
    Some(acc)
}

proof fn lemma_locked_prefix_mono(ss: Seq<SudtDistribution>, i: int, j: int)
    requires
        0 <= i <= j,
    ensures
        locked_ckbytes_prefix(ss, i) <= locked_ckbytes_prefix(ss, j),
    decreases j - i,
{
    if i < j {
        lemma_locked_prefix_mono(ss, i, j - 1);
    }
}

/// The index of the first token whose type script equals `s`, or the
/// list length when there is none.
pub open spec fn sudt_index_of(ss: Seq<SudtDistribution>, s: ScriptDesc) -> int
    decreases ss.len(),
{
    if ss.len() == 0 {
        0
    } else if script_eq(ss[0].type_script, s) {
        0
    } else {
        1 + sudt_index_of(ss.drop_first(), s)
    }
}

pub open spec fn has_sudt(ss: Seq<SudtDistribution>, s: ScriptDesc) -> bool {
    sudt_index_of(ss, s) < ss.len()
}

pub proof fn lemma_sudt_index_of(ss: Seq<SudtDistribution>, s: ScriptDesc)
    ensures
        0 <= sudt_index_of(ss, s) <= ss.len(),
        sudt_index_of(ss, s) < ss.len() ==> script_eq(ss[sudt_index_of(ss, s)].type_script, s),
        forall|k: int| 0 <= k < sudt_index_of(ss, s) ==> !script_eq((#[trigger] ss[k]).type_script, s),
    decreases ss.len(),
{
    if ss.len() > 0 && !script_eq(ss[0].type_script, s) {
        lemma_sudt_index_of(ss.drop_first(), s);
        assert forall|k: int| 0 <= k < sudt_index_of(ss, s) implies !script_eq(
            (#[trigger] ss[k]).type_script,
            s,
        ) by {
            if k > 0 {
                assert(ss.drop_first()[k - 1] == ss[k]);
            }
        }
    }
}

/// Finds the first token whose type script equals `s`.
pub fn find_sudt(sudts: &Vec<SudtDistribution>, s: &ScriptDesc) -> (r: Option<usize>)
    ensures
        r is Some <==> has_sudt(sudts@, *s),
        r is Some ==> r->0 == sudt_index_of(sudts@, *s),
{
    proof {
        lemma_sudt_index_of(sudts@, *s);
    }
    let n = sudts.len();
    let mut i: usize = 0;
    while i < n
        invariant
            0 <= i <= n,
            n == sudts@.len(),
            forall|k: int| 0 <= k < i ==> !script_eq((#[trigger] sudts@[k]).type_script, *s),
            sudt_index_of(sudts@, *s) >= i,
        decreases n - i,
    {
        if script_desc_eq(&sudts[i].type_script, s) {
            proof {
                lemma_index_of_found(sudts@, *s, i as int);
            }
            return Some(i);
        }
        proof {
            lemma_index_of_past(sudts@, *s, i as int);
        }
        i += 1;
    }
    None
}

proof fn lemma_index_of_found(ss: Seq<SudtDistribution>, s: ScriptDesc, i: int)
    requires
        0 <= i < ss.len(),
        script_eq(ss[i].type_script, s),
        forall|k: int| 0 <= k < i ==> !script_eq((#[trigger] ss[k]).type_script, s),
    ensures
        sudt_index_of(ss, s) == i,
    decreases i,
{
    if i > 0 {
        assert forall|k: int| 0 <= k < i - 1 implies !script_eq(
            (#[trigger] ss.drop_first()[k]).type_script,
            s,
        ) by {
            assert(ss.drop_first()[k] == ss[k + 1]);
        }
        assert(ss.drop_first()[i - 1] == ss[i]);
        lemma_index_of_found(ss.drop_first(), s, i - 1);
    }
}

proof fn lemma_index_of_past(ss: Seq<SudtDistribution>, s: ScriptDesc, i: int)
    requires
        0 <= i < ss.len(),
        !script_eq(ss[i].type_script, s),
        sudt_index_of(ss, s) >= i,
    ensures
        sudt_index_of(ss, s) >= i + 1,
{
    lemma_sudt_index_of(ss, s);
}

/// Every token's share for party `idx` is covered by the corresponding
/// accumulated output amount.
pub open spec fn sudts_covered(ss: Seq<SudtDistribution>, idx: int, outs: Seq<u128>) -> bool {
    forall|i: int|
        0 <= i < ss.len() ==> outs[i] >= (#[trigger] ss[i]).distribution@[idx]
}

/// Decides `sudts_covered` for a party.
pub fn fully_represented(sudts: &Vec<SudtDistribution>, idx: usize, outs: &Vec<u128>) -> (r: bool)
    requires
        idx < 2,
        outs@.len() == sudts@.len(),
    ensures
        r <==> sudts_covered(sudts@, idx as int, outs@),
{
    let n = sudts.len();
    let mut i: usize = 0;
    while i < n
        invariant
            0 <= i <= n,
            idx < 2,
            n == sudts@.len() == outs@.len(),
            forall|k: int| 0 <= k < i ==> outs@[k] >= (#[trigger] sudts@[k]).distribution@[idx as int],
        decreases n - i,
    {
        if outs[i] < sudts[i].distribution[idx] {
            return false;
        }
        i += 1;
    }
    true
}

/// A virtual channel's extra share for an asset: the party-`vc_idx`
/// amount of the first virtual channel token with the given type script,
/// zero when the asset is not part of the virtual channel.
pub open spec fn vc_share(vc_sudts: Seq<SudtDistribution>, vc_idx: int, s: ScriptDesc) -> int {
    if has_sudt(vc_sudts, s) {
        vc_sudts[sudt_index_of(vc_sudts, s)].distribution@[vc_idx] as int
    } else {
        0
    }
}

/// Every token's share for ledger party `idx`, plus the virtual
/// channel's share for the party it maps to, is covered.
pub open spec fn sudts_covered_vc(
    ss: Seq<SudtDistribution>,
    idx: int,
    vc_idx: int,
    vc_sudts: Seq<SudtDistribution>,
    outs: Seq<u128>,
) -> bool {
    forall|i: int|
        0 <= i < ss.len() ==> outs[i] >= (#[trigger] ss[i]).distribution@[idx] + vc_share(
            vc_sudts,
            vc_idx,
            ss[i].type_script,
        )
}

/// Decides `sudts_covered_vc` for a ledger party and its virtual
/// channel counterpart.
pub fn fully_represented_vc(
    sudts: &Vec<SudtDistribution>,
    idx: usize,
    vc_idx: usize,
    vc_sudts: &Vec<SudtDistribution>,
    outs: &Vec<u128>,
) -> (r: bool)
    requires
        idx < 2,
        vc_idx < 2,
        outs@.len() == sudts@.len(),
    ensures
        r <==> sudts_covered_vc(sudts@, idx as int, vc_idx as int, vc_sudts@, outs@),
{
    let n = sudts.len();
    let mut i: usize = 0;
    while i < n
        invariant
            0 <= i <= n,
            idx < 2,
            vc_idx < 2,
            n == sudts@.len() == outs@.len(),
            forall|k: int|
                0 <= k < i ==> outs@[k] >= (#[trigger] sudts@[k]).distribution@[idx as int]
                    + vc_share(vc_sudts@, vc_idx as int, sudts@[k].type_script),
        decreases n - i,
    {
        let base = sudts[i].distribution[idx];
        let extra: u128 = match find_sudt(vc_sudts, &sudts[i].type_script) {
            Some(j) => vc_sudts[j].distribution[vc_idx],
            None => 0,
        };
        let owed = match base.checked_add(extra) {
            Some(o) => o,
            None => {
                // the owed amount exceeds any representable output sum
                return false;
            },
        };
        if outs[i] < owed {
            return false;
        }
        i += 1;
    }
    true
}

} // verus!
