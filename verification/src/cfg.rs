//! A pre-pass for the reserved control-flow lowering: collects the distinct
//! target lines of the `Jump` instructions in a sequence, in ascending
//! order — the block boundaries a later lowering of branches would need.
//! The current lowering rejects `Jump`, so nothing consumes the result yet.

use vstd::prelude::*;

use crate::ir::Instr;

verus! {

/// Whether some `Jump` in `instrs` targets `line`.
pub open spec fn is_jump_target(instrs: Seq<Instr>, line: i32) -> bool {
    exists|k: int|
        0 <= k < instrs.len() && ((#[trigger] instrs[k]) matches Instr::Jump(l, _c, _a, _b)
            && l == line)
}

/// Strictly ascending: sorted with no duplicates.
pub open spec fn strictly_sorted(v: Seq<i32>) -> bool {
    forall|a: int, b: int| 0 <= a < b < v.len() ==> v[a] < v[b]
}

/// Places `x` into the ascending list `v`, keeping it ascending; a value
/// already present is left alone.
fn insert_sorted(v: &mut Vec<i32>, x: i32)
    requires
        strictly_sorted(old(v)@),
    ensures
        strictly_sorted(final(v)@),
        forall|y: i32| final(v)@.contains(y) <==> (old(v)@.contains(y) || y == x),
{
    let ghost v0 = v@;
    let n = v.len();
    let mut i: usize = 0;
    while i < n && v[i] < x
        invariant
            v@ == v0,
            n == v@.len(),
            i <= n,
            forall|j: int| 0 <= j < i ==> v@[j] < x,
        decreases n - i,
    {
        i += 1;
    }
    if i < n && v[i] == x {
        proof {
            assert(v@[i as int] == x);
            assert(v@.contains(x));
            assert(forall|y: i32| v@.contains(y) <==> (v0.contains(y) || y == x));
        }
        return ;
    }
    v.insert(i, x);
    proof {
        assert(forall|j: int| 0 <= j < i ==> v@[j] == v0[j] && v@[j] < x);
        assert(forall|j: int| i < j < v@.len() ==> v@[j] == v0[j - 1]);
        assert(forall|j: int| i < j < v@.len() ==> v@[j] > x) by {
            assert(forall|j: int| i < j < v@.len() ==> v@[j] == v0[j - 1] && v0[j - 1] >= x
                && v0[j - 1] != x);
        }
        assert(strictly_sorted(v@)) by {
            assert(forall|a: int, b: int|
                0 <= a < b < v@.len() && a != i && b != i ==> v@[a] < v@[b]);
        }
        assert(forall|y: i32| v@.contains(y) ==> (v0.contains(y) || y == x)) by {
            assert(forall|j: int|
                0 <= j < v@.len() && j != i ==> (v@[j] == v0[j] || v@[j] == v0[j - 1]));
            assert(forall|j: int|
                0 <= j < v0.len() ==> v0.contains(v0[j]));
        }
        assert(forall|y: i32| v0.contains(y) ==> v@.contains(y)) by {
            assert(forall|j: int|
                0 <= j < v0.len() ==> v@[if j < i {
                    j
                } else {
                    j + 1
                }] == v0[j]);
        }
        assert(v@[i as int] == x);
        assert(v@.contains(x));
    }
}

/// The distinct jump target lines of `instrs`, ascending: the boundaries of
/// the control-flow graph a branch lowering would build.
pub fn generate_cfg(instrs: &Vec<Instr>) -> (r: Vec<i32>)
    ensures
        strictly_sorted(r@),
        forall|line: i32| r@.contains(line) <==> is_jump_target(instrs@, line),
{
    let mut targets: Vec<i32> = Vec::new();
    let mut k: usize = 0;
    while k < instrs.len()
        invariant
            k <= instrs@.len(),
            strictly_sorted(targets@),
            forall|line: i32|
                targets@.contains(line) <==> (exists|m: int|
                    0 <= m < k && ((#[trigger] instrs@[m]) matches Instr::Jump(l, _c, _a, _b)
                        && l == line)),
        decreases instrs@.len() - k,
    {
        match &instrs[k] {
            Instr::Jump(line, _cond, _left, _right) => {
                insert_sorted(&mut targets, *line);
            },
            _ => {},
        }
        k += 1;
    }
    targets
}

} // verus!
