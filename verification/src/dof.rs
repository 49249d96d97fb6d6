//! Finding degrees of freedom and assessing which variables are underconstrained.
//!
//! The caller measures the Jacobian `J` of the system (rows are equations, columns
//! are variables) in floating point and hands over, as plain booleans and counts,
//! the outcome of each comparison against a tolerance. The functions here turn
//! those outcomes into ranks, null-space dimensions, the underconstrained
//! variables and the redundant constraints.
use vstd::prelude::*;

use crate::analysis::FreedomAnalysis;
use crate::error::NonLinearSystemError;
use crate::Id;

verus! {

/// Positions `j`, in increasing order, at which `flags[j]` holds.
pub open spec fn flagged_positions(flags: Seq<bool>) -> Seq<int>
    decreases flags.len(),
{
    if flags.len() == 0 {
        Seq::empty()
    } else {
        let before = flagged_positions(flags.drop_last());
        if flags.last() {
            before.push(flags.len() - 1)
        } else {
            before
        }
    }
}

/// `n` is the length of the run of `true` with which `flags` starts.
pub open spec fn is_leading_run(flags: Seq<bool>, n: int) -> bool {
    &&& 0 <= n <= flags.len()
    &&& forall|i: int| 0 <= i < n ==> #[trigger] flags[i]
    &&& n < flags.len() ==> !flags[n]
}

/// The rank of a matrix and the dimension of a null space beside it.
#[derive(Debug, Clone, Copy, PartialEq, Eq, Structural)]
pub struct RankNullity {
    pub rank: usize,
    pub nullity: usize,
}

/// One constraint as the Jacobian sees it: its index in the request list, and how
/// many consecutive rows (equations) it contributes.
#[derive(Debug, Clone, Copy, PartialEq, Eq, Structural)]
pub struct ConstraintRows {
    pub id: usize,
    pub dim: usize,
}

/// Total number of Jacobian rows that the constraints take up.
pub open spec fn total_rows(constraints: Seq<ConstraintRows>) -> nat
    decreases constraints.len(),
{
    if constraints.len() == 0 {
        0
    } else {
        total_rows(constraints.drop_last()) + constraints.last().dim as nat
    }
}

/// For each constraint, whether its block of the left null space has full row rank.
pub open spec fn full_rank_blocks(constraints: Seq<ConstraintRows>, block_ranks: Seq<usize>) -> Seq<bool> {
    Seq::new(constraints.len(), |k: int| block_ranks[k] == constraints[k].dim)
}

/// The request indices of the constraints whose block of the left null space has
/// full row rank, in the order the constraints are given.
pub open spec fn redundant_ids(constraints: Seq<ConstraintRows>, block_ranks: Seq<usize>) -> Seq<usize> {
    flagged_positions(full_rank_blocks(constraints, block_ranks)).map_values(|k: int| constraints[k].id)
}

/// `flagged_positions` lists every flagged position exactly once, each in bounds,
/// in strictly increasing order.
pub proof fn lemma_flagged_positions(flags: Seq<bool>)
    ensures
        flagged_positions(flags).len() <= flags.len(),
        forall|k: int|
            0 <= k < flagged_positions(flags).len() ==> 0 <= #[trigger] flagged_positions(flags)[k] < flags.len()
                && flags[flagged_positions(flags)[k]],
        forall|k1: int, k2: int|
            0 <= k1 < k2 < flagged_positions(flags).len() ==> flagged_positions(flags)[k1]
                < flagged_positions(flags)[k2],
        forall|j: int| 0 <= j < flags.len() && #[trigger] flags[j] ==> flagged_positions(flags).contains(j),
    decreases flags.len(),
{
    if flags.len() > 0 {
        let init = flags.drop_last();
        lemma_flagged_positions(init);
        let before = flagged_positions(init);
        let s = flagged_positions(flags);
        assert forall|j: int| 0 <= j < flags.len() && #[trigger] flags[j] implies s.contains(j) by {
            if j < flags.len() - 1 {
                assert(init[j]);
                let k = choose|k: int| 0 <= k < before.len() && before[k] == j;
                assert(s[k] == j);
            } else {
                assert(s[s.len() - 1] == j);
            }
        }
    }
}

/// Extending a prefix of `flags` by one flag adds that flag's position when it holds.
proof fn lemma_flagged_positions_prefix(flags: Seq<bool>, i: int)
    requires
        0 <= i < flags.len(),
    ensures
        flagged_positions(flags.take(i + 1)) == if flags[i] {
            flagged_positions(flags.take(i)).push(i)
        } else {
            flagged_positions(flags.take(i))
        },
{
    assert(flags.take(i + 1).drop_last() =~= flags.take(i));
}

/// The rows that the first `k` constraints take up never exceed those of all of them.
proof fn lemma_total_rows_prefix(constraints: Seq<ConstraintRows>, k: int)
    requires
        0 <= k <= constraints.len(),
    ensures
        total_rows(constraints.take(k)) <= total_rows(constraints),
    decreases constraints.len() - k,
{
    if k < constraints.len() {
        lemma_total_rows_prefix(constraints, k + 1);
        assert(constraints.take(k + 1).drop_last() =~= constraints.take(k));
    } else {
        assert(constraints.take(k) =~= constraints);
    }
}

/// Rank and nullity of `J` from its column-pivoted QR decomposition.
///
/// `pivot_above_tolerance[i]` says whether the `i`-th diagonal entry of `R` is above
/// the tolerance, for each of the `min(rows, columns)` diagonal entries. The rank is
/// the number of leading entries above it; the null space has one dimension for
/// each remaining variable. A Jacobian without rows or columns has no diagonal, and
/// is refused.
pub fn nullspace_dimensions(num_variables: usize, pivot_above_tolerance: &[bool]) -> (r: Result<
    RankNullity,
    NonLinearSystemError,
>)
    requires
        pivot_above_tolerance.len() <= num_variables,
    ensures
        r is Err <==> pivot_above_tolerance.len() == 0,
        r matches Err(e) ==> e == NonLinearSystemError::EmptySystemNotAllowed,
        r matches Ok(s) ==> {
            &&& is_leading_run(pivot_above_tolerance@, s.rank as int)
            &&& s.rank + s.nullity == num_variables
        },
{
    let ndiag = pivot_above_tolerance.len();
    if ndiag == 0 {
        return Err(NonLinearSystemError::EmptySystemNotAllowed);
    }
    let mut rank: usize = 0;
    while rank < ndiag && pivot_above_tolerance[rank]
        invariant
            ndiag == pivot_above_tolerance.len(),
            rank <= ndiag,
            forall|i: int| 0 <= i < rank ==> #[trigger] pivot_above_tolerance@[i],
        decreases ndiag - rank,
    {
        rank += 1;
    }
    Ok(RankNullity { rank, nullity: num_variables - rank })
}

/// Rank of `J` and dimension of its left null space, from its singular values.
///
/// `singular_above_tolerance[i]` says whether the `i`-th singular value is above the
/// tolerance; there are `min(rows, columns)` of them. The rank counts those above it;
/// the left null space has one dimension for each remaining equation.
pub fn left_nullspace_dimensions(num_equations: usize, singular_above_tolerance: &[bool]) -> (r:
    RankNullity)
    requires
        singular_above_tolerance.len() <= num_equations,
    ensures
        r.rank == flagged_positions(singular_above_tolerance@).len(),
        r.rank <= singular_above_tolerance.len(),
        r.rank + r.nullity == num_equations,
{
    let n = singular_above_tolerance.len();
    let mut rank: usize = 0;
    let mut i: usize = 0;
    while i < n
        invariant
            n == singular_above_tolerance.len(),
            i <= n,
            rank == flagged_positions(singular_above_tolerance@.take(i as int)).len(),
            rank <= i,
        decreases n - i,
    {
        proof {
            lemma_flagged_positions_prefix(singular_above_tolerance@, i as int);
        }
        if singular_above_tolerance[i] {
            rank += 1;
        }
        i += 1;
    }
    proof {
        assert(singular_above_tolerance@.take(n as int) =~= singular_above_tolerance@);
    }
    RankNullity { rank, nullity: num_equations - rank }
}

/// The variables that move in some degree of freedom.
///
/// `participates[j]` says whether variable `j`'s participation in an orthonormal basis
/// of the null space is above the threshold; a variable whose participation is
/// basically zero is constrained. The result lists the others, by id, in increasing
/// order.
pub fn underconstrained_variables(participates: &[bool]) -> (r: Vec<Id>)
    requires
        participates.len() <= u32::MAX + 1,
    ensures
        r@.map_values(|v: Id| v as int) == flagged_positions(participates@),
{
    let n = participates.len();
    let mut r: Vec<Id> = Vec::new();
    let mut j: usize = 0;
    while j < n
        invariant
            n == participates.len(),
            n <= u32::MAX + 1,
            j <= n,
            r@.map_values(|v: Id| v as int) == flagged_positions(participates@.take(j as int)),
        decreases n - j,
    {
        proof {
            lemma_flagged_positions_prefix(participates@, j as int);
        }
        if participates[j] {
            let ghost before = r@;
            r.push(j as Id);
            proof {
                assert(r@.map_values(|v: Id| v as int) =~= before.map_values(|v: Id| v as int).push(
                    j as int,
                ));
            }
        }
        j += 1;
    }
    proof {
        assert(participates@.take(n as int) =~= participates@);
    }
    r
}

/// The first Jacobian row of each constraint: its rows follow those of the
/// constraints before it.
pub fn constraint_row_offsets(constraints: &[ConstraintRows], num_equations: usize) -> (r: Vec<usize>)
    requires
        total_rows(constraints@) <= num_equations,
    ensures
        r@.len() == constraints@.len(),
        forall|k: int|
            0 <= k < r@.len() ==> #[trigger] r@[k] == total_rows(constraints@.take(k)) && r@[k]
                + constraints@[k].dim <= num_equations,
        r@.len() > 0 ==> r@[0] == 0,
        forall|k: int| 0 <= k < r@.len() - 1 ==> #[trigger] r@[k + 1] == r@[k] + constraints@[k].dim,
{
    let n = constraints.len();
    let mut r: Vec<usize> = Vec::new();
    let mut row: usize = 0;
    let mut k: usize = 0;
    while k < n
        invariant
            n == constraints.len(),
            total_rows(constraints@) <= num_equations,
            k <= n,
            r@.len() == k,
            row == total_rows(constraints@.take(k as int)),
            forall|i: int|
                0 <= i < k ==> #[trigger] r@[i] == total_rows(constraints@.take(i)) && r@[i]
                    + constraints@[i].dim <= num_equations,
            k > 0 ==> r@[0] == 0,
            forall|i: int| 0 <= i < k - 1 ==> #[trigger] r@[i + 1] == r@[i] + constraints@[i].dim,
        decreases n - k,
    {
        proof {
            assert(constraints@.take(k + 1).drop_last() =~= constraints@.take(k as int));
            lemma_total_rows_prefix(constraints@, k + 1);
            if k == 0 {
                assert(constraints@.take(0) =~= Seq::<ConstraintRows>::empty());
            } else {
                assert(constraints@.take(k as int).drop_last() =~= constraints@.take(k - 1));
            }
        }
        r.push(row);
        row = row + constraints[k].dim;
        k += 1;
    }
    r
}

/// Finds the constraints which could each be removed without lowering the rank of
/// the Jacobian, i.e. without freeing anything.
///
/// With `N` an orthonormal basis of the left null space of `J`, removing a
/// constraint's rows `R` leaves the rank at `rank(J) - |R| + rank(N[R, :])`. So a
/// constraint is redundant exactly when its block of `N` has full row rank:
/// `block_ranks[k]` is the rank of constraint `k`'s block. When the left null space is
/// trivial no block is looked at, and nothing is redundant.
pub fn redundant_constraints(
    constraints: &[ConstraintRows],
    left: RankNullity,
    block_ranks: &[usize],
) -> (r: Vec<usize>)
    requires
        left.nullity == 0 || block_ranks.len() == constraints.len(),
    ensures
        left.nullity == 0 ==> r@ == Seq::<usize>::empty(),
        left.nullity > 0 ==> r@ == redundant_ids(constraints@, block_ranks@),
{
    let mut r: Vec<usize> = Vec::new();
    if left.nullity == 0 {
        return r;
    }
    let n = constraints.len();
    let ghost full = full_rank_blocks(constraints@, block_ranks@);
    let mut k: usize = 0;
    while k < n
        invariant
            n == constraints.len(),
            n == block_ranks.len(),
            full == full_rank_blocks(constraints@, block_ranks@),
            k <= n,
            r@ == flagged_positions(full.take(k as int)).map_values(|i: int| constraints@[i].id),
        decreases n - k,
    {
        proof {
            lemma_flagged_positions_prefix(full, k as int);
        }
        let c = constraints[k];
        if block_ranks[k] == c.dim {
            let ghost before = r@;
            r.push(c.id);
            proof {
                assert(flagged_positions(full.take(k + 1)) == flagged_positions(full.take(k as int)).push(
                    k as int,
                ));
                assert(r@ =~= flagged_positions(full.take(k + 1)).map_values(
                    |i: int| constraints@[i].id,
                ));
            }
        }
        k += 1;
    }
    proof {
        assert(full.take(n as int) =~= full);
    }
    r
}

/// Records the freedom analysis of a system from what was measured of its Jacobian:
/// which variables take part in the null space, which singular values are above the
/// tolerance, and, when the left null space is not trivial, the rank of each
/// constraint's block of it.
pub fn analysis_from_measurements(
    num_equations: usize,
    participates: &[bool],
    singular_above_tolerance: &[bool],
    constraints: &[ConstraintRows],
    block_ranks: &[usize],
) -> (r: FreedomAnalysis)
    requires
        participates.len() <= u32::MAX + 1,
        singular_above_tolerance.len() <= num_equations,
        singular_above_tolerance.len() <= participates.len(),
        flagged_positions(singular_above_tolerance@).len() == num_equations || block_ranks.len()
            == constraints.len(),
    ensures
        r@.underconstrained.map_values(|v: Id| v as int) == flagged_positions(participates@),
        r@.rank == flagged_positions(singular_above_tolerance@).len(),
        r@.rank <= r@.num_equations,
        r@.rank <= participates.len(),
        r@.num_equations == num_equations,
        r@.rank == num_equations ==> r@.redundant == Seq::<usize>::empty(),
        r@.rank < num_equations ==> r@.redundant == redundant_ids(constraints@, block_ranks@),
        r@.redundant.len() > 0 ==> r@.rank < r@.num_equations,
        (forall|a: int, b: int| 0 <= a < b < constraints.len() ==> constraints@[a].id < constraints@[b].id)
            ==> forall|i: int, j: int|
            0 <= i < j < r@.redundant.len() ==> r@.redundant[i] < r@.redundant[j],
{
    let underconstrained = underconstrained_variables(participates);
    let left = left_nullspace_dimensions(num_equations, singular_above_tolerance);
    let redundant = redundant_constraints(constraints, left, block_ranks);
    proof {
        if left.nullity > 0 {
            law_redundant_ids(constraints@, block_ranks@);
        }
    }
    FreedomAnalysis::new(underconstrained, redundant, left.rank, num_equations)
}

/// Some constraint whose block of the left null space has full row rank has request
/// index `id`.
pub open spec fn has_full_rank_block(constraints: Seq<ConstraintRows>, block_ranks: Seq<usize>, id: usize) -> bool {
    exists|k: int|
        0 <= k < constraints.len() && block_ranks[k] == constraints[k].dim && #[trigger] constraints[k].id
            == id
}

/// The redundant constraints are exactly those whose block of the left null space
/// has full row rank, each listed once; when the constraints are given in increasing
/// order of request index, so are the redundant ones.
pub proof fn law_redundant_ids(constraints: Seq<ConstraintRows>, block_ranks: Seq<usize>)
    requires
        block_ranks.len() == constraints.len(),
    ensures
        redundant_ids(constraints, block_ranks).len() <= constraints.len(),
        forall|k: int|
            0 <= k < constraints.len() && block_ranks[k] == constraints[k].dim ==> redundant_ids(
                constraints,
                block_ranks,
            ).contains(#[trigger] constraints[k].id),
        forall|i: int|
            0 <= i < redundant_ids(constraints, block_ranks).len() ==> has_full_rank_block(
                constraints,
                block_ranks,
                #[trigger] redundant_ids(constraints, block_ranks)[i],
            ),
        (forall|a: int, b: int| 0 <= a < b < constraints.len() ==> constraints[a].id < constraints[b].id)
            ==> forall|i: int, j: int|
            0 <= i < j < redundant_ids(constraints, block_ranks).len() ==> redundant_ids(
                constraints,
                block_ranks,
            )[i] < redundant_ids(constraints, block_ranks)[j],
{
    let full = full_rank_blocks(constraints, block_ranks);
    let pos = flagged_positions(full);
    let ids = redundant_ids(constraints, block_ranks);
    lemma_flagged_positions(full);
    assert forall|k: int|
        0 <= k < constraints.len() && block_ranks[k] == constraints[k].dim implies ids.contains(
            #[trigger] constraints[k].id,
        ) by {
        assert(full[k]);
        let i = choose|i: int| 0 <= i < pos.len() && pos[i] == k;
        assert(ids[i] == constraints[k].id);
    }
    assert forall|i: int| 0 <= i < ids.len() implies has_full_rank_block(
        constraints,
        block_ranks,
        #[trigger] ids[i],
    ) by {
        let k = pos[i];
        assert(full[k]);
        assert(ids[i] == constraints[k].id);
    }
    if forall|a: int, b: int| 0 <= a < b < constraints.len() ==> constraints[a].id < constraints[b].id {
        assert forall|i: int, j: int| 0 <= i < j < ids.len() implies ids[i] < ids[j] by {
            assert(pos[i] < pos[j]);
        }
    }
}

} // verus!
