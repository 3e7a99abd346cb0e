//! Chain-level base-fee computation: the next block base fee from the
//! parent fee and the gas used by a tipset's messages. Loading the blocks
//! and their messages from the store is the embedding node's work; the
//! arithmetic on the gas limits it collects is verified here.

use vstd::prelude::*;

verus! {

/// Most messages allowed in one block.
pub const BLOCK_MESSAGE_LIMIT: usize = 10000;

/// Most gas one block may spend.
pub const BLOCK_GAS_LIMIT: i64 = 10_000_000_000;

/// Target gas use per block: half the limit.
pub const BLOCK_GAS_TARGET: i64 = 5_000_000_000;

/// Denominator of the largest per-block fee change (an eighth, 12.5%).
pub const BASE_FEE_MAX_CHANGE_DENOM: i64 = 8;

/// Base fee of the genesis block.
pub const INITIAL_BASE_FEE: i64 = 100000000;

/// The base fee never falls below this.
pub const MINIMUM_BASE_FEE: i64 = 100;

/// Division truncating toward zero (for a positive divisor), as the
/// arbitrary-precision arithmetic of chain implementations rounds.
pub open spec fn trunc_div(a: int, b: int) -> int {
    if a >= 0 {
        a / b
    } else {
        -((-a) / b)
    }
}

/// The next base fee: the parent fee adjusted by its share of the gas
/// over- or under-use against the target, an eighth of the relative
/// deviation at most, floored at the minimum fee.
pub open spec fn spec_next_base_fee(base_fee: int, gas_limit_used: int, no_of_blocks: int) -> int {
    let delta = gas_limit_used / no_of_blocks - BLOCK_GAS_TARGET;
    let change = trunc_div(
        trunc_div(base_fee * delta, BLOCK_GAS_TARGET as int),
        BASE_FEE_MAX_CHANGE_DENOM as int,
    );
    let next = base_fee + change;
    if next < MINIMUM_BASE_FEE {
        MINIMUM_BASE_FEE as int
    } else {
        next
    }
}

/// Computes the next base fee from the parent fee, the total gas limit of
/// the tipset's messages and its block count.
pub fn compute_next_base_fee(base_fee: i128, gas_limit_used: i64, no_of_blocks: usize) -> (r: i128)
    requires
        no_of_blocks > 0,
        gas_limit_used >= 0,
        0 <= base_fee <= u64::MAX,
    ensures
        r == spec_next_base_fee(base_fee as int, gas_limit_used as int, no_of_blocks as int),
{
    let avg: u64 = (gas_limit_used as u64) / (no_of_blocks as u64);
    let target: u64 = BLOCK_GAS_TARGET as u64;
    let (dneg, dmag): (bool, u64) = if avg >= target {
        (false, avg - target)
    } else {
        (true, target - avg)
    };
    proof {
        assert((base_fee as u128) * (dmag as u128) <= (u64::MAX as u128) * (u64::MAX as u128))
            by (nonlinear_arith)
            requires 0 <= base_fee <= u64::MAX && 0 <= dmag <= u64::MAX;
        assert((u64::MAX as u128) * (u64::MAX as u128) < u128::MAX);
    }
    let pmag: u128 = (base_fee as u128) * (dmag as u128);
    let cmag: u128 = pmag / (target as u128) / (BASE_FEE_MAX_CHANGE_DENOM as u128);
    proof {
        vstd::arithmetic::div_mod::lemma_div_is_ordered(
            pmag as int,
            u128::MAX as int,
            target as int,
        );
        vstd::arithmetic::div_mod::lemma_div_is_ordered(
            (pmag / (target as u128)) as int,
            (u128::MAX as u128 / 5_000_000_000u128) as int,
            BASE_FEE_MAX_CHANGE_DENOM as int,
        );
        assert(cmag < 0x40000000000000000000000000u128);
    }
    let change: i128 = if dneg {
        -(cmag as i128)
    } else {
        cmag as i128
    };
    let next: i128 = base_fee + change;
    proof {
        let delta = gas_limit_used as int / no_of_blocks as int - BLOCK_GAS_TARGET;
        assert(avg == gas_limit_used as int / no_of_blocks as int);
        assert(dmag == if delta >= 0 {
            delta
        } else {
            -delta
        });
        assert(base_fee * dmag == pmag) by (nonlinear_arith)
            requires base_fee >= 0 && dmag >= 0 && pmag == (base_fee as u128) * (dmag as u128)
                && base_fee as u128 == base_fee && dmag as u128 == dmag;
        if dneg {
            assert(base_fee * delta == -(pmag as int)) by (nonlinear_arith)
                requires delta < 0 && dmag == -delta && base_fee >= 0 && base_fee * dmag
                    == pmag;
            assert(trunc_div(base_fee * delta, BLOCK_GAS_TARGET as int) == -((pmag as int)
                / (target as int)));
            assert(change == trunc_div(
                trunc_div(base_fee * delta, BLOCK_GAS_TARGET as int),
                BASE_FEE_MAX_CHANGE_DENOM as int,
            ));
        } else {
            assert(base_fee * delta == pmag as int) by (nonlinear_arith)
                requires delta >= 0 && dmag == delta && base_fee >= 0 && base_fee * dmag
                    == pmag;
            assert(change == trunc_div(
                trunc_div(base_fee * delta, BLOCK_GAS_TARGET as int),
                BASE_FEE_MAX_CHANGE_DENOM as int,
            ));
        }
    }
    if next < MINIMUM_BASE_FEE as i128 {
        MINIMUM_BASE_FEE as i128
    } else {
        next
    }
}

/// Sum of the gas limits of a tipset's messages, as collected by the
/// node; each limit is non-negative by protocol.
pub fn total_gas_limit(gas_limits: &Vec<i64>) -> (r: Option<i64>)
    requires
        forall|i: int| 0 <= i < gas_limits@.len() ==> #[trigger] gas_limits@[i] >= 0,
    ensures
        r matches Some(t) ==> t == sum_gas(gas_limits@),
        r is Some <==> sum_gas(gas_limits@) <= i64::MAX,
{
    let mut total: i64 = 0;
    let mut i: usize = 0;
    while i < gas_limits.len()
        invariant
            i <= gas_limits@.len(),
            forall|k: int| 0 <= k < gas_limits@.len() ==> #[trigger] gas_limits@[k] >= 0,
            total == sum_gas(gas_limits@.take(i as int)),
            total >= 0,
        decreases gas_limits@.len() - i,
    {
        proof {
            assert(gas_limits@.take(i + 1).drop_last() =~= gas_limits@.take(i as int));
            assert(gas_limits@.take(i + 1).last() == gas_limits@[i as int]);
            lemma_sum_gas_bounds(gas_limits@, i + 1);
        }
        total = match total.checked_add(gas_limits[i]) {
            Some(t) => t,
            None => {
                proof {
                    assert(gas_limits@.take(gas_limits@.len() as int) == gas_limits@);
                }
                return None;
            },
        };
        i = i + 1;
    }
    proof {
        assert(gas_limits@.take(gas_limits@.len() as int) == gas_limits@);
    }
    Some(total)
}

/// Sum of a sequence of gas limits.
pub open spec fn sum_gas(s: Seq<i64>) -> int
    decreases s.len(),
{
    if s.len() == 0 {
        0
    } else {
        sum_gas(s.drop_last()) + s.last()
    }
}

/// A prefix sum of non-negative limits is at most the full sum.
proof fn lemma_sum_gas_bounds(s: Seq<i64>, upto: int)
    requires
        0 <= upto <= s.len(),
        forall|k: int| 0 <= k < s.len() ==> #[trigger] s[k] >= 0,
    ensures
        sum_gas(s.take(upto)) <= sum_gas(s.take(s.len() as int)),
        sum_gas(s.take(upto)) >= 0,
    decreases s.len() - upto,
{
    if upto < s.len() {
        assert(s.take(upto + 1).drop_last() =~= s.take(upto));
        assert(s.take(upto + 1).last() == s[upto]);
        lemma_sum_gas_bounds(s, upto + 1);
        lemma_sum_gas_nonneg(s, upto);
    } else {
        lemma_sum_gas_nonneg(s, upto);
    }
}

/// Sums of non-negative limits are non-negative.
proof fn lemma_sum_gas_nonneg(s: Seq<i64>, upto: int)
    requires
        0 <= upto <= s.len(),
        forall|k: int| 0 <= k < s.len() ==> #[trigger] s[k] >= 0,
    ensures
        sum_gas(s.take(upto)) >= 0,
    decreases upto,
{
    if upto > 0 {
        assert(s.take(upto).drop_last() =~= s.take(upto - 1));
        assert(s.take(upto).last() == s[upto - 1]);
        lemma_sum_gas_nonneg(s, upto - 1);
    }
}

/// The next base fee for a tipset: the parent fee adjusted by the total
/// gas limit of the messages the node collected from its blocks.
pub fn compute_base_fee(parent_base_fee: i128, gas_limits: &Vec<i64>, no_of_blocks: usize) -> (r:
    Option<i128>)
    requires
        no_of_blocks > 0,
        0 <= parent_base_fee <= u64::MAX,
        forall|i: int| 0 <= i < gas_limits@.len() ==> #[trigger] gas_limits@[i] >= 0,
    ensures
        r is Some <==> sum_gas(gas_limits@) <= i64::MAX,
        r matches Some(fee) ==> fee == spec_next_base_fee(
            parent_base_fee as int,
            sum_gas(gas_limits@),
            no_of_blocks as int,
        ),
{
    let total = match total_gas_limit(gas_limits) {
        Some(t) => t,
        None => {
            return None;
        },
    };
    proof {
        lemma_sum_gas_nonneg_full(gas_limits@);
    }
    Some(compute_next_base_fee(parent_base_fee, total, no_of_blocks))
}

/// The full sum of non-negative limits is non-negative.
proof fn lemma_sum_gas_nonneg_full(s: Seq<i64>)
    requires
        forall|k: int| 0 <= k < s.len() ==> #[trigger] s[k] >= 0,
    ensures
        sum_gas(s) >= 0,
{
    lemma_sum_gas_nonneg(s, s.len() as int);
    assert(s.take(s.len() as int) == s);
}

} // verus!
