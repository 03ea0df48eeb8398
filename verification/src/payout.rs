//! The prize-distribution algorithm: a fixed basis-point split of the pool
//! over the top three ranks, each share floored independently.  The floor
//! divisions may leave up to two units of the pool unpaid; that residual is
//! accepted rounding dust and is deliberately not redistributed.

use vstd::prelude::*;

use vstd::arithmetic::div_mod::lemma_fundamental_div_mod;
use vstd::arithmetic::div_mod::lemma_mod_bound;
use vstd::arithmetic::mul::lemma_mul_inequality;

use crate::model::AgentEntryV;

verus! {

/// Basis points of the pool paid to rank 1.
pub const PRIZE_FIRST: u64 = 5000;

/// Basis points of the pool paid to rank 2.
pub const PRIZE_SECOND: u64 = 3000;

/// Basis points of the pool paid to rank 3.
pub const PRIZE_THIRD: u64 = 2000;

/// One basis-point denominator: 10000 = 100%.
pub const BASIS_POINTS: u64 = 10000;

/// One line of the settlement report: who is paid, and how much.
#[derive(Clone, Debug, PartialEq, Eq)]
pub struct Payout {
    /// The id of the ranked entry this payment is for.
    pub agent_id: Vec<u8>,
    /// The identity the payment goes to.
    pub player_address: Vec<u8>,
    /// The amount paid, in smallest currency units.
    pub amount: u64,
}

/// The mathematical value of a [`Payout`].
#[verifier::ext_equal]
pub struct PayoutV {
    /// The id of the ranked entry this payment is for.
    pub agent_id: Seq<u8>,
    /// The identity the payment goes to.
    pub player_address: Seq<u8>,
    /// The amount paid.
    pub amount: int,
}

impl View for Payout {
    type V = PayoutV;

    open spec fn view(&self) -> PayoutV {
        PayoutV {
            agent_id: self.agent_id@,
            player_address: self.player_address@,
            amount: self.amount as int,
        }
    }
}

/// The view of a whole report: each line replaced by its value.
pub open spec fn payout_views_of(s: Seq<Payout>) -> Seq<PayoutV> {
    s.map_values(|p: Payout| p@)
}

/// How many ranks are paid from a registry of `n` entries.
pub open spec fn payout_count(n: nat) -> nat {
    if n < 3 {
        n
    } else {
        3
    }
}

/// The basis-point weight of a rank (0-based); ranks beyond the third have
/// no weight anywhere this is applied.
pub open spec fn weight_of(rank: int) -> u64 {
    if rank == 0 {
        PRIZE_FIRST
    } else if rank == 1 {
        PRIZE_SECOND
    } else {
        PRIZE_THIRD
    }
}

/// The floored share of `pool` that `weight` basis points buy.
pub open spec fn share_of(pool: u64, weight: u64) -> int {
    (pool * weight) / (BASIS_POINTS as int)
}

/// The settlement report owed for a ranked sequence and a pool: one line per
/// paid rank, in rank order.
pub open spec fn payouts_of(ranked: Seq<AgentEntryV>, pool: u64) -> Seq<PayoutV> {
    Seq::new(
        payout_count(ranked.len()),
        |i: int|
            (PayoutV {
                agent_id: ranked[i].agent_id,
                player_address: ranked[i].player_address,
                amount: share_of(pool, weight_of(i)),
            }),
    )
}

/// The total paid by a report.
pub open spec fn sum_payouts(s: Seq<PayoutV>) -> int
    decreases s.len(),
{
    if s.len() == 0 {
        0
    } else {
        sum_payouts(s.drop_last()) + s.last().amount
    }
}

/// The floored share of the pool: `floor(pool * weight / 10000)`.
pub fn prize_share(pool: u64, weight: u64) -> (r: u64)
    requires
        weight <= BASIS_POINTS,
    ensures
        r as int == share_of(pool, weight),
        r <= pool,
{
    proof {
        lemma_mul_inequality(weight as int, BASIS_POINTS as int, pool as int);
        lemma_mul_inequality(pool as int, u64::MAX as int, BASIS_POINTS as int);
        lemma_fundamental_div_mod(pool as int * weight as int, BASIS_POINTS as int);
        lemma_mod_bound(pool as int * weight as int, BASIS_POINTS as int);
    }
    (((pool as u128) * (weight as u128)) / (BASIS_POINTS as u128)) as u64
}

/// Conservation of the pool: a settlement report never pays out more than
/// the pool, and with three ranked entries the rounding dust — the part of
/// the pool the report leaves unpaid — is at most 2 units.
pub proof fn lemma_payout_total(ranked: Seq<AgentEntryV>, pool: u64)
    ensures
        0 <= sum_payouts(payouts_of(ranked, pool)),
        sum_payouts(payouts_of(ranked, pool)) <= pool,
        ranked.len() >= 3 ==> pool - sum_payouts(payouts_of(ranked, pool)) <= 2,
{
    let p = pool as int;
    let b = BASIS_POINTS as int;
    let po = payouts_of(ranked, pool);
    let q1 = (p * 5000) / b;
    let q2 = (p * 3000) / b;
    let q3 = (p * 2000) / b;
    lemma_fundamental_div_mod(p * 5000, b);
    lemma_fundamental_div_mod(p * 3000, b);
    lemma_fundamental_div_mod(p * 2000, b);
    lemma_mod_bound(p * 5000, b);
    lemma_mod_bound(p * 3000, b);
    lemma_mod_bound(p * 2000, b);
    assert(p * 5000 + p * 3000 + p * 2000 == p * 10000) by (nonlinear_arith);
    if ranked.len() == 0 {
        assert(sum_payouts(po) == 0);
    } else if ranked.len() == 1 {
        let d1 = po.drop_last();
        assert(d1 =~= Seq::<PayoutV>::empty());
        assert(sum_payouts(d1) == 0);
        assert(sum_payouts(po) == sum_payouts(d1) + po.last().amount);
        assert(po.last() == po[0]);
        assert(sum_payouts(po) == q1);
    } else if ranked.len() == 2 {
        let d1 = po.drop_last();
        let d2 = d1.drop_last();
        assert(d2 =~= Seq::<PayoutV>::empty());
        assert(sum_payouts(d2) == 0);
        assert(sum_payouts(d1) == sum_payouts(d2) + d1.last().amount);
        assert(sum_payouts(po) == sum_payouts(d1) + po.last().amount);
        assert(d1.last() == po[0]);
        assert(po.last() == po[1]);
        assert(sum_payouts(po) == q1 + q2);
    } else {
        let d1 = po.drop_last();
        let d2 = d1.drop_last();
        let d3 = d2.drop_last();
        assert(d3 =~= Seq::<PayoutV>::empty());
        assert(sum_payouts(d3) == 0);
        assert(sum_payouts(d2) == sum_payouts(d3) + d2.last().amount);
        assert(sum_payouts(d1) == sum_payouts(d2) + d1.last().amount);
        assert(sum_payouts(po) == sum_payouts(d1) + po.last().amount);
        assert(d2.last() == po[0]);
        assert(d1.last() == po[1]);
        assert(po.last() == po[2]);
        assert(sum_payouts(po) == q1 + q2 + q3);
    }
}

} // verus!
