//! A pool as a whole: its configuration together with the records of all the tokens
//! that are locked in it, and what holds of the two however the pool is operated.
//!
//! Nothing here runs. The records of a pool live wherever its accounts are kept; this is
//! the model in which the pool's invariants are stated and proved.

use crate::instructions::close_staking::{close_staking_outcome, CloseStaking};
use crate::instructions::config_staking::{config_staking_outcome, ConfigStaking};
use crate::instructions::init_staking::{init_staking_outcome, InitStaking};
use crate::instructions::stake::{stake_outcome, Stake};
use crate::instructions::unstake::{unstake_outcome, Unstake};
use crate::instructions::withdraw_reward::{withdraw_reward_outcome, WithdrawReward};
use crate::error::StakingError;
use crate::state::{StakedRecord, StakingCfg};
use crate::utils::reward_helper::{reward_enabled, reward_for_withdraw};
use crate::utils::total_reward_emission;
use vstd::prelude::*;

verus! {

/// A pool: its configuration, the records of the tokens locked in it, and the time of the
/// last operation on it.
pub struct Pool {
    pub cfg: StakingCfg,
    pub positions: Seq<StakedRecord>,
    pub clock: i64,
}

/// One operation on a pool, with the accounts and arguments it is called with. A release
/// and a payout say which of the pool's positions they are about.
#[allow(inconsistent_fields)]
pub enum Operation {
    Stake { ctx: Stake, current_time: i64 },
    Unstake { ctx: Unstake, current_time: i64, position: int },
    WithdrawReward { ctx: WithdrawReward, current_time: i64, position: int },
    ConfigStaking {
        ctx: ConfigStaking,
        current_time: i64,
        reward: Option<u64>,
        staked_end_time: Option<i64>,
    },
    CloseStaking { ctx: CloseStaking, current_time: i64 },
}

impl Operation {
    /// The time at which the operation runs.
    pub open spec fn time(self) -> i64 {
        match self {
            Operation::Stake { current_time, .. } => current_time,
            Operation::Unstake { current_time, .. } => current_time,
            Operation::WithdrawReward { current_time, .. } => current_time,
            Operation::ConfigStaking { current_time, .. } => current_time,
            Operation::CloseStaking { current_time, .. } => current_time,
        }
    }
}

/// The sum of the snapshots of `positions`.
pub open spec fn snapshot_sum(positions: Seq<StakedRecord>) -> int
    decreases positions.len(),
{
    if positions.len() == 0 {
        0
    } else {
        snapshot_sum(positions.drop_last()) + positions.last().reward_based_on_staked_time
    }
}

impl Pool {
    /// The pool right after it was opened at `current_time` with the configuration `cfg`.
    pub open spec fn opened(cfg: StakingCfg, current_time: i64) -> Pool {
        Pool { cfg, positions: Seq::empty(), clock: current_time }
    }

    /// The configuration counts the open positions and holds the sum of their snapshots.
    pub open spec fn conserved(self) -> bool {
        &&& self.cfg.staked_amount == self.positions.len()
        &&& self.cfg.total_reward_based_on_staked_time == snapshot_sum(self.positions)
    }

    /// The time up to which the pool's positions have earned: the time of the last
    /// operation, or the end of the window if that came first.
    pub open spec fn accrued_until(self) -> int {
        if self.clock <= self.cfg.staked_end_time {
            self.clock as int
        } else {
            self.cfg.staked_end_time as int
        }
    }

    /// No snapshot is above the accumulator at the time up to which the positions have
    /// earned, and the rate in force was set no later than then.
    pub open spec fn covered(self) -> bool {
        &&& self.cfg.latest_reward_time <= self.accrued_until()
        &&& forall|i: int|
            0 <= i < self.positions.len() ==> (
            #[trigger] self.positions[i]).reward_based_on_staked_time
                <= self.cfg.accumulator_at(self.accrued_until())
    }

    /// Whether `op` is an operation on this pool: it names the pool's configuration and,
    /// where it is about a position, one that the pool holds.
    pub open spec fn concerns(self, op: Operation) -> bool {
        match op {
            Operation::Stake { ctx, .. } => ctx.staking_cfg == self.cfg,
            Operation::Unstake { ctx, position, .. } => ctx.staking_cfg == self.cfg && 0
                <= position < self.positions.len() && self.positions[position]
                == ctx.staked_record,
            Operation::WithdrawReward { ctx, position, .. } => ctx.staking_cfg == self.cfg
                && 0 <= position < self.positions.len() && self.positions[position]
                == ctx.staked_record,
            Operation::ConfigStaking { ctx, .. } => ctx.staking_cfg == self.cfg,
            Operation::CloseStaking { ctx, .. } => ctx.staking_cfg == self.cfg,
        }
    }

    /// Whether `op` is an operation on this pool that succeeds.
    pub open spec fn accepts(self, op: Operation) -> bool {
        self.concerns(op) && match op {
            Operation::Stake { ctx, current_time } => stake_outcome(ctx, current_time) is Ok,
            Operation::Unstake { ctx, current_time, .. } => unstake_outcome(
                ctx,
                current_time,
            ) is Ok,
            Operation::WithdrawReward { ctx, current_time, .. } => withdraw_reward_outcome(
                ctx,
                current_time,
            ) is Ok,
            Operation::ConfigStaking { ctx, current_time, reward, staked_end_time } =>
                config_staking_outcome(ctx, current_time, reward, staked_end_time) is Ok,
            Operation::CloseStaking { ctx, current_time } => close_staking_outcome(
                ctx,
                current_time,
            ) is Ok,
        }
    }

    /// The pool after `op`. An operation that the pool does not accept leaves it as it
    /// is. Time passes either way.
    pub open spec fn apply(self, op: Operation) -> Pool {
        if !self.accepts(op) {
            Pool { clock: op.time(), ..self }
        } else {
            match op {
                Operation::Stake { ctx, current_time } => {
                    let after = stake_outcome(ctx, current_time)->Ok_0.0;
                    Pool {
                        cfg: after.staking_cfg,
                        positions: self.positions.push(after.staked_record),
                        clock: current_time,
                    }
                },
                Operation::Unstake { ctx, current_time, position } => {
                    let after = unstake_outcome(ctx, current_time)->Ok_0.0;
                    Pool {
                        cfg: after.staking_cfg,
                        positions: self.positions.remove(position),
                        clock: current_time,
                    }
                },
                Operation::WithdrawReward { ctx, current_time, position } => {
                    let after = withdraw_reward_outcome(ctx, current_time)->Ok_0.0;
                    Pool {
                        cfg: after.staking_cfg,
                        positions: self.positions.update(position, after.staked_record),
                        clock: current_time,
                    }
                },
                Operation::ConfigStaking { ctx, current_time, reward, staked_end_time } => {
                    let after = config_staking_outcome(
                        ctx,
                        current_time,
                        reward,
                        staked_end_time,
                    )->Ok_0.0;
                    Pool { cfg: after.staking_cfg, clock: current_time, ..self }
                },
                Operation::CloseStaking { ctx, current_time } => {
                    let after = close_staking_outcome(ctx, current_time)->Ok_0.0;
                    Pool { cfg: after.staking_cfg, clock: current_time, ..self }
                },
            }
        }
    }

    /// The pool after the operations `ops`, one after the other.
    pub open spec fn run(self, ops: Seq<Operation>) -> Pool
        decreases ops.len(),
    {
        if ops.len() == 0 {
            self
        } else {
            self.run(ops.drop_last()).apply(ops.last())
        }
    }
}

/// Whether time never runs backwards over `ops`, which start no earlier than `start`.
pub open spec fn chronological(start: i64, ops: Seq<Operation>) -> bool
    decreases ops.len(),
{
    if ops.len() == 0 {
        true
    } else {
        &&& chronological(start, ops.drop_last())
        &&& if ops.len() == 1 {
            start
        } else {
            ops[ops.len() - 2].time()
        } <= ops.last().time()
    }
}

/// A new position adds its snapshot to the sum.
pub proof fn lemma_sum_push(positions: Seq<StakedRecord>, record: StakedRecord)
    ensures
        snapshot_sum(positions.push(record)) == snapshot_sum(positions)
            + record.reward_based_on_staked_time,
{
    assert(positions.push(record).drop_last() =~= positions);
}

/// A position whose record changes moves the sum by the change of its snapshot.
pub proof fn lemma_sum_update(positions: Seq<StakedRecord>, at: int, record: StakedRecord)
    requires
        0 <= at < positions.len(),
    ensures
        snapshot_sum(positions.update(at, record)) == snapshot_sum(positions)
            - positions[at].reward_based_on_staked_time + record.reward_based_on_staked_time,
    decreases positions.len(),
{
    let updated = positions.update(at, record);
    if at == positions.len() - 1 {
        assert(updated.drop_last() =~= positions.drop_last());
    } else {
        assert(updated.drop_last() =~= positions.drop_last().update(at, record));
        lemma_sum_update(positions.drop_last(), at, record);
    }
}

/// A position that leaves takes its snapshot off the sum.
pub proof fn lemma_sum_remove(positions: Seq<StakedRecord>, at: int)
    requires
        0 <= at < positions.len(),
    ensures
        snapshot_sum(positions.remove(at)) == snapshot_sum(positions)
            - positions[at].reward_based_on_staked_time,
    decreases positions.len(),
{
    let removed = positions.remove(at);
    if at == positions.len() - 1 {
        assert(removed =~= positions.drop_last());
    } else {
        assert(removed.drop_last() =~= positions.drop_last().remove(at));
        assert(removed.last() == positions.last());
        lemma_sum_remove(positions.drop_last(), at);
    }
}

/// Where no snapshot is above `bound`, the sum is at most `bound` for each position.
pub proof fn lemma_sum_bounded(positions: Seq<StakedRecord>, bound: int)
    requires
        forall|i: int|
            0 <= i < positions.len() ==> (#[trigger] positions[i]).reward_based_on_staked_time
                <= bound,
    ensures
        snapshot_sum(positions) <= positions.len() * bound,
    decreases positions.len(),
{
    if positions.len() > 0 {
        let rest = positions.drop_last();
        assert forall|i: int| 0 <= i < rest.len() implies (
        #[trigger] rest[i]).reward_based_on_staked_time <= bound by {
            assert(rest[i] == positions[i]);
        }
        lemma_sum_bounded(rest, bound);
        assert(positions.last() == positions[positions.len() - 1]);
        assert(positions.len() * bound == rest.len() * bound + bound) by (nonlinear_arith)
            requires
                positions.len() == rest.len() + 1,
        ;
    } else {
        assert(positions.len() * bound == 0) by (nonlinear_arith)
            requires
                positions.len() == 0,
        ;
    }
}

/// Where every snapshot is `snapshot`, the sum is `snapshot` for each position.
pub proof fn lemma_sum_uniform(positions: Seq<StakedRecord>, snapshot: int)
    requires
        forall|i: int|
            0 <= i < positions.len() ==> (#[trigger] positions[i]).reward_based_on_staked_time
                == snapshot,
    ensures
        snapshot_sum(positions) == positions.len() * snapshot,
    decreases positions.len(),
{
    if positions.len() > 0 {
        let rest = positions.drop_last();
        assert forall|i: int| 0 <= i < rest.len() implies (
        #[trigger] rest[i]).reward_based_on_staked_time == snapshot by {
            assert(rest[i] == positions[i]);
        }
        lemma_sum_uniform(rest, snapshot);
        assert(positions.last() == positions[positions.len() - 1]);
        assert(positions.len() * snapshot == rest.len() * snapshot + snapshot)
            by (nonlinear_arith)
            requires
                positions.len() == rest.len() + 1,
        ;
    } else {
        assert(positions.len() * snapshot == 0) by (nonlinear_arith)
            requires
                positions.len() == 0,
        ;
    }
}

/// A pool that was just opened holds no position, its counters say so, and its
/// configuration is well-formed.
pub proof fn lemma_opened_pool_is_conserved(
    ctx: InitStaking,
    current_time: i64,
    reward: u64,
    staked_start_time: i64,
    staked_end_time: i64,
    minimum_period: i64,
    max_staked_amount: u64,
)
    requires
        init_staking_outcome(
            ctx,
            current_time,
            reward,
            staked_start_time,
            staked_end_time,
            minimum_period,
            max_staked_amount,
        ) is Ok,
    ensures
        ({
            let after = init_staking_outcome(
                ctx,
                current_time,
                reward,
                staked_start_time,
                staked_end_time,
                minimum_period,
                max_staked_amount,
            )->Ok_0.0;
            let pool = Pool::opened(after.staking_cfg, current_time);
            pool.conserved() && pool.covered() && pool.cfg.wf()
        }),
{
}

/// No operation breaks the count of open positions or the sum of their snapshots.
pub proof fn lemma_operation_conserves(pool: Pool, op: Operation)
    requires
        pool.conserved(),
    ensures
        pool.apply(op).conserved(),
{
    if pool.accepts(op) {
        match op {
            Operation::Stake { ctx, current_time } => {
                let after = stake_outcome(ctx, current_time)->Ok_0.0;
                lemma_sum_push(pool.positions, after.staked_record);
            },
            Operation::Unstake { ctx, current_time, position } => {
                lemma_sum_remove(pool.positions, position);
            },
            Operation::WithdrawReward { ctx, current_time, position } => {
                let after = withdraw_reward_outcome(ctx, current_time)->Ok_0.0;
                lemma_sum_update(pool.positions, position, after.staked_record);
            },
            Operation::ConfigStaking { .. } => {},
            Operation::CloseStaking { .. } => {},
        }
    }
}

/// Conservation: however a pool is operated, after every operation its configuration
/// counts the open positions and holds the sum of their snapshots.
pub proof fn lemma_conservation(pool: Pool, ops: Seq<Operation>)
    requires
        pool.conserved(),
    ensures
        pool.run(ops).conserved(),
        forall|n: int| 0 <= n <= ops.len() ==> (#[trigger] pool.run(ops.take(n))).conserved(),
    decreases ops.len(),
{
    if ops.len() > 0 {
        lemma_conservation(pool, ops.drop_last());
        lemma_operation_conserves(pool.run(ops.drop_last()), ops.last());
        assert forall|n: int| 0 <= n <= ops.len() implies (#[trigger] pool.run(
            ops.take(n),
        )).conserved() by {
            if n == ops.len() {
                assert(ops.take(n) =~= ops);
            } else {
                assert(ops.take(n) =~= ops.drop_last().take(n));
            }
        }
    } else {
        assert forall|n: int| 0 <= n <= ops.len() implies (#[trigger] pool.run(
            ops.take(n),
        )).conserved() by {
            assert(ops.take(n) =~= ops);
        }
    }
}

/// The accumulator of a configuration never falls as time goes on.
pub proof fn lemma_accumulator_grows(cfg: StakingCfg, earlier: int, later: int)
    requires
        earlier <= later,
    ensures
        cfg.accumulator_at(earlier) <= cfg.accumulator_at(later),
{
    let rate = cfg.latest_reward as int;
    let short = earlier - cfg.latest_reward_time;
    let long = later - cfg.latest_reward_time;
    assert(short * rate <= long * rate) by (nonlinear_arith)
        requires
            short <= long,
            0 <= rate,
    ;
}

/// No operation that runs no earlier than the last one lifts a snapshot above the
/// accumulator.
pub proof fn lemma_operation_keeps_covered(pool: Pool, op: Operation)
    requires
        pool.covered(),
        pool.clock <= op.time(),
    ensures
        pool.apply(op).covered(),
        pool.accrued_until() <= pool.apply(op).accrued_until(),
{
    let next = pool.apply(op);
    let until = next.accrued_until();
    lemma_accumulator_grows(pool.cfg, pool.accrued_until(), until);
    if pool.accepts(op) {
        match op {
            Operation::Stake { ctx, current_time } => {
                assert forall|i: int| 0 <= i < next.positions.len() implies (
                #[trigger] next.positions[i]).reward_based_on_staked_time
                    <= next.cfg.accumulator_at(until) by {
                    if i < pool.positions.len() {
                        assert(next.positions[i] == pool.positions[i]);
                    }
                }
            },
            Operation::Unstake { ctx, current_time, position } => {
                assert forall|i: int| 0 <= i < next.positions.len() implies (
                #[trigger] next.positions[i]).reward_based_on_staked_time
                    <= next.cfg.accumulator_at(until) by {
                    if i < position {
                        assert(next.positions[i] == pool.positions[i]);
                    } else {
                        assert(next.positions[i] == pool.positions[i + 1]);
                    }
                }
            },
            Operation::WithdrawReward { ctx, current_time, position } => {
                assert forall|i: int| 0 <= i < next.positions.len() implies (
                #[trigger] next.positions[i]).reward_based_on_staked_time
                    <= next.cfg.accumulator_at(until) by {
                    if i != position {
                        assert(next.positions[i] == pool.positions[i]);
                    }
                }
            },
            Operation::ConfigStaking { ctx, current_time, reward, staked_end_time } => {
                let rate = next.cfg.latest_reward as int;
                assert((until - next.cfg.latest_reward_time) * rate == 0) by (nonlinear_arith)
                    requires
                        until - next.cfg.latest_reward_time == 0,
                ;
                lemma_accumulator_grows(pool.cfg, pool.accrued_until(), current_time as int);
                assert forall|i: int| 0 <= i < next.positions.len() implies (
                #[trigger] next.positions[i]).reward_based_on_staked_time
                    <= next.cfg.accumulator_at(until) by {
                    assert(next.positions[i] == pool.positions[i]);
                }
            },
            Operation::CloseStaking { ctx, current_time } => {
                assert forall|i: int| 0 <= i < next.positions.len() implies (
                #[trigger] next.positions[i]).reward_based_on_staked_time
                    <= next.cfg.accumulator_at(until) by {
                    assert(next.positions[i] == pool.positions[i]);
                }
            },
        }
    } else {
        assert forall|i: int| 0 <= i < next.positions.len() implies (
        #[trigger] next.positions[i]).reward_based_on_staked_time <= next.cfg.accumulator_at(
            until,
        ) by {
            assert(next.positions[i] == pool.positions[i]);
        }
    }
}

/// However a pool is operated, as long as time does not run backwards, no snapshot is
/// ever above the accumulator.
pub proof fn lemma_coverage(pool: Pool, ops: Seq<Operation>)
    requires
        pool.covered(),
        chronological(pool.clock, ops),
    ensures
        pool.run(ops).covered(),
        pool.run(ops).clock == if ops.len() == 0 {
            pool.clock
        } else {
            ops.last().time()
        },
    decreases ops.len(),
{
    if ops.len() > 0 {
        let before = ops.drop_last();
        lemma_coverage(pool, before);
        if before.len() > 0 {
            assert(before.last() == ops[ops.len() - 2]);
        }
        lemma_operation_keeps_covered(pool.run(before), ops.last());
    }
}

/// What a pool owes to the tokens locked in it is not negative, at the time up to which
/// they have earned and at any time after it.
pub proof fn lemma_obligation_is_not_negative(pool: Pool, time: int)
    requires
        pool.conserved(),
        pool.covered(),
        pool.accrued_until() <= time,
    ensures
        pool.cfg.owed_to_all_at(time) >= 0,
{
    let at_last = pool.cfg.accumulator_at(pool.accrued_until());
    let at_time = pool.cfg.accumulator_at(time);
    let count = pool.positions.len() as int;
    lemma_sum_bounded(pool.positions, at_last);
    lemma_accumulator_grows(pool.cfg, pool.accrued_until(), time);
    assert(count * at_last <= at_time * count) by (nonlinear_arith)
        requires
            at_last <= at_time,
            0 <= count,
    ;
}

/// Non-negative obligation: in every state that a pool reaches from its opening while
/// time does not run backwards, what it owes to the tokens locked in it is not negative:
/// at the time of the last operation, or at the end of the window if that came first, and
/// at any later time.
pub proof fn lemma_reachable_obligation_is_not_negative(
    pool: Pool,
    ops: Seq<Operation>,
    time: int,
)
    requires
        pool.conserved(),
        pool.covered(),
        chronological(pool.clock, ops),
        pool.run(ops).accrued_until() <= time,
    ensures
        pool.run(ops).cfg.owed_to_all_at(time) >= 0,
{
    lemma_conservation(pool, ops);
    lemma_coverage(pool, ops);
    lemma_obligation_is_not_negative(pool.run(ops), time);
}

/// A closed pool stays closed, and nothing is locked in it any more: no operation opens
/// it again, changes its rate or its window, or adds a position.
pub proof fn lemma_closed_pool_stays_closed(pool: Pool, ops: Seq<Operation>)
    requires
        !pool.cfg.is_active,
    ensures
        !pool.run(ops).cfg.is_active,
        pool.run(ops).cfg.staked_end_time == pool.cfg.staked_end_time,
        pool.run(ops).cfg.latest_reward == pool.cfg.latest_reward,
        pool.run(ops).cfg.latest_reward_time == pool.cfg.latest_reward_time,
        pool.run(ops).cfg.accumulated_reward == pool.cfg.accumulated_reward,
        pool.run(ops).positions.len() <= pool.positions.len(),
    decreases ops.len(),
{
    if ops.len() > 0 {
        lemma_closed_pool_stays_closed(pool, ops.drop_last());
    }
}

/// No operation lets a pool hold more tokens than it has room for, lets its rate fall to
/// zero or its minimum period become negative, or moves the end of its window before the
/// time at which its rate was set.
pub proof fn lemma_operation_keeps_cfg_wf(pool: Pool, op: Operation)
    requires
        pool.cfg.wf(),
    ensures
        pool.apply(op).cfg.wf(),
{
}

/// However a pool is operated, its configuration stays well-formed.
pub proof fn lemma_cfg_stays_wf(pool: Pool, ops: Seq<Operation>)
    requires
        pool.cfg.wf(),
    ensures
        pool.run(ops).cfg.wf(),
    decreases ops.len(),
{
    if ops.len() > 0 {
        lemma_cfg_stays_wf(pool, ops.drop_last());
        lemma_operation_keeps_cfg_wf(pool.run(ops.drop_last()), ops.last());
    }
}

/// Funding sufficiency: a pool that was opened at the start of its window, without a
/// minimum period, and filled then and there, owes at the end of the window exactly what
/// it was funded with, as long as its configuration was not changed. Each of its
/// positions, paid at the end of the window or later, earns the rate times the length of
/// the window.
pub proof fn lemma_full_pool_earns_its_funding(
    ctx: InitStaking,
    reward: u64,
    staked_start_time: i64,
    staked_end_time: i64,
    max_staked_amount: u64,
    pool: Pool,
    position: int,
    current_time: i64,
)
    requires
        init_staking_outcome(
            ctx,
            staked_start_time,
            reward,
            staked_start_time,
            staked_end_time,
            0,
            max_staked_amount,
        ) is Ok,
        pool.cfg == (StakingCfg {
            staked_amount: max_staked_amount,
            total_reward_based_on_staked_time: pool.cfg.total_reward_based_on_staked_time,
            ..init_staking_outcome(
                ctx,
                staked_start_time,
                reward,
                staked_start_time,
                staked_end_time,
                0,
                max_staked_amount,
            )->Ok_0.0.staking_cfg
        }),
        pool.conserved(),
        forall|i: int|
            0 <= i < pool.positions.len() ==> (#[trigger] pool.positions[i]).staked_at
                == staked_start_time && pool.positions[i].reward_based_on_staked_time == 0,
        0 <= position < pool.positions.len(),
        staked_end_time <= current_time,
    ensures
        total_reward_emission(reward, max_staked_amount, staked_start_time, staked_end_time)
            == Ok::<u64, StakingError>(pool.cfg.owed_to_all_at(staked_end_time as int) as u64),
        pool.cfg.owed_to_all_at(staked_end_time as int) == reward * (staked_end_time
            - staked_start_time) * max_staked_amount,
        reward_enabled(
            current_time,
            pool.cfg.staked_end_time,
            pool.cfg.minimum_period,
            pool.positions[position],
        ) == Ok::<(bool, i64), StakingError>((true, staked_end_time)),
        reward_for_withdraw(
            pool.cfg.accumulated_reward,
            staked_end_time,
            pool.positions[position].reward_based_on_staked_time,
            pool.cfg.latest_reward,
            pool.cfg.latest_reward_time,
        ) is Ok,
        reward_for_withdraw(
            pool.cfg.accumulated_reward,
            staked_end_time,
            pool.positions[position].reward_based_on_staked_time,
            pool.cfg.latest_reward,
            pool.cfg.latest_reward_time,
        )->Ok_0.0 == reward * (staked_end_time - staked_start_time),
{
    let period = staked_end_time - staked_start_time;
    let count = max_staked_amount as int;
    let rate = reward as int;
    lemma_sum_uniform(pool.positions, 0);
    assert(pool.positions.len() * 0 == 0) by (nonlinear_arith);
    assert(period * rate == rate * period) by (nonlinear_arith);
    assert(0 <= rate * period) by (nonlinear_arith)
        requires
            0 <= rate,
            0 <= period,
    ;
    assert(rate * period <= rate * period * count) by (nonlinear_arith)
        requires
            0 <= rate * period,
            1 <= count,
    ;
    assert(pool.positions[position].staked_at == staked_start_time);
}

} // verus!
