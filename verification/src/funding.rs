//! A pool together with its vault, and why a vault that was funded as the ledger asks
//! never runs dry.
//!
//! Like the pool as a whole, this is a model: the vault is a token account that the
//! ledger never touches itself. The model assumes what the token program and the account
//! store guarantee: that the vault belongs to one pool, that only the requests of the
//! ledger move tokens out of it, and that the decimal places of its mint never change.

use crate::error::StakingError;
use crate::instructions::close_staking::{close_staking_outcome, CloseStaking};
use crate::instructions::config_staking::config_staking_outcome;
use crate::instructions::init_staking::{init_staking_outcome, InitStaking};
use crate::instructions::unstake::{unstake_outcome, Unstake, UnstakeRequests};
use crate::instructions::withdraw_reward::{withdraw_reward_outcome, WithdrawReward};
use crate::ledger::{
    chronological, lemma_accumulator_grows, lemma_obligation_is_not_negative,
    lemma_operation_conserves, lemma_operation_keeps_cfg_wf, lemma_operation_keeps_covered,
    lemma_sum_bounded, lemma_sum_remove, Operation, Pool,
};
use crate::state::StakingCfg;
use crate::token::TransferChecked;
use crate::utils::decimal_factor;
use vstd::arithmetic::power::lemma_pow_positive;
use vstd::prelude::*;

verus! {

/// A pool, what its vault holds in the reward token's smallest unit, and the decimal
/// places of the reward token.
pub struct FundedPool {
    pub pool: Pool,
    pub vault: int,
    pub decimals: u8,
}

/// What a pool with the configuration `cfg` must hold at `time`, in whole reward units, to
/// be able to pay whatever happens from then on: what a full pool would earn from `time`
/// to the end of the window, and what the tokens locked now have earned up to `time` and
/// not yet been paid.
pub open spec fn required_at(cfg: StakingCfg, time: int) -> int {
    (cfg.accumulator_at(cfg.staked_end_time as int) - cfg.accumulator_at(time))
        * cfg.max_staked_amount + cfg.owed_to_all_at(time)
}

/// How many tokens `op` moves into the vault, where the pool accepts it; negative where it
/// moves them out.
pub open spec fn moved_into_vault(op: Operation) -> int {
    match op {
        Operation::Stake { .. } => 0,
        Operation::Unstake { ctx, current_time, .. } => match unstake_outcome(
            ctx,
            current_time,
        )->Ok_0.1.reward {
            Some(payment) => -payment.amount,
            None => 0,
        },
        Operation::WithdrawReward { ctx, current_time, .. } => -withdraw_reward_outcome(
            ctx,
            current_time,
        )->Ok_0.1.amount,
        Operation::ConfigStaking { ctx, current_time, reward, staked_end_time } =>
            match config_staking_outcome(ctx, current_time, reward, staked_end_time)->Ok_0.1 {
                Some(top_up) => top_up.amount as int,
                None => 0,
            },
        Operation::CloseStaking { ctx, current_time } => match close_staking_outcome(
            ctx,
            current_time,
        )->Ok_0.1 {
            Some(refund) => -refund.amount,
            None => 0,
        },
    }
}

impl FundedPool {
    /// Whether `op` was handed the vault as it is and the reward token's decimal places.
    /// A lock looks at neither.
    pub open spec fn shown_to(self, op: Operation) -> bool {
        match op {
            Operation::Stake { .. } => true,
            Operation::Unstake { ctx, .. } => ctx.reward_vault.amount == self.vault
                && ctx.reward_mint.decimals == self.decimals,
            Operation::WithdrawReward { ctx, .. } => ctx.reward_vault.amount == self.vault
                && ctx.reward_mint.decimals == self.decimals,
            Operation::ConfigStaking { ctx, .. } => ctx.reward_vault.amount == self.vault
                && ctx.reward_mint.decimals == self.decimals,
            Operation::CloseStaking { ctx, .. } => ctx.reward_vault.amount == self.vault
                && ctx.reward_mint.decimals == self.decimals,
        }
    }

    /// The pool and its vault after `op`, once the requests of `op` are carried out. An
    /// operation that was not shown the vault as it is, or that the pool does not accept,
    /// changes neither. Time passes either way.
    pub open spec fn apply(self, op: Operation) -> FundedPool {
        if self.shown_to(op) && self.pool.accepts(op) {
            FundedPool {
                pool: self.pool.apply(op),
                vault: self.vault + moved_into_vault(op),
                decimals: self.decimals,
            }
        } else {
            FundedPool { pool: Pool { clock: op.time(), ..self.pool }, ..self }
        }
    }

    /// The pool and its vault after the operations `ops`, one after the other.
    pub open spec fn run(self, ops: Seq<Operation>) -> FundedPool
        decreases ops.len(),
    {
        if ops.len() == 0 {
            self
        } else {
            self.run(ops.drop_last()).apply(ops.last())
        }
    }

    /// The vault holds what the pool requires at the time up to which its positions have
    /// earned, and the pool holds no more tokens than it has room for.
    pub open spec fn solvent(self) -> bool {
        &&& self.pool.cfg.staked_amount <= self.pool.cfg.max_staked_amount
        &&& required_at(self.pool.cfg, self.pool.accrued_until()) * decimal_factor(
            self.decimals,
        ) <= self.vault
    }

    /// The invariants of the pool and of its vault together.
    pub open spec fn sound(self) -> bool {
        &&& self.pool.conserved()
        &&& self.pool.covered()
        &&& self.pool.cfg.wf()
        &&& self.solvent()
    }
}

/// The later the time, the less a pool requires, as long as nothing is done to it: room
/// that stayed empty earns nothing.
pub proof fn lemma_requirement_shrinks(cfg: StakingCfg, earlier: int, later: int)
    requires
        earlier <= later,
        cfg.staked_amount <= cfg.max_staked_amount,
    ensures
        required_at(cfg, later) <= required_at(cfg, earlier),
{
    let at_end = cfg.accumulator_at(cfg.staked_end_time as int);
    let at_earlier = cfg.accumulator_at(earlier);
    let at_later = cfg.accumulator_at(later);
    let room = cfg.max_staked_amount as int;
    let count = cfg.staked_amount as int;
    lemma_accumulator_grows(cfg, earlier, later);
    assert((at_end - at_later) * room + at_later * count <= (at_end - at_earlier) * room
        + at_earlier * count) by (nonlinear_arith)
        requires
            at_earlier <= at_later,
            0 <= count <= room,
    ;
}

proof fn lemma_scaling_keeps_order(less: int, more: int, factor: int)
    requires
        less <= more,
        0 <= factor,
    ensures
        less * factor <= more * factor,
{
    assert(less * factor <= more * factor) by (nonlinear_arith)
        requires
            less <= more,
            0 <= factor,
    ;
}

/// A pool that is opened no earlier than its window starts holds, once it is funded,
/// what it requires.
pub proof fn lemma_opened_pool_is_sound(
    ctx: InitStaking,
    current_time: i64,
    reward: u64,
    staked_start_time: i64,
    staked_end_time: i64,
    minimum_period: i64,
    max_staked_amount: u64,
)
    requires
        init_staking_outcome(
            ctx,
            current_time,
            reward,
            staked_start_time,
            staked_end_time,
            minimum_period,
            max_staked_amount,
        ) is Ok,
        staked_start_time <= current_time,
    ensures
        ({
            let (after, funding) = init_staking_outcome(
                ctx,
                current_time,
                reward,
                staked_start_time,
                staked_end_time,
                minimum_period,
                max_staked_amount,
            )->Ok_0;
            (FundedPool {
                pool: Pool::opened(after.staking_cfg, current_time),
                vault: ctx.reward_vault.amount + funding.amount,
                decimals: ctx.reward_token_mint.decimals,
            }).sound()
        }),
{
    let period = staked_end_time - staked_start_time;
    let left = staked_end_time - current_time;
    let rate = reward as int;
    let room = max_staked_amount as int;
    let factor = decimal_factor(ctx.reward_token_mint.decimals);
    lemma_pow_positive(10, ctx.reward_token_mint.decimals as nat);
    assert((current_time - current_time) * rate == 0) by (nonlinear_arith);
    assert(0 <= rate * period * room) by (nonlinear_arith)
        requires
            0 <= rate,
            0 <= period,
            0 <= room,
    ;
    assert(left * rate * room <= rate * period * room) by (nonlinear_arith)
        requires
            0 <= left <= period,
            0 <= rate,
            0 <= room,
    ;
    assert((0 + left * rate - 0) * room + (0 * 0 - 0) == left * rate * room)
        by (nonlinear_arith);
    lemma_scaling_keeps_order(left * rate * room, rate * period * room, factor);
    assert(0 <= rate * period * room * factor) by (nonlinear_arith)
        requires
            0 <= rate * period * room,
            0 <= factor,
    ;
}

proof fn lemma_payment_keeps_order(
    required_before: int,
    required_now: int,
    reward: int,
    factor: int,
    vault: int,
)
    requires
        required_now <= required_before,
        0 <= factor,
        required_before * factor <= vault,
    ensures
        (required_now - reward) * factor <= vault - reward * factor,
{
    assert((required_now - reward) * factor == required_now * factor - reward * factor)
        by (nonlinear_arith);
    lemma_scaling_keeps_order(required_now, required_before, factor);
}

proof fn lemma_waiting_keeps_sound(funded: FundedPool, now: i64)
    requires
        funded.sound(),
        funded.pool.clock <= now,
    ensures
        (FundedPool { pool: Pool { clock: now, ..funded.pool }, ..funded }).sound(),
{
    let pool = funded.pool;
    let next = Pool { clock: now, ..pool };
    lemma_accumulator_grows(pool.cfg, pool.accrued_until(), next.accrued_until());
    assert forall|i: int| 0 <= i < next.positions.len() implies (
    #[trigger] next.positions[i]).reward_based_on_staked_time <= next.cfg.accumulator_at(
        next.accrued_until(),
    ) by {
        assert(next.positions[i] == pool.positions[i]);
    }
    lemma_requirement_shrinks(pool.cfg, pool.accrued_until(), next.accrued_until());
    lemma_pow_positive(10, funded.decimals as nat);
    lemma_scaling_keeps_order(
        required_at(pool.cfg, next.accrued_until()),
        required_at(pool.cfg, pool.accrued_until()),
        decimal_factor(funded.decimals),
    );
}

proof fn lemma_lock_keeps_solvent(funded: FundedPool, op: Operation)
    requires
        funded.sound(),
        funded.pool.clock <= op.time(),
        op is Stake,
        funded.pool.accepts(op),
    ensures
        funded.apply(op).solvent(),
{
    let pool = funded.pool;
    let next = pool.apply(op);
    let now = op.time() as int;
    let cfg = pool.cfg;
    let at_end = cfg.accumulator_at(cfg.staked_end_time as int);
    let at_now = cfg.accumulator_at(now);
    let room = cfg.max_staked_amount as int;
    let count = cfg.staked_amount as int;
    let total = cfg.total_reward_based_on_staked_time as int;
    assert(next.accrued_until() == now);
    assert(next.cfg.accumulator_at(now) == at_now);
    assert(next.cfg.accumulator_at(next.cfg.staked_end_time as int) == at_end);
    assert((at_end - at_now) * room + (at_now * (count + 1) - (total + at_now)) == (at_end
        - at_now) * room + (at_now * count - total)) by (nonlinear_arith);
    assert(required_at(next.cfg, now) == required_at(cfg, now));
    lemma_requirement_shrinks(cfg, pool.accrued_until(), now);
    lemma_pow_positive(10, funded.decimals as nat);
    lemma_scaling_keeps_order(
        required_at(cfg, now),
        required_at(cfg, pool.accrued_until()),
        decimal_factor(funded.decimals),
    );
}

proof fn lemma_payout_keeps_solvent(funded: FundedPool, op: Operation)
    requires
        funded.sound(),
        funded.pool.clock <= op.time(),
        op is WithdrawReward,
        funded.shown_to(op),
        funded.pool.accepts(op),
    ensures
        funded.apply(op).solvent(),
{
    let pool = funded.pool;
    let next = pool.apply(op);
    let cfg = pool.cfg;
    let until = next.accrued_until();
    let factor = decimal_factor(funded.decimals);
    let ctx = op->WithdrawReward_ctx;
    let payment = withdraw_reward_outcome(ctx, op.time())->Ok_0.1;
    let reward = next.cfg.total_reward_based_on_staked_time
        - cfg.total_reward_based_on_staked_time;
    lemma_pow_positive(10, funded.decimals as nat);
    assert(0 <= reward);
    assert(0 <= reward * factor) by (nonlinear_arith)
        requires
            0 <= reward,
            0 <= factor,
    ;
    assert(payment.amount == reward * factor);
    assert(required_at(next.cfg, until) == required_at(cfg, until) - reward);
    lemma_requirement_shrinks(cfg, pool.accrued_until(), until);
    lemma_payment_keeps_order(
        required_at(cfg, pool.accrued_until()),
        required_at(cfg, until),
        reward,
        factor,
        funded.vault,
    );
}

proof fn lemma_release_keeps_solvent(funded: FundedPool, op: Operation)
    requires
        funded.sound(),
        funded.pool.clock <= op.time(),
        op is Unstake,
        funded.shown_to(op),
        funded.pool.accepts(op),
    ensures
        funded.apply(op).solvent(),
{
    let pool = funded.pool;
    let next = pool.apply(op);
    let cfg = pool.cfg;
    let until = next.accrued_until();
    let factor = decimal_factor(funded.decimals);
    let ctx = op->Unstake_ctx;
    let position = op->Unstake_position;
    let snapshot = ctx.staked_record.reward_based_on_staked_time as int;
    let requests = unstake_outcome(ctx, op.time())->Ok_0.1;
    let at_end = cfg.accumulator_at(cfg.staked_end_time as int);
    let at_until = cfg.accumulator_at(until);
    let room = cfg.max_staked_amount as int;
    let count = cfg.staked_amount as int;
    let total = cfg.total_reward_based_on_staked_time as int;
    let earned = at_until - snapshot;
    lemma_pow_positive(10, funded.decimals as nat);
    lemma_accumulator_grows(cfg, pool.accrued_until(), until);
    assert(pool.positions[position].reward_based_on_staked_time <= cfg.accumulator_at(
        pool.accrued_until(),
    ));
    assert(0 <= earned);
    assert((at_end - at_until) * room + (at_until * (count - 1) - (total - snapshot)) == (
    at_end - at_until) * room + (at_until * count - total) - earned) by (nonlinear_arith)
        requires
            earned == at_until - snapshot,
    ;
    assert(required_at(next.cfg, until) == required_at(cfg, until) - earned);
    lemma_requirement_shrinks(cfg, pool.accrued_until(), until);
    if requests.reward is Some {
        assert(0 <= earned * factor) by (nonlinear_arith)
            requires
                0 <= earned,
                0 <= factor,
        ;
        assert(requests.reward->Some_0.amount == earned * factor);
        lemma_payment_keeps_order(
            required_at(cfg, pool.accrued_until()),
            required_at(cfg, until),
            earned,
            factor,
            funded.vault,
        );
    } else {
        lemma_scaling_keeps_order(
            required_at(cfg, until) - earned,
            required_at(cfg, pool.accrued_until()),
            factor,
        );
    }
}

proof fn lemma_change_keeps_solvent(funded: FundedPool, op: Operation)
    requires
        funded.sound(),
        funded.pool.clock <= op.time(),
        op is ConfigStaking,
        funded.shown_to(op),
        funded.pool.accepts(op),
    ensures
        funded.apply(op).solvent(),
{
    let pool = funded.pool;
    let next = pool.apply(op);
    let now = op.time() as int;
    let rate = next.cfg.latest_reward as int;
    let factor = decimal_factor(funded.decimals);
    lemma_pow_positive(10, funded.decimals as nat);
    assert(next.accrued_until() == now);
    assert((now - next.cfg.latest_reward_time) * rate == 0) by (nonlinear_arith)
        requires
            now - next.cfg.latest_reward_time == 0,
    ;
    let needed = required_at(next.cfg, now);
    let elapsed = next.cfg.staked_end_time - now;
    assert(0 <= elapsed * rate) by (nonlinear_arith)
        requires
            0 <= elapsed,
            0 <= rate,
    ;
    assert(0 <= needed * factor) by (nonlinear_arith)
        requires
            0 <= needed,
            0 <= factor,
    ;
}

proof fn lemma_closing_keeps_solvent(funded: FundedPool, op: Operation)
    requires
        funded.sound(),
        funded.pool.clock <= op.time(),
        op is CloseStaking,
        funded.shown_to(op),
        funded.pool.accepts(op),
    ensures
        funded.apply(op).solvent(),
{
    let pool = funded.pool;
    let next = pool.apply(op);
    let cfg = pool.cfg;
    let until = next.accrued_until();
    let factor = decimal_factor(funded.decimals);
    let at_until = cfg.accumulator_at(until);
    let room = cfg.max_staked_amount as int;
    let owed = cfg.owed_to_all_at(until);
    lemma_pow_positive(10, funded.decimals as nat);
    assert(until == next.cfg.staked_end_time);
    assert((at_until - at_until) * room == 0) by (nonlinear_arith);
    assert(required_at(next.cfg, until) == owed);
    assert(0 <= owed * factor) by (nonlinear_arith)
        requires
            0 <= owed,
            0 <= factor,
    ;
}

/// No operation that runs no earlier than the last one breaks the invariants of a pool
/// and its vault.
pub proof fn lemma_operation_keeps_sound(funded: FundedPool, op: Operation)
    requires
        funded.sound(),
        funded.pool.clock <= op.time(),
    ensures
        funded.apply(op).sound(),
{
    if funded.shown_to(op) && funded.pool.accepts(op) {
        lemma_operation_conserves(funded.pool, op);
        lemma_operation_keeps_covered(funded.pool, op);
        lemma_operation_keeps_cfg_wf(funded.pool, op);
        match op {
            Operation::Stake { .. } => lemma_lock_keeps_solvent(funded, op),
            Operation::Unstake { .. } => lemma_release_keeps_solvent(funded, op),
            Operation::WithdrawReward { .. } => lemma_payout_keeps_solvent(funded, op),
            Operation::ConfigStaking { .. } => lemma_change_keeps_solvent(funded, op),
            Operation::CloseStaking { .. } => lemma_closing_keeps_solvent(funded, op),
        }
    } else {
        lemma_waiting_keeps_sound(funded, op.time());
    }
}

/// However a pool is operated after it was funded, as long as time does not run
/// backwards, its vault holds what it requires.
pub proof fn lemma_soundness(funded: FundedPool, ops: Seq<Operation>)
    requires
        funded.sound(),
        chronological(funded.pool.clock, ops),
    ensures
        funded.run(ops).sound(),
        funded.run(ops).pool.clock == if ops.len() == 0 {
            funded.pool.clock
        } else {
            ops.last().time()
        },
    decreases ops.len(),
{
    if ops.len() > 0 {
        let before = ops.drop_last();
        lemma_soundness(funded, before);
        if before.len() > 0 {
            assert(before.last() == ops[ops.len() - 2]);
        }
        lemma_operation_keeps_sound(funded.run(before), ops.last());
    }
}

proof fn lemma_requirement_covers_position(funded: FundedPool, position: int, until: int)
    requires
        funded.sound(),
        0 <= position < funded.pool.positions.len(),
        funded.pool.accrued_until() <= until <= funded.pool.cfg.staked_end_time,
    ensures
        (funded.pool.cfg.accumulator_at(until)
            - funded.pool.positions[position].reward_based_on_staked_time) * decimal_factor(
            funded.decimals,
        ) <= funded.vault,
{
    let pool = funded.pool;
    let cfg = pool.cfg;
    let factor = decimal_factor(funded.decimals);
    let at_end = cfg.accumulator_at(cfg.staked_end_time as int);
    let at_until = cfg.accumulator_at(until);
    let room = cfg.max_staked_amount as int;
    let count = cfg.staked_amount as int;
    let snapshot = pool.positions[position].reward_based_on_staked_time as int;
    let others = pool.positions.remove(position);
    lemma_accumulator_grows(cfg, pool.accrued_until(), until);
    lemma_accumulator_grows(cfg, until, cfg.staked_end_time as int);
    assert forall|i: int| 0 <= i < others.len() implies (
    #[trigger] others[i]).reward_based_on_staked_time <= at_until by {
        if i < position {
            assert(others[i] == pool.positions[i]);
        } else {
            assert(others[i] == pool.positions[i + 1]);
        }
    }
    lemma_sum_bounded(others, at_until);
    lemma_sum_remove(pool.positions, position);
    assert(others.len() * at_until == at_until * count - at_until) by (nonlinear_arith)
        requires
            others.len() == count - 1,
    ;
    assert(0 <= (at_end - at_until) * room) by (nonlinear_arith)
        requires
            at_until <= at_end,
            0 <= room,
    ;
    assert(at_until - snapshot <= required_at(cfg, until));
    lemma_requirement_shrinks(cfg, pool.accrued_until(), until);
    lemma_pow_positive(10, funded.decimals as nat);
    lemma_scaling_keeps_order(
        at_until - snapshot,
        required_at(cfg, pool.accrued_until()),
        factor,
    );
}

/// Reconfigure never starves: after a change of a pool whose vault held what the pool
/// required, the vault with its top-up holds what the pool requires under the new rate
/// and end, and also what it required at that moment under the old ones.
pub proof fn lemma_change_never_starves(funded: FundedPool, op: Operation)
    requires
        funded.sound(),
        funded.pool.clock <= op.time(),
        op is ConfigStaking,
        funded.shown_to(op),
        funded.pool.accepts(op),
    ensures
        required_at(funded.apply(op).pool.cfg, op.time() as int) * decimal_factor(
            funded.decimals,
        ) <= funded.apply(op).vault,
        required_at(funded.pool.cfg, op.time() as int) * decimal_factor(funded.decimals)
            <= funded.apply(op).vault,
{
    lemma_operation_keeps_sound(funded, op);
    lemma_requirement_shrinks(funded.pool.cfg, funded.pool.accrued_until(), op.time() as int);
    lemma_pow_positive(10, funded.decimals as nat);
    lemma_scaling_keeps_order(
        required_at(funded.pool.cfg, op.time() as int),
        required_at(funded.pool.cfg, funded.pool.accrued_until()),
        decimal_factor(funded.decimals),
    );
}

/// A vault that holds what its pool requires never runs dry: no payout and no release
/// on the pool is refused for want of funds, and no closing fails because the vault
/// holds less than the pool owes.
pub proof fn lemma_sound_pool_pays(funded: FundedPool, op: Operation)
    requires
        funded.sound(),
        funded.pool.clock <= op.time(),
        funded.shown_to(op),
        funded.pool.concerns(op),
    ensures
        op matches Operation::WithdrawReward { ctx, current_time, .. }
            ==> withdraw_reward_outcome(ctx, current_time) != Err::<
            (WithdrawReward, TransferChecked),
            StakingError,
        >(StakingError::InsufficientReward),
        op matches Operation::Unstake { ctx, current_time, .. } ==> unstake_outcome(
            ctx,
            current_time,
        ) != Err::<(Unstake, UnstakeRequests), StakingError>(StakingError::InsufficientReward),
        op matches Operation::CloseStaking { ctx, current_time } ==> close_staking_outcome(
            ctx,
            current_time,
        ) != Err::<(CloseStaking, Option<TransferChecked>), StakingError>(
            StakingError::ProgramSubError,
        ),
{
    let pool = funded.pool;
    let cfg = pool.cfg;
    let factor = decimal_factor(funded.decimals);
    let until: int = if op.time() <= cfg.staked_end_time {
        op.time() as int
    } else {
        cfg.staked_end_time as int
    };
    lemma_pow_positive(10, funded.decimals as nat);
    match op {
        Operation::WithdrawReward { ctx, current_time, position } => {
            lemma_requirement_covers_position(funded, position, until);
        },
        Operation::Unstake { ctx, current_time, position } => {
            lemma_requirement_covers_position(funded, position, until);
        },
        Operation::CloseStaking { ctx, current_time } => {
            let at_end = cfg.accumulator_at(cfg.staked_end_time as int);
            let at_until = cfg.accumulator_at(until);
            let room = cfg.max_staked_amount as int;
            lemma_obligation_is_not_negative(pool, until);
            lemma_accumulator_grows(cfg, until, cfg.staked_end_time as int);
            assert(0 <= (at_end - at_until) * room) by (nonlinear_arith)
                requires
                    at_until <= at_end,
                    0 <= room,
            ;
            lemma_requirement_shrinks(cfg, pool.accrued_until(), until);
            lemma_scaling_keeps_order(
                cfg.owed_to_all_at(until),
                required_at(cfg, pool.accrued_until()),
                factor,
            );
        },
        _ => {},
    }
}

} // verus!
