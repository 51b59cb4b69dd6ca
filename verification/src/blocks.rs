use vstd::prelude::*;

verus! {

/// Milliseconds between two blocks.
pub const BLOCK_TIME: u64 = 1000;

/// Timestamp of block zero.
pub const INIT_TIMESTAMP: u64 = 30_000;

/// Blocks in a session, as the mock configures it by default.
pub const PERIOD: u64 = 5;

/// Block at which the first session ends, as the mock configures it by default.
pub const OFFSET: u64 = 0;

/// Sessions in an era.
pub const SESSIONS_PER_ERA: u32 = 3;

/// One piece of outside work that stepping the chain forward asks for.
#[derive(PartialEq, Eq, Structural, Clone, Copy, Debug)]
pub enum BlockAction {
    /// Run the staking pallet's `on_finalize` hook for this block.
    Finalize(u64),
    /// Set the block number to `block`, run the session and staking `on_initialize`
    /// hooks for it, and set the timestamp to `timestamp`.
    Initialize { block: u64, timestamp: u64 },
    /// Set the block number to this block and run the session and staking
    /// `on_initialize` hooks for it; its timestamp does not fit in a `u64`, so the chain
    /// stops here with an overflow.
    Enter(u64),
}

/// The last block whose timestamp fits in a `u64`.
pub const LAST_TIMESTAMPED_BLOCK: u64 = 18_446_744_073_709_521;

/// The timestamp that block `b` carries.
pub open spec fn spec_block_timestamp(b: int) -> int {
    b * BLOCK_TIME + INIT_TIMESTAMP
}

/// The actions of the blocks `lo..=hi` when each of them is initialized and then finalized.
pub open spec fn full_blocks(lo: int, hi: int) -> Seq<BlockAction>
    decreases hi - lo + 1,
{
    if hi < lo {
        Seq::empty()
    } else {
        full_blocks(lo, hi - 1).push(
            BlockAction::Initialize { block: hi as u64, timestamp: spec_block_timestamp(hi) as u64 },
        ).push(BlockAction::Finalize(hi as u64))
    }
}

/// What going from block `current` to block `n` does: finalize `current`, then initialize
/// every block up to `n`, finalizing each but the last.
pub open spec fn run_to_block_actions(current: int, n: int) -> Seq<BlockAction> {
    if n <= current {
        seq![BlockAction::Finalize(current as u64)]
    } else {
        seq![BlockAction::Finalize(current as u64)] + full_blocks(current + 1, n - 1).push(
            BlockAction::Initialize { block: n as u64, timestamp: spec_block_timestamp(n) as u64 },
        )
    }
}

/// The block at which session `session_index` starts (the session rotates while that
/// block is initialized), for sessions of `period` blocks whose first one ends at block
/// `offset`: `session_index * period` when `offset` is zero.
pub open spec fn spec_session_start_block(session_index: int, period: int, offset: int) -> int {
    if offset == 0 {
        session_index * period
    } else {
        offset + (if session_index >= 1 { session_index - 1 } else { 0 }) * period
    }
}

/// Whether computing the block at which session `session_index` starts fits in a block number.
pub open spec fn session_start_block_fits(session_index: int, period: int, offset: int) -> bool {
    &&& offset == 0 ==> session_index * period <= u64::MAX
    &&& offset != 0 ==> (if session_index >= 1 { session_index - 1 } else { 0 }) * period
        <= u64::MAX
    &&& spec_session_start_block(session_index, period, offset) <= u64::MAX
}

/// The block that starting session `session_index` progresses to. With `offset` zero it
/// is `period * session_index + 1`, one block after the session starts. With a non-zero
/// `offset` it is the block at which the session starts, `offset + (session_index - 1) *
/// period` with the subtraction saturating at zero. With `period` one and `offset` zero
/// the target is already the first block of the next session.
pub open spec fn spec_session_target_block(session_index: int, period: int, offset: int) -> int {
    if offset == 0 {
        session_index * period + 1
    } else {
        spec_session_start_block(session_index, period, offset)
    }
}

/// Whether computing the target block of session `session_index` stays within block numbers.
pub open spec fn session_target_block_fits(session_index: int, period: int, offset: int) -> bool {
    &&& session_start_block_fits(session_index, period, offset)
    &&& spec_session_target_block(session_index, period, offset) <= u64::MAX
}

/// The first block after `current` whose timestamp does not fit in a `u64`.
pub open spec fn first_untimestamped_block(current: int) -> int {
    if LAST_TIMESTAMPED_BLOCK > current {
        LAST_TIMESTAMPED_BLOCK + 1
    } else {
        current + 1
    }
}

/// What running from block `current` to block `n` does, and whether it completes. From
/// the last block number it finalizes that block and stops; where a timestamp on the way
/// would not fit, it runs every block before that one as usual, finalizes the last of
/// them, enters the block whose timestamp does not fit and stops; otherwise it is
/// `run_to_block_actions(current, n)` and completes.
pub open spec fn run_to_block_outcome(current: int, n: int) -> (Seq<BlockAction>, bool) {
    if current >= u64::MAX {
        (seq![BlockAction::Finalize(current as u64)], false)
    } else if n > current && spec_block_timestamp(n) > u64::MAX {
        let b = first_untimestamped_block(current);
        (run_to_block_actions(current, b).drop_last().push(BlockAction::Enter(b as u64)), false)
    } else {
        (run_to_block_actions(current, n), true)
    }
}

/// Whether every timestamp met when running from `current` to `n` fits in a `u64`.
pub open spec fn run_to_block_fits(current: int, n: int) -> bool {
    &&& current < u64::MAX
    &&& n > current ==> spec_block_timestamp(n) <= u64::MAX
}

/// The block number that follows `block_number`.
pub fn next_block(block_number: u64) -> (next: u64)
    requires
        block_number < u64::MAX,
    ensures
        next == block_number + 1,
{
    block_number + 1
}

/// The timestamp of block `b`: `b * BLOCK_TIME + INIT_TIMESTAMP`.
pub fn block_timestamp(b: u64) -> (t: u64)
    requires
        spec_block_timestamp(b as int) <= u64::MAX,
    ensures
        t == spec_block_timestamp(b as int),
        t == b * BLOCK_TIME + INIT_TIMESTAMP,
{
    b * BLOCK_TIME + INIT_TIMESTAMP
}

/// The blocks that fast-forwarding from block `current` to block `n` initializes, one
/// `next_block` at a time, in order: `current + 1 ..= n`, none when `n <= current`.
pub fn fast_forward_to(current: u64, n: u64) -> (blocks: Vec<u64>)
    ensures
        blocks@ == Seq::new(
            if current < n { (n - current) as nat } else { 0 },
            |i: int| (current + 1 + i) as u64,
        ),
{
    let mut blocks: Vec<u64> = Vec::new();
    let mut block: u64 = current;
    while block < n
        invariant
            current <= block,
            block <= n || block == current,
            blocks@ == Seq::new((block - current) as nat, |i: int| (current + 1 + i) as u64),
        decreases n - block,
    {
        block = next_block(block);
        blocks.push(block);
        assert(blocks@ =~= Seq::new((block - current) as nat, |i: int| (current + 1 + i) as u64));
    }
    blocks
}

/// The work that going from block `current` to block `n` asks for, in order: finalize
/// `current`, then for each block `b` in `current + 1 ..= n` initialize it with timestamp
/// `b * BLOCK_TIME + INIT_TIMESTAMP` and, unless `b == n`, finalize it.
pub fn run_to_block(current: u64, n: u64) -> (actions: Vec<BlockAction>)
    requires
        run_to_block_fits(current as int, n as int),
    ensures
        actions@ == run_to_block_actions(current as int, n as int),
{
    let mut actions: Vec<BlockAction> = Vec::new();
    actions.push(BlockAction::Finalize(current));
    if n <= current {
        assert(actions@ =~= run_to_block_actions(current as int, n as int));
        return actions;
    }
    let mut b: u64 = current + 1;
    while b < n
        invariant
            current < b <= n,
            spec_block_timestamp(n as int) <= u64::MAX,
            actions@ == seq![BlockAction::Finalize(current)] + full_blocks(current + 1, b - 1),
        decreases n - b,
    {
        let t = block_timestamp(b);
        actions.push(BlockAction::Initialize { block: b, timestamp: t });
        actions.push(BlockAction::Finalize(b));
        assert(actions@ =~= seq![BlockAction::Finalize(current)] + full_blocks(current + 1, b as int));
        b = b + 1;
    }
    let t = block_timestamp(n);
    actions.push(BlockAction::Initialize { block: n, timestamp: t });
    assert(actions@ =~= run_to_block_actions(current as int, n as int));
    actions
}

/// The work that running from block `current` to block `n` does, and whether it
/// completes: it does not where the block number or a timestamp overflows, and then the
/// actions end where the chain stops.
pub fn run_to_block_checked(current: u64, n: u64) -> (outcome: (Vec<BlockAction>, bool))
    ensures
        (outcome.0@, outcome.1) == run_to_block_outcome(current as int, n as int),
{
    if current == u64::MAX {
        let mut actions: Vec<BlockAction> = Vec::new();
        actions.push(BlockAction::Finalize(current));
        assert(actions@ =~= seq![BlockAction::Finalize(current)]);
        return (actions, false);
    }
    if n > current && n > LAST_TIMESTAMPED_BLOCK {
        let ghost b = first_untimestamped_block(current as int);
        let ghost expected = run_to_block_actions(current as int, b).drop_last().push(
            BlockAction::Enter(b as u64),
        );
        if LAST_TIMESTAMPED_BLOCK > current {
            let mut actions = run_to_block(current, LAST_TIMESTAMPED_BLOCK);
            actions.push(BlockAction::Finalize(LAST_TIMESTAMPED_BLOCK));
            actions.push(BlockAction::Enter(LAST_TIMESTAMPED_BLOCK + 1));
            assert(actions@ =~= expected);
            (actions, false)
        } else {
            let mut actions: Vec<BlockAction> = Vec::new();
            actions.push(BlockAction::Finalize(current));
            actions.push(BlockAction::Enter(current + 1));
            assert(full_blocks(current + 1, current as int) =~= Seq::empty());
            assert(actions@ =~= expected);
            (actions, false)
        }
    } else {
        (run_to_block(current, n), true)
    }
}

/// The block that starting session `session_index` progresses to
/// (`spec_session_target_block`), or `None` where computing it overflows.
pub fn session_target_block(session_index: u32, period: u64, offset: u64) -> (target: Option<u64>)
    ensures
        target is Some <==> session_target_block_fits(
            session_index as int,
            period as int,
            offset as int,
        ),
        target matches Some(t) ==> t == spec_session_target_block(
            session_index as int,
            period as int,
            offset as int,
        ),
{
    if offset == 0 {
        match (session_index as u64).checked_mul(period) {
            Some(start) => start.checked_add(1),
            None => None,
        }
    } else {
        match (session_index.saturating_sub(1) as u64).checked_mul(period) {
            Some(k) => offset.checked_add(k),
            None => None,
        }
    }
}

/// The work that progressing from block `current` to session `session_index` asks for:
/// running to the session's target block (`spec_session_target_block`), and whether the
/// run completes. `None` where computing the target overflows, before any work.
pub fn start_session(current: u64, session_index: u32, period: u64, offset: u64) -> (outcome:
    Option<(Vec<BlockAction>, bool)>)
    ensures
        outcome is Some <==> session_target_block_fits(
            session_index as int,
            period as int,
            offset as int,
        ),
        outcome matches Some(o) ==> (o.0@, o.1) == run_to_block_outcome(
            current as int,
            spec_session_target_block(session_index as int, period as int, offset as int),
        ),
{
    match session_target_block(session_index, period, offset) {
        Some(target) => Some(run_to_block_checked(current, target)),
        None => None,
    }
}

/// The work that progressing from block `current` to era `era_index` asks for: starting
/// the era's first session, `era_index * SESSIONS_PER_ERA`. `None` where that session
/// number or its target block overflows, before any work.
pub fn start_active_era(current: u64, era_index: u32, period: u64, offset: u64) -> (outcome:
    Option<(Vec<BlockAction>, bool)>)
    ensures
        outcome is Some <==> era_index * SESSIONS_PER_ERA <= u32::MAX && session_target_block_fits(
            era_index * SESSIONS_PER_ERA,
            period as int,
            offset as int,
        ),
        outcome matches Some(o) ==> (o.0@, o.1) == run_to_block_outcome(
            current as int,
            spec_session_target_block(era_index * SESSIONS_PER_ERA, period as int, offset as int),
        ),
{
    match era_index.checked_mul(SESSIONS_PER_ERA) {
        Some(session_index) => start_session(current, session_index, period, offset),
        None => None,
    }
}

/// Block `lo + k` of `full_blocks(lo, hi)` sits at positions `2k` (initialized) and
/// `2k + 1` (finalized).
proof fn lemma_full_blocks_layout(lo: int, hi: int)
    requires
        lo <= hi + 1,
    ensures
        full_blocks(lo, hi).len() == 2 * (hi - lo + 1),
        forall|k: int|
            0 <= k <= hi - lo ==> #[trigger] full_blocks(lo, hi)[2 * k] == (BlockAction::Initialize {
                block: (lo + k) as u64,
                timestamp: spec_block_timestamp(lo + k) as u64,
            }) && full_blocks(lo, hi)[2 * k + 1] == BlockAction::Finalize((lo + k) as u64),
    decreases hi - lo + 1,
{
    if hi >= lo {
        lemma_full_blocks_layout(lo, hi - 1);
        let prev = full_blocks(lo, hi - 1);
        assert forall|k: int| 0 <= k <= hi - lo implies #[trigger] full_blocks(lo, hi)[2 * k] == (
        BlockAction::Initialize {
            block: (lo + k) as u64,
            timestamp: spec_block_timestamp(lo + k) as u64,
        }) && full_blocks(lo, hi)[2 * k + 1] == BlockAction::Finalize((lo + k) as u64) by {
            if k < hi - lo {
                assert(prev[2 * k] == full_blocks(lo, hi)[2 * k]);
            }
        }
    }
}

/// The full blocks `lo..=hi` are those of `lo..=mid` followed by those of `mid+1..=hi`.
proof fn lemma_full_blocks_split(lo: int, mid: int, hi: int)
    requires
        lo <= mid + 1,
        mid <= hi,
    ensures
        full_blocks(lo, hi) == full_blocks(lo, mid) + full_blocks(mid + 1, hi),
    decreases hi - mid,
{
    if hi == mid {
        assert(full_blocks(mid + 1, hi) =~= Seq::empty());
        assert(full_blocks(lo, hi) =~= full_blocks(lo, mid) + full_blocks(mid + 1, hi));
    } else {
        lemma_full_blocks_split(lo, mid, hi - 1);
        assert(full_blocks(lo, hi) =~= full_blocks(lo, mid) + full_blocks(mid + 1, hi));
    }
}

/// Running from block `current` to a later block `n` finalizes `current` first, then
/// initializes every block from `current + 1` to `n` exactly once and in increasing order,
/// each with its timestamp, finalizes each of them but `n`, and ends by initializing `n`;
/// running to a block that is not later only finalizes `current`.
pub proof fn run_to_block_schedule(current: int, n: int)
    ensures
        n <= current ==> run_to_block_actions(current, n) == seq![BlockAction::Finalize(current as u64)],
        n > current ==> {
            let actions = run_to_block_actions(current, n);
            &&& actions.len() == 2 * (n - current)
            &&& actions[0] == BlockAction::Finalize(current as u64)
            &&& forall|k: int|
                0 <= k < n - current ==> #[trigger] actions[2 * k + 1] == (BlockAction::Initialize {
                    block: (current + 1 + k) as u64,
                    timestamp: ((current + 1 + k) * BLOCK_TIME + INIT_TIMESTAMP) as u64,
                })
            &&& forall|k: int|
                0 <= k < n - current - 1 ==> #[trigger] actions[2 * k + 2] == BlockAction::Finalize(
                    (current + 1 + k) as u64,
                )
            &&& actions.last() == (BlockAction::Initialize {
                block: n as u64,
                timestamp: (n * BLOCK_TIME + INIT_TIMESTAMP) as u64,
            })
        },
{
    if n > current {
        lemma_full_blocks_layout(current + 1, n - 1);
        let full = full_blocks(current + 1, n - 1);
        let actions = run_to_block_actions(current, n);
        assert forall|k: int| 0 <= k < n - current implies #[trigger] actions[2 * k + 1] == (
        BlockAction::Initialize {
            block: (current + 1 + k) as u64,
            timestamp: spec_block_timestamp(current + 1 + k) as u64,
        }) by {
            if k < n - current - 1 {
                assert(actions[2 * k + 1] == full[2 * k]);
            }
        }
        assert forall|k: int| 0 <= k < n - current - 1 implies #[trigger] actions[2 * k + 2]
            == BlockAction::Finalize((current + 1 + k) as u64) by {
            let tail = full.push(
                BlockAction::Initialize { block: n as u64, timestamp: spec_block_timestamp(n) as u64 },
            );
            assert(actions[2 * k + 2] == tail[2 * k + 1]);
            assert(full[2 * k] == (BlockAction::Initialize {
                block: (current + 1 + k) as u64,
                timestamp: spec_block_timestamp(current + 1 + k) as u64,
            }));
            assert(tail[2 * k + 1] == full[2 * k + 1]);
        }
    }
}

/// Running from `k` to `n` and then from `n` to a later `m` does the same work as running
/// from `k` to `m` at once: the second run starts by finalizing `n`, which the first run
/// left initialized only.
pub proof fn run_to_block_composes(k: int, n: int, m: int)
    requires
        k < n < m,
    ensures
        run_to_block_actions(k, n) + run_to_block_actions(n, m) == run_to_block_actions(k, m),
{
    lemma_full_blocks_split(k + 1, n, m - 1);
    let init_n = BlockAction::Initialize { block: n as u64, timestamp: spec_block_timestamp(n) as u64 };
    assert(full_blocks(k + 1, n) == full_blocks(k + 1, n - 1).push(init_n).push(
        BlockAction::Finalize(n as u64),
    ));
    assert(run_to_block_actions(k, n) + run_to_block_actions(n, m) =~= run_to_block_actions(k, m));
}

/// Later sessions start no earlier: for sessions `i <= j` of the same length and offset,
/// session `i` starts at or before session `j`.
pub proof fn session_start_block_monotonic(i: int, j: int, period: int, offset: int)
    requires
        0 <= i <= j,
        0 <= period,
        0 <= offset,
    ensures
        spec_session_start_block(i, period, offset) <= spec_session_start_block(j, period, offset),
        spec_session_target_block(i, period, offset) <= spec_session_target_block(j, period, offset),
{
    if offset == 0 {
        assert(i * period <= j * period) by (nonlinear_arith)
            requires
                0 <= i <= j,
                0 <= period,
        ;
    } else {
        let a = if i >= 1 { i - 1 } else { 0 };
        let b = if j >= 1 { j - 1 } else { 0 };
        assert(a * period <= b * period) by (nonlinear_arith)
            requires
                0 <= a <= b,
                0 <= period,
        ;
    }
}

/// Starting a session from a block before its target ends by initializing the target
/// block, which with `offset` zero is `period * session_index + 1`: the block after the
/// one at which the session starts.
pub proof fn start_session_lands_on_target(current: int, session_index: int, period: int, offset: int)
    requires
        current < spec_session_target_block(session_index, period, offset),
    ensures
        run_to_block_actions(current, spec_session_target_block(session_index, period, offset)).last()
            == (BlockAction::Initialize {
            block: spec_session_target_block(session_index, period, offset) as u64,
            timestamp: spec_block_timestamp(spec_session_target_block(session_index, period, offset)) as u64,
        }),
        offset == 0 ==> spec_session_target_block(session_index, period, offset) == period
            * session_index + 1 == spec_session_start_block(session_index, period, offset) + 1,
{
    run_to_block_schedule(current, spec_session_target_block(session_index, period, offset));
    if offset == 0 {
        assert(period * session_index == session_index * period) by (nonlinear_arith);
    }
}

/// Block zero carries `INIT_TIMESTAMP`, and each block carries a timestamp exactly
/// `BLOCK_TIME` after the one before it.
pub proof fn block_timestamps_step(b: int)
    ensures
        spec_block_timestamp(0) == INIT_TIMESTAMP,
        spec_block_timestamp(b + 1) == spec_block_timestamp(b) + BLOCK_TIME,
        spec_block_timestamp(b) == b * BLOCK_TIME + INIT_TIMESTAMP,
{
}

/// A run that meets no overflow completes: it finalizes `current`, then initializes each
/// block `current + 1 ..= n` once, in order, with timestamp `b * BLOCK_TIME +
/// INIT_TIMESTAMP`, finalizing each but `n`, so that it ends on block `n`; a run to a block
/// that is not later only finalizes `current`.
pub proof fn checked_run_completes(current: int, n: int)
    requires
        0 <= current < u64::MAX,
        n <= current || n * BLOCK_TIME + INIT_TIMESTAMP <= u64::MAX,
    ensures
        run_to_block_outcome(current, n).1,
        n <= current ==> run_to_block_outcome(current, n).0 == seq![BlockAction::Finalize(current as u64)],
        n > current ==> {
            let actions = run_to_block_outcome(current, n).0;
            &&& actions.len() == 2 * (n - current)
            &&& actions[0] == BlockAction::Finalize(current as u64)
            &&& forall|k: int|
                0 <= k < n - current ==> #[trigger] actions[2 * k + 1] == (BlockAction::Initialize {
                    block: (current + 1 + k) as u64,
                    timestamp: ((current + 1 + k) * BLOCK_TIME + INIT_TIMESTAMP) as u64,
                })
            &&& forall|k: int|
                0 <= k < n - current - 1 ==> #[trigger] actions[2 * k + 2] == BlockAction::Finalize(
                    (current + 1 + k) as u64,
                )
            &&& actions.last() == (BlockAction::Initialize {
                block: n as u64,
                timestamp: (n * BLOCK_TIME + INIT_TIMESTAMP) as u64,
            })
        },
{
    run_to_block_schedule(current, n);
}

/// A run that meets an overflow stops: from the last block number it only finalizes that
/// block; otherwise it runs every block before the first one whose timestamp does not fit
/// as usual, finalizes the last of them, and ends by entering that block.
pub proof fn checked_run_stops(current: int, n: int)
    requires
        0 <= current,
        current >= u64::MAX || (n > current && n * BLOCK_TIME + INIT_TIMESTAMP > u64::MAX),
    ensures
        !run_to_block_outcome(current, n).1,
        current >= u64::MAX ==> run_to_block_outcome(current, n).0 == seq![
            BlockAction::Finalize(current as u64),
        ],
        current < u64::MAX ==> {
            let actions = run_to_block_outcome(current, n).0;
            let b = first_untimestamped_block(current);
            &&& current < b <= n
            &&& b * BLOCK_TIME + INIT_TIMESTAMP > u64::MAX
            &&& b - 1 == current || (b - 1) * BLOCK_TIME + INIT_TIMESTAMP <= u64::MAX
            &&& actions.len() == 2 * (b - current)
            &&& actions[0] == BlockAction::Finalize(current as u64)
            &&& forall|k: int|
                0 <= k < b - current - 1 ==> #[trigger] actions[2 * k + 1] == (BlockAction::Initialize {
                    block: (current + 1 + k) as u64,
                    timestamp: ((current + 1 + k) * BLOCK_TIME + INIT_TIMESTAMP) as u64,
                }) && actions[2 * k + 2] == BlockAction::Finalize((current + 1 + k) as u64)
            &&& actions.last() == BlockAction::Enter(b as u64)
        },
{
    if current < u64::MAX {
        let b = first_untimestamped_block(current);
        run_to_block_schedule(current, b);
        let full = run_to_block_actions(current, b);
        let actions = run_to_block_outcome(current, n).0;
        assert(actions == full.drop_last().push(BlockAction::Enter(b as u64)));
        assert forall|k: int| 0 <= k < b - current - 1 implies #[trigger] actions[2 * k + 1] == (
        BlockAction::Initialize {
            block: (current + 1 + k) as u64,
            timestamp: ((current + 1 + k) * BLOCK_TIME + INIT_TIMESTAMP) as u64,
        }) && actions[2 * k + 2] == BlockAction::Finalize((current + 1 + k) as u64) by {
            assert(actions[2 * k + 1] == full[2 * k + 1]);
            assert(actions[2 * k + 2] == full[2 * k + 2]);
        }
    }
}

/// Session targets are `period` blocks apart: with `offset` zero session `i` targets
/// block `i * period + 1`, one past its start; with a non-zero `offset` sessions zero and
/// one target block `offset` and every later session the block `period` after the
/// previous one's.
pub proof fn session_targets_step(i: int, period: int, offset: int)
    requires
        i >= 0,
    ensures
        offset == 0 ==> spec_session_target_block(0, period, offset) == 1,
        offset == 0 ==> spec_session_target_block(i + 1, period, offset)
            == spec_session_target_block(i, period, offset) + period,
        offset != 0 ==> spec_session_target_block(0, period, offset) == offset,
        offset != 0 ==> spec_session_target_block(1, period, offset) == offset,
        offset != 0 && i >= 1 ==> spec_session_target_block(i + 1, period, offset)
            == spec_session_target_block(i, period, offset) + period,
{
    assert((i + 1) * period == i * period + period) by (nonlinear_arith);
    assert(i * period == (i - 1) * period + period) by (nonlinear_arith);
}

/// Later blocks carry later timestamps.
pub proof fn block_timestamp_increasing(a: int, b: int)
    requires
        a < b,
    ensures
        spec_block_timestamp(a) < spec_block_timestamp(b),
{
}

} // verus!
