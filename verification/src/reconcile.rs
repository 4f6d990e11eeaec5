//! The backfill reconciler: starting from the current chain tip, walk
//! parent pointers backwards until the last-seen block is reached, within a
//! configured backtrack bound.
//!
//! Fetching is left to the surrounding program: the reconciler is a state
//! machine that is handed each fetch result as an event and answers with
//! the next block to fetch, the finished result, or a failure.

use vstd::prelude::*;
use crate::block::{BlockModel, BlockRecord, models_of};

verus! {

/// Why a reconciliation run stopped without a result: the provider could
/// not be reached, its response was not the record asked for, or the
/// last-seen block was not found within the backtrack bound.
#[derive(Clone, Copy, Debug, PartialEq, Eq, Structural)]
pub enum ReconcileError {
    Transport,
    Decode,
    Diverged,
}

/// Where the reconciler stands: waiting for the tip, walking parent
/// pointers, or done (successfully or not).
#[derive(Clone, Copy, Debug, PartialEq, Eq, Structural)]
pub enum ReconcilePhase {
    AwaitingTip,
    Walking,
    Finished,
}

/// What one reconciliation run produced: the newly mined blocks, newest
/// first in discovery order, and the new tip.
pub struct ReconciliationResult {
    pub blocks: Vec<BlockRecord>,
    pub tip: String,
}

/// The reconciler's answer to an event: fetch the block with the given
/// identifier next, the run is complete, or the run failed.
pub enum Step {
    Fetch(String),
    Done(ReconciliationResult),
    Failed(ReconcileError),
}

/// Spec-level image of an answer.
pub ghost enum StepModel {
    Fetch(Seq<char>),
    Done(Seq<BlockModel>, Seq<char>),
    Failed(ReconcileError),
}

impl View for Step {
    type V = StepModel;

    open spec fn view(&self) -> StepModel {
        match self {
            Step::Fetch(id) => StepModel::Fetch(id@),
            Step::Done(r) => StepModel::Done(models_of(r.blocks@), r.tip@),
            Step::Failed(e) => StepModel::Failed(*e),
        }
    }
}

/// Spec-level image of the reconciler.
pub ghost struct ReconcilerModel {
    pub last_seen: Seq<char>,
    pub tip: Seq<char>,
    pub cursor: Seq<char>,
    pub collected: Seq<BlockModel>,
    pub remaining: nat,
    pub phase: ReconcilePhase,
}

/// Consecutive blocks are linked: each one's parent pointer is the
/// identifier of the next (older) entry.
pub open spec fn linked(bs: Seq<BlockModel>) -> bool {
    forall|i: int| 0 <= i < bs.len() - 1 ==> (#[trigger] bs[i]).parent == bs[i + 1].id
}

/// `bs` is a parent chain from `tip` down to `last`: the first entry is
/// the block at `tip`, parent pointers link the entries in order, and the
/// last entry's parent is `last`. An empty chain means the tip is `last`
/// itself.
pub open spec fn chain_from_to(bs: Seq<BlockModel>, tip: Seq<char>, last: Seq<char>) -> bool {
    &&& linked(bs)
    &&& (bs.len() == 0 ==> tip == last)
    &&& (bs.len() > 0 ==> bs[0].id == tip && bs[bs.len() - 1].parent == last)
}

/// The fresh reconciler model, before the tip has been fetched.
pub open spec fn init_model(last_seen: Seq<char>, max_depth: nat) -> ReconcilerModel {
    ReconcilerModel {
        last_seen,
        tip: Seq::<char>::empty(),
        cursor: Seq::<char>::empty(),
        collected: Seq::<BlockModel>::empty(),
        remaining: max_depth,
        phase: ReconcilePhase::AwaitingTip,
    }
}

/// The transition taken on the fetched tip: an unmoved tip completes the
/// run with no new blocks, otherwise the walk starts at the tip.
pub open spec fn spec_on_tip(s: ReconcilerModel, t: Seq<char>) -> (ReconcilerModel, StepModel) {
    if t == s.last_seen {
        (
            ReconcilerModel { tip: t, cursor: t, phase: ReconcilePhase::Finished, ..s },
            StepModel::Done(Seq::<BlockModel>::empty(), t),
        )
    } else if s.remaining == 0 {
        (
            ReconcilerModel { tip: t, cursor: t, phase: ReconcilePhase::Finished, ..s },
            StepModel::Failed(ReconcileError::Diverged),
        )
    } else {
        (
            ReconcilerModel { tip: t, cursor: t, phase: ReconcilePhase::Walking, ..s },
            StepModel::Fetch(t),
        )
    }
}

/// The transition taken on a fetched block: a block that is not the one
/// asked for fails the run; reaching the last-seen parent completes it;
/// exhausting the backtrack bound diverges; otherwise the walk continues
/// at the block's parent.
pub open spec fn spec_on_block(s: ReconcilerModel, b: BlockModel) -> (ReconcilerModel, StepModel) {
    if b.id != s.cursor {
        (
            ReconcilerModel { phase: ReconcilePhase::Finished, ..s },
            StepModel::Failed(ReconcileError::Decode),
        )
    } else {
        let collected = s.collected.push(b);
        let remaining = (s.remaining - 1) as nat;
        if b.parent == s.last_seen {
            (
                ReconcilerModel {
                    collected: Seq::<BlockModel>::empty(),
                    remaining,
                    phase: ReconcilePhase::Finished,
                    ..s
                },
                StepModel::Done(collected, s.tip),
            )
        } else if remaining == 0 {
            (
                ReconcilerModel {
                    collected,
                    remaining,
                    phase: ReconcilePhase::Finished,
                    ..s
                },
                StepModel::Failed(ReconcileError::Diverged),
            )
        } else {
            (
                ReconcilerModel {
                    collected,
                    remaining,
                    cursor: b.parent,
                    phase: ReconcilePhase::Walking,
                    ..s
                },
                StepModel::Fetch(b.parent),
            )
        }
    }
}

impl ReconcilerModel {
    /// The reconciler's invariant: while walking, the collected blocks
    /// form a parent chain from the tip down to the cursor, the cursor has
    /// not reached the last-seen block, and at least one more fetch is
    /// allowed by the backtrack bound.
    pub open spec fn wf(self) -> bool {
        match self.phase {
            ReconcilePhase::AwaitingTip => self.collected.len() == 0,
            ReconcilePhase::Walking => {
                &&& self.remaining >= 1
                &&& self.cursor != self.last_seen
                &&& chain_from_to(self.collected, self.tip, self.cursor)
            },
            ReconcilePhase::Finished => true,
        }
    }
}

/// The tip transition preserves the invariant, and a completed run carries
/// a parent chain from the tip to the last-seen block.
pub proof fn lemma_on_tip_wf(s: ReconcilerModel, t: Seq<char>)
    requires
        s.wf(),
        s.phase == ReconcilePhase::AwaitingTip,
    ensures
        spec_on_tip(s, t).0.wf(),
        spec_on_tip(s, t).1 matches StepModel::Done(bs, tip) ==> tip == t && chain_from_to(
            bs,
            t,
            s.last_seen,
        ),
{
}

/// The block transition preserves the invariant, and a completed run
/// carries a parent chain from the tip to the last-seen block.
pub proof fn lemma_on_block_wf(s: ReconcilerModel, b: BlockModel)
    requires
        s.wf(),
        s.phase == ReconcilePhase::Walking,
    ensures
        spec_on_block(s, b).0.wf(),
        spec_on_block(s, b).1 matches StepModel::Done(bs, tip) ==> tip == s.tip && bs.len() > 0
            && chain_from_to(bs, s.tip, s.last_seen),
        spec_on_block(s, b).1 is Fetch ==> spec_on_block(s, b).0.phase == ReconcilePhase::Walking
            && spec_on_block(s, b).0.remaining < s.remaining,
{
    if b.id == s.cursor {
        let collected = s.collected.push(b);
        assert(linked(collected)) by {
            assert forall|i: int| 0 <= i < collected.len() - 1 implies (#[trigger] collected[i]).parent
                == collected[i + 1].id by {
                if i < s.collected.len() - 1 {
                    assert(s.collected[i].parent == s.collected[i + 1].id);
                }
            }
        }
        if collected.len() > 1 {
            assert(collected[0].id == s.tip);
        }
    }
}

/// A provider snapshot: a block is served under its own identifier.
pub open spec fn provider_ok(p: Map<Seq<char>, BlockModel>) -> bool {
    forall|h: Seq<char>| p.contains_key(h) ==> (#[trigger] p[h]).id == h
}

/// The rest of a run against provider snapshot `p` from a walking state:
/// each step fetches the block at the cursor (a block the provider does
/// not serve is a transport failure) until the run completes or fails.
pub open spec fn spec_run(p: Map<Seq<char>, BlockModel>, s: ReconcilerModel) -> StepModel
    decreases s.remaining,
{
    if !p.contains_key(s.cursor) {
        StepModel::Failed(ReconcileError::Transport)
    } else {
        let next = spec_on_block(s, p[s.cursor]);
        if next.1 is Fetch && next.0.remaining < s.remaining {
            spec_run(p, next.0)
        } else {
            next.1
        }
    }
}

/// A whole reconciliation run against provider snapshot `p`: the fetched
/// tip `tip` is taken first, then blocks are fetched as the walk asks for
/// them.
pub open spec fn spec_reconcile(
    p: Map<Seq<char>, BlockModel>,
    last_seen: Seq<char>,
    max_depth: nat,
    tip: Seq<char>,
) -> StepModel {
    let first = spec_on_tip(init_model(last_seen, max_depth), tip);
    if first.1 is Fetch {
        spec_run(p, first.0)
    } else {
        first.1
    }
}

/// `bs` is the chain that provider snapshot `p` serves between `last`
/// (exclusive) and `tip` (inclusive): block by block from the tip, with
/// `last` first reached at the final entry's parent.
pub open spec fn true_chain(
    p: Map<Seq<char>, BlockModel>,
    bs: Seq<BlockModel>,
    tip: Seq<char>,
    last: Seq<char>,
) -> bool {
    &&& bs.len() > 0
    &&& p.contains_key(tip)
    &&& bs[0] == p[tip]
    &&& (forall|i: int|
        0 <= i < bs.len() - 1 ==> p.contains_key((#[trigger] bs[i]).parent) && bs[i + 1]
            == p[bs[i].parent])
    &&& bs[bs.len() - 1].parent == last
    &&& (forall|i: int| 0 <= i < bs.len() - 1 ==> (#[trigger] bs[i]).parent != last)
}

/// `bs` is a parent path served by `p` from `tip` on which no block's
/// parent is `last`.
pub open spec fn path_avoiding(
    p: Map<Seq<char>, BlockModel>,
    bs: Seq<BlockModel>,
    tip: Seq<char>,
    last: Seq<char>,
) -> bool {
    &&& bs.len() > 0
    &&& p.contains_key(tip)
    &&& bs[0] == p[tip]
    &&& (forall|i: int|
        0 <= i < bs.len() - 1 ==> p.contains_key((#[trigger] bs[i]).parent) && bs[i + 1]
            == p[bs[i].parent])
    &&& (forall|i: int| 0 <= i < bs.len() ==> (#[trigger] bs[i]).parent != last)
}

/// Idempotence: a run whose fetched tip equals the last-seen block — in
/// particular any run right after a successful one advanced the last-seen
/// block to the tip, against an unmoved provider — yields an empty batch
/// and the unchanged tip.
pub proof fn lemma_reconcile_idempotent(
    p: Map<Seq<char>, BlockModel>,
    last_seen: Seq<char>,
    max_depth: nat,
)
    ensures
        spec_reconcile(p, last_seen, max_depth, last_seen) == StepModel::Done(
            Seq::<BlockModel>::empty(),
            last_seen,
        ),
{
}

/// Ordering helper: a walking run that completes hands back the collected
/// prefix extended to a full parent chain from the tip to the last-seen
/// block.
proof fn lemma_run_ordered(
    p: Map<Seq<char>, BlockModel>,
    s: ReconcilerModel,
    bs: Seq<BlockModel>,
    tip: Seq<char>,
)
    requires
        s.wf(),
        s.phase == ReconcilePhase::Walking,
        spec_run(p, s) == StepModel::Done(bs, tip),
    ensures
        tip == s.tip,
        bs.len() > 0,
        chain_from_to(bs, s.tip, s.last_seen),
    decreases s.remaining,
{
    if p.contains_key(s.cursor) {
        let b = p[s.cursor];
        lemma_on_block_wf(s, b);
        let next = spec_on_block(s, b);
        if next.1 is Fetch {
            lemma_run_ordered(p, next.0, bs, tip);
        }
    }
}

/// Ordering: whatever the provider served, a completed reconciliation's
/// blocks form a parent chain from the fetched tip down to the last-seen
/// block: each entry's parent is the next entry's identifier, and the last
/// entry's parent is the last-seen block.
pub proof fn lemma_reconcile_ordered(
    p: Map<Seq<char>, BlockModel>,
    last_seen: Seq<char>,
    max_depth: nat,
    tip: Seq<char>,
    bs: Seq<BlockModel>,
    new_tip: Seq<char>,
)
    requires
        spec_reconcile(p, last_seen, max_depth, tip) == StepModel::Done(bs, new_tip),
    ensures
        new_tip == tip,
        chain_from_to(bs, tip, last_seen),
{
    let s0 = init_model(last_seen, max_depth);
    lemma_on_tip_wf(s0, tip);
    let first = spec_on_tip(s0, tip);
    if first.1 is Fetch {
        lemma_run_ordered(p, first.0, bs, new_tip);
    }
}

/// Completeness helper: a walking run over the exact remaining chain
/// completes with the collected prefix followed by that chain.
proof fn lemma_run_complete(p: Map<Seq<char>, BlockModel>, s: ReconcilerModel, bs: Seq<BlockModel>)
    requires
        provider_ok(p),
        s.wf(),
        s.phase == ReconcilePhase::Walking,
        true_chain(p, bs, s.cursor, s.last_seen),
        bs.len() <= s.remaining,
    ensures
        spec_run(p, s) == StepModel::Done(s.collected + bs, s.tip),
    decreases bs.len(),
{
    let b = p[s.cursor];
    assert(b == bs[0]);
    assert(b.id == s.cursor);
    lemma_on_block_wf(s, b);
    let next = spec_on_block(s, b);
    if bs.len() == 1 {
        assert(b.parent == s.last_seen);
        assert(s.collected.push(b) =~= s.collected + bs);
    } else {
        assert(b.parent != s.last_seen);
        let rest = bs.subrange(1, bs.len() as int);
        assert forall|i: int| 0 <= i < rest.len() - 1 implies p.contains_key(
            (#[trigger] rest[i]).parent,
        ) && rest[i + 1] == p[rest[i].parent] by {
            assert(rest[i] == bs[i + 1]);
            assert(rest[i + 1] == bs[i + 2]);
        }
        assert forall|i: int| 0 <= i < rest.len() - 1 implies (#[trigger] rest[i]).parent
            != s.last_seen by {
            assert(rest[i] == bs[i + 1]);
        }
        assert(rest[0] == bs[1]);
        assert(rest[rest.len() - 1] == bs[bs.len() - 1]);
        lemma_run_complete(p, next.0, rest);
        assert(next.0.collected + rest =~= s.collected + bs);
    }
}

/// Completeness: if the provider serves a chain of exactly `bs.len()`
/// blocks between the last-seen block (exclusive) and the tip (inclusive),
/// and the backtrack bound admits it, reconciliation returns exactly those
/// blocks, newest first, with the fetched tip.
pub proof fn lemma_reconcile_complete(
    p: Map<Seq<char>, BlockModel>,
    last_seen: Seq<char>,
    max_depth: nat,
    tip: Seq<char>,
    bs: Seq<BlockModel>,
)
    requires
        provider_ok(p),
        tip != last_seen,
        true_chain(p, bs, tip, last_seen),
        bs.len() <= max_depth,
    ensures
        spec_reconcile(p, last_seen, max_depth, tip) == StepModel::Done(bs, tip),
{
    let s0 = init_model(last_seen, max_depth);
    lemma_on_tip_wf(s0, tip);
    let first = spec_on_tip(s0, tip);
    lemma_run_complete(p, first.0, bs);
    assert(first.0.collected + bs =~= bs);
}

/// Divergence helper: a walking run along a path that never reaches the
/// last-seen block exhausts its bound and fails as diverged.
proof fn lemma_run_diverges(p: Map<Seq<char>, BlockModel>, s: ReconcilerModel, bs: Seq<BlockModel>)
    requires
        provider_ok(p),
        s.wf(),
        s.phase == ReconcilePhase::Walking,
        path_avoiding(p, bs, s.cursor, s.last_seen),
        bs.len() >= s.remaining,
    ensures
        spec_run(p, s) == StepModel::Failed(ReconcileError::Diverged),
    decreases s.remaining,
{
    let b = p[s.cursor];
    assert(b == bs[0]);
    assert(b.id == s.cursor);
    assert(b.parent != s.last_seen);
    lemma_on_block_wf(s, b);
    let next = spec_on_block(s, b);
    if next.1 is Fetch {
        let rest = bs.subrange(1, bs.len() as int);
        assert forall|i: int| 0 <= i < rest.len() - 1 implies p.contains_key(
            (#[trigger] rest[i]).parent,
        ) && rest[i + 1] == p[rest[i].parent] by {
            assert(rest[i] == bs[i + 1]);
            assert(rest[i + 1] == bs[i + 2]);
        }
        assert forall|i: int| 0 <= i < rest.len() implies (#[trigger] rest[i]).parent
            != s.last_seen by {
            assert(rest[i] == bs[i + 1]);
        }
        assert(rest[0] == bs[1]);
        lemma_run_diverges(p, next.0, rest);
    }
}

/// Divergence safety: if the provider serves from the tip a parent path at
/// least as long as the backtrack bound on which the last-seen block is
/// never reached, reconciliation fails as diverged instead of walking
/// further.
pub proof fn lemma_reconcile_diverges(
    p: Map<Seq<char>, BlockModel>,
    last_seen: Seq<char>,
    max_depth: nat,
    tip: Seq<char>,
    bs: Seq<BlockModel>,
)
    requires
        provider_ok(p),
        tip != last_seen,
        path_avoiding(p, bs, tip, last_seen),
        bs.len() >= max_depth,
    ensures
        spec_reconcile(p, last_seen, max_depth, tip) == StepModel::Failed(
            ReconcileError::Diverged,
        ),
{
    let s0 = init_model(last_seen, max_depth);
    lemma_on_tip_wf(s0, tip);
    let first = spec_on_tip(s0, tip);
    if first.1 is Fetch {
        lemma_run_diverges(p, first.0, bs);
    }
}

/// The reconciler. The surrounding program fetches the tip, hands it to
/// `on_tip`, then fetches whatever block each `Step::Fetch` asks for and
/// hands it to `on_block`, until the run completes or fails.
pub struct Reconciler {
    pub last_seen: String,
    pub tip: String,
    pub cursor: String,
    pub collected: Vec<BlockRecord>,
    pub remaining: usize,
    pub phase: ReconcilePhase,
}

impl View for Reconciler {
    type V = ReconcilerModel;

    open spec fn view(&self) -> ReconcilerModel {
        ReconcilerModel {
            last_seen: self.last_seen@,
            tip: self.tip@,
            cursor: self.cursor@,
            collected: models_of(self.collected@),
            remaining: self.remaining as nat,
            phase: self.phase,
        }
    }
}

impl Reconciler {
    /// A fresh run: nothing collected yet, at most `max_depth` blocks to
    /// be fetched while backtracking.
    pub fn new(last_seen: String, max_depth: usize) -> (r: Reconciler)
        ensures
            r@ == init_model(last_seen@, max_depth as nat),
            r@.wf(),
    {
        let r = Reconciler {
            last_seen,
            tip: String::new(),
            cursor: String::new(),
            collected: Vec::new(),
            remaining: max_depth,
            phase: ReconcilePhase::AwaitingTip,
        };
        assert(models_of(r.collected@) =~= Seq::<BlockModel>::empty());
        r
    }

    /// Takes the fetched chain tip and answers with the finished (empty)
    /// result if the tip has not moved, or with the first block to fetch.
    pub fn on_tip(&mut self, tip: String) -> (step: Step)
        requires
            old(self)@.wf(),
            old(self)@.phase == ReconcilePhase::AwaitingTip,
        ensures
            final(self)@ == spec_on_tip(old(self)@, tip@).0,
            step@ == spec_on_tip(old(self)@, tip@).1,
            final(self)@.wf(),
    {
        proof {
            lemma_on_tip_wf(self@, tip@);
        }
        if tip == self.last_seen {
            self.cursor = tip.clone();
            self.tip = tip.clone();
            self.phase = ReconcilePhase::Finished;
            let result = ReconciliationResult { blocks: Vec::new(), tip };
            assert(models_of(result.blocks@) =~= Seq::<BlockModel>::empty());
            Step::Done(result)
        } else if self.remaining == 0 {
            self.cursor = tip.clone();
            self.tip = tip;
            self.phase = ReconcilePhase::Finished;
            Step::Failed(ReconcileError::Diverged)
        } else {
            self.cursor = tip.clone();
            self.tip = tip.clone();
            self.phase = ReconcilePhase::Walking;
            assert(self@.collected =~= models_of(old(self).collected@));
            Step::Fetch(tip)
        }
    }

    /// Takes the block fetched for the current cursor and answers with the
    /// finished result, a divergence failure, or the next block to fetch.
    pub fn on_block(&mut self, block: BlockRecord) -> (step: Step)
        requires
            old(self)@.wf(),
            old(self)@.phase == ReconcilePhase::Walking,
        ensures
            final(self)@ == spec_on_block(old(self)@, block@).0,
            step@ == spec_on_block(old(self)@, block@).1,
            final(self)@.wf(),
            step@ matches StepModel::Done(bs, tip) ==> chain_from_to(
                bs,
                old(self)@.tip,
                old(self)@.last_seen,
            ),
    {
        proof {
            lemma_on_block_wf(self@, block@);
        }
        if !(block.id == self.cursor) {
            self.phase = ReconcilePhase::Finished;
            return Step::Failed(ReconcileError::Decode);
        }
        let parent_reached = block.parent == self.last_seen;
        let parent = block.parent.clone();
        self.remaining = self.remaining - 1;
        self.collected.push(block);
        proof {
            assert(models_of(self.collected@) =~= models_of(old(self).collected@).push(
                self.collected@[self.collected@.len() - 1]@,
            ));
        }
        if parent_reached {
            self.phase = ReconcilePhase::Finished;
            let mut blocks: Vec<BlockRecord> = Vec::new();
            core::mem::swap(&mut blocks, &mut self.collected);
            assert(models_of(self.collected@) =~= Seq::<BlockModel>::empty());
            let result = ReconciliationResult { blocks, tip: self.tip.clone() };
            Step::Done(result)
        } else if self.remaining == 0 {
            self.phase = ReconcilePhase::Finished;
            Step::Failed(ReconcileError::Diverged)
        } else {
            self.cursor = parent.clone();
            self.phase = ReconcilePhase::Walking;
            Step::Fetch(parent)
        }
    }
}

} // verus!
