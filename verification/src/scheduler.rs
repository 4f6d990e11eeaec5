//! The polling scheduler's decisions: how the shared state advances after
//! a reconciliation, and when a failure notice may be dispatched. The
//! surrounding program runs the fixed-interval loop, does the fetching and
//! the publishing, and hands the outcomes in.

use vstd::prelude::*;
use crate::block::models_of;
use crate::message::{
    Message, TEXT_NOTE_KIND, blocks_content, block_link, format_blocks, format_unreachable_notice,
    running_for_text, unreachable_text, uptime_text,
};
use crate::reconcile::ReconciliationResult;
use crate::timefmt::MAX_RENDERABLE_TIMESTAMP;

verus! {

/// The fixed polling interval, in seconds.
pub const DEFAULT_POLL_INTERVAL_SECS: u64 = 30;

/// How long dispatched failure notices are suppressed, in seconds.
pub const DEFAULT_COOLDOWN_SECS: u64 = 3600;

/// The default backtrack bound of a reconciliation run.
pub const DEFAULT_MAX_BACKTRACK_DEPTH: usize = 5000;

/// The bot's long-lived state: the last block seen, when the bot started,
/// and the failure-notice cooldown tracking.
pub struct BotState {
    pub last_seen: String,
    pub start_time: u64,
    pub cooldown: u64,
    pub last_notice: Option<u64>,
}

/// When a failure notice is due: none was ever dispatched, or more than
/// the cooldown has elapsed since the last one.
pub open spec fn notice_due(last_notice: Option<u64>, cooldown: u64, now: u64) -> bool {
    match last_notice {
        Option::None => true,
        Option::Some(t) => now > t + cooldown,
    }
}

impl BotState {
    /// The state at startup: seeded with a last-seen block, no failure
    /// notice dispatched yet.
    pub fn new(last_seen: String, start_time: u64, cooldown: u64) -> (s: BotState)
        ensures
            s.last_seen@ == last_seen@,
            s.start_time == start_time,
            s.cooldown == cooldown,
            s.last_notice is None,
    {
        BotState { last_seen, start_time, cooldown, last_notice: None }
    }

    /// A successful reconciliation: the last-seen block advances to the
    /// new tip, exactly once per run, and a non-empty batch — and only a
    /// non-empty one — is rendered for dispatch.
    pub fn on_reconcile_success(&mut self, result: ReconciliationResult, now: u64) -> (m: Option<
        Message,
    >)
        requires
            forall|k: int|
                0 <= k < result.blocks@.len() ==> (#[trigger] result.blocks@[k]).timestamp
                    <= MAX_RENDERABLE_TIMESTAMP,
        ensures
            final(self).last_seen@ == result.tip@,
            final(self).start_time == old(self).start_time,
            final(self).cooldown == old(self).cooldown,
            final(self).last_notice == old(self).last_notice,
            m is Some <==> result.blocks@.len() > 0,
            m matches Some(msg) ==> {
                &&& msg.created_at == now
                &&& msg.kind == TEXT_NOTE_KIND
                &&& msg.content@ == blocks_content(models_of(result.blocks@))
                &&& msg.tags@.len() == 1 + result.blocks@.len()
                &&& msg.tags@[0].0@ == "#t"@ && msg.tags@[0].1@ == "bitcoin"@
                &&& forall|k: int|
                    0 <= k < result.blocks@.len() ==> (#[trigger] msg.tags@[k + 1]).0@ == "#r"@
                        && msg.tags@[k + 1].1@ == block_link(result.blocks@[k]@.id)
            },
    {
        let message = if result.blocks.len() > 0 {
            Some(format_blocks(&result.blocks, now))
        } else {
            None
        };
        self.last_seen = result.tip;
        message
    }

    /// A failed reconciliation: a fixed unreachable notice is rendered if
    /// and only if one is due, and dispatching one resets the cooldown
    /// clock; the last-seen block does not move.
    pub fn on_reconcile_failure(&mut self, now: u64) -> (m: Option<Message>)
        requires
            old(self).last_notice matches Some(t) ==> now >= t,
        ensures
            final(self).last_seen@ == old(self).last_seen@,
            final(self).start_time == old(self).start_time,
            final(self).cooldown == old(self).cooldown,
            m is Some <==> notice_due(old(self).last_notice, old(self).cooldown, now),
            m matches Some(msg) ==> {
                &&& msg.created_at == now
                &&& msg.kind == TEXT_NOTE_KIND
                &&& msg.content@ == unreachable_text()
                &&& msg.tags@.len() == 0
            },
            notice_due(old(self).last_notice, old(self).cooldown, now) ==> final(self).last_notice
                == Some(now),
            !notice_due(old(self).last_notice, old(self).cooldown, now) ==> final(self).last_notice
                == old(self).last_notice,
    {
        let due = match self.last_notice {
            None => true,
            Some(t) => now - t > self.cooldown,
        };
        if due {
            self.last_notice = Some(now);
            Some(format_unreachable_notice(now))
        } else {
            None
        }
    }

    /// The reply to an uptime query at time `now`.
    pub fn uptime_reply(&self, now: u64) -> (r: String)
        requires
            now >= self.start_time,
        ensures
            r@ == running_for_text((now - self.start_time) as nat),
    {
        uptime_text(now - self.start_time)
    }
}

/// Error-rate limiting, suppression half: once a notice has been
/// dispatched at `t1`, a failure at any time up to one cooldown later is
/// suppressed.
pub proof fn lemma_notice_suppressed_within_cooldown(t1: u64, t2: u64, cooldown: u64)
    requires
        t1 <= t2 <= t1 + cooldown,
    ensures
        !notice_due(Some(t1), cooldown, t2),
{
}

/// Error-rate limiting, dispatch half: a failure strictly more than one
/// cooldown after the last notice dispatches a new one.
pub proof fn lemma_notice_due_after_cooldown(t1: u64, t2: u64, cooldown: u64)
    requires
        t2 > t1 + cooldown,
    ensures
        notice_due(Some(t1), cooldown, t2),
{
}

} // verus!
