//! The invite handler's decisions: whether an invitation is for this bot,
//! and the capped exponential backoff used to retry accepting it.
//!
//! Servers may advertise an invite slightly before the invitee is authorized
//! to join, so a failed accept is retried after 2 s, then 4 s, 8 s, and so
//! on, each wait doubling the last. The room is abandoned once the next wait
//! would exceed an hour.

use vstd::prelude::*;

verus! {

/// The first wait between join attempts, in seconds.
pub const INITIAL_BACKOFF_SECS: u64 = 2;

/// No wait beyond this many seconds is attempted; reaching it abandons the
/// room.
pub const MAX_BACKOFF_SECS: u64 = 3600;

/// The wait scheduled after a given number of failed join attempts: 2 s
/// doubled once per failure.
pub open spec fn spec_backoff_delay(failures: nat) -> nat
    decreases failures,
{
    if failures == 0 {
        2
    } else {
        2 * spec_backoff_delay((failures - 1) as nat)
    }
}

/// Whether a membership invitation should be acted on at all: it must name
/// this bot's own account as its target, and the room must still be in the
/// invited-not-yet-joined state. Anyone else's invite is ignored.
pub fn should_accept_invite(invite_target: &String, bot_user: &String, invited: bool) -> (r: bool)
    ensures
        r == (invite_target@ == bot_user@ && invited),
{
    invited && *invite_target == *bot_user
}

/// The per-room retry state while an invite accept is failing: how long the
/// next wait is.
pub struct InviteRetry {
    delay: u64,
}

impl InviteRetry {
    /// The wait, in seconds, the next failure will cost.
    pub closed spec fn spec_delay(&self) -> u64 {
        self.delay
    }

    /// Fresh retry state for a just-received invitation.
    pub fn new() -> (s: Self)
        ensures
            s.spec_delay() == spec_backoff_delay(0),
    {
        InviteRetry { delay: INITIAL_BACKOFF_SECS }
    }

    /// Record one failed join attempt. Returns the wait to sleep before
    /// anything else happens, and whether the join is to be attempted again
    /// afterwards: it is not once the next wait would exceed the cap, and
    /// the room is then abandoned, left un-joined.
    pub fn on_failure(&mut self) -> (r: (u64, bool))
        requires
            old(self).spec_delay() <= MAX_BACKOFF_SECS,
        ensures
            r.0 == old(self).spec_delay(),
            final(self).spec_delay() == 2 * old(self).spec_delay(),
            r.1 == (final(self).spec_delay() <= MAX_BACKOFF_SECS),
    {
        let wait = self.delay;
        self.delay = wait * 2;
        (wait, self.delay <= MAX_BACKOFF_SECS)
    }
}

/// The backoff schedule doubles with every failure, and the retrying stops
/// exactly after the eleventh wait: the wait after `failures` failures stays
/// within the one-hour cap exactly as long as `failures` is at most ten.
pub proof fn lemma_backoff_bound(failures: nat)
    ensures
        spec_backoff_delay(failures + 1) == 2 * spec_backoff_delay(failures),
        spec_backoff_delay(failures) <= MAX_BACKOFF_SECS <==> failures <= 10,
{
    reveal_with_fuel(spec_backoff_delay, 12);
    assert(spec_backoff_delay(10) == 2048);
    assert(spec_backoff_delay(11) == 4096);
    if failures <= 10 {
        lemma_backoff_monotone(failures, 10);
    } else {
        lemma_backoff_monotone(11, failures);
    }
}

/// The backoff schedule never shrinks as failures accumulate.
proof fn lemma_backoff_monotone(a: nat, b: nat)
    requires
        a <= b,
    ensures
        spec_backoff_delay(a) <= spec_backoff_delay(b),
    decreases b,
{
    if a < b {
        lemma_backoff_monotone(a, (b - 1) as nat);
    }
}

} // verus!
