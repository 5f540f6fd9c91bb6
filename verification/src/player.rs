use vstd::prelude::*;

verus! {

/// Grace period after a death before a new player life may begin, in
/// milliseconds.
pub const RESPAWN_DELAY_MS: u64 = 1000;

/// Alive flag and the timestamp of the last death, in milliseconds since
/// simulation start. A `last_death` of zero means no death has been
/// recorded yet.
pub struct PlayerState {
    pub alive: bool,
    pub last_death: u64,
}

/// Per-life latch that keeps the fire key from auto-repeating: it must be
/// released before another bullet can be fired.
#[derive(Clone, Copy, PartialEq, Eq, Structural, Debug)]
pub struct PlayerReadyFire(pub bool);

/// A player life may begin only while the player is dead, and only if no
/// death has been recorded or at least the grace period has elapsed
/// since the last one.
pub open spec fn respawn_allowed(st: PlayerState, now: u64) -> bool {
    &&& !st.alive
    &&& (st.last_death == 0 || now >= st.last_death + RESPAWN_DELAY_MS)
}

/// Once a death has been recorded, no respawn is allowed strictly before
/// the grace period has elapsed.
pub proof fn lemma_no_early_respawn(st: PlayerState, now: u64)
    requires
        st.last_death != 0,
        now < st.last_death + RESPAWN_DELAY_MS,
    ensures
        !respawn_allowed(st, now),
{
}

impl PlayerState {
    /// Marks the player alive; the recorded death time is not consulted
    /// again until the next death.
    pub fn spawn(&mut self)
        ensures
            final(self).alive == true,
            final(self).last_death == old(self).last_death,
    {
        self.alive = true;
    }

    /// Marks the player dead and records the time of death.
    pub fn kill_at_time(&mut self, time: u64)
        ensures
            final(self).alive == false,
            final(self).last_death == time,
    {
        self.alive = false;
        self.last_death = time;
    }
}

impl Default for PlayerState {
    fn default() -> (r: Self)
        ensures
            r.alive == false,
            r.last_death == 0,
    {
        PlayerState { alive: false, last_death: 0 }
    }
}

} // verus!
