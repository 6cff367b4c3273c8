//! The attack cooldown of a fighting entity.
use vstd::prelude::*;

verus! {

/// Ticks left before an entity may attack again, and the full cooldown.
#[derive(Clone, Copy, Debug, PartialEq, Eq, Structural)]
pub struct AttackCooldown {
    pub remaining_ticks: u32,
    pub max_ticks: u32,
}

impl Default for AttackCooldown {
    fn default() -> (c: AttackCooldown)
        ensures
            c == (AttackCooldown { remaining_ticks: 0, max_ticks: 10 }),
    {
        AttackCooldown { remaining_ticks: 0, max_ticks: 10 }
    }
}

impl AttackCooldown {
    /// Whether the entity may attack now.
    pub fn is_ready(&self) -> (b: bool)
        ensures
            b == (self.remaining_ticks == 0),
    {
        self.remaining_ticks == 0
    }

    /// Starts the full cooldown.
    pub fn reset(&mut self)
        ensures
            *final(self) == (AttackCooldown { remaining_ticks: old(self).max_ticks, ..*old(self) }),
    {
        self.remaining_ticks = self.max_ticks;
    }

    /// Counts the cooldown down by one tick, not below zero.
    pub fn tick(&mut self)
        ensures
            *final(self) == (AttackCooldown {
                remaining_ticks: if old(self).remaining_ticks > 0 {
                    (old(self).remaining_ticks - 1) as u32
                } else {
                    0
                },
                ..*old(self)
            }),
    {
        if self.remaining_ticks > 0 {
            self.remaining_ticks = self.remaining_ticks - 1;
        }
    }
}

} // verus!
