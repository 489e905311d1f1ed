//! A concrete simulated body: a point particle on an integer grid.
//!
//! The particle moves by its velocity once per tick and ages by one tick per
//! tick; it expires once its age reaches its lifetime. Position arithmetic
//! saturates at the ends of the coordinate range, so a tick is total and
//! deterministic for every particle state.

use vstd::prelude::*;

use crate::simulator::{Draw, Expire, Tick, TickDrawExpire};

verus! {

/// `a + b` clamped to the range of `i64`.
pub open spec fn saturating_add_i64(a: int, b: int) -> i64 {
    if a + b > i64::MAX {
        i64::MAX
    } else if a + b < i64::MIN {
        i64::MIN
    } else {
        (a + b) as i64
    }
}

/// `a + 1` clamped to the range of `u64`.
pub open spec fn saturating_inc_u64(a: u64) -> u64 {
    if a == u64::MAX {
        u64::MAX
    } else {
        (a + 1) as u64
    }
}

/// A point particle: position and velocity on an integer grid, plus its age
/// and lifetime in ticks. Velocity is measured in position units per tick.
/// All attributes are owned exclusively by the particle and mutated only
/// inside its own tick handler.
#[derive(Clone, Copy, Debug, PartialEq, Eq, Structural)]
pub struct Particle {
    /// Horizontal position.
    pub pos_x: i64,
    /// Vertical position.
    pub pos_y: i64,
    /// Horizontal velocity, in position units per tick.
    pub vel_x: i64,
    /// Vertical velocity, in position units per tick.
    pub vel_y: i64,
    /// How many ticks this particle has lived through.
    pub age_ticks: u64,
    /// The age, in ticks, at which the particle expires.
    pub lifetime_ticks: u64,
}

/// Adds `b` to `a`, saturating at the ends of the `i64` range.
fn saturating_add(a: i64, b: i64) -> (r: i64)
    ensures
        r == saturating_add_i64(a as int, b as int),
{
    if b >= 0 {
        if a <= i64::MAX - b {
            a + b
        } else {
            i64::MAX
        }
    } else {
        if a >= i64::MIN - b {
            a + b
        } else {
            i64::MIN
        }
    }
}

impl Tick for Particle {
    open spec fn ticked(self, tick_len: u64) -> Self {
        Particle {
            pos_x: saturating_add_i64(self.pos_x as int, self.vel_x as int),
            pos_y: saturating_add_i64(self.pos_y as int, self.vel_y as int),
            vel_x: self.vel_x,
            vel_y: self.vel_y,
            age_ticks: saturating_inc_u64(self.age_ticks),
            lifetime_ticks: self.lifetime_ticks,
        }
    }

    fn on_tick(&mut self, tick_len: u64) {
        self.pos_x = saturating_add(self.pos_x, self.vel_x);
        self.pos_y = saturating_add(self.pos_y, self.vel_y);
        if self.age_ticks < u64::MAX {
            self.age_ticks = self.age_ticks + 1;
        }
    }
}

impl Draw for Particle {
    /// A particle carries no rendering surface of its own; an embedding
    /// program reads the public fields and draws with its own primitives, so
    /// there is nothing for the core to do here.
    fn on_draw(&self) {
    }
}

impl Expire for Particle {
    open spec fn expired(self) -> bool {
        self.age_ticks >= self.lifetime_ticks
    }

    fn is_expired(&self) -> (r: bool) {
        self.age_ticks >= self.lifetime_ticks
    }
}

impl TickDrawExpire for Particle {
    proof fn expiry_monotonic(self, tick_len: u64) {
    }
}

} // verus!
