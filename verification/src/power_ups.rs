//! Power-up timing choices and pickup effects. Pickup tracking and the
//! timers themselves live in the engine; this module decides when a spawn
//! may happen, which kind spawns, where, and what a pickup does.

use vstd::prelude::*;
use crate::game::PongGame;
use crate::types::{Command, EntityId, GameState, PowerUpKind, MAX_POWERUPS};

verus! {

/// Multiplicative hash of a frame counter, in 32-bit wrapping arithmetic.
pub open spec fn spec_hash(seed: u32) -> u32 {
    ((seed as int * 2654435761) % 0x1_0000_0000) as u32
}

/// The top 24 bits of the hash: divided by 2^24 this is a value in [0, 1).
pub open spec fn spec_hash_bits24(seed: u32) -> u32 {
    (spec_hash(seed) / 256) as u32
}

pub open spec fn spec_wrap_add(x: u32, k: u32) -> u32 {
    ((x as int + k as int) % 0x1_0000_0000) as u32
}

/// Simple hash for pseudo-random values from the frame count.
pub fn hash(seed: u32) -> (h: u32)
    ensures
        h == spec_hash(seed),
{
    seed.wrapping_mul(2654435761)
}

/// The 24 high bits of `hash(seed)`.
pub fn hash_bits24(seed: u32) -> (h: u32)
    ensures
        h == spec_hash_bits24(seed),
        h < 0x100_0000,
{
    let x = hash(seed);
    let r = x >> 8;
    assert(r == x / 256 && r < 0x100_0000) by (bit_vector)
        requires
            r == x >> 8,
    ;
    r
}

/// The kind of power-up spawned on a frame: speed boost when the frame's
/// hash is even, multi-ball when odd.
pub fn powerup_kind_for(frame: u32) -> (k: PowerUpKind)
    ensures
        k == (if spec_hash(frame) % 2 == 0 {
            PowerUpKind::SpeedBoost
        } else {
            PowerUpKind::MultiBall
        }),
{
    if hash(frame) % 2 == 0 {
        PowerUpKind::SpeedBoost
    } else {
        PowerUpKind::MultiBall
    }
}

/// Random draws of a power-up spawn on a frame: x position, y position and
/// the delay to the next spawn, each as 24 high hash bits of the frame
/// counter plus 1, 2 and 3.
pub fn powerup_spawn_draws(frame: u32) -> (d: (u32, u32, u32))
    ensures
        d.0 == spec_hash_bits24(spec_wrap_add(frame, 1)),
        d.1 == spec_hash_bits24(spec_wrap_add(frame, 2)),
        d.2 == spec_hash_bits24(spec_wrap_add(frame, 3)),
{
    (
        hash_bits24(frame.wrapping_add(1)),
        hash_bits24(frame.wrapping_add(2)),
        hash_bits24(frame.wrapping_add(3)),
    )
}

/// What a collected pickup does: a speed boost starts the boost timer, a
/// multi-ball spawns an extra ball from the ball that collected it.
pub open spec fn spec_pickup_cmd(p: (PowerUpKind, EntityId)) -> Command {
    match p.0 {
        PowerUpKind::SpeedBoost => Command::StartSpeedBoost,
        PowerUpKind::MultiBall => Command::SpawnExtraBall { source: p.1 },
    }
}

impl PongGame {
    /// Power-ups only count down and spawn while the ball is in play, and
    /// never beyond `MAX_POWERUPS` alive at once.
    pub fn powerup_spawn_allowed(&self, active: usize) -> (b: bool)
        ensures
            b == (self.state == GameState::Playing && active < MAX_POWERUPS),
    {
        match self.state {
            GameState::Playing => active < MAX_POWERUPS,
            _ => false,
        }
    }

    /// Effects of the pickups collected this frame, in collection order.
    pub fn check_powerup_collisions(&self, collected: &Vec<(PowerUpKind, EntityId)>) -> (cmds: Vec<
        Command,
    >)
        ensures
            cmds@ == collected@.map_values(|p: (PowerUpKind, EntityId)| spec_pickup_cmd(p)),
    {
        let mut cmds: Vec<Command> = Vec::new();
        let n = collected.len();
        for i in 0..n
            invariant
                n == collected@.len(),
                cmds@ == collected@.take(i as int).map_values(
                    |p: (PowerUpKind, EntityId)| spec_pickup_cmd(p),
                ),
        {
            let (kind, ball) = collected[i];
            let c = match kind {
                PowerUpKind::SpeedBoost => Command::StartSpeedBoost,
                PowerUpKind::MultiBall => Command::SpawnExtraBall { source: ball },
            };
            cmds.push(c);
            assert(collected@.take(i + 1) == collected@.take(i as int).push(collected@[i as int]));
            assert(cmds@ =~= collected@.take(i + 1).map_values(
                |p: (PowerUpKind, EntityId)| spec_pickup_cmd(p),
            ));
        }
        assert(collected@.take(n as int) == collected@);
        cmds
    }
}

} // verus!
