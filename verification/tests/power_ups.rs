use insiculous_pong::game::PongGame;
use insiculous_pong::power_ups::{hash, hash_bits24, powerup_kind_for, powerup_spawn_draws};
use insiculous_pong::types::{Command, GameState, PowerUpKind};

#[test]
fn hash_values() {
    assert_eq!(hash(0), 0);
    assert_eq!(hash(1), 2654435761);
    assert_eq!(hash(2), 1013904226);
    assert_eq!(hash(3), 3668339987);
    assert_eq!(hash_bits24(1), 10368889);
    assert_eq!(hash_bits24(2), 3960563);
}

#[test]
fn kind_follows_hash_parity() {
    assert_eq!(powerup_kind_for(7), PowerUpKind::MultiBall);
    assert_eq!(powerup_kind_for(8), PowerUpKind::SpeedBoost);
    assert_eq!(powerup_kind_for(0), PowerUpKind::SpeedBoost);
}

#[test]
fn spawn_draws_use_next_three_frames() {
    assert_eq!(powerup_spawn_draws(0), (10368889, 3960563, 14329453));
    assert_eq!(powerup_spawn_draws(7), (15842253, 9433927, 3025600));
    let (a, b, _) = powerup_spawn_draws(u32::MAX);
    assert_eq!(a, 0);
    assert_eq!(b, 10368889);
}

#[test]
fn spawns_only_while_playing_and_below_cap() {
    let mut g = PongGame::new();
    assert!(!g.powerup_spawn_allowed(0));
    g.state = GameState::Serving;
    assert!(!g.powerup_spawn_allowed(0));
    g.state = GameState::Playing;
    assert!(g.powerup_spawn_allowed(0));
    assert!(g.powerup_spawn_allowed(2));
    assert!(!g.powerup_spawn_allowed(3));
}

#[test]
fn pickup_effects() {
    let g = PongGame::new();
    let cmds = g.check_powerup_collisions(&vec![
        (PowerUpKind::MultiBall, 10),
        (PowerUpKind::SpeedBoost, 11),
    ]);
    assert_eq!(cmds, vec![Command::SpawnExtraBall { source: 10 }, Command::StartSpeedBoost]);
    assert_eq!(PowerUpKind::SpeedBoost.entity_name(), "Power-Up (Speed Boost)");
    assert_eq!(PowerUpKind::MultiBall.entity_name(), "Power-Up (Multi-Ball)");
}
