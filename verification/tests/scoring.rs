use insiculous_pong::game::PongGame;
use insiculous_pong::scoring::{scan_contacts, Arena};
use insiculous_pong::types::{ChaosMode, Collision, Command, GameState, Side};

fn arena_match(primary: u64, extras: &[u64]) -> PongGame {
    let mut g = PongGame::new();
    g.playfield.left_paddle = Some(1);
    g.playfield.right_paddle = Some(2);
    g.playfield.left_goal = Some(3);
    g.playfield.right_goal = Some(4);
    g.install_primary(primary);
    for &e in extras {
        g.add_extra_ball(e);
    }
    g.state = GameState::Playing;
    g
}

fn hit(a: u64, b: u64) -> Collision {
    Collision { first: a, second: b, started: true }
}

#[test]
fn primary_in_left_goal_scores_right_and_promotes_extra() {
    let mut g = arena_match(10, &[11, 12]);
    let cmds = g.check_goals(&vec![], &vec![hit(3, 10), hit(10, 3)]);
    assert_eq!(cmds, vec![
        Command::GoalExplosion { ball: 10, scorer: Side::Right },
        Command::DestroyBall(10),
    ]);
    assert_eq!((g.score.left, g.score.right), (0, 1));
    assert_eq!(g.score.last_scorer, Side::Right);
    assert_eq!(g.balls.primary, Some(12));
    assert_eq!(g.balls.all(), vec![12, 11]);
    assert_eq!(g.state, GameState::Playing);
}

#[test]
fn last_ball_scored_respawns_for_serve() {
    let mut g = arena_match(10, &[]);
    g.score.last_touch = Some(Side::Right);
    g.balls.double_speed(10);
    let cmds = g.check_goals(&vec![], &vec![hit(10, 4)]);
    assert_eq!(cmds, vec![
        Command::GoalExplosion { ball: 10, scorer: Side::Left },
        Command::DestroyBall(10),
        Command::ClearPowerUps,
        Command::StopSpeedBoost,
        Command::SpawnFreshBall,
    ]);
    assert_eq!((g.score.left, g.score.right), (1, 0));
    assert_eq!(g.score.last_touch, None);
    assert_eq!(g.state, GameState::Serving);
    assert!(g.balls.is_empty());
    assert_eq!(g.balls.speed_doublings_of(10), 0);
    g.install_primary(20);
    assert_eq!(g.balls.all(), vec![20]);
}

#[test]
fn escaped_ball_scores_for_named_side_before_contacts() {
    let mut g = arena_match(10, &[11]);
    let cmds = g.check_goals(&vec![(11, Side::Left)], &vec![hit(11, 3), hit(10, 2)]);
    assert_eq!(cmds, vec![
        Command::DestroyBall(11),
        Command::TintBall { ball: 10, side: Side::Right },
        Command::HitBurst { ball: 10, side: Side::Right },
    ]);
    assert_eq!((g.score.left, g.score.right), (1, 0));
    assert_eq!(g.score.last_touch, Some(Side::Right));
    assert_eq!(g.balls.all(), vec![10]);
}

#[test]
fn escape_of_only_ball_respawns() {
    let mut g = arena_match(10, &[]);
    let cmds = g.check_goals(&vec![(10, Side::Right)], &vec![]);
    assert_eq!(cmds, vec![
        Command::DestroyBall(10),
        Command::ClearPowerUps,
        Command::StopSpeedBoost,
        Command::SpawnFreshBall,
    ]);
    assert_eq!((g.score.left, g.score.right), (0, 1));
    assert_eq!(g.state, GameState::Serving);
}

#[test]
fn insane_paddle_hit_doubles_speed() {
    let mut g = arena_match(10, &[11]);
    g.settings.chaos = ChaosMode::Insane;
    let cmds = g.check_goals(&vec![], &vec![hit(1, 10), hit(11, 2), hit(10, 1)]);
    assert_eq!(cmds, vec![
        Command::TintBall { ball: 10, side: Side::Left },
        Command::TintBall { ball: 11, side: Side::Right },
        Command::TintBall { ball: 10, side: Side::Left },
        Command::DoubleVelocity(10),
        Command::DoubleVelocity(11),
        Command::DoubleVelocity(10),
        Command::HitBurst { ball: 10, side: Side::Left },
        Command::HitBurst { ball: 11, side: Side::Right },
        Command::HitBurst { ball: 10, side: Side::Left },
    ]);
    assert_eq!(g.balls.speed_doublings_of(10), 2);
    assert_eq!(g.balls.speed_doublings_of(11), 1);
    assert_eq!(g.score.last_touch, Some(Side::Left));
}

#[test]
fn normal_paddle_hit_only_tints() {
    let mut g = arena_match(10, &[]);
    let cmds = g.check_goals(&vec![], &vec![hit(2, 10)]);
    assert_eq!(cmds, vec![
        Command::TintBall { ball: 10, side: Side::Right },
        Command::HitBurst { ball: 10, side: Side::Right },
    ]);
    assert_eq!(g.balls.speed_doublings_of(10), 0);
}

#[test]
fn ended_contacts_are_ignored() {
    let mut g = arena_match(10, &[]);
    let cmds = g.check_goals(&vec![], &vec![Collision { first: 10, second: 3, started: false }]);
    assert!(cmds.is_empty());
    assert_eq!((g.score.left, g.score.right), (0, 0));
}

#[test]
fn nothing_happens_without_goals() {
    let mut g = arena_match(10, &[]);
    g.playfield.right_goal = None;
    let cmds = g.check_goals(&vec![(10, Side::Left)], &vec![hit(10, 3)]);
    assert!(cmds.is_empty());
    assert_eq!(g.balls.all(), vec![10]);
    assert_eq!(g.score.left, 0);
}

#[test]
fn scan_counts_each_ball_once() {
    let a = Arena { left_paddle: 1, right_paddle: 2, left_goal: 3, right_goal: 4 };
    let r = scan_contacts(None, &vec![hit(10, 3), hit(10, 4), hit(11, 4)], &vec![10, 11], a, false);
    assert_eq!(r.scored, vec![(10, Side::Right), (11, Side::Left)]);
    assert!(r.touches.is_empty());
    assert!(r.hits.is_empty());
    assert_eq!(r.last_touch, None);
}

#[test]
fn score_ball_and_destroy_ball() {
    let mut g = arena_match(10, &[11]);
    let cmds = g.score_ball(11, Side::Left);
    assert_eq!(cmds, vec![
        Command::GoalExplosion { ball: 11, scorer: Side::Left },
        Command::DestroyBall(11),
    ]);
    assert_eq!(g.score.left, 1);
    assert_eq!(g.destroy_ball(10), Command::DestroyBall(10));
    assert!(g.balls.is_empty());
}
