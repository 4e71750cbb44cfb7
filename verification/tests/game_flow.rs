use insiculous_pong::game::{serve_spread, PongGame, MULTI_BALL_SALT, RIDICULOUS_SERVE_SALT};
use insiculous_pong::achievements::Achievement;
use insiculous_pong::types::{
    ChaosMode, Command, Difficulty, GameMode, GameState, PauseAction, Side,
};

fn match_with_balls(primary: u64, extras: &[u64]) -> PongGame {
    let mut g = PongGame::new();
    g.playfield.left_paddle = Some(1);
    g.playfield.right_paddle = Some(2);
    g.playfield.left_goal = Some(3);
    g.playfield.right_goal = Some(4);
    g.playfield.walls = vec![5, 6];
    g.install_primary(primary);
    for &e in extras {
        g.add_extra_ball(e);
    }
    g
}

#[test]
fn new_game_starts_on_title_screen() {
    let g = PongGame::new();
    assert_eq!(g.state, GameState::TitleScreen { selection: 0 });
    assert_eq!(g.settings.mode, GameMode::SinglePlayer);
    assert_eq!(g.settings.difficulty, Difficulty::Medium);
    assert_eq!(g.settings.chaos, ChaosMode::Normal);
    assert_eq!((g.score.left, g.score.right), (0, 0));
    assert_eq!(g.score.last_scorer, Side::Right);
    assert_eq!(g.score.last_touch, None);
    assert!(g.balls.is_empty());
    assert_eq!(g.frame_count, 0);
    assert!(!g.debug_colliders);
    assert!(!g.gameplay_ready());
}

#[test]
fn frame_counter_wraps() {
    let mut g = PongGame::new();
    g.advance_frame();
    assert_eq!(g.frame_count, 1);
    g.frame_count = u32::MAX;
    g.advance_frame();
    assert_eq!(g.frame_count, 0);
}

#[test]
fn serve_spread_values() {
    assert_eq!(serve_spread(0, 0), 0);
    assert_eq!(serve_spread(7, 0), 21380);
    assert_eq!(serve_spread(60, 0), 5376);
    assert_eq!(serve_spread(60, RIDICULOUS_SERVE_SALT), 5377);
    assert_eq!(serve_spread(7, MULTI_BALL_SALT), 2221);
    assert_eq!(serve_spread(u32::MAX, RIDICULOUS_SERVE_SALT), 25033);
}

#[test]
fn serve_launches_toward_last_scorers_opponent() {
    let mut g = match_with_balls(10, &[]);
    g.state = GameState::Serving;
    g.frame_count = 60;
    g.score.last_scorer = Side::Left;
    let cmds = g.serve();
    assert_eq!(cmds, vec![Command::Launch { ball: 10, toward: Side::Right, spread: 5376 }]);
    assert_eq!(g.state, GameState::Playing);
}

#[test]
fn ridiculous_serve_sends_second_ball_the_other_way() {
    let mut g = match_with_balls(10, &[]);
    g.settings.chaos = ChaosMode::Insiculous;
    g.state = GameState::Serving;
    g.frame_count = 60;
    let cmds = g.serve();
    assert_eq!(cmds, vec![
        Command::Launch { ball: 10, toward: Side::Left, spread: 5376 },
        Command::SpawnServeBall { toward: Side::Right, spread: 5377 },
    ]);
    assert_eq!(g.state, GameState::Playing);
}

#[test]
fn serve_without_ball_does_nothing() {
    let mut g = PongGame::new();
    g.state = GameState::Serving;
    assert!(g.serve().is_empty());
    assert_eq!(g.state, GameState::Serving);
}

#[test]
fn serving_menu_action_returns_to_title() {
    let mut g = match_with_balls(10, &[11, 12]);
    g.state = GameState::Serving;
    let cmds = g.handle_gameplay_input(true, true);
    assert_eq!(cmds, vec![
        Command::DestroyBall(11),
        Command::DestroyBall(12),
        Command::ClearPowerUps,
        Command::StopSpeedBoost,
        Command::ResetPositions,
    ]);
    assert_eq!(g.state, GameState::TitleScreen { selection: 0 });
    assert_eq!(g.balls.all(), vec![10]);
}

#[test]
fn serving_primary_action_serves() {
    let mut g = match_with_balls(10, &[]);
    g.state = GameState::Serving;
    g.frame_count = 7;
    let cmds = g.handle_gameplay_input(true, false);
    assert_eq!(cmds, vec![Command::Launch { ball: 10, toward: Side::Left, spread: 21380 }]);
    assert_eq!(g.state, GameState::Playing);
}

#[test]
fn game_over_primary_action_restarts() {
    let mut g = match_with_balls(10, &[11]);
    g.state = GameState::GameOver { left_wins: false };
    g.score.left = 3;
    g.score.right = 7;
    g.score.last_scorer = Side::Left;
    g.balls.double_speed(10);
    let cmds = g.handle_gameplay_input(true, true);
    assert_eq!(cmds, vec![
        Command::DestroyBall(11),
        Command::ClearPowerUps,
        Command::ResetPowerUps,
        Command::ApplyTheme,
        Command::ResetPositions,
    ]);
    assert_eq!(g.state, GameState::Serving);
    assert_eq!((g.score.left, g.score.right), (0, 0));
    assert_eq!(g.score.last_scorer, Side::Right);
    assert_eq!(g.balls.speed_doublings_of(10), 0);
    assert_eq!(g.balls.all(), vec![10]);
}

#[test]
fn game_over_menu_action_returns_to_title() {
    let mut g = match_with_balls(10, &[]);
    g.state = GameState::GameOver { left_wins: true };
    let cmds = g.handle_gameplay_input(false, true);
    assert_eq!(cmds, vec![Command::ClearPowerUps, Command::StopSpeedBoost, Command::ResetPositions]);
    assert_eq!(g.state, GameState::TitleScreen { selection: 0 });
}

#[test]
fn playing_ignores_gameplay_input() {
    let mut g = match_with_balls(10, &[]);
    g.state = GameState::Playing;
    assert!(g.handle_gameplay_input(true, true).is_empty());
    assert_eq!(g.state, GameState::Playing);
}

#[test]
fn win_condition_ends_match_with_achievements() {
    let mut g = match_with_balls(10, &[11]);
    g.settings.difficulty = Difficulty::Hard;
    g.state = GameState::Playing;
    g.score.left = 7;
    g.score.right = 0;
    let cmds = g.check_win_condition();
    assert_eq!(cmds, vec![
        Command::DestroyBall(11),
        Command::ClearPowerUps,
        Command::StopSpeedBoost,
        Command::Unlock(Achievement::BeatCpuEasy),
        Command::Unlock(Achievement::BeatCpuMedium),
        Command::Unlock(Achievement::BeatCpuHard),
        Command::Unlock(Achievement::WinNormal),
        Command::Unlock(Achievement::ShutoutNormal),
    ]);
    assert_eq!(g.state, GameState::GameOver { left_wins: true });
}

#[test]
fn cpu_reaching_seven_wins_without_achievements() {
    let mut g = match_with_balls(10, &[]);
    g.state = GameState::Serving;
    g.score.left = 6;
    g.score.right = 7;
    let cmds = g.check_win_condition();
    assert_eq!(cmds, vec![Command::ClearPowerUps, Command::StopSpeedBoost]);
    assert_eq!(g.state, GameState::GameOver { left_wins: false });
}

#[test]
fn no_winner_below_seven_or_outside_play() {
    let mut g = match_with_balls(10, &[]);
    g.state = GameState::Playing;
    g.score.left = 6;
    g.score.right = 6;
    assert!(g.check_win_condition().is_empty());
    assert_eq!(g.state, GameState::Playing);
    g.score.left = 9;
    g.state = GameState::GameOver { left_wins: true };
    assert!(g.check_win_condition().is_empty());
    assert_eq!(g.state, GameState::GameOver { left_wins: true });
}

#[test]
fn two_player_win_unlocks_friendly_rivalry() {
    let mut g = match_with_balls(10, &[]);
    g.settings.mode = GameMode::TwoPlayer;
    g.state = GameState::Playing;
    g.score.right = 7;
    let cmds = g.check_win_condition();
    assert_eq!(cmds, vec![
        Command::ClearPowerUps,
        Command::StopSpeedBoost,
        Command::Unlock(Achievement::TwoPlayer),
    ]);
}

#[test]
fn pause_actions() {
    let mut g = match_with_balls(10, &[11]);
    g.state = GameState::Playing;
    assert!(g.pause_applies());
    assert_eq!(g.handle_pause_action(PauseAction::Idle), (true, vec![]));
    assert_eq!(g.handle_pause_action(PauseAction::Resumed), (false, vec![]));
    assert_eq!(g.handle_pause_action(PauseAction::ExitGame), (false, vec![Command::ExitGame]));
    assert_eq!(g.state, GameState::Playing);
    let (go_on, cmds) = g.handle_pause_action(PauseAction::Restart);
    assert!(!go_on);
    assert_eq!(cmds[0], Command::DestroyBall(11));
    assert_eq!(g.state, GameState::Serving);
    let (go_on, cmds) = g.handle_pause_action(PauseAction::QuitToTitle);
    assert!(!go_on);
    assert_eq!(cmds, vec![Command::ClearPowerUps, Command::StopSpeedBoost, Command::ResetPositions]);
    assert_eq!(g.state, GameState::TitleScreen { selection: 0 });
    assert!(!g.pause_applies());
}

#[test]
fn debug_overlay_toggles() {
    let mut g = PongGame::new();
    g.toggle_debug_colliders();
    assert!(g.debug_colliders);
    g.toggle_debug_colliders();
    assert!(!g.debug_colliders);
}

#[test]
fn visibility_follows_screen() {
    let mut g = match_with_balls(10, &[11]);
    assert!(!g.gameplay_visible());
    assert_eq!(g.visibility_targets(), vec![1, 2, 10, 11, 5, 6]);
    for s in [GameState::Serving, GameState::Playing, GameState::GameOver { left_wins: true }] {
        g.state = s;
        assert!(g.gameplay_visible());
    }
    for s in [
        GameState::DifficultySelect { selection: 1 },
        GameState::ChaosSelect { selection: 2 },
        GameState::Achievements,
    ] {
        g.state = s;
        assert!(!g.gameplay_visible());
    }
    assert!(g.gameplay_ready());
}
