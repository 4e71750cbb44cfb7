use insiculous_pong::game::PongGame;
use insiculous_pong::types::{ChaosMode, Command, Difficulty, GameMode, GameState};

#[test]
fn title_choices() {
    let mut g = PongGame::new();
    assert!(g.update_title_input(2, false).is_empty());
    assert_eq!(g.state, GameState::TitleScreen { selection: 2 });

    assert!(g.update_title_input(0, true).is_empty());
    assert_eq!(g.state, GameState::DifficultySelect { selection: 1 });

    let mut g = PongGame::new();
    assert!(g.update_title_input(1, true).is_empty());
    assert_eq!(g.settings.mode, GameMode::TwoPlayer);
    assert_eq!(g.state, GameState::ChaosSelect { selection: 0 });

    let mut g = PongGame::new();
    g.update_title_input(2, true);
    assert_eq!(g.state, GameState::Achievements);

    let mut g = PongGame::new();
    assert_eq!(g.update_title_input(3, true), vec![Command::ExitGame]);
    assert_eq!(g.state, GameState::TitleScreen { selection: 3 });
}

#[test]
fn achievements_page_returns_to_title() {
    let mut g = PongGame::new();
    g.state = GameState::Achievements;
    g.update_achievements_input(false, false);
    assert_eq!(g.state, GameState::Achievements);
    g.update_achievements_input(true, false);
    assert_eq!(g.state, GameState::TitleScreen { selection: 2 });
    g.state = GameState::Achievements;
    g.update_achievements_input(false, true);
    assert_eq!(g.state, GameState::TitleScreen { selection: 2 });
}

#[test]
fn difficulty_choices() {
    let mut g = PongGame::new();
    g.settings.mode = GameMode::TwoPlayer;
    g.update_difficulty_input(0, false, true);
    assert_eq!(g.settings.mode, GameMode::SinglePlayer);
    assert_eq!(g.settings.difficulty, Difficulty::Easy);
    assert_eq!(g.state, GameState::ChaosSelect { selection: 0 });

    g.update_difficulty_input(2, false, true);
    assert_eq!(g.settings.difficulty, Difficulty::Hard);

    g.update_difficulty_input(1, false, false);
    assert_eq!(g.state, GameState::DifficultySelect { selection: 1 });
    assert_eq!(g.settings.difficulty, Difficulty::Hard);

    g.update_difficulty_input(1, true, true);
    assert_eq!(g.state, GameState::TitleScreen { selection: 0 });
    assert_eq!(g.settings.difficulty, Difficulty::Hard);
}

#[test]
fn chaos_confirm_starts_match() {
    let mut g = PongGame::new();
    g.install_primary(10);
    g.add_extra_ball(11);
    g.score.right = 4;
    let cmds = g.update_chaos_input(2, false, true);
    assert_eq!(cmds, vec![
        Command::SetChaosMode(ChaosMode::Ridiculous),
        Command::DestroyBall(11),
        Command::ClearPowerUps,
        Command::ResetPowerUps,
        Command::ApplyTheme,
        Command::ResetPositions,
    ]);
    assert_eq!(g.settings.chaos, ChaosMode::Ridiculous);
    assert_eq!(g.state, GameState::Serving);
    assert_eq!(g.score.right, 0);
}

#[test]
fn chaos_back_and_browse() {
    let mut g = PongGame::new();
    assert!(g.update_chaos_input(3, false, false).is_empty());
    assert_eq!(g.state, GameState::ChaosSelect { selection: 3 });
    assert_eq!(g.settings.chaos, ChaosMode::Normal);
    assert!(g.update_chaos_input(3, true, true).is_empty());
    assert_eq!(g.state, GameState::TitleScreen { selection: 0 });
}

#[test]
fn chaos_modes_in_menu_order() {
    assert_eq!(ChaosMode::from_index(0), ChaosMode::Normal);
    assert_eq!(ChaosMode::from_index(1), ChaosMode::Insane);
    assert_eq!(ChaosMode::from_index(2), ChaosMode::Ridiculous);
    assert_eq!(ChaosMode::from_index(3), ChaosMode::Insiculous);
    assert!(ChaosMode::Insiculous.is_insane() && ChaosMode::Insiculous.is_ridiculous());
    assert!(ChaosMode::Insane.is_insane() && !ChaosMode::Insane.is_ridiculous());
    assert!(!ChaosMode::Ridiculous.is_insane() && ChaosMode::Ridiculous.is_ridiculous());
    assert!(!ChaosMode::Normal.is_insane() && !ChaosMode::Normal.is_ridiculous());
}
