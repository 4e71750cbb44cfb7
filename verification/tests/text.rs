use insiculous_pong::achievements::{register_all, Achievement};
use insiculous_pong::game::PongGame;
use insiculous_pong::paddles::{left_paddle_merges_both_players, right_paddle_is_cpu};
use insiculous_pong::types::{ChaosMode, Difficulty, GameMode};
use insiculous_pong::ui::{
    achievement_row, chaos_hint, display_sections, game_over_message, progress_text, push_decimal,
    score_text,
};

#[test]
fn score_lines() {
    assert_eq!(score_text(GameMode::SinglePlayer, 3, 12), "YOU 3  :  12 CPU");
    assert_eq!(score_text(GameMode::TwoPlayer, 0, 7), "P1 0  :  7 P2");
}

#[test]
fn decimal_digits() {
    let mut s = String::from("n=");
    push_decimal(&mut s, 1234567890);
    assert_eq!(s, "n=1234567890");
    let mut z = String::new();
    push_decimal(&mut z, 0);
    assert_eq!(z, "0");
    let mut m = String::new();
    push_decimal(&mut m, u64::MAX);
    assert_eq!(m, u64::MAX.to_string());
}

#[test]
fn progress_line() {
    assert_eq!(progress_text(5, 12), "5 / 12 unlocked");
}

#[test]
fn extra_ball_names() {
    let mut g = PongGame::new();
    g.install_primary(1);
    assert_eq!(g.next_extra_ball_name(), "Ball 2");
    g.add_extra_ball(2);
    assert_eq!(g.next_extra_ball_name(), "Ball 3");
}

#[test]
fn game_over_banners() {
    assert_eq!(game_over_message(GameMode::SinglePlayer, true), "YOU WIN!");
    assert_eq!(game_over_message(GameMode::SinglePlayer, false), "CPU WINS!");
    assert_eq!(game_over_message(GameMode::TwoPlayer, true), "PLAYER 1 WINS!");
    assert_eq!(game_over_message(GameMode::TwoPlayer, false), "PLAYER 2 WINS!");
}

#[test]
fn chaos_hints_and_labels() {
    assert_eq!(chaos_hint(ChaosMode::Normal), "Classic Pong.");
    assert_eq!(chaos_hint(ChaosMode::Insane), "Ball doubles speed on every paddle hit.");
    assert_eq!(chaos_hint(ChaosMode::Ridiculous), "Match starts with two balls.");
    assert_eq!(chaos_hint(ChaosMode::Insiculous), "Two balls AND each doubles on paddle hits.");
    assert_eq!(Difficulty::Easy.label(), "Easy");
    assert_eq!(Difficulty::Medium.label(), "Medium");
    assert_eq!(Difficulty::Hard.label(), "Hard");
}

#[test]
fn achievement_rows() {
    let r = achievement_row(Achievement::WinInsane, true, true);
    assert_eq!((r.marker, r.name, r.description), ("[X]", "Insanely Good", "Win a match in Insane mode."));
    let r = achievement_row(Achievement::WinInsane, false, false);
    assert_eq!((r.marker, r.name), ("[ ]", "Insanely Good"));
    let r = achievement_row(Achievement::WinInsane, false, true);
    assert_eq!((r.marker, r.name, r.description), ("[ ]", "???", "Hidden \u{2014} unlock to reveal"));
    assert!(!r.unlocked);
}

#[test]
fn sections_list_every_achievement_once() {
    let sections = display_sections();
    let titles: Vec<&str> = sections.iter().map(|(t, _)| *t).collect();
    assert_eq!(titles, vec!["Beat the CPU", "Chaos Mode Wins", "Multiplayer", "Shutouts"]);
    let listed: Vec<Achievement> = sections.into_iter().flat_map(|(_, ids)| ids).collect();
    assert_eq!(listed, register_all());
}

#[test]
fn paddle_drivers() {
    assert!(left_paddle_merges_both_players(GameMode::SinglePlayer));
    assert!(!left_paddle_merges_both_players(GameMode::TwoPlayer));
    assert!(right_paddle_is_cpu(GameMode::SinglePlayer));
    assert!(!right_paddle_is_cpu(GameMode::TwoPlayer));
}
