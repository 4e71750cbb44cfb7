use insiculous_pong::achievements::{
    chaos_shutout_id, chaos_win_id, register_all, unlock_win_achievements, Achievement,
    BEAT_CPU_EASY, BEAT_CPU_HARD, BEAT_CPU_MEDIUM, SHUTOUT_INSANE, SHUTOUT_INSICULOUS,
    SHUTOUT_NORMAL, SHUTOUT_RIDICULOUS, TWO_PLAYER, WIN_INSANE, WIN_INSICULOUS, WIN_NORMAL,
    WIN_RIDICULOUS,
};
use insiculous_pong::types::{ChaosMode, Difficulty, GameMode, MatchSettings};

fn registered_ids() -> Vec<&'static str> {
    register_all().into_iter().map(|a| a.id()).collect()
}

#[test]
fn register_all_adds_twelve() {
    assert_eq!(register_all().len(), 12);
}

#[test]
fn chaos_win_id_maps_each_mode() {
    assert_eq!(chaos_win_id(ChaosMode::Normal), WIN_NORMAL);
    assert_eq!(chaos_win_id(ChaosMode::Insane), WIN_INSANE);
    assert_eq!(chaos_win_id(ChaosMode::Ridiculous), WIN_RIDICULOUS);
    assert_eq!(chaos_win_id(ChaosMode::Insiculous), WIN_INSICULOUS);
}

#[test]
fn chaos_shutout_id_maps_each_mode() {
    assert_eq!(chaos_shutout_id(ChaosMode::Normal), SHUTOUT_NORMAL);
    assert_eq!(chaos_shutout_id(ChaosMode::Insane), SHUTOUT_INSANE);
    assert_eq!(chaos_shutout_id(ChaosMode::Ridiculous), SHUTOUT_RIDICULOUS);
    assert_eq!(chaos_shutout_id(ChaosMode::Insiculous), SHUTOUT_INSICULOUS);
}

#[test]
fn every_id_is_registered() {
    let ids = registered_ids();
    for id in [
        BEAT_CPU_EASY, BEAT_CPU_MEDIUM, BEAT_CPU_HARD,
        WIN_NORMAL, WIN_INSANE, WIN_RIDICULOUS, WIN_INSICULOUS,
        TWO_PLAYER,
        SHUTOUT_NORMAL, SHUTOUT_INSANE, SHUTOUT_RIDICULOUS, SHUTOUT_INSICULOUS,
    ] {
        assert!(ids.contains(&id), "{} not registered", id);
    }
}

#[test]
fn registered_ids_are_distinct() {
    let ids = registered_ids();
    for (i, a) in ids.iter().enumerate() {
        for b in &ids[i + 1..] {
            assert_ne!(a, b);
        }
    }
}

#[test]
fn registered_names_and_descriptions() {
    assert_eq!(Achievement::BeatCpuEasy.name(), "Training Wheels");
    assert_eq!(Achievement::BeatCpuEasy.description(), "Beat the CPU on Easy.");
    assert_eq!(Achievement::TwoPlayer.name(), "Friendly Rivalry");
    assert_eq!(Achievement::ShutoutNormal.description(),
        "Win a Normal-mode match without the opponent scoring.");
}

fn settings(mode: GameMode, difficulty: Difficulty, chaos: ChaosMode) -> MatchSettings {
    MatchSettings { mode, difficulty, chaos }
}

#[test]
fn hard_cpu_win_cascades_and_shutout() {
    let ids = unlock_win_achievements(
        settings(GameMode::SinglePlayer, Difficulty::Hard, ChaosMode::Insane), true, 0);
    assert_eq!(ids, vec![
        Achievement::BeatCpuEasy,
        Achievement::BeatCpuMedium,
        Achievement::BeatCpuHard,
        Achievement::WinInsane,
        Achievement::ShutoutInsane,
    ]);
}

#[test]
fn easy_cpu_win_without_shutout() {
    let ids = unlock_win_achievements(
        settings(GameMode::SinglePlayer, Difficulty::Easy, ChaosMode::Normal), true, 3);
    assert_eq!(ids, vec![Achievement::BeatCpuEasy, Achievement::WinNormal]);
}

#[test]
fn medium_cpu_win_unlocks_easy_and_medium() {
    let ids = unlock_win_achievements(
        settings(GameMode::SinglePlayer, Difficulty::Medium, ChaosMode::Insiculous), true, 6);
    assert_eq!(ids, vec![
        Achievement::BeatCpuEasy,
        Achievement::BeatCpuMedium,
        Achievement::WinInsiculous,
    ]);
}

#[test]
fn cpu_loss_unlocks_nothing() {
    let ids = unlock_win_achievements(
        settings(GameMode::SinglePlayer, Difficulty::Hard, ChaosMode::Normal), false, 7);
    assert!(ids.is_empty());
}

#[test]
fn two_player_match_unlocks_friendly_rivalry_for_either_winner() {
    for left_wins in [true, false] {
        let ids = unlock_win_achievements(
            settings(GameMode::TwoPlayer, Difficulty::Easy, ChaosMode::Ridiculous), left_wins, 0);
        assert_eq!(ids, vec![Achievement::TwoPlayer]);
        assert_eq!(ids[0].id(), TWO_PLAYER);
    }
}
