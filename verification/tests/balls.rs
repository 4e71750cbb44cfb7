use insiculous_pong::balls::Balls;
use insiculous_pong::types::{Scoreboard, Side, MatchSettings, GameMode, Difficulty, ChaosMode};

fn balls(primary: Option<u64>, extras: &[u64]) -> Balls {
    let mut b = Balls::new();
    b.primary = primary;
    for &e in extras {
        b.add_extra(e);
    }
    b
}

#[test]
fn removing_primary_promotes_last_extra() {
    let mut b = balls(Some(1), &[2, 3]);
    b.double_speed(1);
    b.remove(1);
    assert_eq!(b.primary, Some(3));
    assert_eq!(b.all(), vec![3, 2]);
    assert_eq!(b.speed_doublings_of(1), 0);
    b.remove(3);
    assert_eq!(b.all(), vec![2]);
    b.remove(2);
    assert!(b.is_empty());
    b.remove(2);
    assert!(b.is_empty());
}

#[test]
fn removing_extra_keeps_primary() {
    let mut b = balls(Some(1), &[2, 3, 4]);
    b.remove(3);
    assert_eq!(b.all(), vec![1, 2, 4]);
    b.remove(99);
    assert_eq!(b.all(), vec![1, 2, 4]);
}

#[test]
fn take_extras_drops_their_speeds() {
    let mut b = balls(Some(1), &[2, 3]);
    b.double_speed(1);
    b.double_speed(2);
    b.double_speed(2);
    assert_eq!(b.speed_doublings_of(2), 2);
    assert_eq!(b.take_extras(), vec![2, 3]);
    assert_eq!(b.all(), vec![1]);
    assert_eq!(b.speed_doublings_of(2), 0);
    assert_eq!(b.speed_doublings_of(1), 1);
    b.clear_speeds();
    assert_eq!(b.speed_doublings_of(1), 0);
}

#[test]
fn scoreboard_award_and_reset() {
    let mut s = Scoreboard::new();
    s.award_point(Side::Left);
    s.award_point(Side::Left);
    s.award_point(Side::Right);
    assert_eq!((s.left, s.right, s.last_scorer), (2, 1, Side::Right));
    s.last_touch = Some(Side::Left);
    s.reset();
    assert_eq!(s, Scoreboard { left: 0, right: 0, last_scorer: Side::Right, last_touch: None });
    assert_eq!(Scoreboard::default(), Scoreboard::new());
    assert_eq!(Side::Left.opposite(), Side::Right);
}

#[test]
fn default_settings() {
    let s = MatchSettings::default();
    assert_eq!(s, MatchSettings {
        mode: GameMode::SinglePlayer,
        difficulty: Difficulty::Medium,
        chaos: ChaosMode::Normal,
    });
}
