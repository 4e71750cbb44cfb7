//! On-screen text: the HUD score line, game-over banners, chaos-mode hints,
//! the achievements page, and entity names. Layout and drawing stay with
//! the engine.

use vstd::prelude::*;
use vstd::string::StringExecFns;
use crate::achievements::{spec_all_achievements, spec_description, spec_name, Achievement};
use crate::game::PongGame;
use crate::types::{ChaosMode, GameMode};

verus! {

pub open spec fn spec_digit(d: int) -> char {
    if d == 0 {
        '0'
    } else if d == 1 {
        '1'
    } else if d == 2 {
        '2'
    } else if d == 3 {
        '3'
    } else if d == 4 {
        '4'
    } else if d == 5 {
        '5'
    } else if d == 6 {
        '6'
    } else if d == 7 {
        '7'
    } else if d == 8 {
        '8'
    } else {
        '9'
    }
}

/// Decimal digits of `n`, most significant first, without leading zeros.
pub open spec fn spec_decimal(n: nat) -> Seq<char>
    decreases n,
{
    if n < 10 {
        seq![spec_digit(n as int)]
    } else {
        spec_decimal(n / 10).push(spec_digit((n % 10) as int))
    }
}

fn digit_str(d: u64) -> (s: &'static str)
    requires
        d < 10,
    ensures
        s@ == seq![spec_digit(d as int)],
{
    proof {
        reveal_strlit("0");
        reveal_strlit("1");
        reveal_strlit("2");
        reveal_strlit("3");
        reveal_strlit("4");
        reveal_strlit("5");
        reveal_strlit("6");
        reveal_strlit("7");
        reveal_strlit("8");
        reveal_strlit("9");
    }
    let s = if d == 0 {
        "0"
    } else if d == 1 {
        "1"
    } else if d == 2 {
        "2"
    } else if d == 3 {
        "3"
    } else if d == 4 {
        "4"
    } else if d == 5 {
        "5"
    } else if d == 6 {
        "6"
    } else if d == 7 {
        "7"
    } else if d == 8 {
        "8"
    } else {
        "9"
    };
    assert(s@ =~= seq![spec_digit(d as int)]);
    s
}

/// Append the decimal digits of `n`.
pub fn push_decimal(s: &mut String, n: u64)
    ensures
        final(s)@ == old(s)@ + spec_decimal(n as nat),
    decreases n,
{
    if n >= 10 {
        push_decimal(s, n / 10);
    }
    s.append(digit_str(n % 10));
    assert(final(s)@ =~= old(s)@ + spec_decimal(n as nat));
}

/// Editor-hierarchy name of the next extra ball: "Ball 2", "Ball 3", ...
pub open spec fn spec_ball_name(k: nat) -> Seq<char> {
    "Ball "@ + spec_decimal(k)
}

/// HUD score line.
pub open spec fn spec_score_text(mode: GameMode, left: u32, right: u32) -> Seq<char> {
    match mode {
        GameMode::SinglePlayer => "YOU "@ + spec_decimal(left as nat) + "  :  "@ + spec_decimal(
            right as nat,
        ) + " CPU"@,
        GameMode::TwoPlayer => "P1 "@ + spec_decimal(left as nat) + "  :  "@ + spec_decimal(
            right as nat,
        ) + " P2"@,
    }
}

/// "unlocked / total unlocked" line of the achievements page.
pub open spec fn spec_progress_text(unlocked: u64, total: u64) -> Seq<char> {
    spec_decimal(unlocked as nat) + " / "@ + spec_decimal(total as nat) + " unlocked"@
}

/// The score line shown during a match: "YOU l  :  r CPU" against the CPU,
/// "P1 l  :  r P2" between two players.
pub fn score_text(mode: GameMode, left: u32, right: u32) -> (s: String)
    ensures
        s@ == spec_score_text(mode, left, right),
{
    let mut s = String::new();
    match mode {
        GameMode::SinglePlayer => {
            s.append("YOU ");
        },
        GameMode::TwoPlayer => {
            s.append("P1 ");
        },
    }
    push_decimal(&mut s, left as u64);
    s.append("  :  ");
    push_decimal(&mut s, right as u64);
    match mode {
        GameMode::SinglePlayer => {
            s.append(" CPU");
        },
        GameMode::TwoPlayer => {
            s.append(" P2");
        },
    }
    assert(s@ =~= spec_score_text(mode, left, right));
    s
}

/// Progress line of the achievements page.
pub fn progress_text(unlocked: u64, total: u64) -> (s: String)
    ensures
        s@ == spec_progress_text(unlocked, total),
{
    let mut s = String::new();
    push_decimal(&mut s, unlocked);
    s.append(" / ");
    push_decimal(&mut s, total);
    s.append(" unlocked");
    assert(s@ =~= spec_progress_text(unlocked, total));
    s
}

impl PongGame {
    /// Name for the next extra ball: the primary ball is "Ball", extras are
    /// numbered from 2.
    pub fn next_extra_ball_name(&self) -> (s: String)
        requires
            self.balls.extras@.len() + 2 <= u64::MAX,
        ensures
            s@ == spec_ball_name(self.balls.extras@.len() + 2),
    {
        let mut s = String::new();
        s.append("Ball ");
        let k = self.balls.extras.len() as u64 + 2;
        push_decimal(&mut s, k);
        assert(s@ =~= spec_ball_name(self.balls.extras@.len() + 2));
        s
    }
}

/// Banner of the game-over screen.
pub open spec fn spec_game_over_message(mode: GameMode, left_wins: bool) -> Seq<char> {
    match (mode, left_wins) {
        (GameMode::SinglePlayer, true) => "YOU WIN!"@,
        (GameMode::SinglePlayer, false) => "CPU WINS!"@,
        (GameMode::TwoPlayer, true) => "PLAYER 1 WINS!"@,
        (GameMode::TwoPlayer, false) => "PLAYER 2 WINS!"@,
    }
}

pub fn game_over_message(mode: GameMode, left_wins: bool) -> (s: &'static str)
    ensures
        s@ == spec_game_over_message(mode, left_wins),
{
    match (mode, left_wins) {
        (GameMode::SinglePlayer, true) => "YOU WIN!",
        (GameMode::SinglePlayer, false) => "CPU WINS!",
        (GameMode::TwoPlayer, true) => "PLAYER 1 WINS!",
        (GameMode::TwoPlayer, false) => "PLAYER 2 WINS!",
    }
}

/// One-line explanation of a chaos mode in the chaos menu.
pub open spec fn spec_chaos_hint(mode: ChaosMode) -> Seq<char> {
    match mode {
        ChaosMode::Normal => "Classic Pong."@,
        ChaosMode::Insane => "Ball doubles speed on every paddle hit."@,
        ChaosMode::Ridiculous => "Match starts with two balls."@,
        ChaosMode::Insiculous => "Two balls AND each doubles on paddle hits."@,
    }
}

pub fn chaos_hint(mode: ChaosMode) -> (s: &'static str)
    ensures
        s@ == spec_chaos_hint(mode),
{
    match mode {
        ChaosMode::Normal => "Classic Pong.",
        ChaosMode::Insane => "Ball doubles speed on every paddle hit.",
        ChaosMode::Ridiculous => "Match starts with two balls.",
        ChaosMode::Insiculous => "Two balls AND each doubles on paddle hits.",
    }
}

/// How an achievement reads on the achievements page.
pub struct AchievementRow {
    pub marker: &'static str,
    pub name: &'static str,
    pub description: &'static str,
    pub unlocked: bool,
}

/// An unlocked achievement is ticked; a hidden one that is still locked
/// shows no name or description.
pub fn achievement_row(a: Achievement, is_unlocked: bool, hidden: bool) -> (r: AchievementRow)
    ensures
        r.unlocked == is_unlocked,
        r.marker@ == (if is_unlocked {
            "[X]"@
        } else {
            "[ ]"@
        }),
        !is_unlocked && hidden ==> r.name@ == "???"@ && r.description@
            == "Hidden \u{2014} unlock to reveal"@,
        !(!is_unlocked && hidden) ==> r.name@ == spec_name(a) && r.description@ == spec_description(
            a,
        ),
{
    let marker = if is_unlocked {
        "[X]"
    } else {
        "[ ]"
    };
    if !is_unlocked && hidden {
        AchievementRow {
            marker,
            name: "???",
            description: "Hidden \u{2014} unlock to reveal",
            unlocked: is_unlocked,
        }
    } else {
        AchievementRow {
            marker,
            name: a.name(),
            description: a.description(),
            unlocked: is_unlocked,
        }
    }
}

/// The groups of the achievements page.
pub open spec fn spec_section_items(i: int) -> Seq<Achievement> {
    if i == 0 {
        seq![Achievement::BeatCpuEasy, Achievement::BeatCpuMedium, Achievement::BeatCpuHard]
    } else if i == 1 {
        seq![
            Achievement::WinNormal,
            Achievement::WinInsane,
            Achievement::WinRidiculous,
            Achievement::WinInsiculous,
        ]
    } else if i == 2 {
        seq![Achievement::TwoPlayer]
    } else {
        seq![
            Achievement::ShutoutNormal,
            Achievement::ShutoutInsane,
            Achievement::ShutoutRidiculous,
            Achievement::ShutoutInsiculous,
        ]
    }
}

pub open spec fn spec_section_title(i: int) -> Seq<char> {
    if i == 0 {
        "Beat the CPU"@
    } else if i == 1 {
        "Chaos Mode Wins"@
    } else if i == 2 {
        "Multiplayer"@
    } else {
        "Shutouts"@
    }
}

/// Sections of the achievements page, each a title and its achievements.
pub fn display_sections() -> (r: Vec<(&'static str, Vec<Achievement>)>)
    ensures
        r@.len() == 4,
        forall|i: int|
            0 <= i < 4 ==> #[trigger] r@[i].0@ == spec_section_title(i) && r@[i].1@
                == spec_section_items(i),
{
    let mut r: Vec<(&'static str, Vec<Achievement>)> = Vec::new();
    let s0 = vec![Achievement::BeatCpuEasy, Achievement::BeatCpuMedium, Achievement::BeatCpuHard];
    assert(s0@ =~= spec_section_items(0));
    r.push(("Beat the CPU", s0));
    let s1 = vec![
        Achievement::WinNormal,
        Achievement::WinInsane,
        Achievement::WinRidiculous,
        Achievement::WinInsiculous,
    ];
    assert(s1@ =~= spec_section_items(1));
    r.push(("Chaos Mode Wins", s1));
    let s2 = vec![Achievement::TwoPlayer];
    assert(s2@ =~= spec_section_items(2));
    r.push(("Multiplayer", s2));
    let s3 = vec![
        Achievement::ShutoutNormal,
        Achievement::ShutoutInsane,
        Achievement::ShutoutRidiculous,
        Achievement::ShutoutInsiculous,
    ];
    assert(s3@ =~= spec_section_items(3));
    r.push(("Shutouts", s3));
    r
}

/// The achievements page lists every registered achievement exactly once,
/// in registration order.
pub proof fn lemma_sections_cover_registry()
    ensures
        spec_section_items(0) + spec_section_items(1) + spec_section_items(2) + spec_section_items(3)
            == spec_all_achievements(),
{
    assert(spec_section_items(0) + spec_section_items(1) + spec_section_items(2)
        + spec_section_items(3) =~= spec_all_achievements());
}

} // verus!
