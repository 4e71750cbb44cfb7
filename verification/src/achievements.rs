//! Achievement definitions and the unlock rules at the end of a match.

use vstd::prelude::*;
use crate::types::{ChaosMode, Difficulty, GameMode, MatchSettings};

verus! {

pub const BEAT_CPU_EASY: &'static str = "beat_cpu_easy";
pub const BEAT_CPU_MEDIUM: &'static str = "beat_cpu_medium";
pub const BEAT_CPU_HARD: &'static str = "beat_cpu_hard";

pub const WIN_NORMAL: &'static str = "win_normal";
pub const WIN_INSANE: &'static str = "win_insane";
pub const WIN_RIDICULOUS: &'static str = "win_ridiculous";
pub const WIN_INSICULOUS: &'static str = "win_insiculous";

pub const TWO_PLAYER: &'static str = "two_player";

pub const SHUTOUT_NORMAL: &'static str = "shutout_normal";
pub const SHUTOUT_INSANE: &'static str = "shutout_insane";
pub const SHUTOUT_RIDICULOUS: &'static str = "shutout_ridiculous";
pub const SHUTOUT_INSICULOUS: &'static str = "shutout_insiculous";

/// Every achievement the game knows.
#[derive(Clone, Copy, Debug, PartialEq, Eq, Structural)]
pub enum Achievement {
    BeatCpuEasy,
    BeatCpuMedium,
    BeatCpuHard,
    WinNormal,
    WinInsane,
    WinRidiculous,
    WinInsiculous,
    TwoPlayer,
    ShutoutNormal,
    ShutoutInsane,
    ShutoutRidiculous,
    ShutoutInsiculous,
}

pub open spec fn spec_id(a: Achievement) -> Seq<char> {
    match a {
        Achievement::BeatCpuEasy => "beat_cpu_easy"@,
        Achievement::BeatCpuMedium => "beat_cpu_medium"@,
        Achievement::BeatCpuHard => "beat_cpu_hard"@,
        Achievement::WinNormal => "win_normal"@,
        Achievement::WinInsane => "win_insane"@,
        Achievement::WinRidiculous => "win_ridiculous"@,
        Achievement::WinInsiculous => "win_insiculous"@,
        Achievement::TwoPlayer => "two_player"@,
        Achievement::ShutoutNormal => "shutout_normal"@,
        Achievement::ShutoutInsane => "shutout_insane"@,
        Achievement::ShutoutRidiculous => "shutout_ridiculous"@,
        Achievement::ShutoutInsiculous => "shutout_insiculous"@,
    }
}

pub open spec fn spec_name(a: Achievement) -> Seq<char> {
    match a {
        Achievement::BeatCpuEasy => "Training Wheels"@,
        Achievement::BeatCpuMedium => "Holding Your Own"@,
        Achievement::BeatCpuHard => "Pong Master"@,
        Achievement::WinNormal => "First Victory"@,
        Achievement::WinInsane => "Insanely Good"@,
        Achievement::WinRidiculous => "This Is Ridiculous"@,
        Achievement::WinInsiculous => "Insiculous Champion"@,
        Achievement::TwoPlayer => "Friendly Rivalry"@,
        Achievement::ShutoutNormal => "Clean Sheet"@,
        Achievement::ShutoutInsane => "Untouchable"@,
        Achievement::ShutoutRidiculous => "Impossibly Clean"@,
        Achievement::ShutoutInsiculous => "Insiculously Dominant"@,
    }
}

pub open spec fn spec_description(a: Achievement) -> Seq<char> {
    match a {
        Achievement::BeatCpuEasy => "Beat the CPU on Easy."@,
        Achievement::BeatCpuMedium => "Beat the CPU on Medium."@,
        Achievement::BeatCpuHard => "Beat the CPU on Hard."@,
        Achievement::WinNormal => "Win a match in Normal mode."@,
        Achievement::WinInsane => "Win a match in Insane mode."@,
        Achievement::WinRidiculous => "Win a match in Ridiculous mode."@,
        Achievement::WinInsiculous => "Win a match in Insiculous mode."@,
        Achievement::TwoPlayer => "Finish a 2-player match."@,
        Achievement::ShutoutNormal => "Win a Normal-mode match without the opponent scoring."@,
        Achievement::ShutoutInsane => "Shut out the opponent in Insane mode."@,
        Achievement::ShutoutRidiculous => "Shut out the opponent in Ridiculous mode."@,
        Achievement::ShutoutInsiculous => "Shut out the opponent in Insiculous mode."@,
    }
}

impl Achievement {
    /// Display name.
    pub fn name(self) -> (s: &'static str)
        ensures
            s@ == spec_name(self),
    {
        match self {
            Achievement::BeatCpuEasy => "Training Wheels",
            Achievement::BeatCpuMedium => "Holding Your Own",
            Achievement::BeatCpuHard => "Pong Master",
            Achievement::WinNormal => "First Victory",
            Achievement::WinInsane => "Insanely Good",
            Achievement::WinRidiculous => "This Is Ridiculous",
            Achievement::WinInsiculous => "Insiculous Champion",
            Achievement::TwoPlayer => "Friendly Rivalry",
            Achievement::ShutoutNormal => "Clean Sheet",
            Achievement::ShutoutInsane => "Untouchable",
            Achievement::ShutoutRidiculous => "Impossibly Clean",
            Achievement::ShutoutInsiculous => "Insiculously Dominant",
        }
    }

    /// What earns it.
    pub fn description(self) -> (s: &'static str)
        ensures
            s@ == spec_description(self),
    {
        match self {
            Achievement::BeatCpuEasy => "Beat the CPU on Easy.",
            Achievement::BeatCpuMedium => "Beat the CPU on Medium.",
            Achievement::BeatCpuHard => "Beat the CPU on Hard.",
            Achievement::WinNormal => "Win a match in Normal mode.",
            Achievement::WinInsane => "Win a match in Insane mode.",
            Achievement::WinRidiculous => "Win a match in Ridiculous mode.",
            Achievement::WinInsiculous => "Win a match in Insiculous mode.",
            Achievement::TwoPlayer => "Finish a 2-player match.",
            Achievement::ShutoutNormal => "Win a Normal-mode match without the opponent scoring.",
            Achievement::ShutoutInsane => "Shut out the opponent in Insane mode.",
            Achievement::ShutoutRidiculous => "Shut out the opponent in Ridiculous mode.",
            Achievement::ShutoutInsiculous => "Shut out the opponent in Insiculous mode.",
        }
    }

    /// The stable id under which the achievement is saved.
    pub fn id(self) -> (s: &'static str)
        ensures
            s@ == spec_id(self),
    {
        match self {
            Achievement::BeatCpuEasy => BEAT_CPU_EASY,
            Achievement::BeatCpuMedium => BEAT_CPU_MEDIUM,
            Achievement::BeatCpuHard => BEAT_CPU_HARD,
            Achievement::WinNormal => WIN_NORMAL,
            Achievement::WinInsane => WIN_INSANE,
            Achievement::WinRidiculous => WIN_RIDICULOUS,
            Achievement::WinInsiculous => WIN_INSICULOUS,
            Achievement::TwoPlayer => TWO_PLAYER,
            Achievement::ShutoutNormal => SHUTOUT_NORMAL,
            Achievement::ShutoutInsane => SHUTOUT_INSANE,
            Achievement::ShutoutRidiculous => SHUTOUT_RIDICULOUS,
            Achievement::ShutoutInsiculous => SHUTOUT_INSICULOUS,
        }
    }
}


/// The win achievement for a chaos mode.
pub open spec fn spec_win_for(mode: ChaosMode) -> Achievement {
    match mode {
        ChaosMode::Normal => Achievement::WinNormal,
        ChaosMode::Insane => Achievement::WinInsane,
        ChaosMode::Ridiculous => Achievement::WinRidiculous,
        ChaosMode::Insiculous => Achievement::WinInsiculous,
    }
}

/// The shutout achievement for a chaos mode.
pub open spec fn spec_shutout_for(mode: ChaosMode) -> Achievement {
    match mode {
        ChaosMode::Normal => Achievement::ShutoutNormal,
        ChaosMode::Insane => Achievement::ShutoutInsane,
        ChaosMode::Ridiculous => Achievement::ShutoutRidiculous,
        ChaosMode::Insiculous => Achievement::ShutoutInsiculous,
    }
}

/// Beating the CPU at a difficulty also grants every easier difficulty.
pub open spec fn spec_cpu_cascade(d: Difficulty) -> Seq<Achievement> {
    match d {
        Difficulty::Easy => seq![Achievement::BeatCpuEasy],
        Difficulty::Medium => seq![Achievement::BeatCpuEasy, Achievement::BeatCpuMedium],
        Difficulty::Hard => seq![
            Achievement::BeatCpuEasy,
            Achievement::BeatCpuMedium,
            Achievement::BeatCpuHard,
        ],
    }
}

/// What a finished match unlocks, in unlock order.
pub open spec fn spec_win_unlocks(settings: MatchSettings, left_wins: bool, right_score: u32) -> Seq<
    Achievement,
> {
    match settings.mode {
        GameMode::TwoPlayer => seq![Achievement::TwoPlayer],
        GameMode::SinglePlayer => if left_wins {
            spec_cpu_cascade(settings.difficulty) + seq![spec_win_for(settings.chaos)] + if right_score
                == 0 {
                seq![spec_shutout_for(settings.chaos)]
            } else {
                Seq::empty()
            }
        } else {
            Seq::empty()
        },
    }
}

/// Every achievement, in registration order.
pub open spec fn spec_all_achievements() -> Seq<Achievement> {
    seq![
        Achievement::BeatCpuEasy,
        Achievement::BeatCpuMedium,
        Achievement::BeatCpuHard,
        Achievement::WinNormal,
        Achievement::WinInsane,
        Achievement::WinRidiculous,
        Achievement::WinInsiculous,
        Achievement::TwoPlayer,
        Achievement::ShutoutNormal,
        Achievement::ShutoutInsane,
        Achievement::ShutoutRidiculous,
        Achievement::ShutoutInsiculous,
    ]
}

/// Id of the win achievement for a chaos mode.
pub fn chaos_win_id(mode: ChaosMode) -> (s: &'static str)
    ensures
        s@ == spec_id(spec_win_for(mode)),
{
    match mode {
        ChaosMode::Normal => WIN_NORMAL,
        ChaosMode::Insane => WIN_INSANE,
        ChaosMode::Ridiculous => WIN_RIDICULOUS,
        ChaosMode::Insiculous => WIN_INSICULOUS,
    }
}

/// Id of the shutout achievement for a chaos mode.
pub fn chaos_shutout_id(mode: ChaosMode) -> (s: &'static str)
    ensures
        s@ == spec_id(spec_shutout_for(mode)),
{
    match mode {
        ChaosMode::Normal => SHUTOUT_NORMAL,
        ChaosMode::Insane => SHUTOUT_INSANE,
        ChaosMode::Ridiculous => SHUTOUT_RIDICULOUS,
        ChaosMode::Insiculous => SHUTOUT_INSICULOUS,
    }
}

/// Every Pong achievement, in the order they are registered with the
/// achievement manager at start-up.
pub fn register_all() -> (all: Vec<Achievement>)
    ensures
        all@ == spec_all_achievements(),
{
    let all = vec![
        Achievement::BeatCpuEasy,
        Achievement::BeatCpuMedium,
        Achievement::BeatCpuHard,
        Achievement::WinNormal,
        Achievement::WinInsane,
        Achievement::WinRidiculous,
        Achievement::WinInsiculous,
        Achievement::TwoPlayer,
        Achievement::ShutoutNormal,
        Achievement::ShutoutInsane,
        Achievement::ShutoutRidiculous,
        Achievement::ShutoutInsiculous,
    ];
    assert(all@ =~= spec_all_achievements());
    all
}

/// The achievements earned when a match ends. The left paddle is always the
/// local player (single player) or player 1, so `left_wins` says whether the
/// local player won. A two-player match earns "Friendly Rivalry" whoever
/// wins; a single-player win earns the CPU cascade, the chaos-mode win, and
/// the chaos-mode shutout when the CPU never scored; a single-player loss
/// earns nothing.
pub fn unlock_win_achievements(settings: MatchSettings, left_wins: bool, right_score: u32) -> (ids:
    Vec<Achievement>)
    ensures
        ids@ == spec_win_unlocks(settings, left_wins, right_score),
{
    let mut ids: Vec<Achievement> = Vec::new();
    match settings.mode {
        GameMode::TwoPlayer => {
            ids.push(Achievement::TwoPlayer);
        },
        GameMode::SinglePlayer => {
            if left_wins {
                ids.push(Achievement::BeatCpuEasy);
                match settings.difficulty {
                    Difficulty::Easy => {},
                    Difficulty::Medium => {
                        ids.push(Achievement::BeatCpuMedium);
                    },
                    Difficulty::Hard => {
                        ids.push(Achievement::BeatCpuMedium);
                        ids.push(Achievement::BeatCpuHard);
                    },
                }
                ids.push(win_for(settings.chaos));
                if right_score == 0 {
                    ids.push(shutout_for(settings.chaos));
                }
            }
        },
    }
    assert(ids@ =~= spec_win_unlocks(settings, left_wins, right_score));
    ids
}

fn win_for(mode: ChaosMode) -> (a: Achievement)
    ensures
        a == spec_win_for(mode),
{
    match mode {
        ChaosMode::Normal => Achievement::WinNormal,
        ChaosMode::Insane => Achievement::WinInsane,
        ChaosMode::Ridiculous => Achievement::WinRidiculous,
        ChaosMode::Insiculous => Achievement::WinInsiculous,
    }
}

fn shutout_for(mode: ChaosMode) -> (a: Achievement)
    ensures
        a == spec_shutout_for(mode),
{
    match mode {
        ChaosMode::Normal => Achievement::ShutoutNormal,
        ChaosMode::Insane => Achievement::ShutoutInsane,
        ChaosMode::Ridiculous => Achievement::ShutoutRidiculous,
        ChaosMode::Insiculous => Achievement::ShutoutInsiculous,
    }
}


/// Rank of a difficulty, Easy lowest.
pub open spec fn spec_rank(d: Difficulty) -> int {
    match d {
        Difficulty::Easy => 0,
        Difficulty::Medium => 1,
        Difficulty::Hard => 2,
    }
}

/// Every achievement is registered, and none twice.
pub proof fn lemma_every_achievement_registered_once(a: Achievement)
    ensures
        spec_all_achievements().contains(a),
        spec_all_achievements().no_duplicates(),
        spec_all_achievements().len() == 12,
{
    let all = spec_all_achievements();
    let i: int = match a {
        Achievement::BeatCpuEasy => 0,
        Achievement::BeatCpuMedium => 1,
        Achievement::BeatCpuHard => 2,
        Achievement::WinNormal => 3,
        Achievement::WinInsane => 4,
        Achievement::WinRidiculous => 5,
        Achievement::WinInsiculous => 6,
        Achievement::TwoPlayer => 7,
        Achievement::ShutoutNormal => 8,
        Achievement::ShutoutInsane => 9,
        Achievement::ShutoutRidiculous => 10,
        Achievement::ShutoutInsiculous => 11,
    };
    assert(all[i] == a);
}

/// Two different achievements never share an id, so saving by id loses none.
pub proof fn lemma_ids_distinct(a: Achievement, b: Achievement)
    requires
        a != b,
    ensures
        spec_id(a) != spec_id(b),
{
    reveal_strlit("beat_cpu_easy");
    reveal_strlit("beat_cpu_medium");
    reveal_strlit("beat_cpu_hard");
    reveal_strlit("win_normal");
    reveal_strlit("win_insane");
    reveal_strlit("win_ridiculous");
    reveal_strlit("win_insiculous");
    reveal_strlit("two_player");
    reveal_strlit("shutout_normal");
    reveal_strlit("shutout_insane");
    reveal_strlit("shutout_ridiculous");
    reveal_strlit("shutout_insiculous");
    if spec_id(a) == spec_id(b) {
        assert(spec_id(a).len() == spec_id(b).len());
        assert(spec_id(a)[0] == spec_id(b)[0]);
        assert(spec_id(a)[4] == spec_id(b)[4]);
        assert(spec_id(a)[8] == spec_id(b)[8]);
        assert(spec_id(a)[9] == spec_id(b)[9]);
        assert(false);
    }
}

/// Winning against the CPU at a difficulty unlocks everything that winning
/// at any easier difficulty unlocks.
pub proof fn lemma_cpu_cascade_covers_easier(
    easier: Difficulty,
    harder: Difficulty,
    chaos: ChaosMode,
    right_score: u32,
    a: Achievement,
)
    requires
        spec_rank(easier) <= spec_rank(harder),
        spec_win_unlocks(
            MatchSettings { mode: GameMode::SinglePlayer, difficulty: easier, chaos },
            true,
            right_score,
        ).contains(a),
    ensures
        spec_win_unlocks(
            MatchSettings { mode: GameMode::SinglePlayer, difficulty: harder, chaos },
            true,
            right_score,
        ).contains(a),
{
    let lo = spec_win_unlocks(
        MatchSettings { mode: GameMode::SinglePlayer, difficulty: easier, chaos },
        true,
        right_score,
    );
    let hi = spec_win_unlocks(
        MatchSettings { mode: GameMode::SinglePlayer, difficulty: harder, chaos },
        true,
        right_score,
    );
    let i = choose|i: int| 0 <= i < lo.len() && lo[i] == a;
    let c_lo = spec_cpu_cascade(easier).len();
    let c_hi = spec_cpu_cascade(harder).len();
    if i < c_lo {
        assert(hi[i] == a);
    } else {
        assert(hi[i - c_lo + c_hi] == a);
    }
}

/// A single-player loss unlocks nothing; a two-player match unlocks only
/// "Friendly Rivalry", whoever wins.
pub proof fn lemma_no_unlock_on_cpu_loss(settings: MatchSettings, right_score: u32)
    ensures
        settings.mode == GameMode::SinglePlayer ==> spec_win_unlocks(
            settings,
            false,
            right_score,
        ).len() == 0,
        settings.mode == GameMode::TwoPlayer ==> spec_win_unlocks(settings, false, right_score)
            == spec_win_unlocks(settings, true, right_score),
{
}


/// The shutout achievement goes with the chaos mode alone, whatever the
/// difficulty, and only to a single-player winner whose opponent never
/// scored.
pub proof fn lemma_shutout_rule(settings: MatchSettings, left_wins: bool, right_score: u32, a: Achievement)
    requires
        a == Achievement::ShutoutNormal || a == Achievement::ShutoutInsane || a
            == Achievement::ShutoutRidiculous || a == Achievement::ShutoutInsiculous,
    ensures
        spec_win_unlocks(settings, left_wins, right_score).contains(a) <==> (settings.mode
            == GameMode::SinglePlayer && left_wins && right_score == 0 && a == spec_shutout_for(
            settings.chaos,
        )),
{
    let u = spec_win_unlocks(settings, left_wins, right_score);
    if settings.mode == GameMode::SinglePlayer && left_wins && right_score == 0 && a
        == spec_shutout_for(settings.chaos) {
        assert(u[u.len() - 1] == a);
    }
}


/// A single-player win unlocks the win achievement of the match's own chaos
/// mode (the one `chaos_win_id` names) and the win achievement of no other
/// mode; a loss or a two-player match unlocks no chaos-mode win at all.
pub proof fn lemma_win_matches_chaos_mode(settings: MatchSettings, left_wins: bool, right_score: u32)
    ensures
        ({
            let u = spec_win_unlocks(settings, left_wins, right_score);
            settings.mode == GameMode::SinglePlayer && left_wins ==> {
                &&& u.contains(Achievement::WinNormal) <==> settings.chaos == ChaosMode::Normal
                &&& u.contains(Achievement::WinInsane) <==> settings.chaos == ChaosMode::Insane
                &&& u.contains(Achievement::WinRidiculous) <==> settings.chaos == ChaosMode::Ridiculous
                &&& u.contains(Achievement::WinInsiculous) <==> settings.chaos == ChaosMode::Insiculous
            }
        }),
        ({
            let u = spec_win_unlocks(settings, left_wins, right_score);
            !(settings.mode == GameMode::SinglePlayer && left_wins) ==> {
                &&& !u.contains(Achievement::WinNormal)
                &&& !u.contains(Achievement::WinInsane)
                &&& !u.contains(Achievement::WinRidiculous)
                &&& !u.contains(Achievement::WinInsiculous)
            }
        }),
{
    let u = spec_win_unlocks(settings, left_wins, right_score);
    if settings.mode == GameMode::SinglePlayer && left_wins {
        let k = spec_cpu_cascade(settings.difficulty).len();
        assert(u[k as int] == spec_win_for(settings.chaos));
        assert forall|x: Achievement| #[trigger] u.contains(x) && x != spec_win_for(settings.chaos)
            implies !(x is WinNormal || x is WinInsane || x is WinRidiculous || x is WinInsiculous) by {
            let i = choose|i: int| 0 <= i < u.len() && u[i] == x;
            assert(i != k);
        }
    } else {
        if settings.mode == GameMode::TwoPlayer {
            assert forall|x: Achievement| #[trigger] u.contains(x) implies x == Achievement::TwoPlayer by {
                let i = choose|i: int| 0 <= i < u.len() && u[i] == x;
            }
        }
    }
}

} // verus!
