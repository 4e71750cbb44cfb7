//! Menu screens: navigation results and confirmations. The engine's menu
//! input turns key presses into the navigated selection and the confirm /
//! back flags that these steps take.

use vstd::prelude::*;
use crate::game::{spec_start_game, GameView, PongGame};
use crate::types::{
    spec_chaos_at, ChaosMode, Command, Difficulty, GameMode, GameState, CHAOS_MODE_COUNT,
};

verus! {

/// Items of the title menu.
pub const TITLE_ITEM_COUNT: u8 = 4;

/// Items of the difficulty menu.
pub const DIFFICULTY_ITEM_COUNT: u8 = 3;

/// Title screen: 0 single player (pick a difficulty, Medium highlighted),
/// 1 two player (straight to the chaos menu), 2 achievements, anything else
/// exits the game.
pub open spec fn spec_title_input(g: GameView, selection: u8, confirm: bool) -> (GameView, Seq<Command>) {
    let g0 = GameView { state: GameState::TitleScreen { selection }, ..g };
    if !confirm {
        (g0, Seq::empty())
    } else if selection == 0 {
        (GameView { state: GameState::DifficultySelect { selection: 1 }, ..g0 }, Seq::empty())
    } else if selection == 1 {
        (
            GameView {
                settings: crate::types::MatchSettings { mode: GameMode::TwoPlayer, ..g0.settings },
                state: GameState::ChaosSelect { selection: 0 },
                ..g0
            },
            Seq::empty(),
        )
    } else if selection == 2 {
        (GameView { state: GameState::Achievements, ..g0 }, Seq::empty())
    } else {
        (g0, seq![Command::ExitGame])
    }
}

/// Achievements page: back or confirm returns to the title screen with
/// "Achievements" highlighted.
pub open spec fn spec_achievements_input(g: GameView, back: bool, confirm: bool) -> GameView {
    if back || confirm {
        GameView { state: GameState::TitleScreen { selection: 2 }, ..g }
    } else {
        g
    }
}

pub open spec fn spec_difficulty_at(selection: u8) -> Difficulty {
    if selection == 0 {
        Difficulty::Easy
    } else if selection == 1 {
        Difficulty::Medium
    } else {
        Difficulty::Hard
    }
}

/// Difficulty menu: back returns to the title screen; confirm starts a
/// single-player setup at the chosen difficulty and moves on to the chaos
/// menu.
pub open spec fn spec_difficulty_input(g: GameView, selection: u8, back: bool, confirm: bool) -> GameView {
    let g0 = GameView { state: GameState::DifficultySelect { selection }, ..g };
    if back {
        GameView { state: GameState::TitleScreen { selection: 0 }, ..g0 }
    } else if confirm {
        GameView {
            settings: crate::types::MatchSettings {
                mode: GameMode::SinglePlayer,
                difficulty: spec_difficulty_at(selection),
                ..g0.settings
            },
            state: GameState::ChaosSelect { selection: 0 },
            ..g0
        }
    } else {
        g0
    }
}

/// Chaos menu: back returns to the title screen; confirm fixes the chaos
/// mode, tells the engine, and starts the match.
pub open spec fn spec_chaos_input(g: GameView, selection: u8, back: bool, confirm: bool) -> (
    GameView,
    Seq<Command>,
) {
    let g0 = GameView { state: GameState::ChaosSelect { selection }, ..g };
    if back {
        (GameView { state: GameState::TitleScreen { selection: 0 }, ..g0 }, Seq::empty())
    } else if confirm {
        let mode = spec_chaos_at(selection as int);
        let g1 = GameView {
            settings: crate::types::MatchSettings { chaos: mode, ..g0.settings },
            ..g0
        };
        let (g2, c) = spec_start_game(g1);
        (g2, seq![Command::SetChaosMode(mode)] + c)
    } else {
        (g0, Seq::empty())
    }
}

impl PongGame {
    /// Title screen step, `selection` already navigated.
    pub fn update_title_input(&mut self, selection: u8, confirm: bool) -> (cmds: Vec<Command>)
        ensures
            (final(self)@, cmds@) == spec_title_input(old(self)@, selection, confirm),
    {
        let mut cmds: Vec<Command> = Vec::new();
        self.state = GameState::TitleScreen { selection };
        if confirm {
            if selection == 0 {
                self.state = GameState::DifficultySelect { selection: 1 };
            } else if selection == 1 {
                self.settings.mode = GameMode::TwoPlayer;
                self.state = GameState::ChaosSelect { selection: 0 };
            } else if selection == 2 {
                self.state = GameState::Achievements;
            } else {
                cmds.push(Command::ExitGame);
            }
        }
        assert(cmds@ =~= spec_title_input(old(self)@, selection, confirm).1);
        cmds
    }

    /// Achievements page step.
    pub fn update_achievements_input(&mut self, back: bool, confirm: bool)
        ensures
            final(self)@ == spec_achievements_input(old(self)@, back, confirm),
    {
        if back || confirm {
            self.state = GameState::TitleScreen { selection: 2 };
        }
    }

    /// Difficulty menu step, `selection` already navigated.
    pub fn update_difficulty_input(&mut self, selection: u8, back: bool, confirm: bool)
        ensures
            final(self)@ == spec_difficulty_input(old(self)@, selection, back, confirm),
    {
        self.state = GameState::DifficultySelect { selection };
        if back {
            self.state = GameState::TitleScreen { selection: 0 };
        } else if confirm {
            self.settings.mode = GameMode::SinglePlayer;
            self.settings.difficulty = if selection == 0 {
                Difficulty::Easy
            } else if selection == 1 {
                Difficulty::Medium
            } else {
                Difficulty::Hard
            };
            self.state = GameState::ChaosSelect { selection: 0 };
        }
    }

    /// Chaos menu step, `selection` already navigated among the
    /// `CHAOS_MODE_COUNT` modes.
    pub fn update_chaos_input(&mut self, selection: u8, back: bool, confirm: bool) -> (cmds: Vec<
        Command,
    >)
        requires
            !back && confirm ==> selection < CHAOS_MODE_COUNT,
        ensures
            (final(self)@, cmds@) == spec_chaos_input(old(self)@, selection, back, confirm),
    {
        self.state = GameState::ChaosSelect { selection };
        if back {
            self.state = GameState::TitleScreen { selection: 0 };
            Vec::new()
        } else if confirm {
            let mode = ChaosMode::from_index(selection);
            self.settings.chaos = mode;
            let ghost g1 = self@;
            let mut cmds: Vec<Command> = Vec::new();
            cmds.push(Command::SetChaosMode(mode));
            let mut rest = self.start_game();
            let ghost r = rest@;
            cmds.append(&mut rest);
            assert(cmds@ =~= seq![Command::SetChaosMode(mode)] + r);
            cmds
        } else {
            Vec::new()
        }
    }
}

} // verus!
