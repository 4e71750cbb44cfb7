//! The game state and the match lifecycle: serving, game-over input,
//! starting and leaving a match, pausing, and the win condition.

use vstd::prelude::*;
use crate::achievements::{spec_win_unlocks, unlock_win_achievements, Achievement};
use crate::balls::{spec_all, Balls};
use crate::types::{
    spec_fresh_scoreboard, spec_opposite, spec_is_ridiculous, spec_default_settings,
    Command, EntityId, GameState, MatchSettings, PauseAction, Playfield, Scoreboard,
    WIN_SCORE,
};

verus! {

broadcast use vstd::std_specs::hash::group_hash_axioms;

/// Everything the game tracks between frames, apart from what the engine
/// owns (physics bodies, textures, timers, pickups).
pub struct PongGame {
    pub state: GameState,
    pub settings: MatchSettings,
    pub playfield: Playfield,
    pub balls: Balls,
    pub score: Scoreboard,
    pub frame_count: u32,
    /// Outline every collider (toggled with F1).
    pub debug_colliders: bool,
}

/// The game state as plain mathematical values.
#[verifier::ext_equal]
pub struct GameView {
    pub state: GameState,
    pub settings: MatchSettings,
    pub background: Option<EntityId>,
    pub left_paddle: Option<EntityId>,
    pub right_paddle: Option<EntityId>,
    pub walls: Seq<EntityId>,
    pub left_goal: Option<EntityId>,
    pub right_goal: Option<EntityId>,
    pub primary: Option<EntityId>,
    pub extras: Seq<EntityId>,
    pub doublings: Map<EntityId, u32>,
    pub score: Scoreboard,
    pub frame_count: u32,
    pub debug_colliders: bool,
}

impl View for PongGame {
    type V = GameView;

    open spec fn view(&self) -> GameView {
        GameView {
            state: self.state,
            settings: self.settings,
            background: self.playfield.background,
            left_paddle: self.playfield.left_paddle,
            right_paddle: self.playfield.right_paddle,
            walls: self.playfield.walls@,
            left_goal: self.playfield.left_goal,
            right_goal: self.playfield.right_goal,
            primary: self.balls.primary,
            extras: self.balls.extras@,
            doublings: self.balls.speed_doublings@,
            score: self.score,
            frame_count: self.frame_count,
            debug_colliders: self.debug_colliders,
        }
    }
}

impl GameView {
    /// Every live ball, primary first.
    pub open spec fn all_balls(self) -> Seq<EntityId> {
        spec_all(self.primary, self.extras)
    }

    /// A primary ball exists whenever any ball does.
    pub open spec fn wf(self) -> bool {
        self.primary.is_none() ==> self.extras.len() == 0
    }
}

/// The state of a freshly started program: title screen, default settings,
/// nothing spawned, 0 : 0.
pub open spec fn spec_initial(g: GameView) -> bool {
    &&& g.state == GameState::TitleScreen { selection: 0 }
    &&& g.settings == spec_default_settings()
    &&& g.background.is_none()
    &&& g.left_paddle.is_none()
    &&& g.right_paddle.is_none()
    &&& g.walls.len() == 0
    &&& g.left_goal.is_none()
    &&& g.right_goal.is_none()
    &&& g.primary.is_none()
    &&& g.extras.len() == 0
    &&& g.doublings == Map::<EntityId, u32>::empty()
    &&& g.score == spec_fresh_scoreboard()
    &&& g.frame_count == 0
    &&& !g.debug_colliders
}

/// Destroy orders for the given balls, in order.
pub open spec fn spec_destroy_cmds(balls: Seq<EntityId>) -> Seq<Command> {
    balls.map_values(|b: EntityId| Command::DestroyBall(b))
}

/// Tear down every extra ball and its speed multiplier.
pub open spec fn spec_destroy_extras(g: GameView) -> (GameView, Seq<Command>) {
    (
        GameView {
            extras: Seq::empty(),
            doublings: g.doublings.remove_keys(g.extras.to_set()),
            ..g
        },
        spec_destroy_cmds(g.extras),
    )
}

/// Begin a fresh match with the current settings: zero the score, drop all
/// transient state, re-theme the playfield, and wait for the serve.
pub open spec fn spec_start_game(g: GameView) -> (GameView, Seq<Command>) {
    let (g1, c1) = spec_destroy_extras(g);
    (
        GameView {
            score: spec_fresh_scoreboard(),
            doublings: Map::empty(),
            state: GameState::Serving,
            ..g1
        },
        c1 + seq![
            Command::ClearPowerUps,
            Command::ResetPowerUps,
            Command::ApplyTheme,
            Command::ResetPositions,
        ],
    )
}

/// Leave the match for the title screen.
pub open spec fn spec_reset_to_title(g: GameView) -> (GameView, Seq<Command>) {
    let (g1, c1) = spec_destroy_extras(g);
    (
        GameView { state: GameState::TitleScreen { selection: 0 }, ..g1 },
        c1 + seq![Command::ClearPowerUps, Command::StopSpeedBoost, Command::ResetPositions],
    )
}

/// Vertical-spread hash of a serve: the top 16 bits of
/// `frame * 2654435761 + salt` in 32-bit wrapping arithmetic.
pub open spec fn spec_serve_spread(frame: u32, salt: u32) -> u32 {
    (((frame as int * 2654435761 + salt as int) % 0x1_0000_0000) / 0x10000) as u32
}

/// Salt of the second ball served in Ridiculous mode.
pub const RIDICULOUS_SERVE_SALT: u32 = 0x9E37;

/// Salt of a ball spawned by the multi-ball power-up.
pub const MULTI_BALL_SALT: u32 = 0xB5297A4D;

/// Launch the primary ball toward the last scorer's opponent. In Ridiculous
/// mode a second ball heads the opposite way, so each player gets one
/// incoming. Without a primary ball nothing happens.
pub open spec fn spec_serve(g: GameView) -> (GameView, Seq<Command>) {
    match g.primary {
        None => (g, Seq::empty()),
        Some(ball) => {
            let toward = spec_opposite(g.score.last_scorer);
            let launch = Command::Launch {
                ball,
                toward,
                spread: spec_serve_spread(g.frame_count, 0),
            };
            let extra = if spec_is_ridiculous(g.settings.chaos) {
                seq![
                    Command::SpawnServeBall {
                        toward: spec_opposite(toward),
                        spread: spec_serve_spread(g.frame_count, RIDICULOUS_SERVE_SALT),
                    },
                ]
            } else {
                Seq::empty()
            };
            (GameView { state: GameState::Playing, ..g }, seq![launch] + extra)
        },
    }
}

/// Serve from `Serving` (or leave for the title screen), restart or leave
/// from `GameOver`. `primary` is either player's primary action this frame,
/// `menu` either player's menu action.
pub open spec fn spec_gameplay_input(g: GameView, primary: bool, menu: bool) -> (
    GameView,
    Seq<Command>,
) {
    match g.state {
        GameState::Serving => if menu {
            spec_reset_to_title(g)
        } else if primary {
            spec_serve(g)
        } else {
            (g, Seq::empty())
        },
        GameState::GameOver { .. } => if primary {
            spec_start_game(g)
        } else if menu {
            spec_reset_to_title(g)
        } else {
            (g, Seq::empty())
        },
        _ => (g, Seq::empty()),
    }
}

/// Who won, if a side reached the winning score (the left side is checked
/// first).
pub open spec fn spec_winner(s: Scoreboard) -> Option<bool> {
    if s.left >= WIN_SCORE {
        Some(true)
    } else if s.right >= WIN_SCORE {
        Some(false)
    } else {
        None
    }
}

/// Unlock orders for the given achievements, in order.
pub open spec fn spec_unlock_cmds(ids: Seq<Achievement>) -> Seq<Command> {
    ids.map_values(|a: Achievement| Command::Unlock(a))
}

/// During a match, end it as soon as a side has the winning score: clear the
/// extras and power-ups, hand out achievements, show the game-over screen.
pub open spec fn spec_check_win(g: GameView) -> (GameView, Seq<Command>) {
    if !(g.state == GameState::Playing || g.state == GameState::Serving) {
        (g, Seq::empty())
    } else {
        match spec_winner(g.score) {
            None => (g, Seq::empty()),
            Some(left_wins) => {
                let (g1, c1) = spec_destroy_extras(g);
                (
                    GameView { state: GameState::GameOver { left_wins }, ..g1 },
                    c1 + seq![Command::ClearPowerUps, Command::StopSpeedBoost] + spec_unlock_cmds(
                        spec_win_unlocks(g.settings, left_wins, g.score.right),
                    ),
                )
            },
        }
    }
}

/// React to the pause menu: restart, quit to title, or exit end the frame's
/// gameplay; a resume also ends it (so the key that resumed cannot leak into
/// play); otherwise play goes on.
pub open spec fn spec_pause(g: GameView, action: PauseAction) -> (GameView, bool, Seq<Command>) {
    match action {
        PauseAction::Restart => {
            let (g1, c) = spec_start_game(g);
            (g1, false, c)
        },
        PauseAction::QuitToTitle => {
            let (g1, c) = spec_reset_to_title(g);
            (g1, false, c)
        },
        PauseAction::ExitGame => (g, false, seq![Command::ExitGame]),
        PauseAction::Resumed => (g, false, Seq::empty()),
        PauseAction::Idle => (g, true, Seq::empty()),
    }
}

/// Gameplay entities are shown except on the menu screens.
pub open spec fn spec_gameplay_visible(s: GameState) -> bool {
    !(s is TitleScreen || s is DifficultySelect || s is ChaosSelect || s is Achievements)
}

pub open spec fn spec_flatten2(a: Option<EntityId>, b: Option<EntityId>) -> Seq<EntityId> {
    match (a, b) {
        (Some(x), Some(y)) => seq![x, y],
        (Some(x), None) => seq![x],
        (None, Some(y)) => seq![y],
        (None, None) => Seq::empty(),
    }
}

impl PongGame {
    /// Title screen, default settings, nothing spawned yet.
    pub fn new() -> (g: PongGame)
        ensures
            spec_initial(g@),
    {
        PongGame {
            state: GameState::TitleScreen { selection: 0 },
            settings: MatchSettings::new(),
            playfield: Playfield::new(),
            balls: Balls::new(),
            score: Scoreboard::new(),
            frame_count: 0,
            debug_colliders: false,
        }
    }

    /// Count one more frame (wrapping).
    pub fn advance_frame(&mut self)
        ensures
            final(self)@ == (GameView {
                frame_count: if old(self).frame_count == u32::MAX {
                    0
                } else {
                    (old(self).frame_count + 1) as u32
                },
                ..old(self)@
            }),
    {
        self.frame_count = self.frame_count.wrapping_add(1);
    }

    /// The match loop only runs once the primary ball and both paddles exist.
    pub fn gameplay_ready(&self) -> (b: bool)
        ensures
            b == (self.balls.primary.is_some() && self.playfield.left_paddle.is_some()
                && self.playfield.right_paddle.is_some()),
    {
        self.balls.primary.is_some() && self.playfield.left_paddle.is_some()
            && self.playfield.right_paddle.is_some()
    }

    /// F1 flips the collider debug overlay.
    pub fn toggle_debug_colliders(&mut self)
        ensures
            final(self)@ == (GameView { debug_colliders: !old(self).debug_colliders, ..old(self)@ }),
    {
        self.debug_colliders = !self.debug_colliders;
    }

    /// The pause menu is only live while serving or playing.
    pub fn pause_applies(&self) -> (b: bool)
        ensures
            b == (self.state == GameState::Serving || self.state == GameState::Playing),
    {
        match self.state {
            GameState::Serving | GameState::Playing => true,
            _ => false,
        }
    }

    /// Destroy every extra ball and drop its speed multiplier.
    pub fn destroy_all_extra_balls(&mut self) -> (cmds: Vec<Command>)
        ensures
            (final(self)@, cmds@) == spec_destroy_extras(old(self)@),
    {
        let taken = self.balls.take_extras();
        let mut cmds: Vec<Command> = Vec::new();
        let n = taken.len();
        for i in 0..n
            invariant
                n == taken@.len(),
                cmds@ == spec_destroy_cmds(taken@.take(i as int)),
        {
            cmds.push(Command::DestroyBall(taken[i]));
            assert(taken@.take(i + 1) == taken@.take(i as int).push(taken@[i as int]));
            assert(cmds@ =~= spec_destroy_cmds(taken@.take(i + 1)));
        }
        assert(taken@.take(n as int) == taken@);
        assert(self@ =~= spec_destroy_extras(old(self)@).0);
        cmds
    }

    /// Begin a fresh match with the current settings.
    pub fn start_game(&mut self) -> (cmds: Vec<Command>)
        ensures
            (final(self)@, cmds@) == spec_start_game(old(self)@),
    {
        let mut cmds = self.destroy_all_extra_balls();
        self.score.reset();
        cmds.push(Command::ClearPowerUps);
        cmds.push(Command::ResetPowerUps);
        self.balls.clear_speeds();
        cmds.push(Command::ApplyTheme);
        cmds.push(Command::ResetPositions);
        self.state = GameState::Serving;
        proof {
            let (g1, c1) = spec_destroy_extras(old(self)@);
            assert(cmds@ =~= c1 + seq![
                Command::ClearPowerUps,
                Command::ResetPowerUps,
                Command::ApplyTheme,
                Command::ResetPositions,
            ]);
        }
        cmds
    }

    /// Leave the match for the title screen.
    pub fn reset_to_title(&mut self) -> (cmds: Vec<Command>)
        ensures
            (final(self)@, cmds@) == spec_reset_to_title(old(self)@),
    {
        let mut cmds = self.destroy_all_extra_balls();
        cmds.push(Command::ClearPowerUps);
        cmds.push(Command::StopSpeedBoost);
        cmds.push(Command::ResetPositions);
        self.state = GameState::TitleScreen { selection: 0 };
        proof {
            let (g1, c1) = spec_destroy_extras(old(self)@);
            assert(cmds@ =~= c1 + seq![
                Command::ClearPowerUps,
                Command::StopSpeedBoost,
                Command::ResetPositions,
            ]);
        }
        cmds
    }

    /// Serve the ball (see `spec_serve`).
    pub fn serve(&mut self) -> (cmds: Vec<Command>)
        ensures
            (final(self)@, cmds@) == spec_serve(old(self)@),
    {
        let mut cmds: Vec<Command> = Vec::new();
        let ball = match self.balls.primary {
            Some(b) => b,
            None => {
                return cmds;
            },
        };
        let toward = self.score.last_scorer.opposite();
        cmds.push(Command::Launch { ball, toward, spread: serve_spread(self.frame_count, 0) });
        if self.settings.chaos.is_ridiculous() {
            cmds.push(
                Command::SpawnServeBall {
                    toward: toward.opposite(),
                    spread: serve_spread(self.frame_count, RIDICULOUS_SERVE_SALT),
                },
            );
        }
        self.state = GameState::Playing;
        proof {
            let (g1, c1) = spec_serve(old(self)@);
            assert(cmds@ =~= c1);
        }
        cmds
    }

    /// State transitions during a match (see `spec_gameplay_input`).
    pub fn handle_gameplay_input(&mut self, primary: bool, menu: bool) -> (cmds: Vec<Command>)
        ensures
            (final(self)@, cmds@) == spec_gameplay_input(old(self)@, primary, menu),
    {
        match self.state {
            GameState::Serving => {
                if menu {
                    self.reset_to_title()
                } else if primary {
                    self.serve()
                } else {
                    Vec::new()
                }
            },
            GameState::GameOver { .. } => {
                if primary {
                    self.start_game()
                } else if menu {
                    self.reset_to_title()
                } else {
                    Vec::new()
                }
            },
            _ => Vec::new(),
        }
    }

    /// End the match once a side has the winning score.
    pub fn check_win_condition(&mut self) -> (cmds: Vec<Command>)
        ensures
            (final(self)@, cmds@) == spec_check_win(old(self)@),
    {
        match self.state {
            GameState::Playing | GameState::Serving => {},
            _ => {
                return Vec::new();
            },
        }
        let left_wins = if self.score.left >= WIN_SCORE {
            true
        } else if self.score.right >= WIN_SCORE {
            false
        } else {
            return Vec::new();
        };
        let mut cmds = self.destroy_all_extra_balls();
        cmds.push(Command::ClearPowerUps);
        cmds.push(Command::StopSpeedBoost);
        let ghost before = cmds@;
        let ids = unlock_win_achievements(self.settings, left_wins, self.score.right);
        let n = ids.len();
        for i in 0..n
            invariant
                n == ids@.len(),
                cmds@ == before + spec_unlock_cmds(ids@.take(i as int)),
        {
            cmds.push(Command::Unlock(ids[i]));
            assert(ids@.take(i + 1) == ids@.take(i as int).push(ids@[i as int]));
            assert(cmds@ =~= before + spec_unlock_cmds(ids@.take(i + 1)));
        }
        assert(ids@.take(n as int) == ids@);
        self.state = GameState::GameOver { left_wins };
        proof {
            let (g1, c1) = spec_destroy_extras(old(self)@);
            assert(cmds@ =~= c1 + seq![Command::ClearPowerUps, Command::StopSpeedBoost]
                + spec_unlock_cmds(spec_win_unlocks(old(self).settings, left_wins, old(self).score.right)));
        }
        cmds
    }

    /// React to what the pause menu reported; the flag says whether the
    /// frame's gameplay goes on.
    pub fn handle_pause_action(&mut self, action: PauseAction) -> (r: (bool, Vec<Command>))
        ensures
            (final(self)@, r.0, r.1@) == spec_pause(old(self)@, action),
    {
        match action {
            PauseAction::Restart => (false, self.start_game()),
            PauseAction::QuitToTitle => (false, self.reset_to_title()),
            PauseAction::ExitGame => {
                let mut cmds: Vec<Command> = Vec::new();
                cmds.push(Command::ExitGame);
                assert(cmds@ =~= seq![Command::ExitGame]);
                (false, cmds)
            },
            PauseAction::Resumed => (false, Vec::new()),
            PauseAction::Idle => (true, Vec::new()),
        }
    }

    /// Track a freshly spawned extra ball.
    pub fn add_extra_ball(&mut self, ball: EntityId)
        ensures
            final(self)@ == (GameView { extras: old(self)@.extras.push(ball), ..old(self)@ }),
    {
        self.balls.add_extra(ball);
    }

    /// Make a freshly spawned ball the primary ball.
    pub fn install_primary(&mut self, ball: EntityId)
        ensures
            final(self)@ == (GameView { primary: Some(ball), ..old(self)@ }),
    {
        self.balls.primary = Some(ball);
    }

    /// Gameplay sprites only render during a match; menus get a bare screen.
    pub fn gameplay_visible(&self) -> (b: bool)
        ensures
            b == spec_gameplay_visible(self.state),
    {
        match self.state {
            GameState::TitleScreen { .. } | GameState::DifficultySelect { .. }
            | GameState::ChaosSelect { .. } | GameState::Achievements => false,
            _ => true,
        }
    }

    /// The entities whose visibility follows `gameplay_visible` (the live
    /// power-ups are added by the engine): paddles, balls, walls.
    pub fn visibility_targets(&self) -> (r: Vec<EntityId>)
        ensures
            r@ == spec_flatten2(self@.left_paddle, self@.right_paddle) + self@.all_balls()
                + self@.walls,
    {
        let mut r: Vec<EntityId> = Vec::new();
        if let Some(p) = self.playfield.left_paddle {
            r.push(p);
        }
        if let Some(p) = self.playfield.right_paddle {
            r.push(p);
        }
        let ghost head = r@;
        assert(head =~= spec_flatten2(self@.left_paddle, self@.right_paddle));
        let mut balls = self.balls.all();
        r.append(&mut balls);
        let ghost mid = r@;
        let n = self.playfield.walls.len();
        for i in 0..n
            invariant
                n == self.playfield.walls@.len(),
                r@ == mid + self.playfield.walls@.take(i as int),
        {
            r.push(self.playfield.walls[i]);
            assert(self.playfield.walls@.take(i + 1) == self.playfield.walls@.take(i as int).push(
                self.playfield.walls@[i as int],
            ));
            assert(r@ =~= mid + self.playfield.walls@.take(i + 1));
        }
        assert(self.playfield.walls@.take(n as int) == self.playfield.walls@);
        r
    }
}

/// Vertical-spread hash of a serve (see `spec_serve_spread`). `salt`
/// decorrelates several balls served on the same frame.
pub fn serve_spread(frame: u32, salt: u32) -> (h: u32)
    ensures
        h == spec_serve_spread(frame, salt),
{
    let hash = frame.wrapping_mul(2654435761).wrapping_add(salt);
    proof {
        let m: int = 0x1_0000_0000;
        let p = (frame as int * 2654435761) % m;
        assert(frame.wrapping_mul(2654435761) as int == p);
        vstd::arithmetic::div_mod::lemma_add_mod_noop(frame as int * 2654435761, salt as int, m);
        vstd::arithmetic::div_mod::lemma_small_mod(salt as nat, m as nat);
        vstd::arithmetic::div_mod::lemma_mod_twice(frame as int * 2654435761, m);
        if p + salt >= m {
            vstd::arithmetic::div_mod::lemma_small_mod((p + salt - m) as nat, m as nat);
            vstd::arithmetic::div_mod::lemma_mod_add_multiples_vanish(p + salt - m, m);
        } else {
            vstd::arithmetic::div_mod::lemma_small_mod((p + salt) as nat, m as nat);
        }
        assert(hash as int == (frame as int * 2654435761 + salt as int) % m);
    }
    let r = hash >> 16;
    assert(r == hash / 0x10000) by (bit_vector)
        requires
            r == hash >> 16,
    ;
    r
}

} // verus!
