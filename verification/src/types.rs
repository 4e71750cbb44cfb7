//! Enums and small records shared by the whole game.

use vstd::prelude::*;

verus! {

/// Handle of an engine entity (ball, paddle, wall, goal sensor, pickup).
pub type EntityId = u64;

/// Points needed to win a match.
pub const WIN_SCORE: u32 = 7;

/// Most power-ups alive on the field at once.
pub const MAX_POWERUPS: usize = 3;

/// One half of the court. `Left` is the local player (or player 1).
#[derive(Clone, Copy, Debug, PartialEq, Eq, Structural)]
pub enum Side {
    Left,
    Right,
}

impl Side {
    /// The other side.
    pub fn opposite(self) -> (r: Side)
        ensures
            r == spec_opposite(self),
    {
        match self {
            Side::Left => Side::Right,
            Side::Right => Side::Left,
        }
    }
}

pub open spec fn spec_opposite(s: Side) -> Side {
    match s {
        Side::Left => Side::Right,
        Side::Right => Side::Left,
    }
}

#[derive(Clone, Copy, Debug, PartialEq, Eq, Structural)]
pub enum GameMode {
    SinglePlayer,
    TwoPlayer,
}

#[derive(Clone, Copy, Debug, PartialEq, Eq, Structural)]
pub enum Difficulty {
    Easy,
    Medium,
    Hard,
}

impl Difficulty {
    /// Menu label of the difficulty.
    pub fn label(self) -> (s: &'static str)
        ensures
            s@ == spec_difficulty_label(self),
    {
        match self {
            Difficulty::Easy => "Easy",
            Difficulty::Medium => "Medium",
            Difficulty::Hard => "Hard",
        }
    }
}

pub open spec fn spec_difficulty_label(d: Difficulty) -> Seq<char> {
    match d {
        Difficulty::Easy => "Easy"@,
        Difficulty::Medium => "Medium"@,
        Difficulty::Hard => "Hard"@,
    }
}

/// The chaos modes, in menu order. Insiculous is Insane and Ridiculous at once.
#[derive(Clone, Copy, Debug, PartialEq, Eq, Structural)]
pub enum ChaosMode {
    Normal,
    Insane,
    Ridiculous,
    Insiculous,
}

/// Number of chaos modes offered in the chaos menu.
pub const CHAOS_MODE_COUNT: u8 = 4;

pub open spec fn spec_chaos_at(i: int) -> ChaosMode {
    if i == 0 {
        ChaosMode::Normal
    } else if i == 1 {
        ChaosMode::Insane
    } else if i == 2 {
        ChaosMode::Ridiculous
    } else {
        ChaosMode::Insiculous
    }
}

pub open spec fn spec_is_insane(m: ChaosMode) -> bool {
    m == ChaosMode::Insane || m == ChaosMode::Insiculous
}

pub open spec fn spec_is_ridiculous(m: ChaosMode) -> bool {
    m == ChaosMode::Ridiculous || m == ChaosMode::Insiculous
}

impl ChaosMode {
    /// The mode at position `i` of the chaos menu.
    pub fn from_index(i: u8) -> (m: ChaosMode)
        requires
            i < CHAOS_MODE_COUNT,
        ensures
            m == spec_chaos_at(i as int),
    {
        match i {
            0 => ChaosMode::Normal,
            1 => ChaosMode::Insane,
            2 => ChaosMode::Ridiculous,
            _ => ChaosMode::Insiculous,
        }
    }

    /// Balls double their speed on every paddle hit.
    pub fn is_insane(self) -> (b: bool)
        ensures
            b == spec_is_insane(self),
    {
        match self {
            ChaosMode::Insane | ChaosMode::Insiculous => true,
            _ => false,
        }
    }

    /// The serve launches a second ball.
    pub fn is_ridiculous(self) -> (b: bool)
        ensures
            b == spec_is_ridiculous(self),
    {
        match self {
            ChaosMode::Ridiculous | ChaosMode::Insiculous => true,
            _ => false,
        }
    }
}

#[derive(Clone, Copy, Debug, PartialEq, Eq, Structural)]
pub enum PowerUpKind {
    SpeedBoost,
    MultiBall,
}

impl PowerUpKind {
    /// Editor-hierarchy display name for a spawned power-up entity.
    pub fn entity_name(self) -> (s: &'static str)
        ensures
            s@ == spec_power_up_name(self),
    {
        match self {
            PowerUpKind::SpeedBoost => "Power-Up (Speed Boost)",
            PowerUpKind::MultiBall => "Power-Up (Multi-Ball)",
        }
    }
}

pub open spec fn spec_power_up_name(k: PowerUpKind) -> Seq<char> {
    match k {
        PowerUpKind::SpeedBoost => "Power-Up (Speed Boost)"@,
        PowerUpKind::MultiBall => "Power-Up (Multi-Ball)"@,
    }
}

/// Which screen the game is on.
#[derive(Clone, Copy, Debug, PartialEq, Eq, Structural)]
pub enum GameState {
    TitleScreen { selection: u8 },
    DifficultySelect { selection: u8 },
    ChaosSelect { selection: u8 },
    Achievements,
    Serving,
    Playing,
    GameOver { left_wins: bool },
}

/// What the player picked in the menus before the match started.
#[derive(Clone, Copy, Debug, PartialEq, Eq, Structural)]
pub struct MatchSettings {
    pub mode: GameMode,
    pub difficulty: Difficulty,
    pub chaos: ChaosMode,
}

impl MatchSettings {
    /// Single player, Medium, Normal.
    pub fn new() -> (s: MatchSettings)
        ensures
            s == spec_default_settings(),
    {
        MatchSettings {
            mode: GameMode::SinglePlayer,
            difficulty: Difficulty::Medium,
            chaos: ChaosMode::Normal,
        }
    }
}

pub open spec fn spec_default_settings() -> MatchSettings {
    MatchSettings {
        mode: GameMode::SinglePlayer,
        difficulty: Difficulty::Medium,
        chaos: ChaosMode::Normal,
    }
}

impl Default for MatchSettings {
    fn default() -> (s: MatchSettings)
        ensures
            s == spec_default_settings(),
    {
        MatchSettings::new()
    }
}

/// Match score plus who scored and touched the ball last.
#[derive(Clone, Copy, Debug, PartialEq, Eq, Structural)]
pub struct Scoreboard {
    pub left: u32,
    pub right: u32,
    pub last_scorer: Side,
    pub last_touch: Option<Side>,
}

pub open spec fn spec_fresh_scoreboard() -> Scoreboard {
    Scoreboard { left: 0, right: 0, last_scorer: Side::Right, last_touch: None }
}

/// The score after `side` earns a point.
pub open spec fn spec_award(s: Scoreboard, side: Side) -> Scoreboard {
    match side {
        Side::Left => Scoreboard { left: (s.left + 1) as u32, last_scorer: side, ..s },
        Side::Right => Scoreboard { right: (s.right + 1) as u32, last_scorer: side, ..s },
    }
}

/// Points that `side` has.
pub open spec fn spec_points(s: Scoreboard, side: Side) -> int {
    match side {
        Side::Left => s.left as int,
        Side::Right => s.right as int,
    }
}

impl Scoreboard {
    /// 0 : 0, the right side counted as last scorer (so the first serve goes
    /// right), nobody has touched the ball.
    pub fn new() -> (s: Scoreboard)
        ensures
            s == spec_fresh_scoreboard(),
    {
        Scoreboard { left: 0, right: 0, last_scorer: Side::Right, last_touch: None }
    }

    pub fn award_point(&mut self, side: Side)
        requires
            spec_points(*old(self), side) < u32::MAX,
        ensures
            *final(self) == spec_award(*old(self), side),
    {
        match side {
            Side::Left => self.left = self.left + 1,
            Side::Right => self.right = self.right + 1,
        }
        self.last_scorer = side;
    }

    pub fn reset(&mut self)
        ensures
            *final(self) == spec_fresh_scoreboard(),
    {
        self.left = 0;
        self.right = 0;
        self.last_scorer = Side::Right;
        self.last_touch = None;
    }
}

impl Default for Scoreboard {
    fn default() -> (s: Scoreboard)
        ensures
            s == spec_fresh_scoreboard(),
    {
        Scoreboard::new()
    }
}

/// Handles of the long-lived playfield entities.
#[derive(Debug)]
pub struct Playfield {
    pub background: Option<EntityId>,
    pub left_paddle: Option<EntityId>,
    pub right_paddle: Option<EntityId>,
    pub walls: Vec<EntityId>,
    pub left_goal: Option<EntityId>,
    pub right_goal: Option<EntityId>,
}

impl Playfield {
    /// No entity spawned yet.
    pub fn new() -> (p: Playfield)
        ensures
            p.background.is_none(),
            p.left_paddle.is_none(),
            p.right_paddle.is_none(),
            p.walls@.len() == 0,
            p.left_goal.is_none(),
            p.right_goal.is_none(),
    {
        Playfield {
            background: None,
            left_paddle: None,
            right_paddle: None,
            walls: Vec::new(),
            left_goal: None,
            right_goal: None,
        }
    }
}

/// A contact reported by the physics engine between two entities.
#[derive(Clone, Copy, Debug, PartialEq, Eq, Structural)]
pub struct Collision {
    pub first: EntityId,
    pub second: EntityId,
    /// The contact began this frame (as opposed to ending).
    pub started: bool,
}

pub open spec fn spec_involves(c: Collision, x: EntityId, y: EntityId) -> bool {
    (c.first == x && c.second == y) || (c.first == y && c.second == x)
}

impl Collision {
    /// The contact is between `x` and `y`, in either order.
    pub fn involves(&self, x: EntityId, y: EntityId) -> (b: bool)
        ensures
            b == spec_involves(*self, x, y),
    {
        (self.first == x && self.second == y) || (self.first == y && self.second == x)
    }
}

/// What the pause menu reported this frame.
#[derive(Clone, Copy, Debug, PartialEq, Eq, Structural)]
pub enum PauseAction {
    Idle,
    Resumed,
    Restart,
    QuitToTitle,
    ExitGame,
}

/// An order to the host engine, produced by a game step.
#[derive(Clone, Copy, Debug, PartialEq, Eq)]
pub enum Command {
    /// Destroy the entity and its physics body.
    DestroyBall(EntityId),
    /// Destroy every live power-up pickup.
    ClearPowerUps,
    /// Put the power-up timers back to their start-of-match values.
    ResetPowerUps,
    /// End a running speed boost.
    StopSpeedBoost,
    /// Start (or restart) the speed boost.
    StartSpeedBoost,
    /// Recolor background, walls and balls for the current chaos mode.
    ApplyTheme,
    /// Put the primary ball at the center at rest and both paddles home.
    ResetPositions,
    /// Fire `ball` at the serve speed toward `toward`, with vertical spread
    /// taken from `spread` (a 16-bit hash value).
    Launch { ball: EntityId, toward: Side, spread: u32 },
    /// Spawn an extra ball at the center, fire it like `Launch`, and report
    /// it back with `add_extra_ball`.
    SpawnServeBall { toward: Side, spread: u32 },
    /// Spawn an extra ball at the position of `source` (multi-ball pickup),
    /// and report it back with `add_extra_ball`.
    SpawnExtraBall { source: EntityId },
    /// Spawn a fresh primary ball at the center and report it back with
    /// `install_primary`.
    SpawnFreshBall,
    /// Tint the ball with the color of the paddle on `side`.
    TintBall { ball: EntityId, side: Side },
    /// Double the ball's current velocity.
    DoubleVelocity(EntityId),
    /// Particle burst and grid ripple where the ball bounced off the paddle
    /// on `side`.
    HitBurst { ball: EntityId, side: Side },
    /// Explosion where the ball left the field, in the scorer's color.
    GoalExplosion { ball: EntityId, scorer: Side },
    /// Unlock an achievement.
    Unlock(crate::achievements::Achievement),
    /// Tell the engine which chaos mode is in force.
    SetChaosMode(ChaosMode),
    /// Leave the game.
    ExitGame,
}

} // verus!
