//! Properties that hold across the game's steps.

use vstd::prelude::*;
use crate::balls::lemma_remove_keeps_primary;
use crate::game::{
    spec_check_win, spec_gameplay_input, spec_pause, spec_reset_to_title, spec_serve,
    spec_start_game, spec_winner, GameView,
};
use crate::menu::{spec_achievements_input, spec_chaos_input, spec_difficulty_input, spec_title_input};
use crate::types::{ChaosMode, Difficulty, GameMode};
use crate::scoring::{
    spec_apply_doublings, spec_arena, spec_check_goals, spec_doublings_in, spec_scan_balls,
    spec_scan_contacts, spec_score_balls, spec_score_escapes, spec_start_scan,
    Arena, ContactScan,
};
use crate::types::{spec_opposite, spec_is_ridiculous, Collision, Command, EntityId, GameState, PauseAction, Side};

verus! {

proof fn lemma_escapes_keep_primary(g: GameView, es: Seq<(EntityId, Side)>)
    requires
        g.wf(),
    ensures
        spec_score_escapes(g, es).0.wf(),
    decreases es.len(),
{
    if es.len() > 0 {
        lemma_escapes_keep_primary(g, es.drop_last());
        let (g1, c1) = spec_score_escapes(g, es.drop_last());
        lemma_remove_keeps_primary(g1.primary, g1.extras, es.last().0);
    }
}

proof fn lemma_scored_keep_primary(g: GameView, sc: Seq<(EntityId, Side)>)
    requires
        g.wf(),
    ensures
        spec_score_balls(g, sc).0.wf(),
    decreases sc.len(),
{
    if sc.len() > 0 {
        lemma_scored_keep_primary(g, sc.drop_last());
        let (g1, c1) = spec_score_balls(g, sc.drop_last());
        lemma_remove_keeps_primary(g1.primary, g1.extras, sc.last().0);
    }
}

/// Scoring escaped balls leaves the match settings alone.
pub proof fn lemma_escapes_keep_settings(g: GameView, es: Seq<(EntityId, Side)>)
    ensures
        spec_score_escapes(g, es).0.settings == g.settings,
    decreases es.len(),
{
    if es.len() > 0 {
        lemma_escapes_keep_settings(g, es.drop_last());
    }
}

/// Every step of the game keeps a primary ball whenever any ball is alive:
/// scoring the primary promotes an extra, and tearing down leaves no extra
/// behind.
pub proof fn lemma_steps_keep_primary(
    g: GameView,
    primary: bool,
    menu: bool,
    action: PauseAction,
    selection: u8,
    back: bool,
    confirm: bool,
    escapes: Seq<(EntityId, Side)>,
    cs: Seq<Collision>,
)
    requires
        g.wf(),
    ensures
        spec_start_game(g).0.wf(),
        spec_reset_to_title(g).0.wf(),
        spec_serve(g).0.wf(),
        spec_gameplay_input(g, primary, menu).0.wf(),
        spec_check_win(g).0.wf(),
        spec_pause(g, action).0.wf(),
        spec_title_input(g, selection, confirm).0.wf(),
        spec_achievements_input(g, back, confirm).wf(),
        spec_difficulty_input(g, selection, back, confirm).wf(),
        spec_chaos_input(g, selection, back, confirm).0.wf(),
        spec_check_goals(g, escapes, cs).0.wf(),
{
    match spec_arena(g) {
        None => {},
        Some(a) => {
            lemma_escapes_keep_primary(g, escapes);
            let (g1, c1) = spec_score_escapes(g, escapes);
            let sc = spec_scan_contacts(
                spec_start_scan(g1.score.last_touch),
                cs,
                g1.all_balls(),
                a,
                crate::types::spec_is_insane(g1.settings.chaos),
            );
            let g2 = GameView {
                score: crate::types::Scoreboard { last_touch: sc.last_touch, ..g1.score },
                doublings: spec_apply_doublings(g1.doublings, sc.hits),
                ..g1
            };
            lemma_scored_keep_primary(g2, sc.scored);
        },
    }
}

/// Number of entries of `s` whose side is `side`.
pub open spec fn spec_count_side(s: Seq<(EntityId, Side)>, side: Side) -> nat
    decreases s.len(),
{
    if s.len() == 0 {
        0
    } else {
        spec_count_side(s.drop_last(), side) + if s.last().1 == side {
            1nat
        } else {
            0nat
        }
    }
}

proof fn lemma_count_side_le(s: Seq<(EntityId, Side)>, side: Side)
    ensures
        spec_count_side(s, side) <= s.len(),
    decreases s.len(),
{
    if s.len() > 0 {
        lemma_count_side_le(s.drop_last(), side);
    }
}

/// Every escaped ball earns exactly one point for the side it names.
pub proof fn lemma_escape_points(g: GameView, es: Seq<(EntityId, Side)>)
    requires
        g.score.left + es.len() <= u32::MAX,
        g.score.right + es.len() <= u32::MAX,
    ensures
        spec_score_escapes(g, es).0.score.left == g.score.left + spec_count_side(es, Side::Left),
        spec_score_escapes(g, es).0.score.right == g.score.right + spec_count_side(es, Side::Right),
    decreases es.len(),
{
    if es.len() > 0 {
        lemma_escape_points(g, es.drop_last());
        lemma_count_side_le(es.drop_last(), Side::Left);
        lemma_count_side_le(es.drop_last(), Side::Right);
    }
}

/// Every ball that entered a goal earns exactly one point for the side it
/// names.
pub proof fn lemma_goal_points(g: GameView, sc: Seq<(EntityId, Side)>)
    requires
        g.score.left + sc.len() <= u32::MAX,
        g.score.right + sc.len() <= u32::MAX,
    ensures
        spec_score_balls(g, sc).0.score.left == g.score.left + spec_count_side(sc, Side::Left),
        spec_score_balls(g, sc).0.score.right == g.score.right + spec_count_side(sc, Side::Right),
    decreases sc.len(),
{
    if sc.len() > 0 {
        lemma_goal_points(g, sc.drop_last());
        lemma_count_side_le(sc.drop_last(), Side::Left);
        lemma_count_side_le(sc.drop_last(), Side::Right);
    }
}

/// Number of entries of `s` equal to `b`.
pub open spec fn spec_count(s: Seq<EntityId>, b: EntityId) -> nat
    decreases s.len(),
{
    if s.len() == 0 {
        0
    } else {
        spec_count(s.drop_last(), b) + if s.last() == b {
            1nat
        } else {
            0nat
        }
    }
}

/// Insane mode: each paddle hit doubles that ball's speed multiplier once
/// more (the count of doublings saturates at `u32::MAX`).
pub proof fn lemma_doublings_count_hits(m: Map<EntityId, u32>, hits: Seq<EntityId>, b: EntityId)
    ensures
        spec_doublings_in(spec_apply_doublings(m, hits), b) == (if spec_doublings_in(m, b)
            + spec_count(hits, b) < u32::MAX {
            spec_doublings_in(m, b) + spec_count(hits, b)
        } else {
            u32::MAX as int
        }),
    decreases hits.len(),
{
    if hits.len() > 0 {
        lemma_doublings_count_hits(m, hits.drop_last(), b);
    }
}

proof fn lemma_scan_balls_no_hits(s: ContactScan, c: Collision, bs: Seq<EntityId>, a: Arena)
    ensures
        spec_scan_balls(s, c, bs, a, false).hits == s.hits,
    decreases bs.len(),
{
    if bs.len() > 0 {
        lemma_scan_balls_no_hits(s, c, bs.drop_last(), a);
    }
}

/// Outside Insane and Insiculous modes no ball ever speeds up.
pub proof fn lemma_no_doubling_when_sane(
    last_touch: Option<Side>,
    cs: Seq<Collision>,
    balls: Seq<EntityId>,
    a: Arena,
)
    ensures
        spec_scan_contacts(spec_start_scan(last_touch), cs, balls, a, false).hits.len() == 0,
    decreases cs.len(),
{
    if cs.len() > 0 {
        lemma_no_doubling_when_sane(last_touch, cs.drop_last(), balls, a);
        let prev = spec_scan_contacts(spec_start_scan(last_touch), cs.drop_last(), balls, a, false);
        lemma_scan_balls_no_hits(prev, cs.last(), balls, a);
    }
}

/// A serve launches the primary ball toward the opponent of the last scorer;
/// in Ridiculous (and Insiculous) mode a second ball is sent the other way,
/// so each player gets one incoming.
pub proof fn lemma_serve_directions(g: GameView)
    requires
        g.primary.is_some(),
    ensures
        spec_serve(g).0.state == GameState::Playing,
        spec_serve(g).1[0] matches Command::Launch { ball, toward, .. } && ball == g.primary.unwrap()
            && toward == spec_opposite(g.score.last_scorer),
        spec_is_ridiculous(g.settings.chaos) ==> (spec_serve(g).1.len() == 2 && (spec_serve(g).1[1] matches Command::SpawnServeBall {
            toward,
            ..
        } && toward == g.score.last_scorer)),
        !spec_is_ridiculous(g.settings.chaos) ==> spec_serve(g).1.len() == 1,
{
}

/// A match ends exactly when, during play or the serve, a side has reached
/// the winning score; the game-over screen then names the winner, and no
/// extra ball survives.
pub proof fn lemma_win_ends_match(g: GameView)
    ensures
        ((g.state == GameState::Playing || g.state == GameState::Serving) && spec_winner(g.score)
            is Some) ==> {
            &&& spec_check_win(g).0.state == (GameState::GameOver {
                left_wins: spec_winner(g.score).unwrap(),
            })
            &&& spec_check_win(g).0.extras.len() == 0
        },
        !((g.state == GameState::Playing || g.state == GameState::Serving) && spec_winner(g.score)
            is Some) ==> spec_check_win(g) == (g, Seq::<Command>::empty()),
{
}

/// Starting a match always leads to a 0 : 0 serve with no extra ball.
pub proof fn lemma_start_game_fresh(g: GameView)
    ensures
        spec_start_game(g).0.state == GameState::Serving,
        spec_start_game(g).0.score.left == 0,
        spec_start_game(g).0.score.right == 0,
        spec_start_game(g).0.extras.len() == 0,
        spec_start_game(g).0.primary == g.primary,
        spec_start_game(g).0.settings == g.settings,
{
}


/// Confirming the difficulty menu sets up a single-player match against the
/// CPU at the highlighted entry of Easy, Medium, Hard (anything past the list
/// counts as Hard) and moves on to the chaos menu; different entries give
/// different difficulties. Going back returns to the title screen and keeps
/// the settings.
pub proof fn lemma_difficulty_choice(g: GameView, s1: u8, s2: u8, confirm: bool)
    ensures
        ({
            let r = spec_difficulty_input(g, s1, false, true);
            &&& s1 == 0 ==> r.settings.difficulty == Difficulty::Easy
            &&& s1 == 1 ==> r.settings.difficulty == Difficulty::Medium
            &&& s1 >= 2 ==> r.settings.difficulty == Difficulty::Hard
            &&& r.settings.mode == GameMode::SinglePlayer
            &&& r.settings.chaos == g.settings.chaos
            &&& r.state == (GameState::ChaosSelect { selection: 0 })
        }),
        s1 < 3 && s2 < 3 && s1 != s2 ==> spec_difficulty_input(g, s1, false, true).settings.difficulty
            != spec_difficulty_input(g, s2, false, true).settings.difficulty,
        spec_difficulty_input(g, s1, true, confirm).settings == g.settings,
        spec_difficulty_input(g, s1, true, confirm).state == (GameState::TitleScreen { selection: 0 }),
{
}

/// In-match input. While serving, a menu action always leads back to the
/// title screen (whatever else is pressed): every extra ball is destroyed,
/// the power-ups cleared, the speed boost stopped and the positions reset,
/// and the score kept; a primary action alone serves. At game over a
/// primary action starts a fresh 0 : 0 match, a menu action alone leaves for
/// the title screen. Other states ignore the input.
pub proof fn lemma_gameplay_input_effects(g: GameView, primary: bool, menu: bool)
    ensures
        g.state == GameState::Serving ==> {
            let (r, c) = spec_gameplay_input(g, primary, true);
            &&& (r, c) == spec_reset_to_title(g)
            &&& r.state == (GameState::TitleScreen { selection: 0 })
            &&& r.extras.len() == 0
            &&& r.primary == g.primary
            &&& r.score == g.score
            &&& c.len() == g.extras.len() + 3
            &&& forall|i: int| 0 <= i < g.extras.len() ==> c[i] == Command::DestroyBall(#[trigger] g.extras[i])
            &&& c[g.extras.len() as int] == Command::ClearPowerUps
            &&& c[g.extras.len() as int + 1] == Command::StopSpeedBoost
            &&& c[g.extras.len() as int + 2] == Command::ResetPositions
        },
        g.state == GameState::Serving && g.primary.is_some() ==> spec_gameplay_input(g, true, false).0.state
            == GameState::Playing,
        g.state is GameOver ==> {
            let (r, c) = spec_gameplay_input(g, true, menu);
            &&& r.state == GameState::Serving
            &&& r.score.left == 0 && r.score.right == 0
            &&& r.extras.len() == 0
        },
        g.state is GameOver ==> spec_gameplay_input(g, false, true).0.state == (GameState::TitleScreen {
            selection: 0,
        }),
        !(g.state == GameState::Serving || g.state is GameOver) ==> spec_gameplay_input(
            g,
            primary,
            menu,
        ) == (g, Seq::<Command>::empty()),
{
    let c = spec_reset_to_title(g).1;
    assert forall|i: int| 0 <= i < g.extras.len() implies c[i] == Command::DestroyBall(#[trigger] g.extras[i]) by {
    }
}

/// The pause menu: restart is exactly a fresh start (0 : 0, the right side
/// serving next, serving state, no extra ball) and ends the frame; quitting
/// goes to the title screen; exiting asks the host to leave and changes
/// nothing; resuming changes nothing but still ends the frame; only an idle
/// pause menu lets the frame's play go on.
pub proof fn lemma_pause_effects(g: GameView)
    ensures
        ({
            let (r, go_on, c) = spec_pause(g, PauseAction::Restart);
            &&& (r, c) == spec_start_game(g)
            &&& !go_on
            &&& r.score.left == 0 && r.score.right == 0
            &&& r.score.last_scorer == Side::Right
            &&& r.score.last_touch.is_none()
            &&& r.state == GameState::Serving
            &&& r.extras.len() == 0
            &&& r.settings == g.settings
        }),
        ({
            let (r, go_on, c) = spec_pause(g, PauseAction::QuitToTitle);
            &&& (r, c) == spec_reset_to_title(g)
            &&& !go_on
            &&& r.state == (GameState::TitleScreen { selection: 0 })
            &&& r.score == g.score
        }),
        spec_pause(g, PauseAction::ExitGame) == (g, false, seq![Command::ExitGame]),
        spec_pause(g, PauseAction::Resumed) == (g, false, Seq::<Command>::empty()),
        spec_pause(g, PauseAction::Idle) == (g, true, Seq::<Command>::empty()),
{
}

} // verus!
