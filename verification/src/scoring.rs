//! Goal detection and scoring: paddle touches, the Insane speed doubling,
//! point awards, and the respawn between points.

use vstd::prelude::*;
use crate::balls::{spec_all, spec_remove};
use crate::game::{GameView, PongGame};
use crate::types::{
    spec_award, spec_involves, spec_is_insane, spec_points, Collision, Command, EntityId,
    GameState, Scoreboard, Side,
};

verus! {

broadcast use vstd::std_specs::hash::group_hash_axioms;

/// The paddles and goal sensors a ball can touch.
#[derive(Clone, Copy, Debug, PartialEq, Eq, Structural)]
pub struct Arena {
    pub left_paddle: EntityId,
    pub right_paddle: EntityId,
    pub left_goal: EntityId,
    pub right_goal: EntityId,
}

/// What one frame's contacts amount to, gathered contact by contact and,
/// within a contact, ball by ball (primary first).
pub struct ContactScan {
    /// Side whose paddle touched a ball last.
    pub last_touch: Option<Side>,
    /// Every paddle touch: the ball and the side of the paddle.
    pub touches: Seq<(EntityId, Side)>,
    /// Balls whose speed doubles (one entry per paddle touch, Insane only).
    pub hits: Seq<EntityId>,
    /// Balls that entered a goal, each once, with the side that scores.
    pub scored: Seq<(EntityId, Side)>,
}

/// Side of the paddle that `b` touches in contact `c`, if any (the left
/// paddle is checked first).
pub open spec fn spec_touch(c: Collision, b: EntityId, a: Arena) -> Option<Side> {
    if spec_involves(c, b, a.left_paddle) {
        Some(Side::Left)
    } else if spec_involves(c, b, a.right_paddle) {
        Some(Side::Right)
    } else {
        None
    }
}

/// Side that scores when `b` enters a goal in contact `c`: a ball in the
/// left goal is a point for the right side, and the other way round.
pub open spec fn spec_goal(c: Collision, b: EntityId, a: Arena) -> Option<Side> {
    if spec_involves(c, b, a.left_goal) {
        Some(Side::Right)
    } else if spec_involves(c, b, a.right_goal) {
        Some(Side::Left)
    } else {
        None
    }
}

pub open spec fn spec_already_scored(scored: Seq<(EntityId, Side)>, b: EntityId) -> bool {
    exists|i: int| 0 <= i < scored.len() && scored[i].0 == b
}

/// One ball against one contact.
pub open spec fn spec_scan_pair(s: ContactScan, c: Collision, b: EntityId, a: Arena, insane: bool) -> ContactScan {
    let s1 = match spec_touch(c, b, a) {
        Some(side) => ContactScan {
            last_touch: Some(side),
            touches: s.touches.push((b, side)),
            hits: if insane {
                s.hits.push(b)
            } else {
                s.hits
            },
            scored: s.scored,
        },
        None => s,
    };
    if spec_already_scored(s1.scored, b) {
        s1
    } else {
        match spec_goal(c, b, a) {
            Some(side) => ContactScan { scored: s1.scored.push((b, side)), ..s1 },
            None => s1,
        }
    }
}

/// Every ball of `balls`, in order, against one contact.
pub open spec fn spec_scan_balls(
    s: ContactScan,
    c: Collision,
    balls: Seq<EntityId>,
    a: Arena,
    insane: bool,
) -> ContactScan
    decreases balls.len(),
{
    if balls.len() == 0 {
        s
    } else {
        spec_scan_pair(spec_scan_balls(s, c, balls.drop_last(), a, insane), c, balls.last(), a, insane)
    }
}

/// Every contact that started this frame, in order, against every ball.
pub open spec fn spec_scan_contacts(
    s: ContactScan,
    cs: Seq<Collision>,
    balls: Seq<EntityId>,
    a: Arena,
    insane: bool,
) -> ContactScan
    decreases cs.len(),
{
    if cs.len() == 0 {
        s
    } else {
        let prev = spec_scan_contacts(s, cs.drop_last(), balls, a, insane);
        if cs.last().started {
            spec_scan_balls(prev, cs.last(), balls, a, insane)
        } else {
            prev
        }
    }
}

/// Speed doublings recorded for `b` in `m`.
pub open spec fn spec_doublings_in(m: Map<EntityId, u32>, b: EntityId) -> u32 {
    if m.contains_key(b) {
        m[b]
    } else {
        0
    }
}

/// Record one more doubling for each ball of `hits`, in order.
pub open spec fn spec_apply_doublings(m: Map<EntityId, u32>, hits: Seq<EntityId>) -> Map<
    EntityId,
    u32,
>
    decreases hits.len(),
{
    if hits.len() == 0 {
        m
    } else {
        let m1 = spec_apply_doublings(m, hits.drop_last());
        let b = hits.last();
        let k = spec_doublings_in(m1, b);
        m1.insert(b, if k < u32::MAX { (k + 1) as u32 } else { u32::MAX })
    }
}

pub open spec fn spec_tint_cmds(t: Seq<(EntityId, Side)>) -> Seq<Command> {
    t.map_values(|x: (EntityId, Side)| Command::TintBall { ball: x.0, side: x.1 })
}

pub open spec fn spec_double_cmds(h: Seq<EntityId>) -> Seq<Command> {
    h.map_values(|b: EntityId| Command::DoubleVelocity(b))
}

pub open spec fn spec_burst_cmds(t: Seq<(EntityId, Side)>) -> Seq<Command> {
    t.map_values(|x: (EntityId, Side)| Command::HitBurst { ball: x.0, side: x.1 })
}

/// The game after `side` earns a point.
pub open spec fn spec_award_in(g: GameView, side: Side) -> GameView {
    GameView { score: spec_award(g.score, side), ..g }
}

/// The game after `b` is destroyed and forgotten.
pub open spec fn spec_forget_ball(g: GameView, b: EntityId) -> GameView {
    let (p, e) = spec_remove(g.primary, g.extras, b);
    GameView { primary: p, extras: e, doublings: g.doublings.remove(b), ..g }
}

/// Safety net for balls that escaped the playfield (or whose position is no
/// longer finite): each counts as a point for `side`, the side of the court
/// it left by, and is destroyed at once.
pub open spec fn spec_score_escapes(g: GameView, es: Seq<(EntityId, Side)>) -> (GameView, Seq<Command>)
    decreases es.len(),
{
    if es.len() == 0 {
        (g, Seq::empty())
    } else {
        let (g1, c1) = spec_score_escapes(g, es.drop_last());
        let (b, side) = es.last();
        (spec_forget_ball(spec_award_in(g1, side), b), c1.push(Command::DestroyBall(b)))
    }
}

/// Each ball that entered a goal: an explosion in the scorer's color, the
/// point, and the ball's teardown.
pub open spec fn spec_score_balls(g: GameView, sc: Seq<(EntityId, Side)>) -> (GameView, Seq<Command>)
    decreases sc.len(),
{
    if sc.len() == 0 {
        (g, Seq::empty())
    } else {
        let (g1, c1) = spec_score_balls(g, sc.drop_last());
        let (b, side) = sc.last();
        (
            spec_forget_ball(spec_award_in(g1, side), b),
            c1.push(Command::GoalExplosion { ball: b, scorer: side }).push(Command::DestroyBall(b)),
        )
    }
}

/// All balls gone: clear the transient match state, ask for a fresh primary
/// ball at the center, and wait for the serve.
pub open spec fn spec_respawn(g: GameView) -> (GameView, Seq<Command>) {
    (
        GameView {
            score: Scoreboard { last_touch: None, ..g.score },
            doublings: Map::empty(),
            state: GameState::Serving,
            ..g
        },
        seq![Command::ClearPowerUps, Command::StopSpeedBoost, Command::SpawnFreshBall],
    )
}

pub open spec fn spec_arena(g: GameView) -> Option<Arena> {
    match (g.left_paddle, g.right_paddle, g.left_goal, g.right_goal) {
        (Some(lp), Some(rp), Some(lg), Some(rg)) => Some(
            Arena { left_paddle: lp, right_paddle: rp, left_goal: lg, right_goal: rg },
        ),
        _ => None,
    }
}

pub open spec fn spec_start_scan(last_touch: Option<Side>) -> ContactScan {
    ContactScan { last_touch, touches: Seq::empty(), hits: Seq::empty(), scored: Seq::empty() }
}

/// One frame of goal handling. `escapes` lists the balls found outside the
/// playfield (primary first) with the side that scores; `cs` are the frame's
/// contacts. Without both paddles and both goals nothing happens.
pub open spec fn spec_check_goals(g: GameView, escapes: Seq<(EntityId, Side)>, cs: Seq<Collision>) -> (
    GameView,
    Seq<Command>,
) {
    match spec_arena(g) {
        None => (g, Seq::empty()),
        Some(a) => {
            let (g1, c1) = spec_score_escapes(g, escapes);
            let sc = spec_scan_contacts(
                spec_start_scan(g1.score.last_touch),
                cs,
                g1.all_balls(),
                a,
                spec_is_insane(g1.settings.chaos),
            );
            let g2 = GameView {
                score: Scoreboard { last_touch: sc.last_touch, ..g1.score },
                doublings: spec_apply_doublings(g1.doublings, sc.hits),
                ..g1
            };
            let c2 = spec_tint_cmds(sc.touches) + spec_double_cmds(sc.hits) + spec_burst_cmds(
                sc.touches,
            );
            let (g3, c3) = spec_score_balls(g2, sc.scored);
            if g3.primary.is_none() && g3.extras.len() == 0 && (escapes.len() > 0 || sc.scored.len()
                > 0) {
                let (g4, c4) = spec_respawn(g3);
                (g4, c1 + c2 + c3 + c4)
            } else {
                (g3, c1 + c2 + c3)
            }
        },
    }
}


/// `ContactScan` in executable form.
pub struct ContactReport {
    pub last_touch: Option<Side>,
    pub touches: Vec<(EntityId, Side)>,
    pub hits: Vec<EntityId>,
    pub scored: Vec<(EntityId, Side)>,
}

impl View for ContactReport {
    type V = ContactScan;

    open spec fn view(&self) -> ContactScan {
        ContactScan {
            last_touch: self.last_touch,
            touches: self.touches@,
            hits: self.hits@,
            scored: self.scored@,
        }
    }
}

fn already_scored(scored: &Vec<(EntityId, Side)>, b: EntityId) -> (r: bool)
    ensures
        r == spec_already_scored(scored@, b),
{
    let n = scored.len();
    for i in 0..n
        invariant
            n == scored@.len(),
            forall|k: int| 0 <= k < i ==> scored@[k].0 != b,
    {
        if scored[i].0 == b {
            return true;
        }
    }
    false
}

fn touch_of(c: &Collision, b: EntityId, a: Arena) -> (r: Option<Side>)
    ensures
        r == spec_touch(*c, b, a),
{
    if c.involves(b, a.left_paddle) {
        Some(Side::Left)
    } else if c.involves(b, a.right_paddle) {
        Some(Side::Right)
    } else {
        None
    }
}

fn goal_of(c: &Collision, b: EntityId, a: Arena) -> (r: Option<Side>)
    ensures
        r == spec_goal(*c, b, a),
{
    if c.involves(b, a.left_goal) {
        Some(Side::Right)
    } else if c.involves(b, a.right_goal) {
        Some(Side::Left)
    } else {
        None
    }
}

fn scan_pair(r: &mut ContactReport, c: &Collision, b: EntityId, a: Arena, insane: bool)
    ensures
        final(r)@ == spec_scan_pair(old(r)@, *c, b, a, insane),
{
    match touch_of(c, b, a) {
        Some(side) => {
            r.last_touch = Some(side);
            r.touches.push((b, side));
            if insane {
                r.hits.push(b);
            }
        },
        None => {},
    }
    if !already_scored(&r.scored, b) {
        match goal_of(c, b, a) {
            Some(side) => {
                r.scored.push((b, side));
            },
            None => {},
        }
    }
}

/// React to the frame's contacts: record which paddle touched which ball
/// (and, in Insane mode, which balls double), and which balls entered a goal
/// and for whom. Each ball is counted as scored at most once.
pub fn scan_contacts(
    last_touch: Option<Side>,
    collisions: &Vec<Collision>,
    balls: &Vec<EntityId>,
    a: Arena,
    insane: bool,
) -> (r: ContactReport)
    ensures
        r@ == spec_scan_contacts(spec_start_scan(last_touch), collisions@, balls@, a, insane),
{
    let mut r = ContactReport {
        last_touch,
        touches: Vec::new(),
        hits: Vec::new(),
        scored: Vec::new(),
    };
    let n = collisions.len();
    for i in 0..n
        invariant
            n == collisions@.len(),
            r@ == spec_scan_contacts(
                spec_start_scan(last_touch),
                collisions@.take(i as int),
                balls@,
                a,
                insane,
            ),
    {
        let c = collisions[i];
        assert(collisions@.take(i + 1).drop_last() == collisions@.take(i as int));
        assert(collisions@.take(i + 1).last() == c);
        if c.started {
            let ghost before = r@;
            let m = balls.len();
            for j in 0..m
                invariant
                    m == balls@.len(),
                    r@ == spec_scan_balls(before, c, balls@.take(j as int), a, insane),
            {
                assert(balls@.take(j + 1).drop_last() == balls@.take(j as int));
                scan_pair(&mut r, &c, balls[j], a, insane);
            }
            assert(balls@.take(m as int) == balls@);
        }
    }
    assert(collisions@.take(n as int) == collisions@);
    r
}

impl PongGame {
    /// Forget a ball that is being destroyed (promoting an extra to primary
    /// if needed) and order its teardown.
    pub fn destroy_ball(&mut self, ball: EntityId) -> (c: Command)
        ensures
            final(self)@ == spec_forget_ball(old(self)@, ball),
            c == Command::DestroyBall(ball),
    {
        self.balls.remove(ball);
        assert(self@ =~= spec_forget_ball(old(self)@, ball));
        Command::DestroyBall(ball)
    }

    /// Award the point for one scored ball, fire the explosion (in the
    /// scorer's color, where the ball was), and tear the ball down.
    pub fn score_ball(&mut self, ball: EntityId, side: Side) -> (cmds: Vec<Command>)
        requires
            spec_points(old(self).score, side) < u32::MAX,
        ensures
            final(self)@ == spec_forget_ball(spec_award_in(old(self)@, side), ball),
            cmds@ == seq![Command::GoalExplosion { ball, scorer: side }, Command::DestroyBall(ball)],
    {
        let mut cmds: Vec<Command> = Vec::new();
        cmds.push(Command::GoalExplosion { ball, scorer: side });
        self.score.award_point(side);
        let c = self.destroy_ball(ball);
        cmds.push(c);
        assert(cmds@ =~= seq![Command::GoalExplosion { ball, scorer: side }, Command::DestroyBall(ball)]);
        cmds
    }

    /// Score every escaped ball for the given side and destroy it at once.
    pub fn score_escaped_balls(&mut self, escapes: &Vec<(EntityId, Side)>) -> (cmds: Vec<Command>)
        requires
            old(self).score.left + escapes@.len() <= u32::MAX,
            old(self).score.right + escapes@.len() <= u32::MAX,
        ensures
            (final(self)@, cmds@) == spec_score_escapes(old(self)@, escapes@),
            final(self).score.left <= old(self).score.left + escapes@.len(),
            final(self).score.right <= old(self).score.right + escapes@.len(),
    {
        let mut cmds: Vec<Command> = Vec::new();
        let n = escapes.len();
        for i in 0..n
            invariant
                n == escapes@.len(),
                (self@, cmds@) == spec_score_escapes(old(self)@, escapes@.take(i as int)),
                self.score.left <= old(self).score.left + i,
                self.score.right <= old(self).score.right + i,
                old(self).score.left + n <= u32::MAX,
                old(self).score.right + n <= u32::MAX,
        {
            let (b, side) = escapes[i];
            assert(escapes@.take(i + 1).drop_last() == escapes@.take(i as int));
            assert(escapes@.take(i + 1).last() == (b, side));
            self.score.award_point(side);
            let c = self.destroy_ball(b);
            cmds.push(c);
        }
        assert(escapes@.take(n as int) == escapes@);
        cmds
    }
}


/// Scored balls are listed once each, and each is one of `universe`.
pub open spec fn spec_scored_ok(scored: Seq<(EntityId, Side)>, universe: Seq<EntityId>) -> bool {
    &&& forall|i: int, j: int| 0 <= i < j < scored.len() ==> scored[i].0 != scored[j].0
    &&& forall|i: int| 0 <= i < scored.len() ==> universe.contains(#[trigger] scored[i].0)
}

proof fn lemma_scan_pair_ok(
    s: ContactScan,
    c: Collision,
    b: EntityId,
    a: Arena,
    insane: bool,
    universe: Seq<EntityId>,
)
    requires
        spec_scored_ok(s.scored, universe),
        universe.contains(b),
    ensures
        spec_scored_ok(spec_scan_pair(s, c, b, a, insane).scored, universe),
{
}

proof fn lemma_scan_balls_ok(
    s: ContactScan,
    c: Collision,
    bs: Seq<EntityId>,
    a: Arena,
    insane: bool,
    universe: Seq<EntityId>,
)
    requires
        spec_scored_ok(s.scored, universe),
        forall|i: int| 0 <= i < bs.len() ==> universe.contains(#[trigger] bs[i]),
    ensures
        spec_scored_ok(spec_scan_balls(s, c, bs, a, insane).scored, universe),
    decreases bs.len(),
{
    if bs.len() > 0 {
        lemma_scan_balls_ok(s, c, bs.drop_last(), a, insane, universe);
        assert(universe.contains(bs[bs.len() - 1]));
        lemma_scan_pair_ok(spec_scan_balls(s, c, bs.drop_last(), a, insane), c, bs.last(), a, insane, universe);
    }
}

/// Within one frame each ball is scored at most once, however many goal
/// contacts it reports, and only live balls are scored.
pub proof fn lemma_each_ball_scored_once(
    cs: Seq<Collision>,
    balls: Seq<EntityId>,
    a: Arena,
    insane: bool,
    last_touch: Option<Side>,
)
    ensures
        spec_scored_ok(
            spec_scan_contacts(spec_start_scan(last_touch), cs, balls, a, insane).scored,
            balls,
        ),
    decreases cs.len(),
{
    if cs.len() > 0 {
        lemma_each_ball_scored_once(cs.drop_last(), balls, a, insane, last_touch);
        let prev = spec_scan_contacts(spec_start_scan(last_touch), cs.drop_last(), balls, a, insane);
        if cs.last().started {
            assert forall|i: int| 0 <= i < balls.len() implies balls.contains(#[trigger] balls[i]) by {
            }
            lemma_scan_balls_ok(prev, cs.last(), balls, a, insane, balls);
        }
    }
}

/// A frame scores at most as many balls as are in play.
proof fn lemma_scored_bound(scored: Seq<(EntityId, Side)>, universe: Seq<EntityId>)
    requires
        spec_scored_ok(scored, universe),
    ensures
        scored.len() <= universe.len(),
{
    let ks = scored.map_values(|x: (EntityId, Side)| x.0);
    assert(ks.no_duplicates());
    ks.unique_seq_to_set();
    assert(ks.to_set().subset_of(universe.to_set())) by {
        assert forall|x: EntityId| ks.to_set().contains(x) implies universe.to_set().contains(x) by {
            let k = choose|k: int| 0 <= k < ks.len() && ks[k] == x;
            assert(universe.contains(scored[k].0));
        }
    }
    vstd::seq_lib::seq_to_set_is_finite(universe);
    vstd::set_lib::lemma_len_subset(ks.to_set(), universe.to_set());
    universe.lemma_cardinality_of_set();
}

proof fn lemma_remove_len(p: Option<EntityId>, e: Seq<EntityId>, b: EntityId)
    ensures
        ({
            let (p1, e1) = spec_remove(p, e, b);
            spec_all(p1, e1).len() <= spec_all(p, e).len()
        }),
{
    if p != Some(b) {
        e.lemma_filter_len(crate::balls::other_than(b));
    }
}

proof fn lemma_escapes_shrink(g: GameView, es: Seq<(EntityId, Side)>)
    ensures
        spec_score_escapes(g, es).0.all_balls().len() <= g.all_balls().len(),
    decreases es.len(),
{
    if es.len() > 0 {
        lemma_escapes_shrink(g, es.drop_last());
        let (g1, c1) = spec_score_escapes(g, es.drop_last());
        lemma_remove_len(g1.primary, g1.extras, es.last().0);
    }
}

impl PongGame {
    /// Record the paddle touches and Insane doublings of a contact scan and
    /// order the tints, velocity doublings and hit visuals.
    pub fn apply_contact_report(&mut self, r: &ContactReport) -> (cmds: Vec<Command>)
        ensures
            final(self)@ == (GameView {
                score: Scoreboard { last_touch: r.last_touch, ..old(self)@.score },
                doublings: spec_apply_doublings(old(self)@.doublings, r.hits@),
                ..old(self)@
            }),
            cmds@ == spec_tint_cmds(r.touches@) + spec_double_cmds(r.hits@) + spec_burst_cmds(
                r.touches@,
            ),
    {
        self.score.last_touch = r.last_touch;
        let mut cmds: Vec<Command> = Vec::new();
        let nt = r.touches.len();
        for i in 0..nt
            invariant
                nt == r.touches@.len(),
                cmds@ == spec_tint_cmds(r.touches@.take(i as int)),
        {
            let (b, side) = r.touches[i];
            cmds.push(Command::TintBall { ball: b, side });
            assert(r.touches@.take(i + 1) == r.touches@.take(i as int).push(r.touches@[i as int]));
            assert(cmds@ =~= spec_tint_cmds(r.touches@.take(i + 1)));
        }
        assert(r.touches@.take(nt as int) == r.touches@);
        let ghost c1 = cmds@;
        let ghost start = self@;
        let nh = r.hits.len();
        for i in 0..nh
            invariant
                nh == r.hits@.len(),
                cmds@ == c1 + spec_double_cmds(r.hits@.take(i as int)),
                self@ == (GameView {
                    doublings: spec_apply_doublings(start.doublings, r.hits@.take(i as int)),
                    ..start
                }),
        {
            let b = r.hits[i];
            assert(r.hits@.take(i + 1).drop_last() == r.hits@.take(i as int));
            self.balls.double_speed(b);
            cmds.push(Command::DoubleVelocity(b));
            assert(r.hits@.take(i + 1) == r.hits@.take(i as int).push(b));
            assert(cmds@ =~= c1 + spec_double_cmds(r.hits@.take(i + 1)));
            assert(self@ =~= (GameView {
                doublings: spec_apply_doublings(start.doublings, r.hits@.take(i + 1)),
                ..start
            }));
        }
        assert(r.hits@.take(nh as int) == r.hits@);
        let ghost c2 = cmds@;
        for i in 0..nt
            invariant
                nt == r.touches@.len(),
                cmds@ == c2 + spec_burst_cmds(r.touches@.take(i as int)),
        {
            let (b, side) = r.touches[i];
            cmds.push(Command::HitBurst { ball: b, side });
            assert(r.touches@.take(i + 1) == r.touches@.take(i as int).push(r.touches@[i as int]));
            assert(cmds@ =~= c2 + spec_burst_cmds(r.touches@.take(i + 1)));
        }
        assert(cmds@ =~= spec_tint_cmds(r.touches@) + spec_double_cmds(r.hits@) + spec_burst_cmds(
            r.touches@,
        ));
        cmds
    }

    /// Award the points of the balls that entered a goal and tear them down,
    /// each after its explosion.
    pub fn score_balls(&mut self, scored: &Vec<(EntityId, Side)>) -> (cmds: Vec<Command>)
        requires
            old(self).score.left + scored@.len() <= u32::MAX,
            old(self).score.right + scored@.len() <= u32::MAX,
        ensures
            (final(self)@, cmds@) == spec_score_balls(old(self)@, scored@),
    {
        let mut cmds: Vec<Command> = Vec::new();
        let n = scored.len();
        for i in 0..n
            invariant
                n == scored@.len(),
                (self@, cmds@) == spec_score_balls(old(self)@, scored@.take(i as int)),
                self.score.left <= old(self).score.left + i,
                self.score.right <= old(self).score.right + i,
                old(self).score.left + n <= u32::MAX,
                old(self).score.right + n <= u32::MAX,
        {
            let (b, side) = scored[i];
            assert(scored@.take(i + 1).drop_last() == scored@.take(i as int));
            assert(scored@.take(i + 1).last() == (b, side));
            let ghost c0 = cmds@;
            let mut c = self.score_ball(b, side);
            cmds.append(&mut c);
            assert(cmds@ =~= c0.push(Command::GoalExplosion { ball: b, scorer: side }).push(
                Command::DestroyBall(b),
            ));
        }
        assert(scored@.take(n as int) == scored@);
        cmds
    }

    /// All balls gone: reset the transient match state and ask for a fresh
    /// primary ball.
    pub fn respawn_for_serve(&mut self) -> (cmds: Vec<Command>)
        ensures
            (final(self)@, cmds@) == spec_respawn(old(self)@),
    {
        let mut cmds: Vec<Command> = Vec::new();
        cmds.push(Command::ClearPowerUps);
        cmds.push(Command::StopSpeedBoost);
        self.score.last_touch = None;
        self.balls.clear_speeds();
        cmds.push(Command::SpawnFreshBall);
        self.state = GameState::Serving;
        assert(cmds@ =~= seq![Command::ClearPowerUps, Command::StopSpeedBoost, Command::SpawnFreshBall]);
        assert(self@ =~= spec_respawn(old(self)@).0);
        cmds
    }

    /// One frame of goal handling (see `spec_check_goals`): escaped balls are
    /// scored first, then the frame's contacts tint and speed up balls and
    /// score the ones that entered a goal; when no ball is left a fresh one
    /// is asked for and the game waits for the serve.
    pub fn check_goals(&mut self, escapes: &Vec<(EntityId, Side)>, collisions: &Vec<Collision>) -> (cmds:
        Vec<Command>)
        requires
            old(self).score.left + escapes@.len() + old(self)@.all_balls().len() <= u32::MAX,
            old(self).score.right + escapes@.len() + old(self)@.all_balls().len() <= u32::MAX,
        ensures
            (final(self)@, cmds@) == spec_check_goals(old(self)@, escapes@, collisions@),
    {
        let a = match (
            self.playfield.left_paddle,
            self.playfield.right_paddle,
            self.playfield.left_goal,
            self.playfield.right_goal,
        ) {
            (Some(lp), Some(rp), Some(lg), Some(rg)) => Arena {
                left_paddle: lp,
                right_paddle: rp,
                left_goal: lg,
                right_goal: rg,
            },
            _ => {
                return Vec::new();
            },
        };
        let mut cmds = self.score_escaped_balls(escapes);
        proof {
            lemma_escapes_shrink(old(self)@, escapes@);
        }
        let ghost g1 = self@;
        let balls = self.balls.all();
        let insane = self.settings.chaos.is_insane();
        let report = scan_contacts(self.score.last_touch, collisions, &balls, a, insane);
        proof {
            lemma_each_ball_scored_once(collisions@, balls@, a, insane, g1.score.last_touch);
            lemma_scored_bound(report.scored@, balls@);
        }
        let ghost c1 = cmds@;
        let mut c2 = self.apply_contact_report(&report);
        let ghost c2v = c2@;
        let ghost g2 = self@;
        cmds.append(&mut c2);
        let mut c3 = self.score_balls(&report.scored);
        let ghost c3v = c3@;
        cmds.append(&mut c3);
        assert(cmds@ =~= c1 + c2v + c3v);
        proof {
            let sc = spec_scan_contacts(
                spec_start_scan(g1.score.last_touch),
                collisions@,
                g1.all_balls(),
                a,
                spec_is_insane(g1.settings.chaos),
            );
            assert(spec_arena(old(self)@) == Some(a));
            assert(sc == report@);
            assert((g1, c1) == spec_score_escapes(old(self)@, escapes@));
            assert(g2 == (GameView {
                score: Scoreboard { last_touch: sc.last_touch, ..g1.score },
                doublings: spec_apply_doublings(g1.doublings, sc.hits),
                ..g1
            }));
            assert((self@, c3v) == spec_score_balls(g2, sc.scored));
        }
        if self.balls.is_empty() && (escapes.len() > 0 || report.scored.len() > 0) {
            let ghost g3 = self@;
            let mut c4 = self.respawn_for_serve();
            let ghost c4v = c4@;
            cmds.append(&mut c4);
            assert(cmds@ =~= c1 + c2v + c3v + c4v);
            assert((self@, c4v) == spec_respawn(g3));
        }
        cmds
    }
}

} // verus!
