//! What one frame of goal handling does to ball speeds, stated over the
//! commands it issues and the state it leaves.

use vstd::prelude::*;
use crate::game::GameView;
use crate::laws::{lemma_doublings_count_hits, spec_count};
use crate::scoring::{
    spec_arena, spec_burst_cmds, spec_check_goals, spec_double_cmds, spec_doublings_in,
    spec_respawn, spec_scan_balls, spec_scan_contacts, spec_scan_pair, spec_score_balls,
    spec_score_escapes, spec_start_scan, spec_tint_cmds, Arena, ContactScan,
};
use crate::types::{ChaosMode, Collision, Command, EntityId, Scoreboard, Side};

verus! {

/// The ball named by a command: of a velocity doubling when `doubling`, of
/// a paddle tint otherwise.
pub open spec fn spec_pick(c: Command, doubling: bool) -> Seq<EntityId> {
    match c {
        Command::DoubleVelocity(b) => if doubling {
            seq![b]
        } else {
            Seq::empty()
        },
        Command::TintBall { ball, .. } => if doubling {
            Seq::empty()
        } else {
            seq![ball]
        },
        _ => Seq::empty(),
    }
}

pub open spec fn spec_picked(s: Seq<Command>, doubling: bool) -> Seq<EntityId>
    decreases s.len(),
{
    if s.len() == 0 {
        Seq::empty()
    } else {
        spec_picked(s.drop_last(), doubling) + spec_pick(s.last(), doubling)
    }
}

/// The balls whose velocity a command list doubles, in order.
pub open spec fn spec_doubled(s: Seq<Command>) -> Seq<EntityId> {
    spec_picked(s, true)
}

/// The balls a command list tints with a paddle's color, in order.
pub open spec fn spec_tinted(s: Seq<Command>) -> Seq<EntityId> {
    spec_picked(s, false)
}

pub open spec fn spec_balls_of(t: Seq<(EntityId, Side)>) -> Seq<EntityId> {
    t.map_values(|x: (EntityId, Side)| x.0)
}

proof fn lemma_picked_push(s: Seq<Command>, c: Command, w: bool)
    ensures
        spec_picked(s.push(c), w) == spec_picked(s, w) + spec_pick(c, w),
{
    assert(s.push(c).drop_last() == s);
}

proof fn lemma_picked_add(a: Seq<Command>, b: Seq<Command>, w: bool)
    ensures
        spec_picked(a + b, w) == spec_picked(a, w) + spec_picked(b, w),
    decreases b.len(),
{
    if b.len() == 0 {
        assert(a + b == a);
        assert(spec_picked(a, w) + spec_picked(b, w) == spec_picked(a, w));
    } else {
        lemma_picked_add(a, b.drop_last(), w);
        assert((a + b).drop_last() == a + b.drop_last());
        assert((a + b).last() == b.last());
        assert(spec_picked(a + b, w) =~= spec_picked(a, w) + spec_picked(b, w));
    }
}

proof fn lemma_picked_escapes(g: GameView, es: Seq<(EntityId, Side)>, w: bool)
    ensures
        spec_picked(spec_score_escapes(g, es).1, w) == Seq::<EntityId>::empty(),
    decreases es.len(),
{
    if es.len() > 0 {
        lemma_picked_escapes(g, es.drop_last(), w);
        let (g1, c1) = spec_score_escapes(g, es.drop_last());
        lemma_picked_push(c1, Command::DestroyBall(es.last().0), w);
        assert(spec_picked(c1, w) + spec_pick(Command::DestroyBall(es.last().0), w) =~= Seq::<
            EntityId,
        >::empty());
    }
}

proof fn lemma_picked_scored(g: GameView, sc: Seq<(EntityId, Side)>, w: bool)
    ensures
        spec_picked(spec_score_balls(g, sc).1, w) == Seq::<EntityId>::empty(),
    decreases sc.len(),
{
    if sc.len() > 0 {
        lemma_picked_scored(g, sc.drop_last(), w);
        let (g1, c1) = spec_score_balls(g, sc.drop_last());
        let (b, side) = sc.last();
        let x = Command::GoalExplosion { ball: b, scorer: side };
        lemma_picked_push(c1, x, w);
        lemma_picked_push(c1.push(x), Command::DestroyBall(b), w);
        assert(spec_picked(c1.push(x), w) =~= Seq::<EntityId>::empty());
        assert(spec_picked(c1.push(x), w) + spec_pick(Command::DestroyBall(b), w) =~= Seq::<
            EntityId,
        >::empty());
    }
}

proof fn lemma_picked_tints(t: Seq<(EntityId, Side)>)
    ensures
        spec_picked(spec_tint_cmds(t), false) == spec_balls_of(t),
        spec_picked(spec_tint_cmds(t), true) == Seq::<EntityId>::empty(),
    decreases t.len(),
{
    if t.len() > 0 {
        lemma_picked_tints(t.drop_last());
        let x = t.last();
        assert(spec_tint_cmds(t) == spec_tint_cmds(t.drop_last()).push(
            Command::TintBall { ball: x.0, side: x.1 },
        ));
        lemma_picked_push(spec_tint_cmds(t.drop_last()), Command::TintBall { ball: x.0, side: x.1 }, false);
        lemma_picked_push(spec_tint_cmds(t.drop_last()), Command::TintBall { ball: x.0, side: x.1 }, true);
        assert(spec_balls_of(t) =~= spec_balls_of(t.drop_last()).push(x.0));
        assert(spec_picked(spec_tint_cmds(t), true) =~= Seq::<EntityId>::empty());
    } else {
        assert(spec_tint_cmds(t) =~= Seq::<Command>::empty());
        assert(spec_balls_of(t) =~= Seq::<EntityId>::empty());
    }
}

proof fn lemma_picked_bursts(t: Seq<(EntityId, Side)>, w: bool)
    ensures
        spec_picked(spec_burst_cmds(t), w) == Seq::<EntityId>::empty(),
    decreases t.len(),
{
    if t.len() > 0 {
        lemma_picked_bursts(t.drop_last(), w);
        let x = t.last();
        assert(spec_burst_cmds(t) == spec_burst_cmds(t.drop_last()).push(
            Command::HitBurst { ball: x.0, side: x.1 },
        ));
        lemma_picked_push(spec_burst_cmds(t.drop_last()), Command::HitBurst { ball: x.0, side: x.1 }, w);
        assert(spec_picked(spec_burst_cmds(t), w) =~= Seq::<EntityId>::empty());
    } else {
        assert(spec_burst_cmds(t) =~= Seq::<Command>::empty());
    }
}

proof fn lemma_picked_doubles(h: Seq<EntityId>)
    ensures
        spec_picked(spec_double_cmds(h), true) == h,
        spec_picked(spec_double_cmds(h), false) == Seq::<EntityId>::empty(),
    decreases h.len(),
{
    if h.len() > 0 {
        lemma_picked_doubles(h.drop_last());
        assert(spec_double_cmds(h) == spec_double_cmds(h.drop_last()).push(
            Command::DoubleVelocity(h.last()),
        ));
        lemma_picked_push(spec_double_cmds(h.drop_last()), Command::DoubleVelocity(h.last()), true);
        lemma_picked_push(spec_double_cmds(h.drop_last()), Command::DoubleVelocity(h.last()), false);
        assert(h == h.drop_last().push(h.last()));
        assert(spec_picked(spec_double_cmds(h), false) =~= Seq::<EntityId>::empty());
    } else {
        assert(spec_double_cmds(h) =~= Seq::<Command>::empty());
        assert(h =~= Seq::<EntityId>::empty());
    }
}

proof fn lemma_picked_respawn(g: GameView, w: bool)
    ensures
        spec_picked(spec_respawn(g).1, w) == Seq::<EntityId>::empty(),
{
    let c = spec_respawn(g).1;
    let e = Seq::<Command>::empty();
    assert(c == e.push(Command::ClearPowerUps).push(Command::StopSpeedBoost).push(
        Command::SpawnFreshBall,
    ));
    lemma_picked_push(e, Command::ClearPowerUps, w);
    lemma_picked_push(e.push(Command::ClearPowerUps), Command::StopSpeedBoost, w);
    lemma_picked_push(
        e.push(Command::ClearPowerUps).push(Command::StopSpeedBoost),
        Command::SpawnFreshBall,
        w,
    );
    assert(spec_picked(e, w) =~= Seq::<EntityId>::empty());
    assert(spec_picked(e.push(Command::ClearPowerUps), w) =~= Seq::<EntityId>::empty());
    assert(spec_picked(e.push(Command::ClearPowerUps).push(Command::StopSpeedBoost), w)
        =~= Seq::<EntityId>::empty());
    assert(spec_picked(c, w) =~= Seq::<EntityId>::empty());
}

proof fn lemma_scan_pair_insane(s: ContactScan, c: Collision, b: EntityId, a: Arena)
    requires
        s.hits == spec_balls_of(s.touches),
    ensures
        spec_scan_pair(s, c, b, a, true).hits == spec_balls_of(spec_scan_pair(s, c, b, a, true).touches),
{
    let r = spec_scan_pair(s, c, b, a, true);
    if r.touches.len() != s.touches.len() {
        let x = r.touches.last();
        assert(r.touches == s.touches.push(x));
        assert(spec_balls_of(r.touches) =~= spec_balls_of(s.touches).push(x.0));
    }
}

proof fn lemma_scan_balls_insane(s: ContactScan, c: Collision, bs: Seq<EntityId>, a: Arena)
    requires
        s.hits == spec_balls_of(s.touches),
    ensures
        spec_scan_balls(s, c, bs, a, true).hits == spec_balls_of(
            spec_scan_balls(s, c, bs, a, true).touches,
        ),
    decreases bs.len(),
{
    if bs.len() > 0 {
        lemma_scan_balls_insane(s, c, bs.drop_last(), a);
        lemma_scan_pair_insane(spec_scan_balls(s, c, bs.drop_last(), a, true), c, bs.last(), a);
    }
}

proof fn lemma_scan_contacts_insane(
    last_touch: Option<Side>,
    cs: Seq<Collision>,
    balls: Seq<EntityId>,
    a: Arena,
)
    ensures
        spec_scan_contacts(spec_start_scan(last_touch), cs, balls, a, true).hits == spec_balls_of(
            spec_scan_contacts(spec_start_scan(last_touch), cs, balls, a, true).touches,
        ),
    decreases cs.len(),
{
    if cs.len() > 0 {
        lemma_scan_contacts_insane(last_touch, cs.drop_last(), balls, a);
        let prev = spec_scan_contacts(spec_start_scan(last_touch), cs.drop_last(), balls, a, true);
        lemma_scan_balls_insane(prev, cs.last(), balls, a);
    } else {
        assert(spec_balls_of(Seq::<(EntityId, Side)>::empty()) =~= Seq::<EntityId>::empty());
    }
}

proof fn lemma_scan_balls_sane(s: ContactScan, c: Collision, bs: Seq<EntityId>, a: Arena)
    ensures
        spec_scan_balls(s, c, bs, a, false).hits == s.hits,
    decreases bs.len(),
{
    if bs.len() > 0 {
        lemma_scan_balls_sane(s, c, bs.drop_last(), a);
    }
}

proof fn lemma_scan_contacts_sane(
    last_touch: Option<Side>,
    cs: Seq<Collision>,
    balls: Seq<EntityId>,
    a: Arena,
)
    ensures
        spec_scan_contacts(spec_start_scan(last_touch), cs, balls, a, false).hits
            == Seq::<EntityId>::empty(),
    decreases cs.len(),
{
    if cs.len() > 0 {
        lemma_scan_contacts_sane(last_touch, cs.drop_last(), balls, a);
        let prev = spec_scan_contacts(spec_start_scan(last_touch), cs.drop_last(), balls, a, false);
        lemma_scan_balls_sane(prev, cs.last(), balls, a);
    }
}

/// The balls doubled and tinted by a frame of goal handling: the velocity
/// doublings are the frame's scan hits and the tints its touches.
proof fn lemma_check_goals_picks(g: GameView, es: Seq<(EntityId, Side)>, cs: Seq<Collision>)
    ensures
        ({
            let cmds = spec_check_goals(g, es, cs).1;
            match spec_arena(g) {
                None => spec_doubled(cmds).len() == 0 && spec_tinted(cmds).len() == 0,
                Some(a) => {
                    let (g1, c1) = spec_score_escapes(g, es);
                    let sc = spec_scan_contacts(
                        spec_start_scan(g1.score.last_touch),
                        cs,
                        g1.all_balls(),
                        a,
                        crate::types::spec_is_insane(g1.settings.chaos),
                    );
                    &&& spec_doubled(cmds) == sc.hits
                    &&& spec_tinted(cmds) == spec_balls_of(sc.touches)
                },
            }
        }),
{
    match spec_arena(g) {
        None => {
            assert(spec_picked(Seq::<Command>::empty(), true) =~= Seq::<EntityId>::empty());
            assert(spec_picked(Seq::<Command>::empty(), false) =~= Seq::<EntityId>::empty());
        },
        Some(a) => {
            let (g1, c1) = spec_score_escapes(g, es);
            let sc = spec_scan_contacts(
                spec_start_scan(g1.score.last_touch),
                cs,
                g1.all_balls(),
                a,
                crate::types::spec_is_insane(g1.settings.chaos),
            );
            let g2 = GameView {
                score: Scoreboard { last_touch: sc.last_touch, ..g1.score },
                doublings: crate::scoring::spec_apply_doublings(g1.doublings, sc.hits),
                ..g1
            };
            let c2 = spec_tint_cmds(sc.touches) + spec_double_cmds(sc.hits) + spec_burst_cmds(
                sc.touches,
            );
            let (g3, c3) = spec_score_balls(g2, sc.scored);
            let (g4, c4) = spec_respawn(g3);
            let w1 = true;
            let w2 = false;
            lemma_picked_escapes(g, es, w1);
            lemma_picked_escapes(g, es, w2);
            lemma_picked_tints(sc.touches);
            lemma_picked_doubles(sc.hits);
            lemma_picked_bursts(sc.touches, w1);
            lemma_picked_bursts(sc.touches, w2);
            lemma_picked_scored(g2, sc.scored, w1);
            lemma_picked_scored(g2, sc.scored, w2);
            lemma_picked_respawn(g3, w1);
            lemma_picked_respawn(g3, w2);
            lemma_picked_add(spec_tint_cmds(sc.touches), spec_double_cmds(sc.hits), w1);
            lemma_picked_add(spec_tint_cmds(sc.touches), spec_double_cmds(sc.hits), w2);
            lemma_picked_add(
                spec_tint_cmds(sc.touches) + spec_double_cmds(sc.hits),
                spec_burst_cmds(sc.touches),
                w1,
            );
            lemma_picked_add(
                spec_tint_cmds(sc.touches) + spec_double_cmds(sc.hits),
                spec_burst_cmds(sc.touches),
                w2,
            );
            lemma_picked_add(c1, c2, w1);
            lemma_picked_add(c1, c2, w2);
            lemma_picked_add(c1 + c2, c3, w1);
            lemma_picked_add(c1 + c2, c3, w2);
            lemma_picked_add(c1 + c2 + c3, c4, w1);
            lemma_picked_add(c1 + c2 + c3, c4, w2);
            assert(spec_picked(c2, w1) =~= sc.hits);
            assert(spec_picked(c2, w2) =~= spec_balls_of(sc.touches));
            assert(spec_picked(c1 + c2 + c3, w1) =~= sc.hits);
            assert(spec_picked(c1 + c2 + c3, w2) =~= spec_balls_of(sc.touches));
            assert(spec_picked(c1 + c2 + c3 + c4, w1) =~= sc.hits);
            assert(spec_picked(c1 + c2 + c3 + c4, w2) =~= spec_balls_of(sc.touches));
        },
    }
}

/// Insane and Insiculous modes: every paddle touch of a frame doubles the
/// touched ball's velocity, one doubling per touch, in touch order. In
/// Normal and Ridiculous modes no velocity is ever doubled.
pub proof fn lemma_paddle_touch_doubles_when_insane(
    g: GameView,
    es: Seq<(EntityId, Side)>,
    cs: Seq<Collision>,
)
    ensures
        (g.settings.chaos == ChaosMode::Insane || g.settings.chaos == ChaosMode::Insiculous)
            ==> spec_doubled(spec_check_goals(g, es, cs).1) == spec_tinted(
            spec_check_goals(g, es, cs).1,
        ),
        (g.settings.chaos == ChaosMode::Normal || g.settings.chaos == ChaosMode::Ridiculous)
            ==> spec_doubled(spec_check_goals(g, es, cs).1).len() == 0,
{
    lemma_check_goals_picks(g, es, cs);
    match spec_arena(g) {
        None => {
            assert(spec_doubled(spec_check_goals(g, es, cs).1) =~= spec_tinted(
                spec_check_goals(g, es, cs).1,
            ));
        },
        Some(a) => {
            let (g1, c1) = spec_score_escapes(g, es);
            crate::laws::lemma_escapes_keep_settings(g, es);
            lemma_scan_contacts_insane(g1.score.last_touch, cs, g1.all_balls(), a);
            lemma_scan_contacts_sane(g1.score.last_touch, cs, g1.all_balls(), a);
        },
    }
}


proof fn lemma_contains_concat(x: Seq<Command>, y: Seq<Command>, e: Command)
    ensures
        x.contains(e) ==> (x + y).contains(e),
        y.contains(e) ==> (x + y).contains(e),
{
    if x.contains(e) {
        let i = choose|i: int| 0 <= i < x.len() && x[i] == e;
        assert((x + y)[i] == e);
    }
    if y.contains(e) {
        let i = choose|i: int| 0 <= i < y.len() && y[i] == e;
        assert((x + y)[x.len() + i] == e);
    }
}

proof fn lemma_escapes_doublings(g: GameView, es: Seq<(EntityId, Side)>, b: EntityId)
    ensures
        (forall|i: int| 0 <= i < es.len() ==> es[i].0 != b) ==> spec_doublings_in(
            spec_score_escapes(g, es).0.doublings,
            b,
        ) == spec_doublings_in(g.doublings, b),
        forall|i: int|
            0 <= i < es.len() ==> spec_score_escapes(g, es).1.contains(
                Command::DestroyBall(#[trigger] es[i].0),
            ),
    decreases es.len(),
{
    if es.len() > 0 {
        let d = es.drop_last();
        lemma_escapes_doublings(g, d, b);
        let (g1, c1) = spec_score_escapes(g, d);
        let last = es.last();
        let c = c1.push(Command::DestroyBall(last.0));
        assert forall|i: int| 0 <= i < es.len() implies c.contains(Command::DestroyBall(#[trigger] es[i].0)) by {
            if i < es.len() - 1 {
                assert(es[i] == d[i]);
                assert(c1.contains(Command::DestroyBall(d[i].0)));
                let k = choose|k: int| 0 <= k < c1.len() && c1[k] == Command::DestroyBall(d[i].0);
                assert(c[k] == c1[k]);
            } else {
                assert(c[c.len() - 1] == Command::DestroyBall(last.0));
            }
        }
        if forall|i: int| 0 <= i < es.len() ==> es[i].0 != b {
            assert forall|i: int| 0 <= i < d.len() implies d[i].0 != b by {
                assert(d[i] == es[i]);
            }
            assert(es[es.len() - 1].0 != b);
        }
    }
}

proof fn lemma_scored_doublings(g: GameView, sc: Seq<(EntityId, Side)>, b: EntityId)
    ensures
        (forall|i: int| 0 <= i < sc.len() ==> sc[i].0 != b) ==> spec_doublings_in(
            spec_score_balls(g, sc).0.doublings,
            b,
        ) == spec_doublings_in(g.doublings, b),
        forall|i: int|
            0 <= i < sc.len() ==> spec_score_balls(g, sc).1.contains(
                Command::DestroyBall(#[trigger] sc[i].0),
            ),
    decreases sc.len(),
{
    if sc.len() > 0 {
        let d = sc.drop_last();
        lemma_scored_doublings(g, d, b);
        let (g1, c1) = spec_score_balls(g, d);
        let last = sc.last();
        let c = c1.push(Command::GoalExplosion { ball: last.0, scorer: last.1 }).push(
            Command::DestroyBall(last.0),
        );
        assert forall|i: int| 0 <= i < sc.len() implies c.contains(Command::DestroyBall(#[trigger] sc[i].0)) by {
            if i < sc.len() - 1 {
                assert(sc[i] == d[i]);
                assert(c1.contains(Command::DestroyBall(d[i].0)));
                let k = choose|k: int| 0 <= k < c1.len() && c1[k] == Command::DestroyBall(d[i].0);
                assert(c[k] == c1[k]);
            } else {
                assert(c[c.len() - 1] == Command::DestroyBall(last.0));
            }
        }
        if forall|i: int| 0 <= i < sc.len() ==> sc[i].0 != b {
            assert forall|i: int| 0 <= i < d.len() implies d[i].0 != b by {
                assert(d[i] == sc[i]);
            }
            assert(sc[sc.len() - 1].0 != b);
        }
    }
}

/// A ball that a frame of goal handling neither destroys nor replaces (no
/// fresh serve ball is asked for) ends the frame with one more speed
/// doubling for every velocity doubling the frame ordered for it (the count
/// saturating at `u32::MAX`).
pub proof fn lemma_doubling_commands_match_state(
    g: GameView,
    es: Seq<(EntityId, Side)>,
    cs: Seq<Collision>,
    b: EntityId,
)
    requires
        !spec_check_goals(g, es, cs).1.contains(Command::DestroyBall(b)),
        !spec_check_goals(g, es, cs).1.contains(Command::SpawnFreshBall),
    ensures
        spec_doublings_in(spec_check_goals(g, es, cs).0.doublings, b) == (if spec_doublings_in(
            g.doublings,
            b,
        ) + spec_count(spec_doubled(spec_check_goals(g, es, cs).1), b) < u32::MAX {
            spec_doublings_in(g.doublings, b) + spec_count(
                spec_doubled(spec_check_goals(g, es, cs).1),
                b,
            )
        } else {
            u32::MAX as int
        }),
{
    lemma_check_goals_picks(g, es, cs);
    match spec_arena(g) {
        None => {
            assert(spec_doubled(Seq::<Command>::empty()) =~= Seq::<EntityId>::empty());
        },
        Some(a) => {
            let (g1, c1) = spec_score_escapes(g, es);
            let sc = spec_scan_contacts(
                spec_start_scan(g1.score.last_touch),
                cs,
                g1.all_balls(),
                a,
                crate::types::spec_is_insane(g1.settings.chaos),
            );
            let g2 = GameView {
                score: Scoreboard { last_touch: sc.last_touch, ..g1.score },
                doublings: crate::scoring::spec_apply_doublings(g1.doublings, sc.hits),
                ..g1
            };
            let c2 = spec_tint_cmds(sc.touches) + spec_double_cmds(sc.hits) + spec_burst_cmds(
                sc.touches,
            );
            let (g3, c3) = spec_score_balls(g2, sc.scored);
            let (g4, c4) = spec_respawn(g3);
            let cmds = spec_check_goals(g, es, cs).1;
            if g3.primary.is_none() && g3.extras.len() == 0 && (es.len() > 0 || sc.scored.len() > 0) {
                assert(c4[2] == Command::SpawnFreshBall);
                assert(c4.contains(Command::SpawnFreshBall));
                lemma_contains_concat(c1 + c2 + c3, c4, Command::SpawnFreshBall);
                assert(false);
            }
            assert(cmds == c1 + c2 + c3);
            lemma_escapes_doublings(g, es, b);
            lemma_scored_doublings(g2, sc.scored, b);
            assert forall|i: int| 0 <= i < es.len() implies es[i].0 != b by {
                if es[i].0 == b {
                    assert(c1.contains(Command::DestroyBall(es[i].0)));
                    lemma_contains_concat(c1, c2, Command::DestroyBall(b));
                    lemma_contains_concat(c1 + c2, c3, Command::DestroyBall(b));
                }
            }
            assert forall|i: int| 0 <= i < sc.scored.len() implies sc.scored[i].0 != b by {
                if sc.scored[i].0 == b {
                    assert(c3.contains(Command::DestroyBall(sc.scored[i].0)));
                    lemma_contains_concat(c1 + c2, c3, Command::DestroyBall(b));
                }
            }
            lemma_doublings_count_hits(g1.doublings, sc.hits, b);
        },
    }
}

} // verus!
