//! Every ball in play: the primary ball, the extras, and the Insane-mode
//! speed multipliers.

use vstd::prelude::*;
use std::collections::HashMap;
use crate::types::EntityId;

verus! {

broadcast use vstd::std_specs::hash::group_hash_axioms;

/// The balls in play. The primary ball always exists during a match; extras
/// come from Ridiculous mode and the multi-ball power-up. When the primary is
/// scored, an extra is promoted in its place.
///
/// Insane mode doubles a ball's speed on every paddle hit, so a ball's speed
/// multiplier is always a power of two: `speed_doublings` records the
/// exponent (an absent entry is 0, a multiplier of 1).
pub struct Balls {
    pub primary: Option<EntityId>,
    pub extras: Vec<EntityId>,
    pub speed_doublings: HashMap<EntityId, u32>,
}

/// The balls in play, primary first.
pub open spec fn spec_all(primary: Option<EntityId>, extras: Seq<EntityId>) -> Seq<EntityId> {
    match primary {
        Some(p) => seq![p] + extras,
        None => extras,
    }
}

/// Keeps every ball but `ball`.
pub open spec fn other_than(ball: EntityId) -> spec_fn(EntityId) -> bool {
    |x: EntityId| x != ball
}

/// The primary ball and extras left after `ball` is forgotten: a scored
/// primary is replaced by the most recent extra; an extra is dropped.
pub open spec fn spec_remove(primary: Option<EntityId>, extras: Seq<EntityId>, ball: EntityId) -> (
    Option<EntityId>,
    Seq<EntityId>,
) {
    if primary == Some(ball) {
        if extras.len() == 0 {
            (None, extras)
        } else {
            (Some(extras.last()), extras.drop_last())
        }
    } else {
        (primary, extras.filter(other_than(ball)))
    }
}

impl Balls {
    pub open spec fn all_view(&self) -> Seq<EntityId> {
        spec_all(self.primary, self.extras@)
    }

    /// A primary ball exists whenever any ball does.
    pub open spec fn wf(&self) -> bool {
        self.primary.is_none() ==> self.extras@.len() == 0
    }

    /// No ball is listed twice.
    pub open spec fn distinct(&self) -> bool {
        self.all_view().no_duplicates()
    }

    /// Speed doublings recorded for `ball`.
    pub open spec fn doublings(&self, ball: EntityId) -> nat {
        if self.speed_doublings@.contains_key(ball) {
            self.speed_doublings@[ball] as nat
        } else {
            0
        }
    }

    /// No ball at all.
    pub fn new() -> (b: Balls)
        ensures
            b.primary.is_none(),
            b.extras@.len() == 0,
            b.speed_doublings@ == Map::<EntityId, u32>::empty(),
    {
        Balls { primary: None, extras: Vec::new(), speed_doublings: HashMap::new() }
    }

    /// Snapshot of every live ball, primary first.
    pub fn all(&self) -> (r: Vec<EntityId>)
        ensures
            r@ == self.all_view(),
    {
        let mut r: Vec<EntityId> = Vec::new();
        if let Some(p) = self.primary {
            r.push(p);
        }
        let n = self.extras.len();
        for i in 0..n
            invariant
                n == self.extras@.len(),
                r@ == spec_all(self.primary, self.extras@.take(i as int)),
        {
            r.push(self.extras[i]);
            assert(self.extras@.take(i + 1) == self.extras@.take(i as int).push(self.extras@[i as int]));
        }
        assert(self.extras@.take(n as int) == self.extras@);
        r
    }

    pub fn is_empty(&self) -> (b: bool)
        ensures
            b == (self.primary.is_none() && self.extras@.len() == 0),
    {
        self.primary.is_none() && self.extras.len() == 0
    }

    /// Forget a ball that is being destroyed. If it was the primary, the last
    /// extra is promoted so the match keeps a primary while any ball lives.
    pub fn remove(&mut self, ball: EntityId)
        ensures
            final(self).speed_doublings@ == old(self).speed_doublings@.remove(ball),
            (final(self).primary, final(self).extras@) == spec_remove(
                old(self).primary,
                old(self).extras@,
                ball,
            ),
    {
        self.speed_doublings.remove(&ball);
        if self.primary == Some(ball) {
            self.primary = self.extras.pop();
        } else {
            let ghost before = self.extras@;
            let mut kept: Vec<EntityId> = Vec::new();
            let n = self.extras.len();
            for i in 0..n
                invariant
                    n == self.extras@.len(),
                    self.extras@ == before,
                    kept@ == before.take(i as int).filter(other_than(ball)),
            {
                let b = self.extras[i];
                assert(before.take(i + 1).drop_last() == before.take(i as int));
                reveal_with_fuel(Seq::filter, 1);
                if b != ball {
                    kept.push(b);
                }
            }
            assert(before.take(n as int) == before);
            self.extras = kept;
        }
    }

    /// Track a newly spawned extra ball.
    pub fn add_extra(&mut self, ball: EntityId)
        ensures
            final(self).primary == old(self).primary,
            final(self).extras@ == old(self).extras@.push(ball),
            final(self).speed_doublings@ == old(self).speed_doublings@,
    {
        self.extras.push(ball);
    }

    /// Drop every extra ball, and their speed multipliers, returning them in
    /// the order they were spawned.
    pub fn take_extras(&mut self) -> (taken: Vec<EntityId>)
        ensures
            taken@ == old(self).extras@,
            final(self).primary == old(self).primary,
            final(self).extras@.len() == 0,
            final(self).speed_doublings@ == old(self).speed_doublings@.remove_keys(
                old(self).extras@.to_set(),
            ),
    {
        let mut taken: Vec<EntityId> = Vec::new();
        std::mem::swap(&mut taken, &mut self.extras);
        let n = taken.len();
        let ghost start = self.speed_doublings@;
        for i in 0..n
            invariant
                n == taken@.len(),
                self.extras@.len() == 0,
                self.primary == old(self).primary,
                self.speed_doublings@ == start.remove_keys(taken@.take(i as int).to_set()),
        {
            let b = taken[i];
            self.speed_doublings.remove(&b);
            assert(taken@.take(i + 1).to_set() == taken@.take(i as int).to_set().insert(b)) by {
                assert(taken@.take(i + 1) == taken@.take(i as int).push(b));
                taken@.take(i as int).lemma_push_to_set_commute(b);
            }
            assert(self.speed_doublings@ =~= start.remove_keys(taken@.take(i + 1).to_set()));
        }
        assert(taken@.take(n as int) == taken@);
        taken
    }

    /// Speed doublings of a ball (0 when it never hit a paddle in Insane mode).
    pub fn speed_doublings_of(&self, ball: EntityId) -> (k: u32)
        ensures
            k as nat == self.doublings(ball),
    {
        match self.speed_doublings.get(&ball) {
            Some(k) => *k,
            None => 0,
        }
    }

    /// Double a ball's speed multiplier (saturating at `u32::MAX` doublings,
    /// far past where a 32-bit float multiplier is already infinite).
    pub fn double_speed(&mut self, ball: EntityId)
        ensures
            final(self).primary == old(self).primary,
            final(self).extras@ == old(self).extras@,
            final(self).speed_doublings@ == old(self).speed_doublings@.insert(
                ball,
                if old(self).doublings(ball) < u32::MAX {
                    (old(self).doublings(ball) + 1) as u32
                } else {
                    u32::MAX
                },
            ),
    {
        let k = self.speed_doublings_of(ball);
        self.speed_doublings.insert(ball, k.saturating_add(1));
    }

    /// Forget every speed multiplier.
    pub fn clear_speeds(&mut self)
        ensures
            final(self).primary == old(self).primary,
            final(self).extras@ == old(self).extras@,
            final(self).speed_doublings@ == Map::<EntityId, u32>::empty(),
    {
        self.speed_doublings.clear();
    }
}


proof fn lemma_filter_out_no_duplicates(s: Seq<EntityId>, ball: EntityId)
    requires
        s.no_duplicates(),
    ensures
        s.filter(other_than(ball)).no_duplicates(),
        forall|x: EntityId| s.filter(other_than(ball)).contains(x) <==> (s.contains(x) && x != ball),
    decreases s.len(),
{
    reveal_with_fuel(Seq::filter, 1);
    if s.len() > 0 {
        let rest = s.drop_last();
        let last = s.last();
        assert(rest.no_duplicates());
        lemma_filter_out_no_duplicates(rest, ball);
        assert(s == rest.push(last));
        assert(!rest.contains(last)) by {
            if rest.contains(last) {
                let k = choose|k: int| 0 <= k < rest.len() && rest[k] == last;
                assert(s[k] == s[s.len() - 1]);
            }
        }
        let sub = rest.filter(other_than(ball));
        assert forall|x: EntityId| s.contains(x) <==> (rest.contains(x) || x == last) by {
            if s.contains(x) {
                let k = choose|k: int| 0 <= k < s.len() && s[k] == x;
                if k < s.len() - 1 {
                    assert(rest[k] == x);
                }
            }
            if rest.contains(x) {
                let k = choose|k: int| 0 <= k < rest.len() && rest[k] == x;
                assert(s[k] == x);
            }
        }
        if last != ball {
            assert(s.filter(other_than(ball)) == sub.push(last));
            assert(!sub.contains(last));
            assert forall|x: EntityId| sub.push(last).contains(x) <==> (sub.contains(x) || x == last) by {
                if sub.push(last).contains(x) {
                    let k = choose|k: int| 0 <= k < sub.len() + 1 && sub.push(last)[k] == x;
                    if k < sub.len() {
                        assert(sub[k] == x);
                    }
                }
                if sub.contains(x) {
                    let k = choose|k: int| 0 <= k < sub.len() && sub[k] == x;
                    assert(sub.push(last)[k] == x);
                }
                if x == last {
                    assert(sub.push(last)[sub.len() as int] == x);
                }
            }
            assert forall|i: int, j: int|
                0 <= i < sub.len() + 1 && 0 <= j < sub.len() + 1 && i != j implies sub.push(last)[i]
                != sub.push(last)[j] by {
                if i < sub.len() && j < sub.len() {
                } else if i < sub.len() {
                    assert(sub.contains(sub[i]));
                } else {
                    assert(sub.contains(sub[j]));
                }
            }
        } else {
            assert(s.filter(other_than(ball)) == sub);
        }
    }
}

/// Forgetting a ball keeps a primary ball while any ball lives.
pub proof fn lemma_remove_keeps_primary(primary: Option<EntityId>, extras: Seq<EntityId>, ball: EntityId)
    requires
        primary.is_none() ==> extras.len() == 0,
    ensures
        ({
            let (p, e) = spec_remove(primary, extras, ball);
            p.is_none() ==> e.len() == 0
        }),
{
    if primary != Some(ball) {
        extras.lemma_filter_len(other_than(ball));
    }
}

proof fn lemma_cons_contains(q: EntityId, f: Seq<EntityId>)
    ensures
        forall|x: EntityId| (seq![q] + f).contains(x) <==> (x == q || f.contains(x)),
        (!f.contains(q) && f.no_duplicates()) ==> (seq![q] + f).no_duplicates(),
{
    let c = seq![q] + f;
    assert forall|x: EntityId| c.contains(x) <==> (x == q || f.contains(x)) by {
        if c.contains(x) {
            let k = choose|k: int| 0 <= k < c.len() && c[k] == x;
            if k > 0 {
                assert(f[k - 1] == x);
            }
        }
        if x == q {
            assert(c[0] == x);
        }
        if f.contains(x) {
            let k = choose|k: int| 0 <= k < f.len() && f[k] == x;
            assert(c[k + 1] == x);
        }
    }
    if !f.contains(q) && f.no_duplicates() {
        assert forall|i: int, j: int| 0 <= i < c.len() && 0 <= j < c.len() && i != j implies c[i] != c[j] by {
            if i > 0 && j > 0 {
                assert(c[i] == f[i - 1]);
                assert(c[j] == f[j - 1]);
            } else if i == 0 {
                assert(f.contains(c[j]));
            } else {
                assert(f.contains(c[i]));
            }
        }
    }
}

/// When no ball is listed twice, forgetting a ball removes exactly that ball
/// from the balls in play and keeps the rest listed once.
pub proof fn lemma_remove_drops_exactly(primary: Option<EntityId>, extras: Seq<EntityId>, ball: EntityId)
    requires
        spec_all(primary, extras).no_duplicates(),
    ensures
        ({
            let (p, e) = spec_remove(primary, extras, ball);
            &&& spec_all(p, e).no_duplicates()
            &&& forall|x: EntityId|
                spec_all(p, e).contains(x) <==> (spec_all(primary, extras).contains(x) && x != ball)
        }),
{
    let all = spec_all(primary, extras);
    let (p, e) = spec_remove(primary, extras, ball);
    match primary {
        Some(q) => {
            assert(all == seq![q] + extras);
            lemma_cons_contains(q, extras);
            assert(extras.no_duplicates()) by {
                assert forall|i: int, j: int| 0 <= i < extras.len() && 0 <= j < extras.len() && i != j implies extras[i] != extras[j] by {
                    assert(all[i + 1] == extras[i]);
                    assert(all[j + 1] == extras[j]);
                }
            }
            assert(!extras.contains(q)) by {
                if extras.contains(q) {
                    let k = choose|k: int| 0 <= k < extras.len() && extras[k] == q;
                    assert(all[k + 1] == q);
                    assert(all[0] == q);
                }
            }
            if q == ball {
                if extras.len() > 0 {
                    let d = extras.drop_last();
                    let l = extras.last();
                    assert(extras == d.push(l));
                    assert(spec_all(p, e) == seq![l] + d);
                    lemma_cons_contains(l, d);
                    assert forall|x: EntityId| extras.contains(x) <==> (d.contains(x) || x == l) by {
                        if extras.contains(x) {
                            let k = choose|k: int| 0 <= k < extras.len() && extras[k] == x;
                            if k < d.len() {
                                assert(d[k] == x);
                            }
                        }
                        if d.contains(x) {
                            let k = choose|k: int| 0 <= k < d.len() && d[k] == x;
                            assert(extras[k] == x);
                        }
                        if x == l {
                            assert(extras[extras.len() - 1] == x);
                        }
                    }
                    assert(!d.contains(l)) by {
                        if d.contains(l) {
                            let k = choose|k: int| 0 <= k < d.len() && d[k] == l;
                            assert(extras[k] == extras[extras.len() - 1]);
                        }
                    }
                    assert(d.no_duplicates()) by {
                        assert forall|i: int, j: int| 0 <= i < d.len() && 0 <= j < d.len() && i != j implies d[i] != d[j] by {
                            assert(extras[i] == d[i]);
                            assert(extras[j] == d[j]);
                        }
                    }
                    assert(spec_all(p, e).no_duplicates());
                    assert forall|x: EntityId| spec_all(p, e).contains(x) <==> (all.contains(x) && x != ball) by {
                        assert((seq![q] + extras).contains(x) <==> (x == q || extras.contains(x)));
                        assert((seq![l] + d).contains(x) <==> (x == l || d.contains(x)));
                    }
                } else {
                    assert(spec_all(p, e) == extras);
                    assert(spec_all(p, e).no_duplicates());
                    assert(forall|x: EntityId| spec_all(p, e).contains(x) <==> (all.contains(x) && x != ball));
                }
            } else {
                lemma_filter_out_no_duplicates(extras, ball);
                let f = extras.filter(other_than(ball));
                assert(spec_all(p, e) == seq![q] + f);
                lemma_cons_contains(q, f);
                assert(!f.contains(q));
                assert(spec_all(p, e).no_duplicates());
                assert forall|x: EntityId| spec_all(p, e).contains(x) <==> (all.contains(x) && x != ball) by {
                    assert((seq![q] + extras).contains(x) <==> (x == q || extras.contains(x)));
                    assert((seq![q] + f).contains(x) <==> (x == q || f.contains(x)));
                }
            }
        },
        None => {
            lemma_filter_out_no_duplicates(extras, ball);
        },
    }
}

} // verus!
