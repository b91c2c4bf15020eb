use vstd::prelude::*;

use std::collections::HashSet;

use crate::contacts::{contains_id, BurnContacts};
use crate::hud::{PlayerHealth, Score};
use crate::timer::{tick_view, RepeatingTimer, TimerView};

verus! {

/// Fires a knock by the player may start.
pub const PLAYER_KNOCK_FIRES: u32 = 3;

/// Fires a knock by a water bubble may start.
pub const BUBBLE_KNOCK_FIRES: u32 = 1;

/// Period of the burn damage timer: half a second, in nanoseconds.
pub const BURN_DAMAGE_INTERVAL_NS: u64 = 500_000_000;

/// Two entities that started (or stopped) touching, in the order the physics
/// engine reported them.
#[derive(Clone, Copy, Debug, PartialEq, Eq)]
pub struct CollisionPair {
    pub collider1: u64,
    pub collider2: u64,
}

/// What the game knows about the entities of a frame: the player, the water
/// bubbles, the fires, the furniture that can still be knocked over and the
/// entities that carry a position.
pub struct Roles {
    pub player: u64,
    pub bubbles: Vec<u64>,
    pub fires: Vec<u64>,
    pub knockables: Vec<u64>,
    pub positioned: Vec<u64>,
}

impl Roles {
    pub open spec fn is_bubble(self, e: u64) -> bool {
        self.bubbles@.contains(e)
    }

    pub open spec fn is_fire(self, e: u64) -> bool {
        self.fires@.contains(e)
    }

    pub open spec fn is_knockable(self, e: u64) -> bool {
        self.knockables@.contains(e)
    }

    pub open spec fn is_positioned(self, e: u64) -> bool {
        self.positioned@.contains(e)
    }
}

/// Who knocked a piece of furniture over.
#[derive(Clone, Copy, Debug, PartialEq, Eq)]
pub enum HazardSource {
    Player,
    Bubble,
}

/// A request to roll, `num_fires` times, for a fire around knocked furniture,
/// with the hazard rate that belongs to `source`.
#[derive(Clone, Copy, Debug, PartialEq, Eq)]
pub struct FireRoll {
    pub source: HazardSource,
    pub num_fires: u32,
}

/// Furniture `target` was knocked over; `roll` says whether fires may start
/// around it.
#[derive(Clone, Copy, Debug, PartialEq, Eq)]
pub struct Knock {
    pub target: u64,
    pub roll: Option<FireRoll>,
}

/// What a frame of collisions asks the world to do.
pub struct CollisionOutcome {
    /// Entities to despawn.
    pub despawn: HashSet<u64>,
    /// Furniture to mark as knocked, in the order of the contacts.
    pub knocks: Vec<Knock>,
}

/// Each reported pair seen from both sides: `(a, b)` then `(b, a)`.
pub open spec fn oriented(events: Seq<CollisionPair>) -> Seq<(u64, u64)>
    decreases events.len(),
{
    if events.len() == 0 {
        Seq::empty()
    } else {
        let e = events.last();
        oriented(events.drop_last()).push((e.collider1, e.collider2)).push((e.collider2, e.collider1))
    }
}

/// A bubble (`lhs`) hitting a fire (`rhs`) puts the fire out.
pub open spec fn puts_out(roles: Roles, lhs: u64, rhs: u64) -> bool {
    roles.is_bubble(lhs) && roles.is_fire(rhs)
}

/// A bubble vanishes on any contact, together with the fire it hits.
pub open spec fn contact_despawns(roles: Roles, lhs: u64, rhs: u64) -> Set<u64> {
    if roles.is_bubble(lhs) {
        if roles.is_fire(rhs) {
            set![lhs, rhs]
        } else {
            set![lhs]
        }
    } else {
        Set::empty()
    }
}

/// The player (`lhs`) touching a fire (`rhs`).
pub open spec fn burns(player: u64, fires: Seq<u64>, lhs: u64, rhs: u64) -> bool {
    lhs == player && fires.contains(rhs)
}

/// The fire roll that knocking `rhs` over by `lhs` earns.
pub open spec fn roll_for(roles: Roles, lhs: u64, rhs: u64) -> Option<FireRoll> {
    if !roles.is_positioned(rhs) {
        None
    } else if lhs == roles.player {
        Some(FireRoll { source: HazardSource::Player, num_fires: PLAYER_KNOCK_FIRES })
    } else if roles.is_bubble(lhs) {
        Some(FireRoll { source: HazardSource::Bubble, num_fires: BUBBLE_KNOCK_FIRES })
    } else {
        None
    }
}

/// Entities despawned by a sequence of contacts.
pub open spec fn despawned(roles: Roles, pairs: Seq<(u64, u64)>) -> Set<u64>
    decreases pairs.len(),
{
    if pairs.len() == 0 {
        Set::empty()
    } else {
        despawned(roles, pairs.drop_last()).union(contact_despawns(roles, pairs.last().0, pairs.last().1))
    }
}

/// Number of contacts in which a bubble hits a fire.
pub open spec fn fires_put_out(roles: Roles, pairs: Seq<(u64, u64)>) -> nat
    decreases pairs.len(),
{
    if pairs.len() == 0 {
        0
    } else {
        fires_put_out(roles, pairs.drop_last()) + if puts_out(roles, pairs.last().0, pairs.last().1) {
            1nat
        } else {
            0nat
        }
    }
}

/// Fires the player touches in a sequence of contacts.
pub open spec fn touched_fires(player: u64, fires: Seq<u64>, pairs: Seq<(u64, u64)>) -> Set<u64>
    decreases pairs.len(),
{
    if pairs.len() == 0 {
        Set::empty()
    } else {
        let rest = touched_fires(player, fires, pairs.drop_last());
        if burns(player, fires, pairs.last().0, pairs.last().1) {
            rest.insert(pairs.last().1)
        } else {
            rest
        }
    }
}

/// Furniture knocked over in a sequence of contacts, in order.
pub open spec fn knocks(roles: Roles, pairs: Seq<(u64, u64)>) -> Seq<Knock>
    decreases pairs.len(),
{
    if pairs.len() == 0 {
        Seq::empty()
    } else {
        let rest = knocks(roles, pairs.drop_last());
        let (lhs, rhs) = pairs.last();
        if roles.is_knockable(rhs) {
            rest.push(Knock { target: rhs, roll: roll_for(roles, lhs, rhs) })
        } else {
            rest
        }
    }
}

/// Extending the events by one pair extends the contacts by both of its
/// orientations.
proof fn lemma_oriented_step(events: Seq<CollisionPair>, i: int)
    requires
        0 <= i < events.len(),
    ensures
        oriented(events.take(i + 1)) == oriented(events.take(i)).push(
            (events[i].collider1, events[i].collider2),
        ).push((events[i].collider2, events[i].collider1)),
{
    assert(events.take(i + 1).drop_last() =~= events.take(i));
}

/// Counting over a longer prefix of the events never counts fewer fires.
proof fn lemma_fires_put_out_prefix(roles: Roles, events: Seq<CollisionPair>, i: int, j: int)
    requires
        0 <= i <= j <= events.len(),
    ensures
        fires_put_out(roles, oriented(events.take(i))) <= fires_put_out(roles, oriented(events.take(j))),
    decreases j - i,
{
    if i < j {
        lemma_fires_put_out_prefix(roles, events, i, j - 1);
        lemma_oriented_step(events, j - 1);
        let p = oriented(events.take(j - 1));
        let a = (events[j - 1].collider1, events[j - 1].collider2);
        let b = (events[j - 1].collider2, events[j - 1].collider1);
        assert(p.push(a).push(b).drop_last() =~= p.push(a));
        assert(p.push(a).drop_last() =~= p);
        assert(fires_put_out(roles, p.push(a)) >= fires_put_out(roles, p));
        assert(fires_put_out(roles, p.push(a).push(b)) >= fires_put_out(roles, p.push(a)));
    }
}

/// The effect of one contact `lhs` -> `rhs`.
fn record_contact(
    roles: &Roles,
    lhs: u64,
    rhs: u64,
    out: &mut CollisionOutcome,
    score: &mut Score,
    burn: &mut BurnContacts,
)
    requires
        old(score).0 + (if puts_out(*roles, lhs, rhs) { 1int } else { 0int }) <= usize::MAX,
    ensures
        final(out).despawn@ == old(out).despawn@.union(contact_despawns(*roles, lhs, rhs)),
        final(score).0 == old(score).0 + (if puts_out(*roles, lhs, rhs) { 1int } else { 0int }),
        final(burn)@ == (if burns(roles.player, roles.fires@, lhs, rhs) {
            old(burn)@.insert(rhs)
        } else {
            old(burn)@
        }),
        final(out).knocks@ == (if roles.is_knockable(rhs) {
            old(out).knocks@.push(Knock { target: rhs, roll: roll_for(*roles, lhs, rhs) })
        } else {
            old(out).knocks@
        }),
{
    broadcast use vstd::std_specs::hash::group_hash_axioms;
    let is_lhs_bubble = contains_id(&roles.bubbles, lhs);
    let is_lhs_player = roles.player == lhs;
    let is_rhs_fire = contains_id(&roles.fires, rhs);
    let is_rhs_knockable = contains_id(&roles.knockables, rhs);

    if is_lhs_bubble {
        out.despawn.insert(lhs);
        if is_rhs_fire {
            out.despawn.insert(rhs);
            score.0 = score.0 + 1;
        }
    }
    proof {
        let d = contact_despawns(*roles, lhs, rhs);
        assert(out.despawn@ =~= old(out).despawn@.union(d));
    }

    if is_lhs_player && is_rhs_fire {
        burn.insert(rhs);
    }

    if is_rhs_knockable {
        let roll = if contains_id(&roles.positioned, rhs) {
            if is_lhs_player {
                Some(FireRoll { source: HazardSource::Player, num_fires: PLAYER_KNOCK_FIRES })
            } else if is_lhs_bubble {
                Some(FireRoll { source: HazardSource::Bubble, num_fires: BUBBLE_KNOCK_FIRES })
            } else {
                None
            }
        } else {
            None
        };
        out.knocks.push(Knock { target: rhs, roll });
    }
}

/// Works out what the collisions that started this frame do: bubbles vanish
/// on contact, a bubble hitting a fire puts it out and scores a point, the
/// player touching a fire starts burning, and furniture that is touched is
/// knocked over, possibly with a roll for new fires around it.
pub fn handle_collisions(
    roles: &Roles,
    events: &Vec<CollisionPair>,
    score: &mut Score,
    burn: &mut BurnContacts,
) -> (out: CollisionOutcome)
    requires
        old(score).0 + fires_put_out(*roles, oriented(events@)) <= usize::MAX,
    ensures
        final(score).0 == old(score).0 + fires_put_out(*roles, oriented(events@)),
        out.despawn@ == despawned(*roles, oriented(events@)),
        final(burn)@ == old(burn)@.union(touched_fires(roles.player, roles.fires@, oriented(events@))),
        out.knocks@ == knocks(*roles, oriented(events@)),
        final(score).0 == old(score).0 + oriented(events@).filter(bubble_hits_fire(*roles)).len(),
        forall|e: u64|
            out.despawn@.contains(e) <==> exists|k: int|
                0 <= k < events@.len() && vanishes_in(*roles, #[trigger] events@[k], e),
        forall|e: u64|
            final(burn)@.contains(e) <==> (old(burn)@.contains(e) || exists|k: int|
                0 <= k < events@.len() && player_meets_fire(roles.player, roles.fires@, #[trigger] events@[k], e)),
        out.knocks@.len() == oriented(events@).filter(lands_on_knockable(*roles)).len(),
        forall|i: int| 0 <= i < out.knocks@.len() ==> {
            let c = oriented(events@).filter(lands_on_knockable(*roles))[i];
            let k = #[trigger] out.knocks@[i];
            &&& k.target == c.1
            &&& (k.roll matches Some(r) ==> roles.positioned@.contains(c.1) && ((c.0 == roles.player && r
                == FireRoll { source: HazardSource::Player, num_fires: 3 }) || (c.0 != roles.player
                && roles.bubbles@.contains(c.0) && r == FireRoll { source: HazardSource::Bubble, num_fires: 1 })))
            &&& (k.roll is None ==> !roles.positioned@.contains(c.1) || (c.0 != roles.player
                && !roles.bubbles@.contains(c.0)))
        },
{
    let mut out = CollisionOutcome { despawn: HashSet::new(), knocks: Vec::new() };
    let mut i: usize = 0;
    proof {
        assert(events@.take(0) =~= Seq::<CollisionPair>::empty());
        assert(out.despawn@ =~= Set::<u64>::empty());
        assert(old(burn)@.union(Set::empty()) =~= old(burn)@);
        lemma_fires_put_out_prefix(*roles, events@, 0, events@.len() as int);
    }
    while i < events.len()
        invariant
            i <= events@.len(),
            old(score).0 + fires_put_out(*roles, oriented(events@)) <= usize::MAX,
            score.0 == old(score).0 + fires_put_out(*roles, oriented(events@.take(i as int))),
            out.despawn@ == despawned(*roles, oriented(events@.take(i as int))),
            burn@ == old(burn)@.union(touched_fires(roles.player, roles.fires@, oriented(events@.take(i as int)))),
            out.knocks@ == knocks(*roles, oriented(events@.take(i as int))),
        decreases events@.len() - i,
    {
        let ev = events[i];
        let ghost p = oriented(events@.take(i as int));
        let ghost a = (ev.collider1, ev.collider2);
        let ghost b = (ev.collider2, ev.collider1);
        proof {
            lemma_oriented_step(events@, i as int);
            lemma_fires_put_out_prefix(*roles, events@, i + 1, events@.len() as int);
            assert(events@.take(events@.len() as int) =~= events@);
            assert(p.push(a).push(b).drop_last() =~= p.push(a));
            assert(p.push(a).drop_last() =~= p);
            assert(fires_put_out(*roles, p.push(a)) == fires_put_out(*roles, p) + if puts_out(
                *roles,
                a.0,
                a.1,
            ) {
                1nat
            } else {
                0nat
            });
            assert(fires_put_out(*roles, p.push(a).push(b)) == fires_put_out(*roles, p.push(a)) + if puts_out(
                *roles,
                b.0,
                b.1,
            ) {
                1nat
            } else {
                0nat
            });
        }
        record_contact(roles, ev.collider1, ev.collider2, &mut out, score, burn);
        record_contact(roles, ev.collider2, ev.collider1, &mut out, score, burn);
        proof {
            let t0 = touched_fires(roles.player, roles.fires@, p);
            let t1 = touched_fires(roles.player, roles.fires@, p.push(a));
            let t2 = touched_fires(roles.player, roles.fires@, p.push(a).push(b));
            assert(t1 == if burns(roles.player, roles.fires@, a.0, a.1) { t0.insert(a.1) } else { t0 });
            assert(t2 == if burns(roles.player, roles.fires@, b.0, b.1) { t1.insert(b.1) } else { t1 });
            assert(burn@ =~= old(burn)@.union(
                touched_fires(roles.player, roles.fires@, p.push(a).push(b)),
            ));
            let d0 = despawned(*roles, p);
            let d1 = despawned(*roles, p.push(a));
            assert(d1 == d0.union(contact_despawns(*roles, a.0, a.1)));
            assert(despawned(*roles, p.push(a).push(b)) == d1.union(contact_despawns(*roles, b.0, b.1)));
            assert(out.despawn@ =~= despawned(*roles, p.push(a).push(b)));
            let k0 = knocks(*roles, p);
            let k1 = knocks(*roles, p.push(a));
            assert(k1 == if roles.is_knockable(a.1) {
                k0.push(Knock { target: a.1, roll: roll_for(*roles, a.0, a.1) })
            } else {
                k0
            });
            assert(knocks(*roles, p.push(a).push(b)) == if roles.is_knockable(b.1) {
                k1.push(Knock { target: b.1, roll: roll_for(*roles, b.0, b.1) })
            } else {
                k1
            });
        }
        i = i + 1;
    }
    assert(events@.take(events@.len() as int) =~= events@);
    proof {
        law_score_rule(*roles, oriented(events@));
        law_knock_rule(*roles, oriented(events@));
        assert forall|e: u64|
            out.despawn@.contains(e) <==> exists|k: int|
                0 <= k < events@.len() && vanishes_in(*roles, #[trigger] events@[k], e) by {
            law_despawn_rule(*roles, events@, e);
        }
        assert forall|e: u64|
            burn@.contains(e) <==> (old(burn)@.contains(e) || exists|k: int|
                0 <= k < events@.len() && player_meets_fire(roles.player, roles.fires@, #[trigger] events@[k], e)) by {
            law_burn_rule(roles.player, roles.fires@, events@, e);
        }
    }
    out
}

/// Records that the player stopped touching the fires named by the
/// collisions that ended this frame.
pub fn track_burn_end(
    player: u64,
    fires: &Vec<u64>,
    events: &Vec<CollisionPair>,
    burn: &mut BurnContacts,
)
    ensures
        final(burn)@ == old(burn)@.difference(touched_fires(player, fires@, oriented(events@))),
        forall|e: u64|
            final(burn)@.contains(e) <==> (old(burn)@.contains(e) && !exists|k: int|
                0 <= k < events@.len() && player_meets_fire(player, fires@, #[trigger] events@[k], e)),
{
    let mut i: usize = 0;
    proof {
        assert(events@.take(0) =~= Seq::<CollisionPair>::empty());
        assert(old(burn)@.difference(Set::empty()) =~= old(burn)@);
    }
    while i < events.len()
        invariant
            i <= events@.len(),
            burn@ == old(burn)@.difference(touched_fires(player, fires@, oriented(events@.take(i as int)))),
        decreases events@.len() - i,
    {
        let ev = events[i];
        let ghost p = oriented(events@.take(i as int));
        let ghost a = (ev.collider1, ev.collider2);
        let ghost b = (ev.collider2, ev.collider1);
        proof {
            lemma_oriented_step(events@, i as int);
            assert(p.push(a).push(b).drop_last() =~= p.push(a));
            assert(p.push(a).drop_last() =~= p);
            let t0 = touched_fires(player, fires@, p);
            let t1 = touched_fires(player, fires@, p.push(a));
            let t2 = touched_fires(player, fires@, p.push(a).push(b));
            assert(t1 == if burns(player, fires@, a.0, a.1) { t0.insert(a.1) } else { t0 });
            assert(t2 == if burns(player, fires@, b.0, b.1) { t1.insert(b.1) } else { t1 });
        }
        if ev.collider1 == player && contains_id(fires, ev.collider2) {
            burn.remove(ev.collider2);
        }
        if ev.collider2 == player && contains_id(fires, ev.collider1) {
            burn.remove(ev.collider1);
        }
        proof {
            assert(burn@ =~= old(burn)@.difference(touched_fires(player, fires@, p.push(a).push(b))));
        }
        i = i + 1;
    }
    assert(events@.take(events@.len() as int) =~= events@);
    proof {
        assert forall|e: u64|
            burn@.contains(e) <==> (old(burn)@.contains(e) && !exists|k: int|
                0 <= k < events@.len() && player_meets_fire(player, fires@, #[trigger] events@[k], e)) by {
            law_burn_rule(player, fires@, events@, e);
        }
    }
}

/// While the player touches a live fire the burn timer runs and every
/// completed period costs one point of health; contacts with fires that no
/// longer exist are dropped, and with no contact left the timer restarts.
pub fn apply_burn_damage(
    burn: &mut BurnContacts,
    live_fires: &Vec<u64>,
    timer: &mut RepeatingTimer,
    delta_ns: u64,
    health: &mut PlayerHealth,
)
    requires
        old(timer)@.elapsed + delta_ns <= u64::MAX,
    ensures
        final(burn)@ == old(burn)@.intersect(live_fires@.to_set()),
        final(burn)@.subset_of(live_fires@.to_set()),
        final(burn)@ == Set::<u64>::empty() ==> {
            &&& final(timer)@ == (TimerView { duration: old(timer)@.duration, elapsed: 0, times_finished: 0 })
            &&& final(health).0 == old(health).0
        },
        final(burn)@ != Set::<u64>::empty() ==> {
            &&& final(timer)@ == tick_view(old(timer)@, delta_ns as nat)
            &&& final(health).0 == if final(timer)@.times_finished > 0 && old(health).0 > 0 {
                old(health).0 - 1
            } else {
                old(health).0 as int
            }
        },
        final(health).0 <= old(health).0 <= final(health).0 + 1,
{
    burn.retain_live(live_fires);
    if burn.is_empty() {
        timer.reset();
        return;
    }
    timer.tick(delta_ns);
    if timer.just_finished() {
        health.lose_one();
    }
}

/// Forgets every burn contact and restarts the burn timer, as at the start
/// of a round.
pub fn reset_burn_state(burn: &mut BurnContacts, timer: &mut RepeatingTimer)
    ensures
        final(burn)@ == Set::<u64>::empty(),
        final(timer)@ == (TimerView { duration: old(timer)@.duration, elapsed: 0, times_finished: 0 }),
{
    burn.clear();
    timer.reset();
}

/// Each pair `(a, b)` of the events shows up as the contacts `(a, b)` and
/// `(b, a)`, at positions `2k` and `2k + 1`.
pub proof fn lemma_oriented_shape(events: Seq<CollisionPair>)
    ensures
        oriented(events).len() == 2 * events.len(),
        forall|k: int| 0 <= k < events.len() ==> {
            &&& #[trigger] oriented(events)[2 * k] == (events[k].collider1, events[k].collider2)
            &&& oriented(events)[2 * k + 1] == (events[k].collider2, events[k].collider1)
        },
    decreases events.len(),
{
    if events.len() > 0 {
        let rest = events.drop_last();
        lemma_oriented_shape(rest);
        let p = oriented(rest);
        let ev = events.last();
        let full = p.push((ev.collider1, ev.collider2)).push((ev.collider2, ev.collider1));
        assert(oriented(events) == full);
        assert forall|k: int| 0 <= k < events.len() implies {
            &&& #[trigger] oriented(events)[2 * k] == (events[k].collider1, events[k].collider2)
            &&& oriented(events)[2 * k + 1] == (events[k].collider2, events[k].collider1)
        } by {
            if k < rest.len() {
                assert(rest[k] == events[k]);
                assert(p[2 * k] == (rest[k].collider1, rest[k].collider2));
                assert(full[2 * k] == p[2 * k]);
                assert(full[2 * k + 1] == p[2 * k + 1]);
            } else {
                assert(k == rest.len());
                assert(events[k] == ev);
                assert(full[2 * k] == (ev.collider1, ev.collider2));
                assert(full[2 * k + 1] == (ev.collider2, ev.collider1));
            }
        }
    }
}

/// An entity is despawned exactly when some single contact despawns it.
pub proof fn lemma_despawned_iff(roles: Roles, pairs: Seq<(u64, u64)>, e: u64)
    ensures
        despawned(roles, pairs).contains(e) <==> exists|k: int|
            0 <= k < pairs.len() && #[trigger] contact_despawns(roles, pairs[k].0, pairs[k].1).contains(e),
    decreases pairs.len(),
{
    if pairs.len() > 0 {
        let rest = pairs.drop_last();
        lemma_despawned_iff(roles, rest, e);
        if despawned(roles, pairs).contains(e) {
            if despawned(roles, rest).contains(e) {
                let k = choose|k: int|
                    0 <= k < rest.len() && #[trigger] contact_despawns(roles, rest[k].0, rest[k].1).contains(e);
                assert(rest[k] == pairs[k]);
            } else {
                assert(contact_despawns(roles, pairs[pairs.len() - 1].0, pairs[pairs.len() - 1].1).contains(e));
            }
        }
        if exists|k: int|
            0 <= k < pairs.len() && #[trigger] contact_despawns(roles, pairs[k].0, pairs[k].1).contains(e) {
            let k = choose|k: int|
                0 <= k < pairs.len() && #[trigger] contact_despawns(roles, pairs[k].0, pairs[k].1).contains(e);
            if k < rest.len() {
                assert(rest[k] == pairs[k]);
                assert(contact_despawns(roles, rest[k].0, rest[k].1).contains(e));
            }
        }
    }
}

/// The player burns from exactly the fires it touched in some contact.
pub proof fn lemma_touched_iff(player: u64, fires: Seq<u64>, pairs: Seq<(u64, u64)>, e: u64)
    ensures
        touched_fires(player, fires, pairs).contains(e) <==> exists|k: int|
            0 <= k < pairs.len() && #[trigger] burns(player, fires, pairs[k].0, pairs[k].1) && pairs[k].1 == e,
    decreases pairs.len(),
{
    if pairs.len() > 0 {
        let rest = pairs.drop_last();
        lemma_touched_iff(player, fires, rest, e);
        if touched_fires(player, fires, pairs).contains(e) {
            if touched_fires(player, fires, rest).contains(e) {
                let k = choose|k: int|
                    0 <= k < rest.len() && #[trigger] burns(player, fires, rest[k].0, rest[k].1) && rest[k].1 == e;
                assert(rest[k] == pairs[k]);
            } else {
                assert(burns(player, fires, pairs[pairs.len() - 1].0, pairs[pairs.len() - 1].1));
            }
        }
        if exists|k: int|
            0 <= k < pairs.len() && #[trigger] burns(player, fires, pairs[k].0, pairs[k].1) && pairs[k].1 == e {
            let k = choose|k: int|
                0 <= k < pairs.len() && #[trigger] burns(player, fires, pairs[k].0, pairs[k].1) && pairs[k].1 == e;
            if k < rest.len() {
                assert(rest[k] == pairs[k]);
                assert(burns(player, fires, rest[k].0, rest[k].1));
            }
        }
    }
}

/// A water bubble that takes part in a collision always vanishes, and so
/// does a fire it collides with.
pub proof fn law_bubbles_vanish(roles: Roles, events: Seq<CollisionPair>, k: int)
    requires
        0 <= k < events.len(),
    ensures
        roles.is_bubble(events[k].collider1) ==> despawned(roles, oriented(events)).contains(events[k].collider1),
        roles.is_bubble(events[k].collider2) ==> despawned(roles, oriented(events)).contains(events[k].collider2),
        roles.is_bubble(events[k].collider1) && roles.is_fire(events[k].collider2)
            ==> despawned(roles, oriented(events)).contains(events[k].collider2),
        roles.is_bubble(events[k].collider2) && roles.is_fire(events[k].collider1)
            ==> despawned(roles, oriented(events)).contains(events[k].collider1),
{
    let pairs = oriented(events);
    lemma_oriented_shape(events);
    let (a, b) = (events[k].collider1, events[k].collider2);
    assert(pairs[2 * k] == (a, b));
    assert(pairs[2 * k + 1] == (b, a));
    lemma_despawned_iff(roles, pairs, a);
    lemma_despawned_iff(roles, pairs, b);
    if roles.is_bubble(a) {
        assert(contact_despawns(roles, pairs[2 * k].0, pairs[2 * k].1).contains(a));
        if roles.is_fire(b) {
            assert(contact_despawns(roles, pairs[2 * k].0, pairs[2 * k].1).contains(b));
        }
    }
    if roles.is_bubble(b) {
        assert(contact_despawns(roles, pairs[2 * k + 1].0, pairs[2 * k + 1].1).contains(b));
        if roles.is_fire(a) {
            assert(contact_despawns(roles, pairs[2 * k + 1].0, pairs[2 * k + 1].1).contains(a));
        }
    }
}

/// Only water bubbles and fires are ever despawned by collisions.
pub proof fn law_only_bubbles_and_fires_vanish(roles: Roles, pairs: Seq<(u64, u64)>, e: u64)
    requires
        despawned(roles, pairs).contains(e),
    ensures
        roles.is_bubble(e) || roles.is_fire(e),
{
    lemma_despawned_iff(roles, pairs, e);
    let k = choose|k: int|
        0 <= k < pairs.len() && #[trigger] contact_despawns(roles, pairs[k].0, pairs[k].1).contains(e);
}

/// The player only ever starts burning from fires.
pub proof fn law_only_fires_burn(player: u64, fires: Seq<u64>, pairs: Seq<(u64, u64)>, e: u64)
    requires
        touched_fires(player, fires, pairs).contains(e),
    ensures
        fires.contains(e),
{
    lemma_touched_iff(player, fires, pairs, e);
    let k = choose|k: int|
        0 <= k < pairs.len() && #[trigger] burns(player, fires, pairs[k].0, pairs[k].1) && pairs[k].1 == e;
}

/// Each reported collision scores at most two points (one per direction).
pub proof fn law_score_per_collision(roles: Roles, events: Seq<CollisionPair>)
    ensures
        fires_put_out(roles, oriented(events)) <= 2 * events.len(),
    decreases events.len(),
{
    if events.len() > 0 {
        let rest = events.drop_last();
        law_score_per_collision(roles, rest);
        let p = oriented(rest);
        let e = events.last();
        let a = (e.collider1, e.collider2);
        let b = (e.collider2, e.collider1);
        assert(p.push(a).push(b).drop_last() =~= p.push(a));
        assert(p.push(a).drop_last() =~= p);
        assert(fires_put_out(roles, p.push(a)) <= fires_put_out(roles, p) + 1);
        assert(fires_put_out(roles, p.push(a).push(b)) <= fires_put_out(roles, p.push(a)) + 1);
    }
}

/// When collisions start and the same collisions end, the player is left
/// burning from exactly the earlier fires that were not among those touched.
pub proof fn law_touch_then_separate(burning: Set<u64>, player: u64, fires: Seq<u64>, events: Seq<CollisionPair>)
    ensures
        ({
            let touched = touched_fires(player, fires, oriented(events));
            burning.union(touched).difference(touched) == burning.difference(touched)
        }),
{
    let touched = touched_fires(player, fires, oriented(events));
    assert(burning.union(touched).difference(touched) =~= burning.difference(touched));
}

/// Only furniture listed as knockable is ever knocked over.
pub proof fn law_knocks_hit_knockables(roles: Roles, pairs: Seq<(u64, u64)>)
    ensures
        forall|k: int| 0 <= k < knocks(roles, pairs).len() ==> roles.is_knockable(#[trigger] knocks(roles, pairs)[k].target),
    decreases pairs.len(),
{
    if pairs.len() > 0 {
        law_knocks_hit_knockables(roles, pairs.drop_last());
    }
}

/// Furniture rolls for fires at most once: once a piece knocked over in one
/// frame is no longer listed as knockable, no later frame knocks it over or
/// rolls for fires around it again.
pub proof fn law_knocked_furniture_rolls_once(
    first: Roles,
    first_pairs: Seq<(u64, u64)>,
    i: int,
    later: Roles,
    later_pairs: Seq<(u64, u64)>,
)
    requires
        0 <= i < knocks(first, first_pairs).len(),
        !later.is_knockable(knocks(first, first_pairs)[i].target),
    ensures
        forall|j: int|
            0 <= j < knocks(later, later_pairs).len() ==> #[trigger] knocks(later, later_pairs)[j].target
                != knocks(first, first_pairs)[i].target,
{
    law_knocks_hit_knockables(later, later_pairs);
}

/// Contacts in which a listed water bubble hits a listed fire.
pub open spec fn bubble_hits_fire(roles: Roles) -> spec_fn((u64, u64)) -> bool {
    |p: (u64, u64)| roles.bubbles@.contains(p.0) && roles.fires@.contains(p.1)
}

/// Contacts whose second side is listed as knockable furniture.
pub open spec fn lands_on_knockable(roles: Roles) -> spec_fn((u64, u64)) -> bool {
    |p: (u64, u64)| roles.knockables@.contains(p.1)
}

/// Whether collision `ev` makes entity `e` vanish: a listed water bubble
/// vanishes on any contact, and a listed fire vanishes when a listed water
/// bubble touches it; nothing else vanishes.
pub open spec fn vanishes_in(roles: Roles, ev: CollisionPair, e: u64) -> bool {
    let (a, b) = (ev.collider1, ev.collider2);
    ||| roles.bubbles@.contains(a) && (e == a || (e == b && roles.fires@.contains(b)))
    ||| roles.bubbles@.contains(b) && (e == b || (e == a && roles.fires@.contains(a)))
}

/// Whether collision `ev` is the player touching the listed fire `e`.
pub open spec fn player_meets_fire(player: u64, fires: Seq<u64>, ev: CollisionPair, e: u64) -> bool {
    ||| ev.collider1 == player && ev.collider2 == e && fires.contains(e)
    ||| ev.collider2 == player && ev.collider1 == e && fires.contains(e)
}

/// Exactly the water bubbles of the collisions vanish, together with every
/// fire one of them touched; furniture, the player and fires no bubble
/// touched never vanish.
pub proof fn law_despawn_rule(roles: Roles, events: Seq<CollisionPair>, e: u64)
    ensures
        despawned(roles, oriented(events)).contains(e) <==> exists|k: int|
            0 <= k < events.len() && vanishes_in(roles, #[trigger] events[k], e),
    decreases events.len(),
{
    if events.len() > 0 {
        let rest = events.drop_last();
        law_despawn_rule(roles, rest, e);
        let ev = events.last();
        let p = oriented(rest);
        let a = (ev.collider1, ev.collider2);
        let b = (ev.collider2, ev.collider1);
        assert(p.push(a).push(b).drop_last() =~= p.push(a));
        assert(p.push(a).drop_last() =~= p);
        assert(despawned(roles, p.push(a)) == despawned(roles, p).union(contact_despawns(roles, a.0, a.1)));
        assert(despawned(roles, oriented(events)) == despawned(roles, p.push(a)).union(contact_despawns(roles, b.0, b.1)));
        assert((contact_despawns(roles, a.0, a.1).contains(e) || contact_despawns(roles, b.0, b.1).contains(e))
            <==> vanishes_in(roles, ev, e));
        if exists|k: int| 0 <= k < events.len() && vanishes_in(roles, #[trigger] events[k], e) {
            let k = choose|k: int| 0 <= k < events.len() && vanishes_in(roles, #[trigger] events[k], e);
            if k < rest.len() {
                assert(rest[k] == events[k]);
            }
        }
        if exists|k: int| 0 <= k < rest.len() && vanishes_in(roles, #[trigger] rest[k], e) {
            let k = choose|k: int| 0 <= k < rest.len() && vanishes_in(roles, #[trigger] rest[k], e);
            assert(events[k] == rest[k]);
        }
        assert(events[events.len() - 1] == ev);
    }
}

/// The score counts exactly the contacts in which a listed water bubble
/// hits a listed fire; any other contact adds nothing.
pub proof fn law_score_rule(roles: Roles, pairs: Seq<(u64, u64)>)
    ensures
        fires_put_out(roles, pairs) == pairs.filter(bubble_hits_fire(roles)).len(),
    decreases pairs.len(),
{
    reveal(Seq::filter);
    if pairs.len() > 0 {
        law_score_rule(roles, pairs.drop_last());
    }
}

/// The player burns from exactly the listed fires it touched, whatever
/// their place in the list of fires.
pub proof fn law_burn_rule(player: u64, fires: Seq<u64>, events: Seq<CollisionPair>, e: u64)
    ensures
        touched_fires(player, fires, oriented(events)).contains(e) <==> exists|k: int|
            0 <= k < events.len() && player_meets_fire(player, fires, #[trigger] events[k], e),
    decreases events.len(),
{
    if events.len() > 0 {
        let rest = events.drop_last();
        law_burn_rule(player, fires, rest, e);
        let ev = events.last();
        let p = oriented(rest);
        let a = (ev.collider1, ev.collider2);
        let b = (ev.collider2, ev.collider1);
        assert(p.push(a).push(b).drop_last() =~= p.push(a));
        assert(p.push(a).drop_last() =~= p);
        let t0 = touched_fires(player, fires, p);
        let t1 = touched_fires(player, fires, p.push(a));
        assert(t1 == if burns(player, fires, a.0, a.1) { t0.insert(a.1) } else { t0 });
        assert(touched_fires(player, fires, oriented(events)) == if burns(player, fires, b.0, b.1) {
            t1.insert(b.1)
        } else {
            t1
        });
        if exists|k: int| 0 <= k < events.len() && player_meets_fire(player, fires, #[trigger] events[k], e) {
            let k = choose|k: int| 0 <= k < events.len() && player_meets_fire(player, fires, #[trigger] events[k], e);
            if k < rest.len() {
                assert(rest[k] == events[k]);
            }
        }
        if exists|k: int| 0 <= k < rest.len() && player_meets_fire(player, fires, #[trigger] rest[k], e) {
            let k = choose|k: int| 0 <= k < rest.len() && player_meets_fire(player, fires, #[trigger] rest[k], e);
            assert(events[k] == rest[k]);
        }
        assert(events[events.len() - 1] == ev);
    }
}

/// Each contact that lands on listed knockable furniture knocks it over, in
/// order. The knock carries a fire roll only when the furniture has a
/// position and the knocker is the player (three fires) or a listed water
/// bubble (one fire); a knock by anything else carries no roll.
pub proof fn law_knock_rule(roles: Roles, pairs: Seq<(u64, u64)>)
    ensures
        knocks(roles, pairs).len() == pairs.filter(lands_on_knockable(roles)).len(),
        forall|i: int| 0 <= i < knocks(roles, pairs).len() ==> {
            let c = pairs.filter(lands_on_knockable(roles))[i];
            let k = #[trigger] knocks(roles, pairs)[i];
            &&& k.target == c.1
            &&& (k.roll matches Some(r) ==> roles.positioned@.contains(c.1) && ((c.0 == roles.player && r
                == FireRoll { source: HazardSource::Player, num_fires: 3 }) || (c.0 != roles.player
                && roles.bubbles@.contains(c.0) && r == FireRoll { source: HazardSource::Bubble, num_fires: 1 })))
            &&& (k.roll is None ==> !roles.positioned@.contains(c.1) || (c.0 != roles.player
                && !roles.bubbles@.contains(c.0)))
        },
    decreases pairs.len(),
{
    reveal(Seq::filter);
    if pairs.len() > 0 {
        law_knock_rule(roles, pairs.drop_last());
        let rest = pairs.drop_last();
        let kr = knocks(roles, rest);
        let fr = rest.filter(lands_on_knockable(roles));
        assert forall|i: int| 0 <= i < knocks(roles, pairs).len() implies {
            let c = pairs.filter(lands_on_knockable(roles))[i];
            let k = #[trigger] knocks(roles, pairs)[i];
            &&& k.target == c.1
            &&& (k.roll matches Some(r) ==> roles.positioned@.contains(c.1) && ((c.0 == roles.player && r
                == FireRoll { source: HazardSource::Player, num_fires: 3 }) || (c.0 != roles.player
                && roles.bubbles@.contains(c.0) && r == FireRoll { source: HazardSource::Bubble, num_fires: 1 })))
            &&& (k.roll is None ==> !roles.positioned@.contains(c.1) || (c.0 != roles.player
                && !roles.bubbles@.contains(c.0)))
        } by {
            if i < kr.len() {
                assert(knocks(roles, pairs)[i] == kr[i]);
                assert(pairs.filter(lands_on_knockable(roles))[i] == fr[i]);
            }
        }
    }
}

} // verus!
