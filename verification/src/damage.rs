//! The damage and lifecycle stage: drain the tick's damage events in
//! arrival order, reduce each target's health, and destroy any entity
//! whose health reaches zero together with all of its dependents —
//! within the same batch, so a later event against an already
//! destroyed target is a no-op, not a fault.

use vstd::prelude::*;
use crate::components::DamageEvent;
use crate::components::EntityRec;
use crate::components::Health;
use crate::components::killed;
use crate::world::World;

verus! {

/// Health subtraction, saturating at the numeric floor; never clamped
/// back above zero.
pub open spec fn spec_damage_sub(current: int, amount: int) -> int {
    if current - amount < i64::MIN {
        i64::MIN as int
    } else {
        current - amount
    }
}

/// Destroy the entity in slot `t` and every dependent that refers to
/// it.
pub open spec fn cascade_kill(s: Seq<EntityRec>, t: int) -> Seq<EntityRec> {
    Seq::new(
        s.len(),
        |j: int|
            if j == t || s[j].parent == Some(t as usize) {
                killed(s[j])
            } else {
                s[j]
            },
    )
}

/// Apply one damage event: a stale target — out of range, already
/// destroyed, or without health — is silently skipped; otherwise its
/// health drops by the amount, and a target left at or below zero is
/// destroyed with its dependents at once.
pub open spec fn apply_event(s: Seq<EntityRec>, ev: DamageEvent) -> Seq<EntityRec> {
    let t = ev.target as int;
    if 0 <= t < s.len() && s[t].alive && s[t].health is Some {
        let h = s[t].health->Some_0;
        let nc = spec_damage_sub(h.current as int, ev.amount as int);
        let s1 = s.update(
            t,
            EntityRec { health: Some(Health { current: nc as i64, max: h.max }), ..s[t] },
        );
        if nc <= 0 {
            cascade_kill(s1, t)
        } else {
            s1
        }
    } else {
        s
    }
}

/// Apply the events from position `k` on, in arrival order.
pub open spec fn drain_events(s: Seq<EntityRec>, evs: Seq<DamageEvent>, k: int) -> Seq<EntityRec>
    decreases evs.len() - k,
{
    if k < 0 || k >= evs.len() {
        s
    } else {
        drain_events(apply_event(s, evs[k]), evs, k + 1)
    }
}

/// Draining never grows or shrinks the store.
pub proof fn lemma_drain_len(s: Seq<EntityRec>, evs: Seq<DamageEvent>, k: int)
    ensures
        drain_events(s, evs, k).len() == s.len(),
    decreases evs.len() - k,
{
    if 0 <= k < evs.len() {
        lemma_drain_len(apply_event(s, evs[k]), evs, k + 1);
    }
}

/// Health stays within its maximum for every entity — alive or about
/// to be destroyed — after any damage batch whose amounts are all
/// nonnegative.
pub proof fn lemma_damage_health_bounded(s: Seq<EntityRec>, evs: Seq<DamageEvent>, k: int)
    requires
        forall|i: int|
            0 <= i < s.len() ==> ((#[trigger] s[i]).health matches Some(h) ==> h.current <= h.max),
        forall|i: int| 0 <= i < evs.len() ==> (#[trigger] evs[i]).amount >= 0,
    ensures
        forall|i: int|
            0 <= i < drain_events(s, evs, k).len() ==> ((#[trigger] drain_events(s, evs, k)[i]).health
                matches Some(h) ==> h.current <= h.max),
    decreases evs.len() - k,
{
    if 0 <= k < evs.len() {
        let s1 = apply_event(s, evs[k]);
        assert(forall|i: int|
            0 <= i < s1.len() ==> ((#[trigger] s1[i]).health matches Some(h) ==> h.current
                <= h.max));
        lemma_damage_health_bounded(s1, evs, k + 1);
    }
}

/// Drain the damage event queue: each event reduces its target's
/// health, entities at or below zero are destroyed with their
/// dependents immediately, and the queue is left empty — events are
/// never carried into the next tick.
#[verifier::rlimit(100)]
pub fn handle_damage(w: &mut World)
    requires
        old(w).wf(),
    ensures
        final(w).wf(),
        final(w).ents.len() == old(w).ents.len(),
        final(w).ents@ == drain_events(old(w).ents@, old(w).events@, 0),
        final(w).events@.len() == 0,
{
    let n = w.ents.len();
    let m = w.events.len();
    let mut k: usize = 0;
    proof {
        lemma_drain_len(old(w).ents@, old(w).events@, 0);
    }
    while k < m
        invariant
            k <= m == w.events.len(),
            n == w.ents.len() == old(w).ents.len(),
            w.events@ == old(w).events@,
            w.wf(),
            drain_events(w.ents@, old(w).events@, k as int) == drain_events(
                old(w).ents@,
                old(w).events@,
                0,
            ),
        decreases m - k,
    {
        let ev = w.events[k];
        let ghost pre = w.ents@;
        let t = ev.target;
        if t < n {
            let e = w.ents[t];
            if e.alive && e.health.is_some() {
                let h = e.health.unwrap();
                let nc = match h.current.checked_sub(ev.amount) {
                    Some(v) => v,
                    None => i64::MIN,
                };
                let mut e2 = e;
                e2.health = Some(Health { current: nc, max: h.max });
                w.ents[t] = e2;
                let ghost s1 = pre.update(
                    t as int,
                    EntityRec {
                        health: Some(
                            Health {
                                current: spec_damage_sub(
                                    h.current as int,
                                    ev.amount as int,
                                ) as i64,
                                max: h.max,
                            },
                        ),
                        ..pre[t as int]
                    },
                );
                proof {
                    assert(w.ents@ =~= s1);
                }
                if nc <= 0 {
                    let mut j: usize = 0;
                    while j < n
                        invariant
                            j <= n == w.ents.len(),
                            t < n,
                            s1.len() == n,
                            w.events@ == old(w).events@,
                            forall|i: int|
                                0 <= i < j ==> #[trigger] w.ents[i] == cascade_kill(s1, t as int)[i],
                            forall|i: int| j <= i < n ==> #[trigger] w.ents[i] == s1[i],
                        decreases n - j,
                    {
                        let ej = w.ents[j];
                        let dependent = match ej.parent {
                            Some(p) => p == t,
                            None => false,
                        };
                        if j == t || dependent {
                            let mut ej2 = ej;
                            ej2.alive = false;
                            w.ents[j] = ej2;
                        }
                        j += 1;
                    }
                    proof {
                        assert(w.ents@ =~= cascade_kill(s1, t as int));
                    }
                }
                proof {
                    assert(w.ents@ == apply_event(pre, ev));
                }
            }
        }
        proof {
            assert(w.ents@ == apply_event(pre, old(w).events@[k as int]));
            assert(drain_events(pre, old(w).events@, k as int) == drain_events(
                w.ents@,
                old(w).events@,
                k as int + 1,
            ));
        }
        k += 1;
    }
    w.events = Vec::new();
}

} // verus!
