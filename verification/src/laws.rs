//! The engine's laws: properties that relate several operations, stated
//! over the same spec functions the operations' contracts use and proved
//! once for all inputs their hypotheses admit.

use vstd::prelude::*;

use crate::ids::StatEnum;
use crate::ids::spec_governing_ability;
use crate::ids::spec_stat_index;
use crate::modifier::ModType;
use crate::modifier::ModifierSource;
use crate::modifier::StatMod;
use crate::modifier::add_sum;
use crate::modifier::best_of;
use crate::modifier::distinct_targets;
use crate::modifier::last_replace;
use crate::modifier::mods_bounded;
use crate::modifier::mult_sum;
use crate::stat::SCALE;
use crate::stat::clamp_total;
use crate::stat::spec_aggregate;
use crate::unit::UnitView;
use crate::unit::spec_aggregate_total;
use crate::unit::spec_baseline;
use crate::unit::spec_find_source;
use crate::unit::spec_recompute;
use crate::unit::spec_recompute_seq;
use crate::unit::spec_settled;
use crate::unit::unit_wf;
use crate::unit::with_total;

verus! {

/// A sequence holding at least one `Replace` modifier has a last `Replace`
/// value.
pub proof fn lemma_last_replace_some(mods: Seq<StatMod>)
    requires
        exists|i: int|
            0 <= i < mods.len() && (#[trigger] mods[i]).mod_type == ModType::Replace,
    ensures
        last_replace(mods) matches Some(_),
    decreases mods.len(),
{
    if mods.last().mod_type != ModType::Replace {
        let i = choose|i: int|
            0 <= i < mods.len() && (#[trigger] mods[i]).mod_type == ModType::Replace;
        assert(mods.drop_last()[i] == mods[i]);
        lemma_last_replace_some(mods.drop_last());
    }
}

/// Replace dominance: for any modifier set holding at least one `Replace`
/// entry, the aggregated total is the value of the last `Replace` entry in
/// iteration order, regardless of any `Add`, `Mult` or `BestOf` entries
/// present, of the base, and of the external baseline.
pub proof fn lemma_replace_dominance(base: int, mods: Seq<StatMod>, baseline: int)
    requires
        exists|i: int|
            0 <= i < mods.len() && (#[trigger] mods[i]).mod_type == ModType::Replace,
    ensures
        last_replace(mods) matches Some(r) && spec_aggregate(
            base,
            last_replace(mods),
            best_of(mods),
            add_sum(mods),
            mult_sum(mods),
            baseline,
        ) == r,
{
    lemma_last_replace_some(mods);
}

/// The best `BestOf` offer is one of the offers and bounds them all.
pub proof fn lemma_best_of_is_max(mods: Seq<StatMod>)
    ensures
        best_of(mods) matches Some(b) ==> exists|i: int|
            0 <= i < mods.len() && (#[trigger] mods[i]).mod_type == ModType::BestOf
                && mods[i].value == b,
        forall|i: int|
            0 <= i < mods.len() && (#[trigger] mods[i]).mod_type == ModType::BestOf ==> (
            best_of(mods) matches Some(b) && mods[i].value <= b),
    decreases mods.len(),
{
    if mods.len() > 0 {
        lemma_best_of_is_max(mods.drop_last());
        assert(forall|i: int|
            0 <= i < mods.len() - 1 ==> mods.drop_last()[i] == #[trigger] mods[i]);
        match best_of(mods.drop_last()) {
            Some(b0) => {
                let w = choose|i: int|
                    0 <= i < mods.drop_last().len() && (#[trigger] mods.drop_last()[i]).mod_type
                        == ModType::BestOf && mods.drop_last()[i].value == b0;
                assert(mods[w] == mods.drop_last()[w]);
            },
            None => {},
        }
    }
}

/// BestOf is a floor, not a cap: without a `Replace` offer, the aggregated
/// total never falls below any `BestOf` offer, never falls below the
/// computed additive/multiplicative value, and equals that computed value
/// whenever no offer exceeds it.
pub proof fn lemma_best_of_floor(base: int, mods: Seq<StatMod>, baseline: int)
    requires
        mods_bounded(mods),
        last_replace(mods) == None::<int>,
    ensures
        ({
            let t = spec_aggregate(
                base,
                last_replace(mods),
                best_of(mods),
                add_sum(mods),
                mult_sum(mods),
                baseline,
            );
            let computed = clamp_total(
                (base + add_sum(mods) + baseline) * ((SCALE as int) + mult_sum(mods)) / (
                SCALE as int),
            );
            &&& t >= computed
            &&& forall|i: int|
                0 <= i < mods.len() && (#[trigger] mods[i]).mod_type == ModType::BestOf
                    ==> t >= mods[i].value
            &&& (best_of(mods) matches Some(b) && b <= computed ==> t == computed)
            &&& (best_of(mods) == None::<int> ==> t == computed)
        }),
{
    lemma_best_of_is_max(mods);
    crate::modifier::lemma_offers_bounded(mods);
}

/// No-change suppression: recomputing a settled stat leaves the unit
/// untouched and revisits no dependent.
pub proof fn lemma_no_change_suppression(u: UnitView, id: StatEnum, fuel: nat)
    requires
        fuel >= 1,
        spec_settled(u, id),
    ensures
        spec_recompute(u, id, fuel) == (u, false),
{
}

/// Idempotence: recomputing a stat twice with no intervening modifier or
/// base change leaves the unit exactly as after the first call, reports no
/// change, and triggers no cascade.
///
/// The two hypotheses on the first call's result exclude dependency graphs
/// that feed back into the recomputed stat or its governing ability; the
/// intended graphs are acyclic and nothing in them feeds an ability, so
/// both hold there.
pub proof fn lemma_recompute_idempotent(u: UnitView, id: StatEnum, fuel: nat)
    requires
        unit_wf(u),
        fuel >= 1,
        ({
            let u1 = spec_recompute(u, id, fuel).0;
            &&& u1.stats[spec_stat_index(id)].total == spec_aggregate_total(u, id)
            &&& spec_baseline(u1, id) == spec_baseline(u, id)
        }),
    ensures
        ({
            let u1 = spec_recompute(u, id, fuel).0;
            spec_recompute(u1, id, fuel) == (u1, false)
        }),
{
    let u1 = spec_recompute(u, id, fuel).0;
    crate::unit::lemma_recompute_frame(u, id, fuel);
    assert(u1.sources == u.sources);
    assert(u1.stats[spec_stat_index(id)].base == u.stats[spec_stat_index(id)].base);
    assert(spec_aggregate_total(u1, id) == spec_aggregate_total(u, id));
    assert(spec_settled(u1, id));
    lemma_no_change_suppression(u1, id, fuel);
}

/// Whether some target in the list resolves to storage slot `k`.
pub open spec fn covers(targets: Seq<StatEnum>, k: int) -> bool {
    exists|j: int| 0 <= j < targets.len() && spec_stat_index(#[trigger] targets[j]) == k
}

/// Recomputing a stat with no declared dependents only rewrites that stat's
/// total with the aggregated value: there is nothing to cascade into.
pub proof fn lemma_recompute_leaf(v: UnitView, t: StatEnum, fuel: nat)
    requires
        fuel >= 1,
        v.stats.len() == crate::ids::NUM_STATS,
        v.stats[spec_stat_index(t)].deps.len() == 0,
    ensures
        spec_recompute(v, t, fuel).0 == with_total(v, t, spec_aggregate_total(v, t)),
{
    crate::ids::lemma_stat_index_in_bounds(t);
    let idx = spec_stat_index(t);
    let agg = spec_aggregate_total(v, t);
    if agg == v.stats[idx].total {
        assert(with_total(v, t, agg).stats =~= v.stats);
        assert(with_total(v, t, agg) =~= v);
    } else {
        let u1 = with_total(v, t, agg);
        assert(spec_recompute(v, t, fuel).0 == spec_recompute_seq(
            u1,
            v.stats[idx].deps,
            (fuel - 1) as nat,
        ));
    }
}

/// Folding the recompute protocol over a list of dependent-free targets,
/// none of which governs another's baseline, rewrites exactly the targeted
/// totals with values aggregated against the starting state, and touches
/// nothing else.
pub proof fn lemma_recompute_seq_leaves(v: UnitView, targets: Seq<StatEnum>, fuel: nat)
    requires
        fuel >= 1,
        v.stats.len() == crate::ids::NUM_STATS,
        forall|j: int|
            0 <= j < targets.len() ==> v.stats[spec_stat_index(
                #[trigger] targets[j],
            )].deps.len() == 0,
        forall|j: int|
            0 <= j < targets.len() ==> (spec_governing_ability(#[trigger] targets[j])
                matches Some(g) ==> !targets.contains(g)),
    ensures
        ({
            let r = spec_recompute_seq(v, targets, fuel);
            &&& r.sources == v.sources
            &&& r.profs == v.profs
            &&& r.stats.len() == v.stats.len()
            &&& forall|k: int|
                0 <= k < v.stats.len() ==> (#[trigger] r.stats[k]).base == v.stats[k].base
                    && r.stats[k].deps == v.stats[k].deps
            &&& forall|k: int|
                0 <= k < v.stats.len() && !covers(targets, k) ==> #[trigger] r.stats[k]
                    == v.stats[k]
            &&& forall|j: int|
                0 <= j < targets.len() ==> r.stats[spec_stat_index(#[trigger] targets[j])].total
                    == spec_aggregate_total(v, targets[j])
        }),
    decreases targets.len(),
{
    if targets.len() > 0 {
        let t0 = targets[0];
        let rest = targets.drop_first();
        crate::ids::lemma_stat_index_in_bounds(t0);
        let idx0 = spec_stat_index(t0);
        lemma_recompute_leaf(v, t0, fuel);
        let v1 = spec_recompute(v, t0, fuel).0;
        assert(v1 == with_total(v, t0, spec_aggregate_total(v, t0)));
        assert(spec_recompute_seq(v, targets, fuel) == spec_recompute_seq(v1, rest, fuel));

        assert(forall|j: int| 0 <= j < rest.len() ==> #[trigger] rest[j] == targets[j + 1]);
        assert(forall|k: int|
            0 <= k < v.stats.len() && k != idx0 ==> #[trigger] v1.stats[k] == v.stats[k]);
        assert(v1.stats[idx0].base == v.stats[idx0].base && v1.stats[idx0].deps
            == v.stats[idx0].deps);
        assert(forall|j: int|
            0 <= j < rest.len() ==> (spec_governing_ability(#[trigger] rest[j]) matches Some(g)
                ==> !rest.contains(g))) by {
            assert forall|j: int, g: StatEnum|
                0 <= j < rest.len() && spec_governing_ability(rest[j]) == Some(g)
                    && rest.contains(g) implies false by {
                let w = choose|w: int| 0 <= w < rest.len() && rest[w] == g;
                assert(targets[w + 1] == g);
                assert(targets.contains(g));
            }
        }
        lemma_recompute_seq_leaves(v1, rest, fuel);
        let r = spec_recompute_seq(v1, rest, fuel);

        // Aggregation against `v1` agrees with aggregation against `v` for
        // every target: the one rewritten slot is neither a target's base
        // nor any target's governing ability.
        assert forall|j: int| 0 <= j < targets.len() implies spec_aggregate_total(
            v1,
            #[trigger] targets[j],
        ) == spec_aggregate_total(v, targets[j]) by {
            let t = targets[j];
            crate::ids::lemma_stat_index_in_bounds(t);
            assert(v1.stats[spec_stat_index(t)].base == v.stats[spec_stat_index(t)].base);
            match spec_governing_ability(t) {
                Some(g) => {
                    assert(!targets.contains(g));
                    assert(g != t0) by {
                        if g == t0 {
                            assert(targets[0] == g);
                        }
                    }
                    crate::ids::lemma_stat_index_injective(g, t0);
                    crate::ids::lemma_stat_index_in_bounds(g);
                    assert(v1.stats[spec_stat_index(g)] == v.stats[spec_stat_index(g)]);
                    assert(spec_baseline(v1, t) == spec_baseline(v, t));
                },
                None => {
                    assert(spec_baseline(v1, t) == spec_baseline(v, t));
                },
            }
        }

        // Targets keep the totals the fold wrote for them.
        assert forall|j: int| 0 <= j < targets.len() implies r.stats[spec_stat_index(
            #[trigger] targets[j],
        )].total == spec_aggregate_total(v, targets[j]) by {
            let t = targets[j];
            crate::ids::lemma_stat_index_in_bounds(t);
            if j == 0 && !covers(rest, idx0) {
                assert(r.stats[idx0] == v1.stats[idx0]);
            } else if j == 0 {
                let w = choose|w: int|
                    0 <= w < rest.len() && spec_stat_index(#[trigger] rest[w]) == idx0;
                crate::ids::lemma_stat_index_injective(rest[w], t0);
                assert(rest[w] == t0);
                assert(r.stats[spec_stat_index(rest[w])].total == spec_aggregate_total(
                    v1,
                    rest[w],
                ));
            } else {
                assert(rest[j - 1] == t);
                assert(r.stats[spec_stat_index(rest[j - 1])].total == spec_aggregate_total(
                    v1,
                    rest[j - 1],
                ));
            }
        }

        // Slots no target resolves to are untouched.
        assert forall|k: int|
            0 <= k < v.stats.len() && !covers(targets, k) implies #[trigger] r.stats[k]
            == v.stats[k] by {
            assert(!covers(rest, k)) by {
                if covers(rest, k) {
                    let w = choose|w: int|
                        0 <= w < rest.len() && spec_stat_index(#[trigger] rest[w]) == k;
                    assert(spec_stat_index(targets[w + 1]) == k);
                }
            }
            assert(k != idx0);
            assert(r.stats[k] == v1.stats[k]);
        }
    }
}

/// Equip/unequip symmetry: attaching a source and immediately detaching it
/// restores every affected stat's total to its pre-equip value.
///
/// Hypotheses: the source's identity is fresh; every stat it targets is
/// settled, has no declared dependents, and no target governs another
/// target's baseline. The standard wiring gives skills, armor class, max
/// health and dark vision no dependents, so sources over those stats
/// qualify; cascades out of targeted abilities are not covered here.
pub proof fn lemma_equip_unequip_symmetry(u: UnitView, s: ModifierSource, fuel: nat)
    requires
        fuel >= 1,
        u.stats.len() == crate::ids::NUM_STATS,
        forall|i: int| 0 <= i < u.sources.len() ==> (#[trigger] u.sources[i]).id != s.id,
        forall|j: int|
            0 <= j < distinct_targets(s.mods.0@).len() ==> u.stats[spec_stat_index(
                #[trigger] distinct_targets(s.mods.0@)[j],
            )].deps.len() == 0,
        forall|j: int|
            0 <= j < distinct_targets(s.mods.0@).len() ==> (spec_governing_ability(
                #[trigger] distinct_targets(s.mods.0@)[j],
            ) matches Some(g) ==> !distinct_targets(s.mods.0@).contains(g)),
        forall|j: int|
            0 <= j < distinct_targets(s.mods.0@).len() ==> spec_settled(
                u,
                #[trigger] distinct_targets(s.mods.0@)[j],
            ),
    ensures
        ({
            let targets = distinct_targets(s.mods.0@);
            let equipped = spec_recompute_seq(
                (UnitView { sources: u.sources.push(s), ..u }),
                targets,
                fuel,
            );
            let detached = UnitView { sources: u.sources, ..equipped };
            // Detaching by the source's identity finds exactly the equipped
            // source, and removing it restores the original attachments.
            &&& spec_find_source(equipped.sources, s.id) == Some(u.sources.len() as int)
            &&& equipped.sources.remove(u.sources.len() as int) == u.sources
            &&& equipped.sources[u.sources.len() as int] == s
            &&& spec_recompute_seq(detached, targets, fuel) == u
        }),
{
    let targets = distinct_targets(s.mods.0@);
    let up = UnitView { sources: u.sources.push(s), ..u };
    crate::unit::lemma_find_source_first(u.sources.push(s), s.id, u.sources.len() as int);
    assert(u.sources.push(s).remove(u.sources.len() as int) =~= u.sources);
    lemma_recompute_seq_leaves(up, targets, fuel);
    let ue = spec_recompute_seq(up, targets, fuel);
    let back = UnitView { sources: u.sources, ..ue };
    assert(forall|j: int|
        0 <= j < targets.len() ==> back.stats[spec_stat_index(#[trigger] targets[j])].deps.len()
            == 0) by {
        assert forall|j: int| 0 <= j < targets.len() implies back.stats[spec_stat_index(
            #[trigger] targets[j],
        )].deps.len() == 0 by {
            crate::ids::lemma_stat_index_in_bounds(targets[j]);
        }
    }
    lemma_recompute_seq_leaves(back, targets, fuel);
    let uf = spec_recompute_seq(back, targets, fuel);

    // Aggregating any target against the detached state agrees with the
    // original state: the sources are restored, bases never moved, and no
    // target's governing ability was ever rewritten.
    assert forall|j: int| 0 <= j < targets.len() implies spec_aggregate_total(
        back,
        #[trigger] targets[j],
    ) == spec_aggregate_total(u, targets[j]) by {
        let t = targets[j];
        crate::ids::lemma_stat_index_in_bounds(t);
        assert(back.stats[spec_stat_index(t)].base == u.stats[spec_stat_index(t)].base);
        match spec_governing_ability(t) {
            Some(g) => {
                assert(!targets.contains(g));
                crate::ids::lemma_stat_index_in_bounds(g);
                assert(!covers(targets, spec_stat_index(g))) by {
                    if covers(targets, spec_stat_index(g)) {
                        let w = choose|w: int|
                            0 <= w < targets.len() && spec_stat_index(#[trigger] targets[w])
                                == spec_stat_index(g);
                        crate::ids::lemma_stat_index_injective(targets[w], g);
                        assert(targets.contains(g));
                    }
                }
                assert(back.stats[spec_stat_index(g)] == u.stats[spec_stat_index(g)]);
                assert(spec_baseline(back, t) == spec_baseline(u, t));
            },
            None => {
                assert(spec_baseline(back, t) == spec_baseline(u, t));
            },
        }
    }

    // Every slot of the final state matches the original.
    assert forall|k: int| 0 <= k < u.stats.len() implies uf.stats[k] == u.stats[k] by {
        if covers(targets, k) {
            let j = choose|j: int|
                0 <= j < targets.len() && spec_stat_index(#[trigger] targets[j]) == k;
            let t = targets[j];
            assert(uf.stats[k].total == spec_aggregate_total(back, t));
            assert(spec_aggregate_total(back, t) == spec_aggregate_total(u, t));
            assert(spec_settled(u, t));
            assert(uf.stats[k].base == u.stats[k].base && uf.stats[k].deps == u.stats[k].deps);
            assert(uf.stats[k] =~= u.stats[k]);
        } else {
            assert(uf.stats[k] == back.stats[k]);
            assert(back.stats[k] == ue.stats[k]);
            assert(ue.stats[k] == up.stats[k]);
        }
    }
    assert(uf.stats =~= u.stats);
    assert(uf =~= u);
}

/// Idempotence holds outright for a stat with no declared dependents: with
/// nothing to cascade into, nothing can feed back into its inputs.
pub proof fn lemma_recompute_idempotent_leaf(u: UnitView, id: StatEnum, fuel: nat)
    requires
        unit_wf(u),
        fuel >= 1,
        u.stats[spec_stat_index(id)].deps.len() == 0,
    ensures
        ({
            let u1 = spec_recompute(u, id, fuel).0;
            spec_recompute(u1, id, fuel) == (u1, false)
        }),
{
    crate::ids::lemma_stat_index_in_bounds(id);
    lemma_recompute_leaf(u, id, fuel);
    let u1 = spec_recompute(u, id, fuel).0;
    assert(u1.stats[spec_stat_index(id)].total == spec_aggregate_total(u, id));
    assert(spec_baseline(u1, id) == spec_baseline(u, id)) by {
        match spec_governing_ability(id) {
            Some(g) => {
                assert(g != id);
                crate::ids::lemma_stat_index_injective(g, id);
                crate::ids::lemma_stat_index_in_bounds(g);
            },
            None => {},
        }
    }
    lemma_recompute_idempotent(u, id, fuel);
}

/// Idempotence also holds outright for a stat shaped like an ability in
/// the standard wiring: no governing ability of its own, dependents that
/// are themselves dependent-free, and no dependent drawing its baseline
/// from another dependent. The cascade then never feeds back into the
/// recomputed stat's inputs.
pub proof fn lemma_recompute_idempotent_hub(u: UnitView, a: StatEnum, fuel: nat)
    requires
        unit_wf(u),
        fuel >= 2,
        spec_governing_ability(a) == None::<StatEnum>,
        forall|j: int|
            0 <= j < u.stats[spec_stat_index(a)].deps.len() ==> u.stats[spec_stat_index(
                #[trigger] u.stats[spec_stat_index(a)].deps[j],
            )].deps.len() == 0,
        forall|j: int|
            0 <= j < u.stats[spec_stat_index(a)].deps.len() ==> (spec_governing_ability(
                #[trigger] u.stats[spec_stat_index(a)].deps[j],
            ) matches Some(g) ==> g == a || !u.stats[spec_stat_index(a)].deps.contains(g)),
    ensures
        ({
            let u1 = spec_recompute(u, a, fuel).0;
            spec_recompute(u1, a, fuel) == (u1, false)
        }),
{
    crate::ids::lemma_stat_index_in_bounds(a);
    let idx = spec_stat_index(a);
    let deps = u.stats[idx].deps;
    let ta = spec_aggregate_total(u, a);
    if ta != u.stats[idx].total {
        let w = with_total(u, a, ta);
        assert(spec_recompute(u, a, fuel).0 == spec_recompute_seq(w, deps, (fuel - 1) as nat));
        assert(deps.len() > 0 ==> !deps.contains(a)) by {
            if deps.contains(a) {
                let j = choose|j: int| 0 <= j < deps.len() && deps[j] == a;
                assert(u.stats[spec_stat_index(deps[j])].deps.len() == 0);
            }
        }
        assert(forall|j: int|
            0 <= j < deps.len() ==> w.stats[spec_stat_index(#[trigger] deps[j])].deps.len()
                == 0) by {
            assert forall|j: int|
                0 <= j < deps.len() implies w.stats[spec_stat_index(#[trigger] deps[j])].deps.len()
                == 0 by {
                crate::ids::lemma_stat_index_in_bounds(deps[j]);
            }
        }
        assert(forall|j: int|
            0 <= j < deps.len() ==> (spec_governing_ability(#[trigger] deps[j]) matches Some(g)
                ==> !deps.contains(g))) by {
            assert forall|j: int, g: StatEnum|
                0 <= j < deps.len() && spec_governing_ability(deps[j]) == Some(g)
                    && deps.contains(g) implies false by {
                if g == a {
                    assert(deps.contains(a));
                }
            }
        }
        lemma_recompute_seq_leaves(w, deps, (fuel - 1) as nat);
        assert(!covers(deps, idx)) by {
            if covers(deps, idx) {
                let j = choose|j: int|
                    0 <= j < deps.len() && spec_stat_index(#[trigger] deps[j]) == idx;
                crate::ids::lemma_stat_index_injective(deps[j], a);
                assert(deps.contains(a));
            }
        }
        assert(spec_recompute(u, a, fuel).0.stats[idx] == w.stats[idx]);
    }
    lemma_recompute_idempotent(u, a, fuel);
}

/// Cascade propagation: when recomputing a stat changes its total, that one
/// call also recomputes every declared dependent against the updated state,
/// in list order, without the caller issuing separate calls for each.
///
/// Stated for a stat whose dependents are themselves dependent-free and do
/// not govern one another, as in the standard wiring of an ability feeding
/// its skills and armor class.
pub proof fn lemma_cascade_propagation(u: UnitView, id: StatEnum, fuel: nat)
    requires
        fuel >= 2,
        u.stats.len() == crate::ids::NUM_STATS,
        forall|j: int|
            0 <= j < u.stats[spec_stat_index(id)].deps.len() ==> u.stats[spec_stat_index(
                #[trigger] u.stats[spec_stat_index(id)].deps[j],
            )].deps.len() == 0,
        forall|j: int|
            0 <= j < u.stats[spec_stat_index(id)].deps.len() ==> (spec_governing_ability(
                #[trigger] u.stats[spec_stat_index(id)].deps[j],
            ) matches Some(g) ==> !u.stats[spec_stat_index(id)].deps.contains(g)),
        spec_aggregate_total(u, id) != u.stats[spec_stat_index(id)].total,
    ensures
        ({
            let u1 = with_total(u, id, spec_aggregate_total(u, id));
            let r = spec_recompute(u, id, fuel);
            &&& r.1
            &&& r.0.stats[spec_stat_index(id)].total == spec_aggregate_total(u, id)
                || covers(u.stats[spec_stat_index(id)].deps, spec_stat_index(id))
            &&& forall|j: int|
                0 <= j < u.stats[spec_stat_index(id)].deps.len() ==> r.0.stats[spec_stat_index(
                    #[trigger] u.stats[spec_stat_index(id)].deps[j],
                )].total == spec_aggregate_total(u1, u.stats[spec_stat_index(id)].deps[j])
        }),
{
    crate::ids::lemma_stat_index_in_bounds(id);
    let idx = spec_stat_index(id);
    let deps = u.stats[idx].deps;
    let u1 = with_total(u, id, spec_aggregate_total(u, id));
    assert(spec_recompute(u, id, fuel).0 == spec_recompute_seq(u1, deps, (fuel - 1) as nat));
    assert(forall|j: int|
        0 <= j < deps.len() ==> u1.stats[spec_stat_index(#[trigger] deps[j])].deps.len() == 0) by {
        assert forall|j: int|
            0 <= j < deps.len() implies u1.stats[spec_stat_index(#[trigger] deps[j])].deps.len()
            == 0 by {
            crate::ids::lemma_stat_index_in_bounds(deps[j]);
        }
    }
    lemma_recompute_seq_leaves(u1, deps, (fuel - 1) as nat);
    if !covers(deps, idx) {
        assert(spec_recompute(u, id, fuel).0.stats[idx] == u1.stats[idx]);
    }
}

/// A one-target list folds to a single recompute.
pub proof fn lemma_recompute_seq_singleton(v: UnitView, t: StatEnum, fuel: nat)
    ensures
        spec_recompute_seq(v, seq![t], fuel) == spec_recompute(v, t, fuel).0,
{
    let s = seq![t];
    assert(s[0] == t);
    assert(s.drop_first() =~= Seq::<StatEnum>::empty());
    assert(spec_recompute_seq(v, s, fuel) == spec_recompute_seq(
        spec_recompute(v, t, fuel).0,
        s.drop_first(),
        fuel,
    ));
}

/// Equip/unequip symmetry through a cascade: attaching a source that
/// targets one stat with dependents — an ability feeding its skills — and
/// immediately detaching it restores the target and every dependent to
/// their pre-equip totals.
///
/// Hypotheses: the source's identity is fresh and it targets exactly `a`;
/// `a` has no governing ability of its own; `a`'s dependents have no
/// dependents in turn; each dependent's baseline comes from `a` itself or
/// from a stat outside the affected set; and `a` and its dependents are
/// settled before the equip. The standard wiring satisfies all of that for
/// every ability.
pub proof fn lemma_equip_unequip_symmetry_cascade(
    u: UnitView,
    s: ModifierSource,
    a: StatEnum,
    fuel: nat,
)
    requires
        fuel >= 2,
        u.stats.len() == crate::ids::NUM_STATS,
        forall|i: int| 0 <= i < u.sources.len() ==> (#[trigger] u.sources[i]).id != s.id,
        distinct_targets(s.mods.0@) == seq![a],
        spec_governing_ability(a) == None::<StatEnum>,
        forall|j: int|
            0 <= j < u.stats[spec_stat_index(a)].deps.len() ==> u.stats[spec_stat_index(
                #[trigger] u.stats[spec_stat_index(a)].deps[j],
            )].deps.len() == 0,
        forall|j: int|
            0 <= j < u.stats[spec_stat_index(a)].deps.len() ==> (spec_governing_ability(
                #[trigger] u.stats[spec_stat_index(a)].deps[j],
            ) matches Some(g) ==> g == a || !u.stats[spec_stat_index(a)].deps.contains(g)),
        spec_settled(u, a),
        forall|j: int|
            0 <= j < u.stats[spec_stat_index(a)].deps.len() ==> spec_settled(
                u,
                #[trigger] u.stats[spec_stat_index(a)].deps[j],
            ),
    ensures
        ({
            let targets = distinct_targets(s.mods.0@);
            let equipped = spec_recompute_seq(
                (UnitView { sources: u.sources.push(s), ..u }),
                targets,
                fuel,
            );
            let detached = UnitView { sources: u.sources, ..equipped };
            spec_recompute_seq(detached, targets, fuel) == u
        }),
{
    let targets = distinct_targets(s.mods.0@);
    let up = UnitView { sources: u.sources.push(s), ..u };
    let idxa = spec_stat_index(a);
    crate::ids::lemma_stat_index_in_bounds(a);
    let deps = u.stats[idxa].deps;

    // `a` does not appear among its own dependents: each dependent has no
    // dependents, while this branch of the proof only matters when `a` has.
    assert(deps.len() > 0 ==> !deps.contains(a)) by {
        if deps.contains(a) {
            let w = choose|w: int| 0 <= w < deps.len() && deps[w] == a;
            assert(u.stats[spec_stat_index(deps[w])].deps.len() == 0);
        }
    }

    lemma_recompute_seq_singleton(up, a, fuel);
    let ta = spec_aggregate_total(up, a);
    let ue = spec_recompute_seq(up, targets, fuel);

    if ta == up.stats[idxa].total {
        // The source contributed nothing new: the equip was a no-op, and so
        // is the unequip, because `a` was settled to begin with.
        assert(ue == up);
        let back = UnitView { sources: u.sources, ..ue };
        assert(back =~= u);
        lemma_recompute_seq_singleton(back, a, fuel);
        assert(spec_aggregate_total(u, a) == u.stats[idxa].total);
        assert(spec_recompute(back, a, fuel).0 == u);
    } else {
        // The equip rewrote `a` and cascaded into its dependents.
        let u1 = with_total(up, a, ta);
        assert(spec_recompute(up, a, fuel).0 == spec_recompute_seq(
            u1,
            deps,
            (fuel - 1) as nat,
        ));
        assert(forall|j: int|
            0 <= j < deps.len() ==> u1.stats[spec_stat_index(#[trigger] deps[j])].deps.len()
                == 0) by {
            assert forall|j: int|
                0 <= j < deps.len() implies u1.stats[spec_stat_index(
                #[trigger] deps[j],
            )].deps.len() == 0 by {
                crate::ids::lemma_stat_index_in_bounds(deps[j]);
            }
        }
        assert(forall|j: int|
            0 <= j < deps.len() ==> (spec_governing_ability(#[trigger] deps[j]) matches Some(g)
                ==> !deps.contains(g))) by {
            assert forall|j: int, g: StatEnum|
                0 <= j < deps.len() && spec_governing_ability(deps[j]) == Some(g)
                    && deps.contains(g) implies false by {
                if g == a {
                    assert(deps.contains(a));
                }
            }
        }
        lemma_recompute_seq_leaves(u1, deps, (fuel - 1) as nat);
        assert(ue == spec_recompute_seq(u1, deps, (fuel - 1) as nat));

        // Detach and recompute once more.
        let back = UnitView { sources: u.sources, ..ue };
        lemma_recompute_seq_singleton(back, a, fuel);
        // Aggregating `a` against the detached state matches the original:
        // sources restored, base untouched, and no baseline to shift.
        assert(back.stats[idxa].base == u.stats[idxa].base);
        assert(spec_aggregate_total(back, a) == spec_aggregate_total(u, a));
        // `a` still carries the equipped value, which differs from its
        // settled original, so the recompute fires and cascades.
        assert(!covers(deps, idxa)) by {
            if covers(deps, idxa) {
                let w = choose|w: int|
                    0 <= w < deps.len() && spec_stat_index(#[trigger] deps[w]) == idxa;
                crate::ids::lemma_stat_index_injective(deps[w], a);
                assert(deps.contains(a));
            }
        }
        assert(back.stats[idxa].total == ta);
        assert(spec_settled(u, a) && ta != up.stats[idxa].total);
        assert(spec_aggregate_total(back, a) != back.stats[idxa].total);
        let back1 = with_total(back, a, spec_aggregate_total(back, a));
        assert(back.stats[idxa].deps == deps);
        assert(spec_recompute(back, a, fuel).0 == spec_recompute_seq(
            back1,
            deps,
            (fuel - 1) as nat,
        ));
        assert(forall|j: int|
            0 <= j < deps.len() ==> back1.stats[spec_stat_index(#[trigger] deps[j])].deps.len()
                == 0) by {
            assert forall|j: int|
                0 <= j < deps.len() implies back1.stats[spec_stat_index(
                #[trigger] deps[j],
            )].deps.len() == 0 by {
                crate::ids::lemma_stat_index_in_bounds(deps[j]);
            }
        }
        lemma_recompute_seq_leaves(back1, deps, (fuel - 1) as nat);
        let uf = spec_recompute_seq(back1, deps, (fuel - 1) as nat);

        // Every dependent's aggregation against the restored state matches
        // the original: its baseline comes from the restored `a` or from a
        // stat the whole exchange never touched.
        assert forall|j: int| 0 <= j < deps.len() implies spec_aggregate_total(
            back1,
            #[trigger] deps[j],
        ) == spec_aggregate_total(u, deps[j]) by {
            let d = deps[j];
            crate::ids::lemma_stat_index_in_bounds(d);
            assert(back1.stats[spec_stat_index(d)].base == u.stats[spec_stat_index(d)].base);
            match spec_governing_ability(d) {
                Some(g) => {
                    crate::ids::lemma_stat_index_in_bounds(g);
                    if g == a {
                        assert(back1.stats[idxa].total == spec_aggregate_total(u, a));
                        assert(back1.stats[idxa].total == u.stats[idxa].total);
                    } else {
                        assert(!deps.contains(g));
                        assert(!covers(deps, spec_stat_index(g))) by {
                            if covers(deps, spec_stat_index(g)) {
                                let w = choose|w: int|
                                    0 <= w < deps.len() && spec_stat_index(#[trigger] deps[w])
                                        == spec_stat_index(g);
                                crate::ids::lemma_stat_index_injective(deps[w], g);
                                assert(deps.contains(g));
                            }
                        }
                        crate::ids::lemma_stat_index_injective(g, a);
                        assert(back1.stats[spec_stat_index(g)] == u.stats[spec_stat_index(g)]);
                    }
                    assert(spec_baseline(back1, d) == spec_baseline(u, d));
                },
                None => {
                    assert(spec_baseline(back1, d) == spec_baseline(u, d));
                },
            }
        }

        // Slot by slot, the final state is the original.
        assert forall|k: int| 0 <= k < u.stats.len() implies uf.stats[k] == u.stats[k] by {
            if covers(deps, k) {
                let j = choose|j: int|
                    0 <= j < deps.len() && spec_stat_index(#[trigger] deps[j]) == k;
                let d = deps[j];
                assert(uf.stats[k].total == spec_aggregate_total(back1, d));
                assert(spec_settled(u, d));
                assert(uf.stats[k].base == u.stats[k].base && uf.stats[k].deps
                    == u.stats[k].deps);
                assert(uf.stats[k] =~= u.stats[k]);
            } else if k == idxa {
                assert(uf.stats[k] == back1.stats[k]);
                assert(back1.stats[k].total == u.stats[k].total);
                assert(back1.stats[k].base == u.stats[k].base && back1.stats[k].deps
                    == u.stats[k].deps);
                assert(uf.stats[k] =~= u.stats[k]);
            } else {
                assert(uf.stats[k] == back1.stats[k]);
                assert(back1.stats[k] == back.stats[k]);
                assert(back.stats[k] == ue.stats[k]);
                assert(ue.stats[k] == u1.stats[k]);
                assert(u1.stats[k] == up.stats[k]);
            }
        }
        assert(uf.stats =~= u.stats);
        assert(uf =~= u);
    }
}

} // verus!
