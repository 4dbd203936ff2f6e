//! The unit: one stat per identifier, the attached modifier sources, and
//! the recompute protocol.
//!
//! `Recompute(unit, statId)` resolves the stat's storage and external
//! baseline, gathers every modifier targeting it from the attached sources,
//! runs the aggregator, and — only when the total changed — recursively
//! recomputes every declared dependent, in list order. The whole protocol
//! is mirrored by the spec-level function [`spec_recompute`], which every
//! mutating operation's contract is stated against.
//!
//! The cascade carries a depth budget ([`CASCADE_FUEL`], deeper than any
//! acyclic graph over the fixed stat set can chain) as a safeguard: the
//! dependency graph is acyclic by construction, and on a malformed cyclic
//! graph the cascade stops instead of looping forever.

use vstd::prelude::*;

use crate::character::Proficiency;
use crate::ids::NUM_STATS;
use crate::ids::StatEnum;
use crate::ids::governing_ability;
use crate::ids::lemma_stat_index_injective;
use crate::ids::spec_governing_ability;
use crate::ids::stat_of_index;
use crate::ids::spec_stat_index;
use crate::ids::spec_standard_deps;
use crate::ids::standard_deps;
use crate::ids::stat_index;
use crate::modifier::ModifierSource;
use crate::modifier::StatMod;
use crate::modifier::add_sum;
use crate::modifier::attached_mods;
use crate::modifier::best_of;
use crate::modifier::collect_mods;
use crate::modifier::distinct_targets;
use crate::modifier::distinct_targets_of;
use crate::modifier::last_replace;
use crate::modifier::lemma_attached_bounded;
use crate::modifier::lemma_attached_mods_push;
use crate::modifier::lemma_attached_mods_remove;
use crate::modifier::lemma_mods_for_bounded;
use crate::modifier::lemma_offers_bounded;
use crate::modifier::mods_for;
use crate::modifier::mult_sum;
use crate::modifier::summarize;
use crate::stat::MOD_COUNT_LIMIT;
use crate::stat::SCALE;
use crate::stat::Stat;
use crate::stat::StatView;
use crate::stat::TOTAL_LIMIT;
use crate::stat::VALUE_LIMIT;
use crate::stat::ability_modifier_of;
use crate::stat::aggregate_value;
use crate::stat::spec_ability_modifier;
use crate::stat::spec_aggregate;

verus! {

/// Depth budget of one cascade: deeper than any acyclic dependency chain
/// over the fixed stat set can reach.
pub const CASCADE_FUEL: u64 = 32;

/// The mathematical shadow of a [`Unit`].
#[verifier::ext_equal]
pub ghost struct UnitView {
    /// One stat per identifier, indexed by [`spec_stat_index`].
    pub stats: Seq<StatView>,
    /// The attached modifier sources, in attachment order.
    pub sources: Seq<ModifierSource>,
    /// One proficiency mark per identifier.
    pub profs: Seq<Proficiency>,
}

/// A unit's structural invariant: a complete, fixed stat set with authored
/// bases and representable totals; well-formed attached sources with unique
/// identities; and an attached modifier count within the machine cap.
pub open spec fn unit_wf(u: UnitView) -> bool {
    &&& u.stats.len() == NUM_STATS
    &&& u.profs.len() == NUM_STATS
    &&& forall|i: int| 0 <= i < u.stats.len() ==> (#[trigger] u.stats[i]).wf()
    &&& forall|i: int| 0 <= i < u.sources.len() ==> (#[trigger] u.sources[i]).wf()
    &&& attached_mods(u.sources).len() <= MOD_COUNT_LIMIT
    &&& forall|i: int, j: int|
        0 <= i < j < u.sources.len() ==> u.sources[i].id != u.sources[j].id
}

/// The external baseline of a stat: the derived modifier of its governing
/// ability, scaled back into fixed-point units, or zero when the stat has
/// no governing ability.
pub open spec fn spec_baseline(u: UnitView, id: StatEnum) -> int {
    match spec_governing_ability(id) {
        Some(g) => spec_ability_modifier(u.stats[spec_stat_index(g)].total) * (SCALE as int),
        None => 0,
    }
}

/// The modifiers currently targeting `id`, gathered over every attached
/// source in attachment order then list order.
pub open spec fn spec_target_mods(u: UnitView, id: StatEnum) -> Seq<StatMod> {
    mods_for(attached_mods(u.sources), id)
}

/// The total the aggregator yields for `id` in state `u`.
pub open spec fn spec_aggregate_total(u: UnitView, id: StatEnum) -> int {
    let ms = spec_target_mods(u, id);
    spec_aggregate(
        u.stats[spec_stat_index(id)].base,
        last_replace(ms),
        best_of(ms),
        add_sum(ms),
        mult_sum(ms),
        spec_baseline(u, id),
    )
}

/// A stat is settled when its stored total already equals what aggregation
/// would yield; recomputing a settled stat changes nothing and cascades
/// nowhere.
pub open spec fn spec_settled(u: UnitView, id: StatEnum) -> bool {
    u.stats[spec_stat_index(id)].total == spec_aggregate_total(u, id)
}

/// The state `u` with `id`'s total overwritten by `t`.
pub open spec fn with_total(u: UnitView, id: StatEnum, t: int) -> UnitView {
    UnitView {
        stats: u.stats.update(
            spec_stat_index(id),
            StatView { total: t, ..u.stats[spec_stat_index(id)] },
        ),
        ..u
    }
}

/// The recompute protocol: aggregate `id`; if the total changed, write it
/// and recompute every declared dependent in list order. Returns the new
/// state and whether `id`'s total changed. `fuel` bounds the cascade depth;
/// it never runs out on an acyclic graph over the fixed stat set.
pub open spec fn spec_recompute(u: UnitView, id: StatEnum, fuel: nat) -> (UnitView, bool)
    decreases fuel, 0nat,
{
    if fuel == 0 {
        (u, false)
    } else {
        let t = spec_aggregate_total(u, id);
        if t == u.stats[spec_stat_index(id)].total {
            (u, false)
        } else {
            let u1 = with_total(u, id, t);
            (
                spec_recompute_seq(u1, u.stats[spec_stat_index(id)].deps, (fuel - 1) as nat),
                true,
            )
        }
    }
}

/// Recomputes each stat in `deps`, in order, threading the state through.
pub open spec fn spec_recompute_seq(u: UnitView, deps: Seq<StatEnum>, fuel: nat) -> UnitView
    decreases fuel, deps.len() + 1,
{
    if deps.len() == 0 {
        u
    } else {
        spec_recompute_seq(spec_recompute(u, deps[0], fuel).0, deps.drop_first(), fuel)
    }
}

/// In a well-formed state the aggregator's result is representable: a
/// `Replace` offer is an authored value, and anything else is clamped.
pub proof fn lemma_aggregate_total_in_range(u: UnitView, id: StatEnum)
    requires
        unit_wf(u),
    ensures
        -TOTAL_LIMIT <= spec_aggregate_total(u, id) <= TOTAL_LIMIT,
{
    lemma_attached_bounded(u.sources);
    lemma_mods_for_bounded(attached_mods(u.sources), id);
    lemma_offers_bounded(spec_target_mods(u, id));
}

/// Recomputation rewrites totals only: it preserves well-formedness and
/// leaves the sources, proficiencies, bases and dependency lists untouched.
pub proof fn lemma_recompute_frame(u: UnitView, id: StatEnum, fuel: nat)
    requires
        unit_wf(u),
    ensures
        unit_wf(spec_recompute(u, id, fuel).0),
        spec_recompute(u, id, fuel).0.sources == u.sources,
        spec_recompute(u, id, fuel).0.profs == u.profs,
        spec_recompute(u, id, fuel).0.stats.len() == u.stats.len(),
        forall|k: int|
            0 <= k < u.stats.len() ==> (#[trigger] spec_recompute(u, id, fuel).0.stats[k]).base
                == u.stats[k].base && spec_recompute(u, id, fuel).0.stats[k].deps
                == u.stats[k].deps,
    decreases fuel, 0nat,
{
    if fuel > 0 {
        let t = spec_aggregate_total(u, id);
        if t != u.stats[spec_stat_index(id)].total {
            let u1 = with_total(u, id, t);
            lemma_aggregate_total_in_range(u, id);
            assert(unit_wf(u1));
            lemma_recompute_seq_frame(u1, u.stats[spec_stat_index(id)].deps, (fuel - 1) as nat);
        }
    }
}

/// The sequence form of [`lemma_recompute_frame`].
pub proof fn lemma_recompute_seq_frame(u: UnitView, deps: Seq<StatEnum>, fuel: nat)
    requires
        unit_wf(u),
    ensures
        unit_wf(spec_recompute_seq(u, deps, fuel)),
        spec_recompute_seq(u, deps, fuel).sources == u.sources,
        spec_recompute_seq(u, deps, fuel).profs == u.profs,
        spec_recompute_seq(u, deps, fuel).stats.len() == u.stats.len(),
        forall|k: int|
            0 <= k < u.stats.len() ==> (#[trigger] spec_recompute_seq(u, deps, fuel).stats[k]).base
                == u.stats[k].base && spec_recompute_seq(u, deps, fuel).stats[k].deps
                == u.stats[k].deps,
    decreases fuel, deps.len() + 1,
{
    if deps.len() > 0 {
        lemma_recompute_frame(u, deps[0], fuel);
        lemma_recompute_seq_frame(spec_recompute(u, deps[0], fuel).0, deps.drop_first(), fuel);
    }
}

/// Recomputing the dependents one more at a time agrees with recomputing
/// them all at once: the basis of the cascade loop's invariant.
pub proof fn lemma_recompute_seq_snoc(u: UnitView, deps: Seq<StatEnum>, d: StatEnum, fuel: nat)
    ensures
        spec_recompute_seq(u, deps.push(d), fuel) == spec_recompute(
            spec_recompute_seq(u, deps, fuel),
            d,
            fuel,
        ).0,
    decreases deps.len(),
{
    let s = deps.push(d);
    if deps.len() == 0 {
        assert(s[0] == d);
        assert(s.drop_first() =~= Seq::<StatEnum>::empty());
        assert(spec_recompute_seq(u, s, fuel) == spec_recompute_seq(
            spec_recompute(u, d, fuel).0,
            s.drop_first(),
            fuel,
        ));
        assert(spec_recompute_seq(spec_recompute(u, d, fuel).0, s.drop_first(), fuel)
            == spec_recompute(u, d, fuel).0);
        assert(spec_recompute_seq(u, deps, fuel) == u);
    } else {
        assert(s[0] == deps[0]);
        assert(s.drop_first() =~= deps.drop_first().push(d));
        let u1 = spec_recompute(u, deps[0], fuel).0;
        lemma_recompute_seq_snoc(u1, deps.drop_first(), d, fuel);
        assert(spec_recompute_seq(u, s, fuel) == spec_recompute_seq(u1, s.drop_first(), fuel));
        assert(spec_recompute_seq(u, deps, fuel) == spec_recompute_seq(
            u1,
            deps.drop_first(),
            fuel,
        ));
    }
}

/// The position of the first attached source with the given identity.
pub open spec fn spec_find_source(sources: Seq<ModifierSource>, id: u64) -> Option<int>
    decreases sources.len(),
{
    if sources.len() == 0 {
        None
    } else if sources[0].id == id {
        Some(0)
    } else {
        match spec_find_source(sources.drop_first(), id) {
            Some(j) => Some(j + 1),
            None => None,
        }
    }
}

/// A match found by scanning from the front is the first match.
pub proof fn lemma_find_source_first(sources: Seq<ModifierSource>, id: u64, i: int)
    requires
        0 <= i < sources.len(),
        sources[i].id == id,
        forall|k: int| 0 <= k < i ==> sources[k].id != id,
    ensures
        spec_find_source(sources, id) == Some(i),
    decreases i,
{
    if i > 0 {
        let rest = sources.drop_first();
        assert(forall|k: int| 0 <= k < rest.len() ==> #[trigger] rest[k] == sources[k + 1]);
        lemma_find_source_first(rest, id, i - 1);
    }
}

/// A scan that matched nothing means there is no source with that identity.
pub proof fn lemma_find_source_none(sources: Seq<ModifierSource>, id: u64)
    requires
        forall|k: int| 0 <= k < sources.len() ==> sources[k].id != id,
    ensures
        spec_find_source(sources, id) == None::<int>,
    decreases sources.len(),
{
    if sources.len() > 0 {
        let rest = sources.drop_first();
        assert(forall|k: int| 0 <= k < rest.len() ==> rest[k] == #[trigger] sources[k + 1]);
        lemma_find_source_none(rest, id);
    }
}

/// Finds the first attached source carrying the given identity.
fn find_source_index(sources: &Vec<ModifierSource>, id: u64) -> (r: Option<usize>)
    ensures
        match r {
            None => spec_find_source(sources@, id) == None::<int>,
            Some(i) => spec_find_source(sources@, id) == Some(i as int) && i < sources@.len()
                && sources@[i as int].id == id,
        },
{
    let mut i: usize = 0;
    while i < sources.len()
        invariant
            i <= sources.len(),
            forall|k: int| 0 <= k < i ==> sources@[k].id != id,
        decreases sources.len() - i,
    {
        if sources[i].id == id {
            proof {
                lemma_find_source_first(sources@, id, i as int);
            }
            return Some(i);
        }
        i += 1;
    }
    proof {
        lemma_find_source_none(sources@, id);
    }
    None
}

/// An entity carrying one stat per tracked attribute, a proficiency mark
/// per attribute, and zero or more attached modifier sources. The stat set
/// is fixed at creation; only totals, bases, proficiencies and the attached
/// source set mutate afterward.
#[derive(Clone, Debug, PartialEq)]
pub struct Unit {
    stats: Vec<Stat>,
    sources: Vec<ModifierSource>,
    profs: Vec<Proficiency>,
}

impl View for Unit {
    type V = UnitView;

    closed spec fn view(&self) -> UnitView {
        UnitView {
            stats: self.stats@.map_values(|s: Stat| s@),
            sources: self.sources@,
            profs: self.profs@,
        }
    }
}

/// Copies a dependency list so the cascade can walk it while the unit
/// mutates.
fn copy_ids(v: &Vec<StatEnum>) -> (out: Vec<StatEnum>)
    ensures
        out@ == v@,
{
    let mut out: Vec<StatEnum> = Vec::new();
    let mut i: usize = 0;
    while i < v.len()
        invariant
            i <= v.len(),
            out@ == v@.take(i as int),
        decreases v.len() - i,
    {
        out.push(v[i]);
        proof {
            assert(v@.take(i as int).push(v@[i as int]) =~= v@.take(i + 1 as int));
        }
        i += 1;
    }
    proof {
        assert(v@.take(v@.len() as int) =~= v@);
    }
    out
}

impl Unit {
    /// Creates a unit with every stat at base and total zero, the standard
    /// dependency wiring, no attached sources, and untrained proficiencies.
    /// Character creation then seeds each stat with [`Unit::seed_base`].
    pub fn new() -> (u: Unit)
        ensures
            unit_wf(u@),
            u@.sources.len() == 0,
            forall|id: StatEnum| #![auto]
                u@.stats[spec_stat_index(id)] == (StatView {
                    base: 0,
                    total: 0,
                    deps: spec_standard_deps(id),
                }),
            forall|i: int| 0 <= i < NUM_STATS ==> u@.profs[i] == Proficiency::Untrained,
    {
        let mut stats: Vec<Stat> = Vec::new();
        let mut profs: Vec<Proficiency> = Vec::new();
        let mut i: usize = 0;
        while i < NUM_STATS
            invariant
                i <= NUM_STATS,
                stats@.len() == i,
                profs@.len() == i,
                forall|k: int|
                    0 <= k < i ==> #[trigger] stats@[k]@.base == 0 && stats@[k]@.total == 0,
                forall|id: StatEnum| #![auto]
                    spec_stat_index(id) < i ==> stats@[spec_stat_index(id)]@ == (StatView {
                        base: 0,
                        total: 0,
                        deps: spec_standard_deps(id),
                    }),
                forall|k: int| 0 <= k < i ==> #[trigger] profs@[k] == Proficiency::Untrained,
            decreases NUM_STATS - i,
        {
            let id = stat_of_index(i);
            stats.push(Stat::new(0, standard_deps(id)));
            profs.push(Proficiency::Untrained);
            proof {
                assert forall|other: StatEnum| #![auto] spec_stat_index(other) < i + 1 implies
                    stats@[spec_stat_index(other)]@ == (StatView {
                        base: 0,
                        total: 0,
                        deps: spec_standard_deps(other),
                    }) by {
                    if spec_stat_index(other) == i as int {
                        lemma_stat_index_injective(other, id);
                    }
                }
            }
            i += 1;
        }
        let u = Unit { stats, sources: Vec::new(), profs };
        proof {
            assert(unit_wf(u@)) by {
                assert forall|k: int| 0 <= k < u@.stats.len() implies (
                #[trigger] u@.stats[k]).wf() by {
                    assert(u@.stats[k] == stats@[k]@);
                }
            }
        }
        u
    }

    /// The stored total of a stat.
    pub fn total(&self, id: StatEnum) -> (t: i64)
        requires
            unit_wf(self@),
        ensures
            t == self@.stats[spec_stat_index(id)].total,
    {
        self.stats[stat_index(id)].total
    }

    /// The authored base of a stat.
    pub fn base(&self, id: StatEnum) -> (b: i64)
        requires
            unit_wf(self@),
        ensures
            b == self@.stats[spec_stat_index(id)].base,
    {
        self.stats[stat_index(id)].base
    }

    /// The proficiency mark of a stat.
    pub fn proficiency(&self, id: StatEnum) -> (p: Proficiency)
        requires
            unit_wf(self@),
        ensures
            p == self@.profs[spec_stat_index(id)],
    {
        self.profs[stat_index(id)]
    }

    /// The derived modifier of a stat's current total, in whole points.
    pub fn ability_modifier(&self, id: StatEnum) -> (m: i64)
        requires
            unit_wf(self@),
        ensures
            m == spec_ability_modifier(self@.stats[spec_stat_index(id)].total),
    {
        let idx = stat_index(id);
        proof {
            assert(self@.stats[idx as int].wf());
        }
        ability_modifier_of(self.stats[idx].total)
    }

    /// Sets a stat's proficiency mark, touching nothing else.
    pub fn set_proficiency(&mut self, id: StatEnum, p: Proficiency)
        requires
            unit_wf(old(self)@),
        ensures
            unit_wf(final(self)@),
            final(self)@ == (UnitView {
                profs: old(self)@.profs.update(spec_stat_index(id), p),
                ..old(self)@
            }),
    {
        let idx = stat_index(id);
        self.profs[idx] = p;
        proof {
            assert(final(self)@ =~= (UnitView {
                profs: old(self)@.profs.update(spec_stat_index(id), p),
                ..old(self)@
            }));
        }
    }

    /// Edits a stat's authored base, leaving its total for the next
    /// recompute; used by character editing.
    pub fn set_base(&mut self, id: StatEnum, value: i64)
        requires
            unit_wf(old(self)@),
            -VALUE_LIMIT <= value <= VALUE_LIMIT,
        ensures
            unit_wf(final(self)@),
            final(self)@ == (UnitView {
                stats: old(self)@.stats.update(
                    spec_stat_index(id),
                    StatView { base: value as int, ..old(self)@.stats[spec_stat_index(id)] },
                ),
                ..old(self)@
            }),
    {
        let idx = stat_index(id);
        self.stats[idx].base = value;
        proof {
            assert(final(self)@.stats =~= old(self)@.stats.update(
                spec_stat_index(id),
                StatView { base: value as int, ..old(self)@.stats[spec_stat_index(id)] },
            ));
            assert(final(self)@ =~= (UnitView {
                stats: old(self)@.stats.update(
                    spec_stat_index(id),
                    StatView { base: value as int, ..old(self)@.stats[spec_stat_index(id)] },
                ),
                ..old(self)@
            }));
        }
    }

    /// Seeds a stat for character creation: base and total are both set to
    /// the authored value, as if aggregation with no modifiers had run.
    pub fn seed_base(&mut self, id: StatEnum, value: i64)
        requires
            unit_wf(old(self)@),
            -VALUE_LIMIT <= value <= VALUE_LIMIT,
        ensures
            unit_wf(final(self)@),
            final(self)@ == (UnitView {
                stats: old(self)@.stats.update(
                    spec_stat_index(id),
                    StatView {
                        base: value as int,
                        total: value as int,
                        ..old(self)@.stats[spec_stat_index(id)]
                    },
                ),
                ..old(self)@
            }),
    {
        let idx = stat_index(id);
        self.stats[idx].base = value;
        self.stats[idx].total = value;
        proof {
            assert(final(self)@.stats =~= old(self)@.stats.update(
                spec_stat_index(id),
                StatView {
                    base: value as int,
                    total: value as int,
                    ..old(self)@.stats[spec_stat_index(id)]
                },
            ));
            assert(final(self)@ =~= (UnitView {
                stats: old(self)@.stats.update(
                    spec_stat_index(id),
                    StatView {
                        base: value as int,
                        total: value as int,
                        ..old(self)@.stats[spec_stat_index(id)]
                    },
                ),
                ..old(self)@
            }));
        }
    }

    /// One step of the recompute protocol with an explicit depth budget:
    /// gathers, aggregates, writes the total if it changed, and cascades
    /// into the declared dependents.
    fn recompute_fueled(&mut self, id: StatEnum, fuel: u64) -> (changed: bool)
        requires
            unit_wf(old(self)@),
        ensures
            unit_wf(final(self)@),
            (final(self)@, changed) == spec_recompute(old(self)@, id, fuel as nat),
        decreases fuel,
    {
        if fuel == 0 {
            return false;
        }
        let ghost u0 = self@;
        let idx = stat_index(id);
        let collected = collect_mods(&self.sources, id);
        proof {
            lemma_attached_bounded(u0.sources);
            lemma_mods_for_bounded(attached_mods(u0.sources), id);
            lemma_offers_bounded(collected@);
        }
        let (replace, best, add, mult) = summarize(&collected);
        let baseline: i64 = match governing_ability(id) {
            Some(g) => {
                let gi = stat_index(g);
                proof {
                    assert(u0.stats[gi as int].wf());
                }
                ability_modifier_of(self.stats[gi].total) * SCALE
            },
            None => 0,
        };
        proof {
            assert(u0.stats[idx as int].wf());
            assert(baseline as int == spec_baseline(u0, id));
        }
        let new_total = aggregate_value(self.stats[idx].base, replace, best, add, mult, baseline);
        proof {
            assert(new_total as int == spec_aggregate_total(u0, id));
        }
        if new_total == self.stats[idx].total {
            return false;
        }
        self.stats[idx].total = new_total;
        proof {
            assert(self@.stats =~= u0.stats.update(
                spec_stat_index(id),
                StatView { total: new_total as int, ..u0.stats[spec_stat_index(id)] },
            ));
            assert(self@ =~= with_total(u0, id, new_total as int));
            lemma_aggregate_total_in_range(u0, id);
            assert(unit_wf(self@));
        }
        let ghost u1 = self@;
        let deps = copy_ids(&self.stats[idx].deps);
        proof {
            assert(deps@ == u0.stats[spec_stat_index(id)].deps);
        }
        let mut k: usize = 0;
        while k < deps.len()
            invariant
                k <= deps.len(),
                fuel >= 1,
                unit_wf(self@),
                self@ == spec_recompute_seq(u1, deps@.take(k as int), (fuel - 1) as nat),
            decreases deps.len() - k,
        {
            let d = deps[k];
            proof {
                lemma_recompute_seq_snoc(u1, deps@.take(k as int), d, (fuel - 1) as nat);
                assert(deps@.take(k as int).push(d) =~= deps@.take(k + 1 as int));
            }
            self.recompute_fueled(d, fuel - 1);
            k += 1;
        }
        proof {
            assert(deps@.take(deps@.len() as int) =~= deps@);
        }
        true
    }

    /// Recomputes one stat and cascades through its declared dependents.
    /// Returns whether the stat's own total changed; when it did not, the
    /// unit is untouched and no dependent was revisited.
    pub fn recompute(&mut self, id: StatEnum) -> (changed: bool)
        requires
            unit_wf(old(self)@),
        ensures
            unit_wf(final(self)@),
            (final(self)@, changed) == spec_recompute(old(self)@, id, CASCADE_FUEL as nat),
    {
        self.recompute_fueled(id, CASCADE_FUEL)
    }

    /// Whether a source with the given identity is attached.
    pub fn has_source(&self, source_id: u64) -> (b: bool)
        ensures
            b == (spec_find_source(self@.sources, source_id) matches Some(_)),
    {
        let r = find_source_index(&self.sources, source_id);
        r.is_some()
    }

    /// Attaches a modifier source, then recomputes every distinct stat its
    /// modifiers target, cascading through dependents as usual.
    ///
    /// The caller guarantees a fresh source identity and room under the
    /// attached-modifier cap; [`Unit::has_source`] and [`Unit::mod_room`]
    /// let a caller check both.
    pub fn equip(&mut self, source: ModifierSource)
        requires
            unit_wf(old(self)@),
            source.wf(),
            attached_mods(old(self)@.sources).len() + source.mods.0@.len() <= MOD_COUNT_LIMIT,
            forall|i: int|
                0 <= i < old(self)@.sources.len() ==> (#[trigger] old(self)@.sources[i]).id
                    != source.id,
        ensures
            unit_wf(final(self)@),
            final(self)@ == spec_recompute_seq(
                (UnitView { sources: old(self)@.sources.push(source), ..old(self)@ }),
                distinct_targets(source.mods.0@),
                CASCADE_FUEL as nat,
            ),
    {
        let ghost u0 = self@;
        let targets = distinct_targets_of(&source.mods.0);
        proof {
            lemma_attached_mods_push(u0.sources, source);
        }
        self.sources.push(source);
        proof {
            assert(self@ =~= (UnitView { sources: u0.sources.push(source), ..u0 }));
            assert(unit_wf(self@));
        }
        let ghost u1 = self@;
        let mut k: usize = 0;
        while k < targets.len()
            invariant
                k <= targets.len(),
                unit_wf(self@),
                self@ == spec_recompute_seq(u1, targets@.take(k as int), CASCADE_FUEL as nat),
            decreases targets.len() - k,
        {
            let d = targets[k];
            proof {
                lemma_recompute_seq_snoc(u1, targets@.take(k as int), d, CASCADE_FUEL as nat);
                assert(targets@.take(k as int).push(d) =~= targets@.take(k + 1 as int));
            }
            self.recompute_fueled(d, CASCADE_FUEL);
            k += 1;
        }
        proof {
            assert(targets@.take(targets@.len() as int) =~= targets@);
        }
    }

    /// How many more attached modifiers the unit can carry.
    pub fn mod_room(&self) -> (room: usize)
        requires
            unit_wf(self@),
        ensures
            room == MOD_COUNT_LIMIT - attached_mods(self@.sources).len(),
    {
        let mut count: usize = 0;
        let mut i: usize = 0;
        while i < self.sources.len()
            invariant
                i <= self.sources@.len(),
                self.sources@ == self@.sources,
                unit_wf(self@),
                count == attached_mods(self@.sources.take(i as int)).len(),
                count <= MOD_COUNT_LIMIT,
            decreases self.sources.len() - i,
        {
            proof {
                assert(self@.sources.take(i as int).push(self@.sources[i as int])
                    =~= self@.sources.take(i + 1 as int));
                lemma_attached_mods_push(self@.sources.take(i as int), self@.sources[i as int]);
                assert(self@.sources.take(self@.sources.len() as int) =~= self@.sources);
                lemma_attached_mods_remove_prefix_bound(self@.sources, i as int);
            }
            count = count + self.sources[i].mods.0.len();
            i += 1;
        }
        proof {
            assert(self@.sources.take(self@.sources.len() as int) =~= self@.sources);
        }
        MOD_COUNT_LIMIT - count
    }

    /// Detaches the source with the given identity, then recomputes every
    /// distinct stat it used to target, cascading as usual. An identity
    /// with no attached source contributes no modifiers, so nothing
    /// changes.
    pub fn unequip(&mut self, source_id: u64)
        requires
            unit_wf(old(self)@),
        ensures
            unit_wf(final(self)@),
            match spec_find_source(old(self)@.sources, source_id) {
                None => final(self)@ == old(self)@,
                Some(j) => final(self)@ == spec_recompute_seq(
                    (UnitView { sources: old(self)@.sources.remove(j), ..old(self)@ }),
                    distinct_targets(old(self)@.sources[j].mods.0@),
                    CASCADE_FUEL as nat,
                ),
            },
    {
        let ghost u0 = self@;
        let found = find_source_index(&self.sources, source_id);
        let i = match found {
            None => {
                return ;
            },
            Some(i) => i,
        };
        proof {
            lemma_attached_mods_remove(u0.sources, i as int);
        }
        let removed = self.sources.remove(i);
        proof {
            assert(self@ =~= (UnitView { sources: u0.sources.remove(i as int), ..u0 }));
            assert(unit_wf(self@)) by {
                let s1 = u0.sources.remove(i as int);
                assert forall|k: int| 0 <= k < s1.len() implies (#[trigger] s1[k]).wf() by {
                    if k < i as int {
                        assert(s1[k] == u0.sources[k]);
                    } else {
                        assert(s1[k] == u0.sources[k + 1]);
                    }
                }
                assert forall|k: int, l: int| 0 <= k < l < s1.len() implies s1[k].id != s1[l].id by {
                    assert(s1[k] == if k < i as int {
                        u0.sources[k]
                    } else {
                        u0.sources[k + 1]
                    });
                    assert(s1[l] == if l < i as int {
                        u0.sources[l]
                    } else {
                        u0.sources[l + 1]
                    });
                }
            }
        }
        let targets = distinct_targets_of(&removed.mods.0);
        let ghost u1 = self@;
        let mut k: usize = 0;
        while k < targets.len()
            invariant
                k <= targets.len(),
                unit_wf(self@),
                self@ == spec_recompute_seq(u1, targets@.take(k as int), CASCADE_FUEL as nat),
            decreases targets.len() - k,
        {
            let d = targets[k];
            proof {
                lemma_recompute_seq_snoc(u1, targets@.take(k as int), d, CASCADE_FUEL as nat);
                assert(targets@.take(k as int).push(d) =~= targets@.take(k + 1 as int));
            }
            self.recompute_fueled(d, CASCADE_FUEL);
            k += 1;
        }
        proof {
            assert(targets@.take(targets@.len() as int) =~= targets@);
        }
    }
}

/// The attached count of a prefix never exceeds the whole attached count.
proof fn lemma_attached_mods_remove_prefix_bound(sources: Seq<ModifierSource>, i: int)
    requires
        0 <= i < sources.len(),
    ensures
        attached_mods(sources.take(i + 1)).len() <= attached_mods(sources).len(),
    decreases sources.len() - i,
{
    if i + 1 == sources.len() {
        assert(sources.take(i + 1) =~= sources);
    } else {
        lemma_attached_mods_remove_prefix_bound(sources, i + 1);
        assert(sources.take(i + 2).drop_last() =~= sources.take(i + 1));
        assert(attached_mods(sources.take(i + 2)) == attached_mods(sources.take(i + 1))
            + sources.take(i + 2).last().mods.0@);
    }
}

} // verus!
