//! Modifiers, modifier lists and their aggregation summaries.
//!
//! A [`StatMod`] is a typed bonus or penalty produced by a source (for
//! example an equipped item) targeting one named stat. A source carries an
//! ordered [`StatModList`]; a unit owns zero or more attached
//! [`ModifierSource`]s. No aggregation logic lives here beyond the pure
//! summaries the recompute protocol feeds to
//! [`crate::stat::Stat::calculate_total`]: the additive and multiplicative
//! sums, the last `Replace` offer, and the best `BestOf` offer of the
//! modifiers targeting a stat, in attachment order then list order.

use vstd::prelude::*;

use crate::ids::StatEnum;
use crate::stat::MOD_COUNT_LIMIT;
use crate::stat::SUM_LIMIT;
use crate::stat::VALUE_LIMIT;
use crate::stat::opt_val;

verus! {

/// How a modifier's value combines with others targeting the same stat.
#[derive(Clone, Copy, PartialEq, Eq, Debug, Structural)]
pub enum ModType {
    /// Summed into the stat's base.
    Add,
    /// Summed into a single multiplier applied once to the additive result.
    Mult,
    /// Overrides the total outright; the last offer in iteration order wins.
    Replace,
    /// A floor: the total is never lower than the best such offer.
    BestOf,
}

/// A typed bonus or penalty targeting one named stat.
#[derive(Clone, Copy, PartialEq, Eq, Debug, Structural)]
pub struct StatMod {
    /// The stat this modifier targets.
    pub stat: StatEnum,
    /// The modifier's value, in thousandths of a point.
    pub value: i64,
    /// How the value combines with others.
    pub mod_type: ModType,
}

impl StatMod {
    /// A modifier's value is an authored value.
    pub open spec fn wf(self) -> bool {
        -VALUE_LIMIT <= self.value <= VALUE_LIMIT
    }
}

/// An ordered list of modifiers owned by one source entity.
#[derive(Clone, Debug, PartialEq)]
pub struct StatModList(pub Vec<StatMod>);

/// An attachable entity (for example a piece of equipment) carrying a list
/// of modifiers. Its modifiers count toward a unit's stats exactly while it
/// is attached.
#[derive(Clone, Debug, PartialEq)]
pub struct ModifierSource {
    /// Identifies the source among a unit's attachments.
    pub id: u64,
    /// The modifiers this source contributes while attached.
    pub mods: StatModList,
}

impl ModifierSource {
    /// Every carried modifier value is an authored value.
    pub open spec fn wf(self) -> bool {
        mods_bounded(self.mods.0@)
    }
}

/// Every modifier in the sequence carries an authored value.
pub open spec fn mods_bounded(mods: Seq<StatMod>) -> bool {
    forall|i: int| 0 <= i < mods.len() ==> (#[trigger] mods[i]).wf()
}

/// The modifiers targeting `id`, in iteration order.
pub open spec fn mods_for(mods: Seq<StatMod>, id: StatEnum) -> Seq<StatMod> {
    mods.filter(|m: StatMod| m.stat == id)
}

/// Sum of the `Add` modifier values in the sequence.
pub open spec fn add_sum(mods: Seq<StatMod>) -> int
    decreases mods.len(),
{
    if mods.len() == 0 {
        0
    } else {
        add_sum(mods.drop_last()) + if mods.last().mod_type == ModType::Add {
            mods.last().value as int
        } else {
            0int
        }
    }
}

/// Sum of the `Mult` modifier values in the sequence.
pub open spec fn mult_sum(mods: Seq<StatMod>) -> int
    decreases mods.len(),
{
    if mods.len() == 0 {
        0
    } else {
        mult_sum(mods.drop_last()) + if mods.last().mod_type == ModType::Mult {
            mods.last().value as int
        } else {
            0int
        }
    }
}

/// The value of the last `Replace` modifier in iteration order, if any.
pub open spec fn last_replace(mods: Seq<StatMod>) -> Option<int>
    decreases mods.len(),
{
    if mods.len() == 0 {
        None
    } else if mods.last().mod_type == ModType::Replace {
        Some(mods.last().value as int)
    } else {
        last_replace(mods.drop_last())
    }
}

/// The maximum of the `BestOf` modifier values in the sequence, if any.
pub open spec fn best_of(mods: Seq<StatMod>) -> Option<int>
    decreases mods.len(),
{
    if mods.len() == 0 {
        None
    } else {
        let rest = best_of(mods.drop_last());
        if mods.last().mod_type == ModType::BestOf {
            match rest {
                None => Some(mods.last().value as int),
                Some(b) => Some(
                    if mods.last().value as int > b {
                        mods.last().value as int
                    } else {
                        b
                    },
                ),
            }
        } else {
            rest
        }
    }
}

/// All modifiers contributed by a sequence of attached sources, in
/// attachment order then list order.
pub open spec fn attached_mods(sources: Seq<ModifierSource>) -> Seq<StatMod>
    decreases sources.len(),
{
    if sources.len() == 0 {
        Seq::empty()
    } else {
        attached_mods(sources.drop_last()) + sources.last().mods.0@
    }
}

/// Appending one modifier extends each aggregation summary in the evident
/// way; the basis of the gathering loop's invariants.
pub proof fn lemma_summaries_push(mods: Seq<StatMod>, m: StatMod)
    ensures
        add_sum(mods.push(m)) == add_sum(mods) + if m.mod_type == ModType::Add {
            m.value as int
        } else {
            0int
        },
        mult_sum(mods.push(m)) == mult_sum(mods) + if m.mod_type == ModType::Mult {
            m.value as int
        } else {
            0int
        },
        last_replace(mods.push(m)) == if m.mod_type == ModType::Replace {
            Some(m.value as int)
        } else {
            last_replace(mods)
        },
        best_of(mods.push(m)) == if m.mod_type == ModType::BestOf {
            match best_of(mods) {
                None => Some(m.value as int),
                Some(b) => Some(if m.value as int > b { m.value as int } else { b }),
            }
        } else {
            best_of(mods)
        },
{
    assert(mods.push(m).drop_last() =~= mods);
    assert(mods.push(m).last() == m);
}

/// Appending one modifier extends the filtered view of the targeted stat.
pub proof fn lemma_mods_for_push(mods: Seq<StatMod>, id: StatEnum, m: StatMod)
    ensures
        mods_for(mods.push(m), id) == if m.stat == id {
            mods_for(mods, id).push(m)
        } else {
            mods_for(mods, id)
        },
{
    reveal(Seq::filter);
    assert(mods.push(m).drop_last() =~= mods);
    assert(mods.push(m).last() == m);
}

/// Attaching one more source appends exactly its modifiers.
pub proof fn lemma_attached_mods_push(sources: Seq<ModifierSource>, s: ModifierSource)
    ensures
        attached_mods(sources.push(s)) == attached_mods(sources) + s.mods.0@,
{
    assert(sources.push(s).drop_last() =~= sources);
    assert(sources.push(s).last() == s);
}

/// Contributions distribute over splitting the attachment sequence.
pub proof fn lemma_attached_mods_concat(a: Seq<ModifierSource>, b: Seq<ModifierSource>)
    ensures
        attached_mods(a + b) == attached_mods(a) + attached_mods(b),
    decreases b.len(),
{
    if b.len() == 0 {
        assert(a + b =~= a);
        assert(attached_mods(a) + attached_mods(b) =~= attached_mods(a));
    } else {
        assert((a + b).drop_last() =~= a + b.drop_last());
        assert((a + b).last() == b.last());
        lemma_attached_mods_concat(a, b.drop_last());
        assert(attached_mods(a) + attached_mods(b.drop_last()) + b.last().mods.0@ =~= attached_mods(
            a,
        ) + (attached_mods(b.drop_last()) + b.last().mods.0@));
    }
}

/// If every attached source is well formed, every attached modifier carries
/// an authored value.
pub proof fn lemma_attached_bounded(sources: Seq<ModifierSource>)
    requires
        forall|i: int| 0 <= i < sources.len() ==> (#[trigger] sources[i]).wf(),
    ensures
        mods_bounded(attached_mods(sources)),
    decreases sources.len(),
{
    if sources.len() > 0 {
        let prefix = sources.drop_last();
        assert(forall|i: int| 0 <= i < prefix.len() ==> prefix[i] == #[trigger] sources[i]);
        lemma_attached_bounded(prefix);
        assert(sources[sources.len() - 1].wf());
        let rest = attached_mods(prefix);
        let tail = sources.last().mods.0@;
        assert(forall|i: int|
            0 <= i < rest.len() + tail.len() ==> (rest + tail)[i] == if i < rest.len() {
                rest[i]
            } else {
                tail[i - rest.len()]
            });
    }
}

/// The `Replace` and `BestOf` offers of a bounded modifier sequence are
/// authored values.
pub proof fn lemma_offers_bounded(mods: Seq<StatMod>)
    requires
        mods_bounded(mods),
    ensures
        last_replace(mods) matches Some(r) ==> -VALUE_LIMIT <= r <= VALUE_LIMIT,
        best_of(mods) matches Some(b) ==> -VALUE_LIMIT <= b <= VALUE_LIMIT,
    decreases mods.len(),
{
    if mods.len() > 0 {
        assert(mods_bounded(mods.drop_last())) by {
            assert(forall|i: int|
                0 <= i < mods.len() - 1 ==> mods.drop_last()[i] == #[trigger] mods[i]);
        }
        lemma_offers_bounded(mods.drop_last());
        assert(mods[mods.len() - 1].wf());
    }
}

/// A filtered selection of a bounded modifier sequence is itself bounded,
/// and no longer than the original.
pub proof fn lemma_mods_for_bounded(mods: Seq<StatMod>, id: StatEnum)
    requires
        mods_bounded(mods),
    ensures
        mods_bounded(mods_for(mods, id)),
        mods_for(mods, id).len() <= mods.len(),
    decreases mods.len(),
{
    reveal(Seq::filter);
    mods.lemma_filter_len(|m: StatMod| m.stat == id);
    if mods.len() > 0 {
        let prefix = mods.drop_last();
        assert(mods_bounded(prefix)) by {
            assert(forall|i: int| 0 <= i < prefix.len() ==> prefix[i] == #[trigger] mods[i]);
        }
        lemma_mods_for_bounded(prefix, id);
        let sub = mods_for(prefix, id);
        let filtered = mods_for(mods, id);
        if mods.last().stat == id {
            assert(filtered == sub.push(mods.last()));
            assert(mods[mods.len() - 1].wf());
            assert(forall|i: int|
                0 <= i < filtered.len() ==> #[trigger] filtered[i] == if i < sub.len() {
                    sub[i]
                } else {
                    mods.last()
                });
        }
    }
}

/// Removing one source takes away exactly its modifiers' share of the
/// attached count.
pub proof fn lemma_attached_mods_remove(sources: Seq<ModifierSource>, i: int)
    requires
        0 <= i < sources.len(),
    ensures
        attached_mods(sources.remove(i)).len() + sources[i].mods.0@.len() == attached_mods(
            sources,
        ).len(),
{
    let front = sources.subrange(0, i);
    let back = sources.subrange(i + 1, sources.len() as int);
    let middle = seq![sources[i]];
    assert(middle.len() == 1);
    assert(middle.drop_last() =~= Seq::<ModifierSource>::empty());
    assert(middle.last() == sources[i]);
    assert(attached_mods(Seq::<ModifierSource>::empty()) =~= Seq::<StatMod>::empty());
    assert(attached_mods(middle) == attached_mods(middle.drop_last()) + middle.last().mods.0@);
    assert(attached_mods(middle) =~= sources[i].mods.0@);
    assert(sources.remove(i) =~= front + back);
    lemma_attached_mods_concat(front, back);
    assert(sources =~= front + (middle + back));
    lemma_attached_mods_concat(front, middle + back);
    lemma_attached_mods_concat(middle, back);
}

/// The distinct stats a modifier list targets, in first-occurrence order:
/// the stats to recompute when the list's source attaches or detaches.
pub open spec fn distinct_targets(mods: Seq<StatMod>) -> Seq<StatEnum>
    decreases mods.len(),
{
    if mods.len() == 0 {
        Seq::empty()
    } else {
        let rest = distinct_targets(mods.drop_last());
        if rest.contains(mods.last().stat) {
            rest
        } else {
            rest.push(mods.last().stat)
        }
    }
}

/// Appending one modifier adds its target only if it is new; the basis of
/// the target-collection loop's invariant.
pub proof fn lemma_distinct_targets_push(mods: Seq<StatMod>, m: StatMod)
    ensures
        distinct_targets(mods.push(m)) == if distinct_targets(mods).contains(m.stat) {
            distinct_targets(mods)
        } else {
            distinct_targets(mods).push(m.stat)
        },
{
    assert(mods.push(m).drop_last() =~= mods);
    assert(mods.push(m).last() == m);
}

/// Whether a collected target list already holds an identifier.
fn contains_id(v: &Vec<StatEnum>, id: StatEnum) -> (b: bool)
    ensures
        b == v@.contains(id),
{
    let mut i: usize = 0;
    while i < v.len()
        invariant
            i <= v.len(),
            forall|k: int| 0 <= k < i ==> v@[k] != id,
        decreases v.len() - i,
    {
        if v[i] == id {
            proof {
                assert(v@[i as int] == id);
            }
            return true;
        }
        i += 1;
    }
    false
}

/// Collects the distinct stats a modifier list targets, in first-occurrence
/// order.
pub(crate) fn distinct_targets_of(mods: &Vec<StatMod>) -> (out: Vec<StatEnum>)
    ensures
        out@ == distinct_targets(mods@),
{
    let mut out: Vec<StatEnum> = Vec::new();
    let mut i: usize = 0;
    while i < mods.len()
        invariant
            i <= mods.len(),
            out@ == distinct_targets(mods@.take(i as int)),
        decreases mods.len() - i,
    {
        let m = mods[i];
        proof {
            assert(mods@.take(i as int).push(m) =~= mods@.take(i + 1 as int));
            lemma_distinct_targets_push(mods@.take(i as int), m);
        }
        if !contains_id(&out, m.stat) {
            out.push(m.stat);
        }
        i += 1;
    }
    proof {
        assert(mods@.take(mods@.len() as int) =~= mods@);
    }
    out
}

/// Collects every modifier from the attached sources that targets `id`, in
/// attachment order then list order.
pub(crate) fn collect_mods(sources: &Vec<ModifierSource>, id: StatEnum) -> (out: Vec<StatMod>)
    ensures
        out@ == mods_for(attached_mods(sources@), id),
{
    let mut out: Vec<StatMod> = Vec::new();
    let ghost mut seen: Seq<StatMod> = Seq::empty();
    let mut i: usize = 0;
    while i < sources.len()
        invariant
            i <= sources.len(),
            seen == attached_mods(sources@.take(i as int)),
            out@ == mods_for(seen, id),
        decreases sources.len() - i,
    {
        let list = &sources[i].mods.0;
        let mut j: usize = 0;
        while j < list.len()
            invariant
                j <= list.len(),
                i < sources.len(),
                list == &sources[i as int].mods.0,
                seen == attached_mods(sources@.take(i as int)) + list@.take(j as int),
                out@ == mods_for(seen, id),
            decreases list.len() - j,
        {
            let m = list[j];
            proof {
                assert(list@.take(j as int).push(m) =~= list@.take(j + 1 as int));
                assert(seen.push(m) =~= attached_mods(sources@.take(i as int)) + list@.take(
                    j + 1 as int,
                ));
                lemma_mods_for_push(seen, id, m);
            }
            if m.stat == id {
                out.push(m);
            }
            proof {
                seen = seen.push(m);
            }
            j += 1;
        }
        proof {
            assert(list@.take(list@.len() as int) =~= list@);
            assert(sources@.take(i as int).push(sources@[i as int]) =~= sources@.take(i + 1 as int));
            lemma_attached_mods_push(sources@.take(i as int), sources@[i as int]);
        }
        i += 1;
    }
    proof {
        assert(sources@.take(sources@.len() as int) =~= sources@);
    }
    out
}

/// Reduces one stat's gathered modifiers to the summary the aggregator
/// consumes: the last `Replace` offer, the best `BestOf` offer, and the
/// additive and multiplicative sums.
pub(crate) fn summarize(mods: &Vec<StatMod>) -> (r: (Option<i64>, Option<i64>, i64, i64))
    requires
        mods_bounded(mods@),
        mods@.len() <= MOD_COUNT_LIMIT,
    ensures
        opt_val(r.0) == last_replace(mods@),
        opt_val(r.1) == best_of(mods@),
        r.2 == add_sum(mods@),
        r.3 == mult_sum(mods@),
        -SUM_LIMIT <= r.2 <= SUM_LIMIT,
        -SUM_LIMIT <= r.3 <= SUM_LIMIT,
{
    let mut replace: Option<i64> = None;
    let mut best: Option<i64> = None;
    let mut add: i64 = 0;
    let mut mult: i64 = 0;
    let mut i: usize = 0;
    while i < mods.len()
        invariant
            i <= mods.len(),
            mods_bounded(mods@),
            mods@.len() <= MOD_COUNT_LIMIT,
            opt_val(replace) == last_replace(mods@.take(i as int)),
            opt_val(best) == best_of(mods@.take(i as int)),
            add == add_sum(mods@.take(i as int)),
            mult == mult_sum(mods@.take(i as int)),
            -(i as int) * VALUE_LIMIT <= add <= (i as int) * VALUE_LIMIT,
            -(i as int) * VALUE_LIMIT <= mult <= (i as int) * VALUE_LIMIT,
        decreases mods.len() - i,
    {
        let m = mods[i];
        proof {
            assert(mods@.take(i as int).push(m) =~= mods@.take(i + 1 as int));
            lemma_summaries_push(mods@.take(i as int), m);
            assert(m.wf());
        }
        match m.mod_type {
            ModType::Add => {
                add = add + m.value;
            },
            ModType::Mult => {
                mult = mult + m.value;
            },
            ModType::Replace => {
                replace = Some(m.value);
            },
            ModType::BestOf => {
                best = match best {
                    None => Some(m.value),
                    Some(b) => if m.value > b {
                        Some(m.value)
                    } else {
                        Some(b)
                    },
                };
            },
        }
        i += 1;
    }
    proof {
        assert(mods@.take(mods@.len() as int) =~= mods@);
    }
    (replace, best, add, mult)
}

} // verus!
