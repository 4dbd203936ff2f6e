//! The item catalog: the fixed data each spawnable item carries, and the
//! modifier source it contributes to a unit while equipped.

use vstd::prelude::*;

use crate::dice::Dice;
use crate::dice::DiceType;
use crate::ids::StatEnum;
use crate::modifier::ModType;
use crate::modifier::ModifierSource;
use crate::modifier::StatMod;
use crate::modifier::StatModList;
use crate::stat::SCALE;

verus! {

/// The spawnable items.
#[derive(Clone, Copy, PartialEq, Eq, Debug, Structural)]
pub enum ItemsEnum {
    /// A light simple melee weapon: one four-sided damage die, no stat
    /// modifiers.
    Club,
    /// A ring granting ten points of max health while worn.
    RingOfHealth,
}

/// The stat modifiers an item contributes while equipped.
pub open spec fn spec_item_mods(item: ItemsEnum) -> Seq<StatMod> {
    match item {
        ItemsEnum::Club => Seq::empty(),
        ItemsEnum::RingOfHealth => seq![
            StatMod {
                stat: StatEnum::MaxHealth,
                value: 10000,
                mod_type: ModType::Add,
            },
        ],
    }
}

/// An item's fixed catalog data.
#[derive(Clone, Copy, PartialEq, Eq, Debug, Structural)]
pub struct ItemSpec {
    /// Carry weight.
    pub weight: i64,
    /// Cost in coin.
    pub cost: i64,
    /// The damage dice, for items that are weapons.
    pub damage: Option<Dice>,
}

/// An item's catalog data.
pub open spec fn spec_item_data(item: ItemsEnum) -> ItemSpec {
    match item {
        ItemsEnum::Club => ItemSpec {
            weight: 2,
            cost: 10,
            damage: Some(Dice { dice_type: DiceType::D4, number: 1 }),
        },
        ItemsEnum::RingOfHealth => ItemSpec { weight: 0, cost: 1000, damage: None },
    }
}

impl ItemsEnum {
    /// The item's fixed catalog data.
    pub fn item_data(&self) -> (r: ItemSpec)
        ensures
            r == spec_item_data(*self),
    {
        match self {
            ItemsEnum::Club => ItemSpec {
                weight: 2,
                cost: 10,
                damage: Some(Dice { dice_type: DiceType::D4, number: 1 }),
            },
            ItemsEnum::RingOfHealth => ItemSpec { weight: 0, cost: 1000, damage: None },
        }
    }

    /// Builds the modifier source a spawned instance of this item attaches
    /// to a unit, under the given source identity.
    pub fn modifier_source(&self, source_id: u64) -> (s: ModifierSource)
        ensures
            s.id == source_id,
            s.mods.0@ == spec_item_mods(*self),
            s.wf(),
    {
        let mods: Vec<StatMod> = match self {
            ItemsEnum::Club => Vec::new(),
            ItemsEnum::RingOfHealth => vec![
                StatMod { stat: StatEnum::MaxHealth, value: 10 * SCALE, mod_type: ModType::Add },
            ],
        };
        let s = ModifierSource { id: source_id, mods: StatModList(mods) };
        proof {
            assert(s.mods.0@ =~= spec_item_mods(*self));
        }
        s
    }
}

} // verus!
