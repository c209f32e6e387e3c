//! Catalog modifiers and their rolled instances.
use vstd::prelude::*;

use crate::rng::sample_range_i32;

verus! {

/// The coarse item category a modifier may apply to.
#[derive(Debug, PartialEq, Eq, Structural, Clone, Copy)]
pub enum Domain {
    Item,
    AbyssJewel,
    Area,
    Misc,
    Flask,
    Crafted,
    Delve,
    Atlas,
    /// Appears at least on all currency bases.
    Undefined,
}

/// The structural role of a modifier; only prefixes and suffixes are
/// rollable as explicits.
#[derive(Debug, PartialEq, Eq, Structural, Clone, Copy)]
pub enum GenType {
    Prefix,
    Suffix,
    Unique,
    Corrupted,
    Enchantment,
    BlightTower,
    Tempest,
}

/// A tag-keyed weight entry, used both for spawn weights and for
/// generation weights.
pub struct SpawnWeight {
    pub tag: String,
    pub weight: u32,
}

/// Buff metadata a modifier may grant; unused by the core logic.
pub struct Buff {
    pub id: String,
    pub range: u32,
}

/// Skill effect metadata a modifier may grant; unused by the core logic.
pub struct GrantedEffect {
    pub granted_effect_id: String,
    pub level: u8,
}

/// One stat a modifier rolls, with its inclusive roll range.
pub struct Stat {
    pub id: String,
    pub min: i32,
    pub max: i32,
}

/// An immutable catalog modifier.
pub struct Mod {
    pub name: String,
    pub adds_tags: Vec<String>,
    pub domain: Domain,
    pub generation_type: GenType,
    /// Each group is present at most once on an item.
    pub group: String,
    pub generation_weights: Vec<SpawnWeight>,
    pub spawn_weights: Vec<SpawnWeight>,
    pub grants_buff: Option<Buff>,
    pub grants_effects: Vec<GrantedEffect>,
    pub stats: Vec<Stat>,
    pub required_level: u8,
    /// Index into additional data.
    pub type_id: String,
}

/// A modifier attached to an item, with one rolled value per stat.
pub struct ModInstance<'a> {
    pub rolls: Vec<i32>,
    pub prototype: &'a Mod,
}

/// One rolled stat of an instance: the stat's id and the rolled value.
pub struct StatRoll<'a> {
    pub id: &'a str,
    pub roll: i32,
}

/// Every roll range of the modifier is non-empty.
pub open spec fn stats_rollable(m: Mod) -> bool {
    forall|i: int| 0 <= i < m.stats@.len() ==> (#[trigger] m.stats@[i]).min <= m.stats@[i].max
}

/// The instance carries one roll per stat of its prototype, each inside
/// the stat's declared inclusive range.
pub open spec fn inst_wf(inst: ModInstance) -> bool {
    &&& inst.rolls@.len() == inst.prototype.stats@.len()
    &&& forall|i: int|
        0 <= i < inst.rolls@.len() ==> (#[trigger] inst.prototype.stats@[i]).min <= inst.rolls@[i]
            <= inst.prototype.stats@[i].max
}

/// The (stat id, roll) pairs of an instance, pairing stats and rolls by
/// position; a surplus on either side is dropped, as zipping does.
pub open spec fn inst_stats(inst: ModInstance) -> Seq<(Seq<char>, i32)> {
    let n = if inst.prototype.stats@.len() <= inst.rolls@.len() {
        inst.prototype.stats@.len()
    } else {
        inst.rolls@.len()
    };
    Seq::new(n, |i: int| (inst.prototype.stats@[i].id@, inst.rolls@[i]))
}

impl Stat {
    /// A uniform roll over the stat's inclusive range.
    fn roll(&self) -> (r: i32)
        requires
            self.min <= self.max,
        ensures
            self.min <= r <= self.max,
    {
        sample_range_i32(self.min, self.max)
    }
}

impl Mod {
    /// Instantiates the modifier, rolling each stat range independently
    /// and uniformly.
    pub fn generate<'a>(&'a self) -> (r: ModInstance<'a>)
        requires
            stats_rollable(*self),
        ensures
            r.prototype == self,
            inst_wf(r),
    {
        let mut rolls: Vec<i32> = Vec::new();
        let n = self.stats.len();
        let mut i: usize = 0;
        while i < n
            invariant
                n == self.stats@.len(),
                i <= n,
                rolls@.len() == i,
                stats_rollable(*self),
                forall|j: int|
                    0 <= j < i ==> self.stats@[j].min <= #[trigger] rolls@[j] <= self.stats@[j].max,
            decreases n - i,
        {
            rolls.push(self.stats[i].roll());
            i += 1;
        }
        ModInstance { rolls, prototype: self }
    }
}

impl<'a> ModInstance<'a> {
    /// The instance's stat ids paired with their rolled values, in the
    /// prototype's declared stat order.
    pub fn stats(&'a self) -> (r: Vec<StatRoll<'a>>)
        ensures
            r@.len() == inst_stats(*self).len(),
            forall|i: int|
                0 <= i < r@.len() ==> (#[trigger] r@[i]).id@ == inst_stats(*self)[i].0
                    && r@[i].roll == inst_stats(*self)[i].1,
    {
        let mut r: Vec<StatRoll<'a>> = Vec::new();
        let n = if self.prototype.stats.len() <= self.rolls.len() {
            self.prototype.stats.len()
        } else {
            self.rolls.len()
        };
        let mut i: usize = 0;
        while i < n
            invariant
                n == inst_stats(*self).len(),
                n <= self.prototype.stats@.len(),
                n <= self.rolls@.len(),
                i <= n,
                r@.len() == i,
                forall|j: int|
                    0 <= j < i ==> (#[trigger] r@[j]).id@ == inst_stats(*self)[j].0
                        && r@[j].roll == inst_stats(*self)[j].1,
            decreases n - i,
        {
            r.push(StatRoll { id: self.prototype.stats[i].id.as_str(), roll: self.rolls[i] });
            i += 1;
        }
        r
    }
}

} // verus!
