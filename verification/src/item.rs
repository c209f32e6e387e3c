//! Items, affix eligibility and weighting, affix selection, and property
//! aggregation.
use vstd::prelude::*;

use crate::mod_describer::{describe_pool, describer_wf, ModDescriber, StatDescription};
use crate::mods::{inst_stats, inst_wf, stats_rollable, GenType, Mod, ModInstance};
use crate::strutil::{dec_i32, i32_to_string};
use vstd::string::StringExecFns;
use crate::rng::sample_weighted;
use crate::strutil::{contains_str, str_eq, strings, strs};

verus! {

/// How rare an item is; decides how many explicit modifiers it may carry.
#[derive(Debug, PartialEq, Eq, Structural, Clone, Copy)]
pub enum Rarity {
    Normal,
    Magic,
    Rare,
    Unique,
}

/// An item's quality bonus.
pub struct Quality {
    pub amount: u8,
    pub kind: QualityKind,
}

/// Whether quality feeds the percentage multipliers (`Normal`) or not
/// (`Imbued`).
#[derive(Debug, PartialEq, Eq, Structural, Clone, Copy)]
pub enum QualityKind {
    Normal,
    Imbued,
}

/// Attribute and level requirements of a base template.
pub struct Requirements {
    pub strength: u32,
    pub dexterity: u32,
    pub intelligence: u32,
    pub level: u8,
}

/// The numeric properties of a base template, and of a resolved item
/// snapshot.
#[derive(Clone, Copy)]
pub struct Properties {
    pub quality: u8,
    pub armour: i32,
    pub evasion: i32,
    pub energy_shield: i32,
    pub block: u8,
    pub attack_time: i32,
    pub critical_strike_chance: i32,
    pub physical_damage_min: i32,
    pub physical_damage_max: i32,
}

/// An immutable base-item template.
pub struct Base<'a> {
    pub domain: crate::mods::Domain,
    pub item_class: String,
    pub tags: Vec<String>,
    pub name: String,
    pub properties: Properties,
    pub implicits: Vec<&'a Mod>,
    pub requirements: Option<Requirements>,
    pub inventory_width: u8,
    pub inventory_height: u8,
}

/// A concrete item: a base template plus rolled explicit modifiers.
pub struct Item<'a> {
    pub base: &'a Base<'a>,
    pub explicits: Vec<ModInstance<'a>>,
    pub name: String,
    pub item_level: u8,
    pub rarity: Rarity,
    pub quality: Quality,
}

/// The error of a generation attempt: every candidate's weight was zero
/// while a draw was owed.
#[derive(Debug, PartialEq, Eq, Structural, Clone, Copy)]
pub enum CraftError {
    NoEligibleModifier,
}

/// A per-draw query context: which slots are open, the item's domain and
/// level, the groups already used, and the current tag set.
pub struct Scale<'a> {
    pub open_prefix: bool,
    pub open_suffix: bool,
    pub item_level: u8,
    pub domain: crate::mods::Domain,
    pub groups: Vec<&'a str>,
    pub tags: Vec<&'a str>,
}

/// The first entry of `entries` whose tag is in `tags`, by declared order.
pub open spec fn first_weight(entries: Seq<crate::mods::SpawnWeight>, tags: Seq<Seq<char>>) -> Option<
    u32,
>
    decreases entries.len(),
{
    if entries.len() == 0 {
        None
    } else if tags.contains(entries[0].tag@) {
        Some(entries[0].weight)
    } else {
        first_weight(entries.drop_first(), tags)
    }
}

/// Whether a draw context lets the candidate appear at all: matching
/// domain, a prefix or suffix with its slot open, a low enough required
/// level, and a group not already used.
pub open spec fn eligible_for(
    m: Mod,
    open_prefix: bool,
    open_suffix: bool,
    domain: crate::mods::Domain,
    item_level: u8,
    groups: Seq<Seq<char>>,
) -> bool {
    &&& m.domain == domain
    &&& ((m.generation_type == GenType::Prefix && open_prefix) || (m.generation_type
        == GenType::Suffix && open_suffix))
    &&& m.required_level <= item_level
    &&& !groups.contains(m.group@)
}

/// The weight of a candidate under a draw context: zero when ineligible or
/// when no spawn-weight tag matches; otherwise the first matching spawn
/// weight, scaled by the first matching generation weight as a percentage
/// that defaults to 100.
pub open spec fn weight_for(
    m: Mod,
    open_prefix: bool,
    open_suffix: bool,
    domain: crate::mods::Domain,
    item_level: u8,
    groups: Seq<Seq<char>>,
    tags: Seq<Seq<char>>,
) -> int {
    if !eligible_for(m, open_prefix, open_suffix, domain, item_level, groups) {
        0
    } else {
        let sw = match first_weight(m.spawn_weights@, tags) {
            Some(w) => w as int,
            None => 0,
        };
        let gw = match first_weight(m.generation_weights@, tags) {
            Some(w) => w as int,
            None => 100,
        };
        sw * gw / 100
    }
}

/// The weight of a candidate under a scale.
pub open spec fn weight_spec(sc: Scale, m: Mod) -> int {
    weight_for(
        m,
        sc.open_prefix,
        sc.open_suffix,
        sc.domain,
        sc.item_level,
        strs(sc.groups@),
        strs(sc.tags@),
    )
}

/// Every spawn and generation weight of the modifier is small enough that
/// a product of two of them fits the weight arithmetic.
pub open spec fn weights_bounded(m: Mod) -> bool {
    &&& forall|i: int| 0 <= i < m.spawn_weights@.len() ==> (#[trigger] m.spawn_weights@[i]).weight
        <= 0xFFFF
    &&& forall|i: int|
        0 <= i < m.generation_weights@.len() ==> (#[trigger] m.generation_weights@[i]).weight
            <= 0xFFFF
}

/// A modifier fit for use in a catalog: bounded weights and rollable stats.
pub open spec fn mod_usable(m: Mod) -> bool {
    weights_bounded(m) && stats_rollable(m)
}

/// Every modifier of the catalog is usable and the catalog is small enough
/// for a weighted draw.
pub open spec fn catalog_usable(mods: Seq<Mod>) -> bool {
    &&& mods.len() <= u32::MAX
    &&& forall|i: int| 0 <= i < mods.len() ==> mod_usable(#[trigger] mods[i])
}

impl<'a> Scale<'a> {
    /// Looks for the first entry whose tag is contained in the scale's tag
    /// set.
    fn find_weight(&self, entries: &Vec<crate::mods::SpawnWeight>) -> (r: Option<u32>)
        ensures
            r == first_weight(entries@, strs(self.tags@)),
    {
        let mut i: usize = 0;
        assert(entries@.skip(0) =~= entries@);
        while i < entries.len()
            invariant
                i <= entries@.len(),
                first_weight(entries@, strs(self.tags@)) == first_weight(
                    entries@.skip(i as int),
                    strs(self.tags@),
                ),
            decreases entries@.len() - i,
        {
            assert(entries@.skip(i as int)[0] == entries@[i as int]);
            if contains_str(&self.tags, entries[i].tag.as_str()) {
                return Some(entries[i].weight);
            }
            assert(entries@.skip(i as int).drop_first() =~= entries@.skip(i as int + 1));
            i += 1;
        }
        assert(entries@.skip(i as int).len() == 0);
        None
    }

    /// The candidate's weight under this scale, `0` meaning ineligible.
    pub fn mod_weight(&self, m: &Mod) -> (r: u32)
        requires
            weights_bounded(*m),
        ensures
            r == weight_spec(*self, *m),
    {
        if !(m.domain == self.domain) || !((m.generation_type == GenType::Prefix
            && self.open_prefix) || (m.generation_type == GenType::Suffix && self.open_suffix))
            || m.required_level > self.item_level || contains_str(
            &self.groups,
            m.group.as_str(),
        ) {
            return 0;
        }
        let sw = match self.find_weight(&m.spawn_weights) {
            Some(w) => w,
            None => 0,
        };
        let gw = match self.find_weight(&m.generation_weights) {
            Some(w) => w,
            None => 100,
        };
        proof {
            lemma_first_weight_bounded(m.spawn_weights@, strs(self.tags@), 0xFFFF);
            lemma_first_weight_bounded(m.generation_weights@, strs(self.tags@), 0xFFFF);
        }
        assert(sw <= 0xFFFF && gw <= 0xFFFF);
        assert(sw * gw <= 0xFFFF * 0xFFFF) by (nonlinear_arith)
            requires
                sw <= 0xFFFF && gw <= 0xFFFF,
        ;
        sw * gw / 100
    }
}

/// How many explicits of generation type `t` the sequence holds.
pub open spec fn count_type(es: Seq<ModInstance>, t: GenType) -> int
    decreases es.len(),
{
    if es.len() == 0 {
        0
    } else {
        count_type(es.drop_last(), t) + if es.last().prototype.generation_type == t {
            1int
        } else {
            0int
        }
    }
}

/// The groups of the explicits, in order.
pub open spec fn groups_of(es: Seq<ModInstance>) -> Seq<Seq<char>> {
    es.map_values(|e: ModInstance| e.prototype.group@)
}

/// No two explicits share a group.
pub open spec fn groups_distinct(es: Seq<ModInstance>) -> bool {
    forall|i: int, j: int|
        0 <= i < j < es.len() ==> groups_of(es)[i] != groups_of(es)[j]
}

/// Whether the item class is one of the jewel classes, which use smaller
/// affix limits and draw counts.
pub open spec fn jewel_class(class: Seq<char>) -> bool {
    class == "Jewel"@ || class == "AbyssJewel"@
}

/// How many affixes of one generation type an item of the given class may
/// carry at the given target rarity.
pub open spec fn affix_limit(target: Rarity, class: Seq<char>) -> int {
    if target == Rarity::Magic {
        1
    } else if target == Rarity::Rare {
        if jewel_class(class) {
            2
        } else {
            3
        }
    } else {
        0
    }
}

/// The tags added by the explicits, in explicit order, each explicit's
/// added tags in declared order.
pub open spec fn added_tags(es: Seq<ModInstance>) -> Seq<Seq<char>>
    decreases es.len(),
{
    if es.len() == 0 {
        Seq::<Seq<char>>::empty()
    } else {
        added_tags(es.drop_last()) + strings(es.last().prototype.adds_tags@)
    }
}

/// The item's current tag set: tags added by its explicits, then the base
/// template's tags.
pub open spec fn tags_spec(item: Item) -> Seq<Seq<char>> {
    added_tags(item.explicits@) + strings(item.base.tags@)
}

/// Whether a slot of generation type `t` is still open on the item at the
/// given target rarity.
pub open spec fn open_slot(item: Item, target: Rarity, t: GenType) -> bool {
    count_type(item.explicits@, t) < affix_limit(target, item.base.item_class@)
}

/// The weight a candidate has for a draw on an item with the given base,
/// level, and explicits held so far: the scale rebuilt from exactly that
/// state.
pub open spec fn draw_weight_at(
    base: Base,
    item_level: u8,
    es: Seq<ModInstance>,
    target: Rarity,
    m: Mod,
) -> int {
    weight_for(
        m,
        count_type(es, GenType::Prefix) < affix_limit(target, base.item_class@),
        count_type(es, GenType::Suffix) < affix_limit(target, base.item_class@),
        base.domain,
        item_level,
        groups_of(es),
        added_tags(es) + strings(base.tags@),
    )
}

/// The weight a candidate has for the next draw on this item.
pub open spec fn draw_weight(item: Item, target: Rarity, m: Mod) -> int {
    draw_weight_at(*item.base, item.item_level, item.explicits@, target, m)
}


/// All (stat id, roll) pairs of a sequence of explicits, in explicit
/// order, each explicit's stats in declared order.
pub open spec fn stats_of_explicits(es: Seq<ModInstance>) -> Seq<(Seq<char>, i32)>
    decreases es.len(),
{
    if es.len() == 0 {
        Seq::<(Seq<char>, i32)>::empty()
    } else {
        stats_of_explicits(es.drop_last()) + inst_stats(es.last())
    }
}

/// All (stat id, roll) pairs of the item's explicits.
pub open spec fn item_stats(item: Item) -> Seq<(Seq<char>, i32)> {
    stats_of_explicits(item.explicits@)
}

/// The sum of the rolls whose stat id is exactly `id`.
pub open spec fn flat_sum(stats: Seq<(Seq<char>, i32)>, id: Seq<char>) -> int
    decreases stats.len(),
{
    if stats.len() == 0 {
        0
    } else {
        flat_sum(stats.drop_last(), id) + if stats.last().0 == id {
            stats.last().1 as int
        } else {
            0int
        }
    }
}

/// The sum of the rolls whose stat id satisfies `sel`.
pub open spec fn sel_sum(stats: Seq<(Seq<char>, i32)>, sel: spec_fn(Seq<char>) -> bool) -> int
    decreases stats.len(),
{
    if stats.len() == 0 {
        0
    } else {
        sel_sum(stats.drop_last(), sel) + if sel(stats.last().0) {
            stats.last().1 as int
        } else {
            0int
        }
    }
}

pub open spec fn id_flat_armour() -> Seq<char> {
    "local_base_physical_damage_reduction_rating"@
}

pub open spec fn id_flat_evasion() -> Seq<char> {
    "local_base_evasion_rating"@
}

pub open spec fn id_flat_energy_shield() -> Seq<char> {
    "local_energy_shield"@
}

pub open spec fn id_flat_pd_min() -> Seq<char> {
    "local_minimum_added_physical_damage"@
}

pub open spec fn id_flat_pd_max() -> Seq<char> {
    "local_maximum_added_physical_damage"@
}

pub open spec fn id_flat_quality() -> Seq<char> {
    "local_item_quality_+"@
}

pub open spec fn id_block() -> Seq<char> {
    "local_additional_block_chance_%"@
}

/// The stat ids that feed the armour percentage multiplier.
pub open spec fn armour_pct_id(id: Seq<char>) -> bool {
    ||| id == "local_physical_damage_reduction_rating_+%"@
    ||| id == "local_armour_and_evasion_+%"@
    ||| id == "local_armour_and_energy_shield_+%"@
    ||| id == "local_armour_and_evasion_and_energy_shield_+%"@
}

/// The stat ids that feed the evasion percentage multiplier.
pub open spec fn evasion_pct_id(id: Seq<char>) -> bool {
    ||| id == "local_evasion_rating_+%"@
    ||| id == "local_armour_and_evasion_+%"@
    ||| id == "local_evasion_and_energy_shield_+%"@
    ||| id == "local_armour_and_evasion_and_energy_shield_+%"@
}

/// The stat ids that feed the energy-shield percentage multiplier.
pub open spec fn energy_shield_pct_id(id: Seq<char>) -> bool {
    ||| id == "local_energy_shield_+%"@
    ||| id == "local_armour_and_energy_shield_+%"@
    ||| id == "local_evasion_and_energy_shield_+%"@
    ||| id == "local_armour_and_evasion_and_energy_shield_+%"@
}

pub open spec fn pd_pct_id(id: Seq<char>) -> bool {
    id == "local_physical_damage_+%"@
}

pub open spec fn crit_pct_id(id: Seq<char>) -> bool {
    id == "local_critical_strike_chance_+%"@
}

pub open spec fn attack_speed_pct_id(id: Seq<char>) -> bool {
    id == "local_attack_speed_+%"@
}

pub open spec fn armour_flat(item: Item) -> int {
    item.base.properties.armour + flat_sum(item_stats(item), id_flat_armour())
}

pub open spec fn evasion_flat(item: Item) -> int {
    item.base.properties.evasion + flat_sum(item_stats(item), id_flat_evasion())
}

pub open spec fn energy_shield_flat(item: Item) -> int {
    item.base.properties.energy_shield + flat_sum(item_stats(item), id_flat_energy_shield())
}

pub open spec fn pd_min_flat(item: Item) -> int {
    item.base.properties.physical_damage_min + flat_sum(item_stats(item), id_flat_pd_min())
}

pub open spec fn pd_max_flat(item: Item) -> int {
    item.base.properties.physical_damage_max + flat_sum(item_stats(item), id_flat_pd_max())
}

/// Total quality: the base template's, plus flat quality rolls, plus the
/// item's own quality amount.
pub open spec fn quality_total(item: Item) -> int {
    item.base.properties.quality + flat_sum(item_stats(item), id_flat_quality())
        + item.quality.amount
}

/// Total block chance: the base template's plus the block rolls.
pub open spec fn block_total(item: Item) -> int {
    item.base.properties.block + flat_sum(item_stats(item), id_block())
}

/// Normal quality feeds the four defence and damage multipliers, one
/// percentage point per quality point; Imbued quality feeds none.
pub open spec fn quality_pct_bonus(item: Item) -> int {
    if item.quality.kind == QualityKind::Normal {
        quality_total(item)
    } else {
        0
    }
}

pub open spec fn armour_pct(item: Item) -> int {
    100 + sel_sum(item_stats(item), |id: Seq<char>| armour_pct_id(id)) + quality_pct_bonus(item)
}

pub open spec fn evasion_pct(item: Item) -> int {
    100 + sel_sum(item_stats(item), |id: Seq<char>| evasion_pct_id(id)) + quality_pct_bonus(item)
}

pub open spec fn energy_shield_pct(item: Item) -> int {
    100 + sel_sum(item_stats(item), |id: Seq<char>| energy_shield_pct_id(id))
        + quality_pct_bonus(item)
}

pub open spec fn pd_pct(item: Item) -> int {
    100 + sel_sum(item_stats(item), |id: Seq<char>| pd_pct_id(id)) + quality_pct_bonus(item)
}

pub open spec fn crit_pct(item: Item) -> int {
    100 + sel_sum(item_stats(item), |id: Seq<char>| crit_pct_id(id))
}

pub open spec fn attack_speed_pct(item: Item) -> int {
    100 + sel_sum(item_stats(item), |id: Seq<char>| attack_speed_pct_id(id))
}

pub open spec fn armour_resolved(item: Item) -> int {
    armour_flat(item) * armour_pct(item) / 100
}

pub open spec fn evasion_resolved(item: Item) -> int {
    evasion_flat(item) * evasion_pct(item) / 100
}

pub open spec fn energy_shield_resolved(item: Item) -> int {
    energy_shield_flat(item) * energy_shield_pct(item) / 100
}

pub open spec fn pd_min_resolved(item: Item) -> int {
    pd_min_flat(item) * pd_pct(item) / 100
}

pub open spec fn pd_max_resolved(item: Item) -> int {
    pd_max_flat(item) * pd_pct(item) / 100
}

pub open spec fn crit_resolved(item: Item) -> int {
    item.base.properties.critical_strike_chance * crit_pct(item) / 100
}

/// Attack time is inverted: a faster-attack percentage must reduce the
/// time, so the base time is scaled by `100 / attack_speed_pct`.
pub open spec fn attack_time_resolved(item: Item) -> int {
    item.base.properties.attack_time * 100 / attack_speed_pct(item)
}

/// The side conditions of aggregation: every accumulated flat value,
/// multiplier, and resolved property stays within the ranges the
/// snapshot's fields can hold, and the attack-speed divisor is positive.
/// Beyond those machine limits, the nonnegativity of each total is a
/// deliberate restriction: the properties stand for nonnegative game
/// quantities, and keeping every operand of the truncating divisions
/// nonnegative makes their rounding direction single and stated. An item
/// whose rolls drive a total negative is rejected by
/// `aggregation_fits_check` rather than resolved.
pub open spec fn aggregation_fits(item: Item) -> bool {
    &&& item_stats(item).len() <= 0x4000_0000
    &&& 0 <= armour_flat(item) <= i32::MAX
    &&& 0 <= evasion_flat(item) <= i32::MAX
    &&& 0 <= energy_shield_flat(item) <= i32::MAX
    &&& 0 <= pd_min_flat(item) <= i32::MAX
    &&& 0 <= pd_max_flat(item) <= i32::MAX
    &&& 0 <= item.base.properties.attack_time
    &&& 0 <= item.base.properties.critical_strike_chance
    &&& 0 <= quality_total(item) <= u8::MAX
    &&& 0 <= block_total(item) <= u8::MAX
    &&& 0 <= armour_pct(item) <= i32::MAX
    &&& 0 <= evasion_pct(item) <= i32::MAX
    &&& 0 <= energy_shield_pct(item) <= i32::MAX
    &&& 0 <= pd_pct(item) <= i32::MAX
    &&& 0 <= crit_pct(item) <= i32::MAX
    &&& 1 <= attack_speed_pct(item) <= i32::MAX
    &&& armour_resolved(item) <= i32::MAX
    &&& evasion_resolved(item) <= i32::MAX
    &&& energy_shield_resolved(item) <= i32::MAX
    &&& pd_min_resolved(item) <= i32::MAX
    &&& pd_max_resolved(item) <= i32::MAX
    &&& crit_resolved(item) <= i32::MAX
    &&& attack_time_resolved(item) <= i32::MAX
}

/// A flat sum over `n` pairs is at most `n` rolls of extreme size.
proof fn lemma_flat_sum_bound(stats: Seq<(Seq<char>, i32)>, id: Seq<char>)
    ensures
        -(stats.len() as int) * 0x8000_0000 <= flat_sum(stats, id) <= (stats.len() as int)
            * 0x8000_0000,
    decreases stats.len(),
{
    if stats.len() > 0 {
        lemma_flat_sum_bound(stats.drop_last(), id);
    }
}

/// A selected sum over `n` pairs is at most `n` rolls of extreme size.
proof fn lemma_sel_sum_bound(stats: Seq<(Seq<char>, i32)>, sel: spec_fn(Seq<char>) -> bool)
    ensures
        -(stats.len() as int) * 0x8000_0000 <= sel_sum(stats, sel) <= (stats.len() as int)
            * 0x8000_0000,
    decreases stats.len(),
{
    if stats.len() > 0 {
        lemma_sel_sum_bound(stats.drop_last(), sel);
    }
}

/// The pairs of a prefix of the explicits are never more numerous than
/// the pairs of all of them.
proof fn lemma_stats_take_le(es: Seq<ModInstance>, k: int)
    requires
        0 <= k <= es.len(),
    ensures
        stats_of_explicits(es.take(k)).len() <= stats_of_explicits(es).len(),
    decreases es.len() - k,
{
    if k < es.len() {
        assert(es.take(k + 1).drop_last() =~= es.take(k));
        assert(es.take(k + 1).last() == es[k]);
        lemma_stats_take_le(es, k + 1);
    } else {
        assert(es.take(k) =~= es);
    }
}


/// The variant name of a rarity, as its debug form prints it.
pub open spec fn rarity_text(r: Rarity) -> Seq<char> {
    match r {
        Rarity::Normal => "Normal"@,
        Rarity::Magic => "Magic"@,
        Rarity::Rare => "Rare"@,
        Rarity::Unique => "Unique"@,
    }
}

/// Two decimal digits, zero-padded.
pub open spec fn pad2(r: int) -> Seq<char> {
    if r < 10 {
        "0"@ + dec_i32(r)
    } else {
        dec_i32(r)
    }
}

/// A value held in hundredths, written with two decimal places.
pub open spec fn two_dec(v: int) -> Seq<char> {
    dec_i32(v / 100) + "."@ + pad2(v % 100)
}

/// Attacks per second in hundredths, rounded to nearest, from the
/// resolved attack time in milliseconds.
pub open spec fn aps_hundredths(item: Item) -> int {
    (200000int / attack_time_resolved(item) + 1) / 2
}

/// The rendered text of every explicit, in item order.
pub open spec fn explicits_text(descs: Seq<StatDescription>, es: Seq<ModInstance>) -> Seq<char>
    decreases es.len(),
{
    if es.len() == 0 {
        Seq::<char>::empty()
    } else {
        explicits_text(descs, es.drop_last()) + describe_pool(descs, inst_stats(es.last())).0
    }
}

/// The unmapped stat ids reported while rendering every explicit, in
/// item order.
pub open spec fn explicits_unmapped(descs: Seq<StatDescription>, es: Seq<ModInstance>) -> Seq<
    Seq<char>,
>
    decreases es.len(),
{
    if es.len() == 0 {
        Seq::<Seq<char>>::empty()
    } else {
        explicits_unmapped(descs, es.drop_last()) + describe_pool(descs, inst_stats(es.last())).1
    }
}

/// The heading of the display block: rarity, name, and the base class.
pub open spec fn header_text(item: Item) -> Seq<char> {
    "Rarity: "@ + rarity_text(item.rarity) + "\n"@ + item.name@ + "\n"@ + "--------\n"@
        + item.base.item_class@ + "\n"@
}

/// The defence lines of the display block.
pub open spec fn defence_text(item: Item) -> Seq<char> {
    (if block_total(item) != 0 {
        "Chance to Block: "@ + dec_i32(block_total(item)) + "%\n"@
    } else {
        Seq::<char>::empty()
    }) + (if armour_resolved(item) != 0 {
        "Armour: "@ + dec_i32(armour_resolved(item)) + "\n"@
    } else {
        Seq::<char>::empty()
    }) + (if evasion_resolved(item) != 0 {
        "Evasion: "@ + dec_i32(evasion_resolved(item)) + "\n"@
    } else {
        Seq::<char>::empty()
    }) + (if energy_shield_resolved(item) != 0 {
        "Energy Shield: "@ + dec_i32(energy_shield_resolved(item)) + "\n"@
    } else {
        Seq::<char>::empty()
    })
}

/// The damage and speed lines of the display block.
pub open spec fn offence_text(item: Item) -> Seq<char> {
    (if pd_max_resolved(item) != 0 {
        "Physical Damage: "@ + dec_i32(pd_min_resolved(item)) + "-"@ + dec_i32(
            pd_max_resolved(item),
        ) + "\n"@
    } else {
        Seq::<char>::empty()
    }) + (if crit_resolved(item) != 0 {
        "Critical Strike Chance: "@ + two_dec(crit_resolved(item)) + "\n"@
    } else {
        Seq::<char>::empty()
    }) + (if attack_time_resolved(item) != 0 {
        "Attacks per Second: "@ + two_dec(aps_hundredths(item)) + "\n"@
    } else {
        Seq::<char>::empty()
    })
}

/// The property lines of the display block: each nonzero resolved
/// property on its own line.
pub open spec fn props_text(item: Item) -> Seq<char> {
    defence_text(item) + offence_text(item)
}

/// The full display block of an item: rarity and name, the base class,
/// each nonzero resolved property on its own line, the item level, and
/// the rendered explicits.
pub open spec fn display_spec(item: Item, descs: Seq<StatDescription>) -> Seq<char> {
    header_text(item) + props_text(item) + "--------\n"@ + "Item Level: "@ + dec_i32(
        item.item_level as int,
    ) + "\n"@ + (if item.explicits@.len() > 0 {
        "--------\n"@ + explicits_text(descs, item.explicits@)
    } else {
        Seq::<char>::empty()
    })
}

/// Appends a hundredths value with two decimal places.
fn push_two_dec(out: &mut String, v: i32)
    requires
        v >= 0,
    ensures
        final(out)@ == old(out)@ + two_dec(v as int),
{
    let vu = v as u32;
    let whole = vu / 100;
    let rem = vu % 100;
    let ghost o0 = out@;
    let ws = i32_to_string(whole as i32);
    out.append(ws.as_str());
    out.append(".");
    if rem < 10 {
        out.append("0");
    }
    let rs = i32_to_string(rem as i32);
    out.append(rs.as_str());
    proof {
        assert(whole as int == v as int / 100);
        assert(rem as int == v as int % 100);
        if rem < 10 {
            assert(out@ =~= o0 + (dec_i32(v as int / 100) + "."@ + ("0"@ + dec_i32(
                v as int % 100,
            ))));
        } else {
            assert(out@ =~= o0 + (dec_i32(v as int / 100) + "."@ + dec_i32(v as int % 100)));
        }
    }
}

/// Pushing an explicit appends its group to the group sequence.
proof fn lemma_groups_push(es: Seq<ModInstance>, e: ModInstance)
    ensures
        groups_of(es.push(e)) =~= groups_of(es).push(e.prototype.group@),
{
}

/// Pushing an explicit raises the count of its own generation type by one
/// and leaves the other counts alone.
proof fn lemma_count_push(es: Seq<ModInstance>, e: ModInstance, t: GenType)
    ensures
        count_type(es.push(e), t) == count_type(es, t) + if e.prototype.generation_type == t {
            1int
        } else {
            0int
        },
{
    assert(es.push(e).drop_last() =~= es);
    assert(es.push(e).last() == e);
}

/// Pushing an explicit whose group is fresh keeps the groups distinct.
proof fn lemma_distinct_push(es: Seq<ModInstance>, e: ModInstance)
    requires
        groups_distinct(es),
        !groups_of(es).contains(e.prototype.group@),
    ensures
        groups_distinct(es.push(e)),
{
    lemma_groups_push(es, e);
    let gs = groups_of(es.push(e));
    assert forall|i: int, j: int| 0 <= i < j < es.push(e).len() implies gs[i] != gs[j] by {
        if j == es.len() {
            assert(groups_of(es)[i] == gs[i]);
        }
    }
}

/// A matched weight entry never exceeds the bound that holds of every entry.
proof fn lemma_first_weight_bounded(
    entries: Seq<crate::mods::SpawnWeight>,
    tags: Seq<Seq<char>>,
    bound: u32,
)
    requires
        forall|i: int| 0 <= i < entries.len() ==> (#[trigger] entries[i]).weight <= bound,
    ensures
        match first_weight(entries, tags) {
            Some(w) => w <= bound,
            None => true,
        },
    decreases entries.len(),
{
    if entries.len() > 0 && !tags.contains(entries[0].tag@) {
        lemma_first_weight_bounded(entries.drop_first(), tags, bound);
    }
}

/// The running totals of one aggregation pass: each flat property with
/// its rolls added, total quality and block, and the six percentage
/// multipliers with quality already folded in.
struct Totals {
    armour: i64,
    evasion: i64,
    energy_shield: i64,
    pd_min: i64,
    pd_max: i64,
    quality: i64,
    block: i64,
    armour_percent: i64,
    evasion_percent: i64,
    energy_shield_percent: i64,
    pdamage_percent: i64,
    crit_percent: i64,
    attack_speed_percent: i64,
}

impl<'a> Item<'a> {
    /// One pass over every rolled stat, accumulating the flat additions
    /// and the percentage multipliers exactly.
    #[verifier::rlimit(100)]
    fn accumulate(&self) -> (t: Totals)
        requires
            item_stats(*self).len() <= 0x4000_0000,
        ensures
            t.armour == armour_flat(*self),
            t.evasion == evasion_flat(*self),
            t.energy_shield == energy_shield_flat(*self),
            t.pd_min == pd_min_flat(*self),
            t.pd_max == pd_max_flat(*self),
            t.quality == quality_total(*self),
            t.block == block_total(*self),
            t.armour_percent == armour_pct(*self),
            t.evasion_percent == evasion_pct(*self),
            t.energy_shield_percent == energy_shield_pct(*self),
            t.pdamage_percent == pd_pct(*self),
            t.crit_percent == crit_pct(*self),
            t.attack_speed_percent == attack_speed_pct(*self),
    {
        let mut armour: i64 = self.base.properties.armour as i64;
        let mut evasion: i64 = self.base.properties.evasion as i64;
        let mut energy_shield: i64 = self.base.properties.energy_shield as i64;
        let mut pd_min: i64 = self.base.properties.physical_damage_min as i64;
        let mut pd_max: i64 = self.base.properties.physical_damage_max as i64;
        let mut quality: i64 = self.base.properties.quality as i64;
        let mut block: i64 = self.base.properties.block as i64;
        let mut armour_percent: i64 = 100;
        let mut evasion_percent: i64 = 100;
        let mut energy_shield_percent: i64 = 100;
        let mut pdamage_percent: i64 = 100;
        let mut crit_percent: i64 = 100;
        let mut attack_speed_percent: i64 = 100;

        let ghost full = item_stats(*self);
        let ghost mut processed = Seq::<(Seq<char>, i32)>::empty();
        proof {
            assert(self.explicits@.take(0) =~= Seq::<ModInstance>::empty());
        }
        let mut ei: usize = 0;
        while ei < self.explicits.len()
            invariant
                ei <= self.explicits@.len(),
                full == item_stats(*self),
                item_stats(*self).len() <= 0x4000_0000,
                processed == stats_of_explicits(self.explicits@.take(ei as int)),
                processed.len() <= full.len(),
                armour == self.base.properties.armour + flat_sum(processed, id_flat_armour()),
                evasion == self.base.properties.evasion + flat_sum(processed, id_flat_evasion()),
                energy_shield == self.base.properties.energy_shield + flat_sum(
                    processed,
                    id_flat_energy_shield(),
                ),
                pd_min == self.base.properties.physical_damage_min + flat_sum(
                    processed,
                    id_flat_pd_min(),
                ),
                pd_max == self.base.properties.physical_damage_max + flat_sum(
                    processed,
                    id_flat_pd_max(),
                ),
                quality == self.base.properties.quality + flat_sum(processed, id_flat_quality()),
                block == self.base.properties.block + flat_sum(processed, id_block()),
                armour_percent == 100 + sel_sum(processed, |id: Seq<char>| armour_pct_id(id)),
                evasion_percent == 100 + sel_sum(processed, |id: Seq<char>| evasion_pct_id(id)),
                energy_shield_percent == 100 + sel_sum(
                    processed,
                    |id: Seq<char>| energy_shield_pct_id(id),
                ),
                pdamage_percent == 100 + sel_sum(processed, |id: Seq<char>| pd_pct_id(id)),
                crit_percent == 100 + sel_sum(processed, |id: Seq<char>| crit_pct_id(id)),
                attack_speed_percent == 100 + sel_sum(
                    processed,
                    |id: Seq<char>| attack_speed_pct_id(id),
                ),
            decreases self.explicits@.len() - ei,
        {
            let e = &self.explicits[ei];
            let sr = e.stats();
            let mut si: usize = 0;
            proof {
                assert(inst_stats(*e).take(0) =~= Seq::<(Seq<char>, i32)>::empty());
                assert(processed + inst_stats(*e).take(0) =~= processed);
            }
            while si < sr.len()
                invariant
                    si <= sr@.len(),
                    ei < self.explicits@.len(),
                    *e == self.explicits@[ei as int],
                    sr@.len() == inst_stats(*e).len(),
                    forall|j: int|
                        0 <= j < sr@.len() ==> (#[trigger] sr@[j]).id@ == inst_stats(*e)[j].0
                            && sr@[j].roll == inst_stats(*e)[j].1,
                    full == item_stats(*self),
                    item_stats(*self).len() <= 0x4000_0000,
                    processed == stats_of_explicits(self.explicits@.take(ei as int)) + inst_stats(
                        *e,
                    ).take(si as int),
                    processed.len() <= full.len(),
                    armour == self.base.properties.armour + flat_sum(processed, id_flat_armour()),
                    evasion == self.base.properties.evasion + flat_sum(
                        processed,
                        id_flat_evasion(),
                    ),
                    energy_shield == self.base.properties.energy_shield + flat_sum(
                        processed,
                        id_flat_energy_shield(),
                    ),
                    pd_min == self.base.properties.physical_damage_min + flat_sum(
                        processed,
                        id_flat_pd_min(),
                    ),
                    pd_max == self.base.properties.physical_damage_max + flat_sum(
                        processed,
                        id_flat_pd_max(),
                    ),
                    quality == self.base.properties.quality + flat_sum(
                        processed,
                        id_flat_quality(),
                    ),
                    block == self.base.properties.block + flat_sum(processed, id_block()),
                    armour_percent == 100 + sel_sum(processed, |id: Seq<char>| armour_pct_id(id)),
                    evasion_percent == 100 + sel_sum(
                        processed,
                        |id: Seq<char>| evasion_pct_id(id),
                    ),
                    energy_shield_percent == 100 + sel_sum(
                        processed,
                        |id: Seq<char>| energy_shield_pct_id(id),
                    ),
                    pdamage_percent == 100 + sel_sum(processed, |id: Seq<char>| pd_pct_id(id)),
                    crit_percent == 100 + sel_sum(processed, |id: Seq<char>| crit_pct_id(id)),
                    attack_speed_percent == 100 + sel_sum(
                        processed,
                        |id: Seq<char>| attack_speed_pct_id(id),
                    ),
                decreases sr@.len() - si,
            {
                let s_id: &str = sr[si].id;
                let s_roll: i32 = sr[si].roll;
                let b_fa = str_eq(s_id, "local_base_physical_damage_reduction_rating");
                let b_fe = str_eq(s_id, "local_base_evasion_rating");
                let b_fes = str_eq(s_id, "local_energy_shield");
                let b_fpmin = str_eq(s_id, "local_minimum_added_physical_damage");
                let b_fpmax = str_eq(s_id, "local_maximum_added_physical_damage");
                let b_fq = str_eq(s_id, "local_item_quality_+");
                let b_fb = str_eq(s_id, "local_additional_block_chance_%");
                let b_pa = str_eq(s_id, "local_physical_damage_reduction_rating_+%");
                let b_pe = str_eq(s_id, "local_evasion_rating_+%");
                let b_pes = str_eq(s_id, "local_energy_shield_+%");
                let b_pae = str_eq(s_id, "local_armour_and_evasion_+%");
                let b_paes = str_eq(s_id, "local_armour_and_energy_shield_+%");
                let b_pees = str_eq(s_id, "local_evasion_and_energy_shield_+%");
                let b_paees = str_eq(s_id, "local_armour_and_evasion_and_energy_shield_+%");
                let b_ppd = str_eq(s_id, "local_physical_damage_+%");
                let b_pcrit = str_eq(s_id, "local_critical_strike_chance_+%");
                let b_pasp = str_eq(s_id, "local_attack_speed_+%");
                proof {
                    lemma_flat_sum_bound(processed, id_flat_armour());
                    lemma_flat_sum_bound(processed, id_flat_evasion());
                    lemma_flat_sum_bound(processed, id_flat_energy_shield());
                    lemma_flat_sum_bound(processed, id_flat_pd_min());
                    lemma_flat_sum_bound(processed, id_flat_pd_max());
                    lemma_flat_sum_bound(processed, id_flat_quality());
                    lemma_flat_sum_bound(processed, id_block());
                    lemma_sel_sum_bound(processed, |id: Seq<char>| armour_pct_id(id));
                    lemma_sel_sum_bound(processed, |id: Seq<char>| evasion_pct_id(id));
                    lemma_sel_sum_bound(processed, |id: Seq<char>| energy_shield_pct_id(id));
                    lemma_sel_sum_bound(processed, |id: Seq<char>| pd_pct_id(id));
                    lemma_sel_sum_bound(processed, |id: Seq<char>| crit_pct_id(id));
                    lemma_sel_sum_bound(processed, |id: Seq<char>| attack_speed_pct_id(id));
                }
                if b_fa {
                    armour = armour + s_roll as i64;
                }
                if b_fe {
                    evasion = evasion + s_roll as i64;
                }
                if b_fes {
                    energy_shield = energy_shield + s_roll as i64;
                }
                if b_fpmin {
                    pd_min = pd_min + s_roll as i64;
                }
                if b_fpmax {
                    pd_max = pd_max + s_roll as i64;
                }
                if b_fq {
                    quality = quality + s_roll as i64;
                }
                if b_fb {
                    block = block + s_roll as i64;
                }
                if b_pa || b_pae || b_paes || b_paees {
                    armour_percent = armour_percent + s_roll as i64;
                }
                if b_pe || b_pae || b_pees || b_paees {
                    evasion_percent = evasion_percent + s_roll as i64;
                }
                if b_pes || b_paes || b_pees || b_paees {
                    energy_shield_percent = energy_shield_percent + s_roll as i64;
                }
                if b_ppd {
                    pdamage_percent = pdamage_percent + s_roll as i64;
                }
                if b_pcrit {
                    crit_percent = crit_percent + s_roll as i64;
                }
                if b_pasp {
                    attack_speed_percent = attack_speed_percent + s_roll as i64;
                }
                proof {
                    let p = inst_stats(*e)[si as int];
                    let prev = processed;
                    processed = processed.push(p);
                    assert(processed.drop_last() =~= prev);
                    assert(processed.last() == p);
                    assert(inst_stats(*e).take(si as int + 1) =~= inst_stats(*e).take(
                        si as int,
                    ).push(p));
                    assert(processed =~= stats_of_explicits(self.explicits@.take(ei as int))
                        + inst_stats(*e).take(si as int + 1));
                    assert(self.explicits@.take(ei as int + 1).drop_last() =~= self.explicits@
                        .take(ei as int));
                    assert(self.explicits@.take(ei as int + 1).last() == self.explicits@[ei as int]);
                    lemma_stats_take_le(self.explicits@, ei as int + 1);
                }
                si += 1;
            }
            proof {
                assert(inst_stats(*e).take(inst_stats(*e).len() as int) =~= inst_stats(*e));
                assert(self.explicits@.take(ei as int + 1).drop_last() =~= self.explicits@.take(
                    ei as int,
                ));
                assert(self.explicits@.take(ei as int + 1).last() == self.explicits@[ei as int]);
                assert(processed =~= stats_of_explicits(self.explicits@.take(ei as int + 1)));
            }
            ei += 1;
        }
        proof {
            assert(self.explicits@.take(self.explicits@.len() as int) =~= self.explicits@);
            assert(processed == full);
            lemma_flat_sum_bound(processed, id_flat_quality());
            lemma_sel_sum_bound(processed, |id: Seq<char>| armour_pct_id(id));
            lemma_sel_sum_bound(processed, |id: Seq<char>| evasion_pct_id(id));
            lemma_sel_sum_bound(processed, |id: Seq<char>| energy_shield_pct_id(id));
            lemma_sel_sum_bound(processed, |id: Seq<char>| pd_pct_id(id));
        }

        quality = quality + self.quality.amount as i64;
        assert(quality == quality_total(*self));

        if self.quality.kind == QualityKind::Normal {
            armour_percent = armour_percent + quality;
            evasion_percent = evasion_percent + quality;
            energy_shield_percent = energy_shield_percent + quality;
            pdamage_percent = pdamage_percent + quality;
        }
        assert(armour_percent == armour_pct(*self));
        assert(evasion_percent == evasion_pct(*self));
        assert(energy_shield_percent == energy_shield_pct(*self));
        assert(pdamage_percent == pd_pct(*self));
        assert(crit_percent == crit_pct(*self));
        assert(attack_speed_percent == attack_speed_pct(*self));
        Totals {
            armour,
            evasion,
            energy_shield,
            pd_min,
            pd_max,
            quality,
            block,
            armour_percent,
            evasion_percent,
            energy_shield_percent,
            pdamage_percent,
            crit_percent,
            attack_speed_percent,
        }
    }
}

impl<'a> Item<'a> {
    /// The resolved property snapshot: flat rolls add to the base
    /// template's values, percentage rolls and Normal quality feed the
    /// multipliers, and each property is scaled by its multiplier —
    /// attack time by the inverse of its one.
    #[verifier::rlimit(100)]
    pub fn properties(&self) -> (r: Properties)
        requires
            aggregation_fits(*self),
        ensures
            r.quality == quality_total(*self),
            r.armour == armour_resolved(*self),
            r.evasion == evasion_resolved(*self),
            r.energy_shield == energy_shield_resolved(*self),
            r.block == block_total(*self),
            r.attack_time == attack_time_resolved(*self),
            r.critical_strike_chance == crit_resolved(*self),
            r.physical_damage_min == pd_min_resolved(*self),
            r.physical_damage_max == pd_max_resolved(*self),
    {
        let t = self.accumulate();
        let armour: i64 = t.armour;
        let evasion: i64 = t.evasion;
        let energy_shield: i64 = t.energy_shield;
        let pd_min: i64 = t.pd_min;
        let pd_max: i64 = t.pd_max;
        let quality: i64 = t.quality;
        let block: i64 = t.block;
        let armour_percent: i64 = t.armour_percent;
        let evasion_percent: i64 = t.evasion_percent;
        let energy_shield_percent: i64 = t.energy_shield_percent;
        let pdamage_percent: i64 = t.pdamage_percent;
        let crit_percent: i64 = t.crit_percent;
        let attack_speed_percent: i64 = t.attack_speed_percent;

        let m: u64 = 0x7FFF_FFFF;
        assert((armour as u64) * (armour_percent as u64) <= m * m) by (nonlinear_arith)
            requires
                0 <= armour <= m && 0 <= armour_percent <= m,
        ;
        let armour_res: u64 = ((armour as u64) * (armour_percent as u64)) / 100;
        assert((evasion as u64) * (evasion_percent as u64) <= m * m) by (nonlinear_arith)
            requires
                0 <= evasion <= m && 0 <= evasion_percent <= m,
        ;
        let evasion_res: u64 = ((evasion as u64) * (evasion_percent as u64)) / 100;
        assert((energy_shield as u64) * (energy_shield_percent as u64) <= m * m)
            by (nonlinear_arith)
            requires
                0 <= energy_shield <= m && 0 <= energy_shield_percent <= m,
        ;
        let energy_shield_res: u64 = ((energy_shield as u64) * (energy_shield_percent as u64))
            / 100;
        assert((pd_min as u64) * (pdamage_percent as u64) <= m * m) by (nonlinear_arith)
            requires
                0 <= pd_min <= m && 0 <= pdamage_percent <= m,
        ;
        let pd_min_res: u64 = ((pd_min as u64) * (pdamage_percent as u64)) / 100;
        assert((pd_max as u64) * (pdamage_percent as u64) <= m * m) by (nonlinear_arith)
            requires
                0 <= pd_max <= m && 0 <= pdamage_percent <= m,
        ;
        let pd_max_res: u64 = ((pd_max as u64) * (pdamage_percent as u64)) / 100;
        let crit: u64 = self.base.properties.critical_strike_chance as u64;
        assert(crit * (crit_percent as u64) <= m * m) by (nonlinear_arith)
            requires
                0 <= crit <= m && 0 <= crit_percent <= m,
        ;
        let crit_res: u64 = (crit * (crit_percent as u64)) / 100;
        let attack_time_res: u64 = ((self.base.properties.attack_time as u64) * 100) / (
        attack_speed_percent as u64);

        Properties {
            quality: quality as u8,
            armour: armour_res as i32,
            evasion: evasion_res as i32,
            energy_shield: energy_shield_res as i32,
            block: block as u8,
            attack_time: attack_time_res as i32,
            critical_strike_chance: crit_res as i32,
            physical_damage_min: pd_min_res as i32,
            physical_damage_max: pd_max_res as i32,
        }
    }

    /// Decides, for any item, whether the aggregation side conditions
    /// hold, so that `properties` and `display` may be called on it.
    pub fn aggregation_fits_check(&self) -> (r: bool)
        ensures
            r == aggregation_fits(*self),
    {
        let mut total: u128 = 0;
        let mut ei: usize = 0;
        proof {
            assert(self.explicits@.take(0) =~= Seq::<ModInstance>::empty());
        }
        while ei < self.explicits.len()
            invariant
                ei <= self.explicits@.len(),
                total == stats_of_explicits(self.explicits@.take(ei as int)).len(),
                total <= 0x4000_0000,
            decreases self.explicits@.len() - ei,
        {
            let e = &self.explicits[ei];
            let n: usize = if e.prototype.stats.len() <= e.rolls.len() {
                e.prototype.stats.len()
            } else {
                e.rolls.len()
            };
            proof {
                assert(n == inst_stats(self.explicits@[ei as int]).len());
                assert(self.explicits@.take(ei as int + 1).drop_last() =~= self.explicits@.take(
                    ei as int,
                ));
                assert(self.explicits@.take(ei as int + 1).last() == self.explicits@[ei as int]);
            }
            let next: u128 = total + n as u128;
            if next > 0x4000_0000 {
                proof {
                    lemma_stats_take_le(self.explicits@, ei as int + 1);
                }
                return false;
            }
            total = next;
            ei += 1;
        }
        proof {
            assert(self.explicits@.take(self.explicits@.len() as int) =~= self.explicits@);
        }

        let t = self.accumulate();
        let m: i64 = 0x7FFF_FFFF;
        if !(0 <= t.armour && t.armour <= m) {
            return false;
        }
        if !(0 <= t.evasion && t.evasion <= m) {
            return false;
        }
        if !(0 <= t.energy_shield && t.energy_shield <= m) {
            return false;
        }
        if !(0 <= t.pd_min && t.pd_min <= m) {
            return false;
        }
        if !(0 <= t.pd_max && t.pd_max <= m) {
            return false;
        }
        if self.base.properties.attack_time < 0 {
            return false;
        }
        if self.base.properties.critical_strike_chance < 0 {
            return false;
        }
        if !(0 <= t.quality && t.quality <= 255) {
            return false;
        }
        if !(0 <= t.block && t.block <= 255) {
            return false;
        }
        if !(0 <= t.armour_percent && t.armour_percent <= m) {
            return false;
        }
        if !(0 <= t.evasion_percent && t.evasion_percent <= m) {
            return false;
        }
        if !(0 <= t.energy_shield_percent && t.energy_shield_percent <= m) {
            return false;
        }
        if !(0 <= t.pdamage_percent && t.pdamage_percent <= m) {
            return false;
        }
        if !(0 <= t.crit_percent && t.crit_percent <= m) {
            return false;
        }
        if !(1 <= t.attack_speed_percent && t.attack_speed_percent <= m) {
            return false;
        }
        let mu: u64 = 0x7FFF_FFFF;
        assert((t.armour as u64) * (t.armour_percent as u64) <= mu * mu) by (nonlinear_arith)
            requires
                0 <= t.armour <= mu && 0 <= t.armour_percent <= mu,
        ;
        if ((t.armour as u64) * (t.armour_percent as u64)) / 100 > mu {
            return false;
        }
        assert((t.evasion as u64) * (t.evasion_percent as u64) <= mu * mu) by (nonlinear_arith)
            requires
                0 <= t.evasion <= mu && 0 <= t.evasion_percent <= mu,
        ;
        if ((t.evasion as u64) * (t.evasion_percent as u64)) / 100 > mu {
            return false;
        }
        assert((t.energy_shield as u64) * (t.energy_shield_percent as u64) <= mu * mu)
            by (nonlinear_arith)
            requires
                0 <= t.energy_shield <= mu && 0 <= t.energy_shield_percent <= mu,
        ;
        if ((t.energy_shield as u64) * (t.energy_shield_percent as u64)) / 100 > mu {
            return false;
        }
        assert((t.pd_min as u64) * (t.pdamage_percent as u64) <= mu * mu) by (nonlinear_arith)
            requires
                0 <= t.pd_min <= mu && 0 <= t.pdamage_percent <= mu,
        ;
        if ((t.pd_min as u64) * (t.pdamage_percent as u64)) / 100 > mu {
            return false;
        }
        assert((t.pd_max as u64) * (t.pdamage_percent as u64) <= mu * mu) by (nonlinear_arith)
            requires
                0 <= t.pd_max <= mu && 0 <= t.pdamage_percent <= mu,
        ;
        if ((t.pd_max as u64) * (t.pdamage_percent as u64)) / 100 > mu {
            return false;
        }
        let crit: u64 = self.base.properties.critical_strike_chance as u64;
        assert(crit * (t.crit_percent as u64) <= mu * mu) by (nonlinear_arith)
            requires
                0 <= crit <= mu && 0 <= t.crit_percent <= mu,
        ;
        if (crit * (t.crit_percent as u64)) / 100 > mu {
            return false;
        }
        if ((self.base.properties.attack_time as u64) * 100) / (t.attack_speed_percent as u64)
            > mu {
            return false;
        }
        true
    }

    /// How many explicits of the given generation type the item carries.
    pub fn count_generation_type(&self, t: GenType) -> (r: usize)
        ensures
            r == count_type(self.explicits@, t),
    {
        let mut cnt: usize = 0;
        let mut i: usize = 0;
        while i < self.explicits.len()
            invariant
                i <= self.explicits@.len(),
                cnt <= i,
                cnt == count_type(self.explicits@.take(i as int), t),
            decreases self.explicits@.len() - i,
        {
            proof {
                assert(self.explicits@.take(i as int + 1).drop_last() =~= self.explicits@.take(
                    i as int,
                ));
                assert(self.explicits@.take(i as int + 1).last() == self.explicits@[i as int]);
            }
            if self.explicits[i].prototype.generation_type == t {
                cnt += 1;
            }
            i += 1;
        }
        proof {
            assert(self.explicits@.take(self.explicits@.len() as int) =~= self.explicits@);
        }
        cnt
    }

    /// Builds the per-draw query context from the item's current state.
    pub fn make_scale(&self, target_rarity: Rarity) -> (r: Scale<'a>)
        ensures
            r.open_prefix == open_slot(*self, target_rarity, GenType::Prefix),
            r.open_suffix == open_slot(*self, target_rarity, GenType::Suffix),
            r.domain == self.base.domain,
            r.item_level == self.item_level,
            strs(r.groups@) == groups_of(self.explicits@),
            strs(r.tags@) == tags_spec(*self),
    {
        let jewel = str_eq(self.base.item_class.as_str(), "Jewel") || str_eq(
            self.base.item_class.as_str(),
            "AbyssJewel",
        );
        let affixlimit: usize = if target_rarity == Rarity::Magic {
            1
        } else if target_rarity == Rarity::Rare {
            if jewel {
                2
            } else {
                3
            }
        } else {
            0
        };
        assert(affixlimit == affix_limit(target_rarity, self.base.item_class@));

        let mut groups: Vec<&'a str> = Vec::new();
        let mut i: usize = 0;
        while i < self.explicits.len()
            invariant
                i <= self.explicits@.len(),
                groups@.len() == i,
                forall|j: int| 0 <= j < i ==> strs(groups@)[j] == groups_of(self.explicits@)[j],
            decreases self.explicits@.len() - i,
        {
            let ghost g0 = groups@;
            groups.push(self.explicits[i].prototype.group.as_str());
            proof {
                assert(strs(groups@) =~= strs(g0).push(self.explicits@[i as int].prototype.group@));
            }
            i += 1;
        }
        proof {
            assert(strs(groups@) =~= groups_of(self.explicits@));
        }

        let mut tags: Vec<&'a str> = Vec::new();
        let mut ei: usize = 0;
        while ei < self.explicits.len()
            invariant
                ei <= self.explicits@.len(),
                strs(tags@) =~= added_tags(self.explicits@.take(ei as int)),
            decreases self.explicits@.len() - ei,
        {
            let e = &self.explicits[ei];
            let mut si: usize = 0;
            while si < e.prototype.adds_tags.len()
                invariant
                    si <= e.prototype.adds_tags@.len(),
                    ei < self.explicits@.len(),
                    *e == self.explicits@[ei as int],
                    strs(tags@) =~= added_tags(self.explicits@.take(ei as int)) + strings(
                        e.prototype.adds_tags@.take(si as int),
                    ),
                decreases e.prototype.adds_tags@.len() - si,
            {
                let ghost t0 = tags@;
                tags.push(e.prototype.adds_tags[si].as_str());
                proof {
                    assert(strs(tags@) =~= strs(t0).push(e.prototype.adds_tags@[si as int]@));
                    assert(e.prototype.adds_tags@.take(si as int + 1) =~= e.prototype.adds_tags@
                        .take(si as int).push(e.prototype.adds_tags@[si as int]));
                    assert(strings(
                        e.prototype.adds_tags@.take(si as int).push(
                            e.prototype.adds_tags@[si as int],
                        ),
                    ) =~= strings(e.prototype.adds_tags@.take(si as int)).push(
                        e.prototype.adds_tags@[si as int]@,
                    ));
                }
                si += 1;
            }
            proof {
                assert(e.prototype.adds_tags@.take(e.prototype.adds_tags@.len() as int)
                    =~= e.prototype.adds_tags@);
                assert(self.explicits@.take(ei as int + 1).drop_last() =~= self.explicits@.take(
                    ei as int,
                ));
                assert(self.explicits@.take(ei as int + 1).last() == self.explicits@[ei as int]);
            }
            ei += 1;
        }
        proof {
            assert(self.explicits@.take(self.explicits@.len() as int) =~= self.explicits@);
        }
        let mut bi: usize = 0;
        while bi < self.base.tags.len()
            invariant
                bi <= self.base.tags@.len(),
                strs(tags@) =~= added_tags(self.explicits@) + strings(
                    self.base.tags@.take(bi as int),
                ),
            decreases self.base.tags@.len() - bi,
        {
            let ghost t0 = tags@;
            tags.push(self.base.tags[bi].as_str());
            proof {
                assert(strs(tags@) =~= strs(t0).push(self.base.tags@[bi as int]@));
                assert(self.base.tags@.take(bi as int + 1) =~= self.base.tags@.take(
                    bi as int,
                ).push(self.base.tags@[bi as int]));
                assert(strings(
                    self.base.tags@.take(bi as int).push(self.base.tags@[bi as int]),
                ) =~= strings(self.base.tags@.take(bi as int)).push(
                    self.base.tags@[bi as int]@,
                ));
            }
            bi += 1;
        }
        proof {
            assert(self.base.tags@.take(self.base.tags@.len() as int) =~= self.base.tags@);
        }

        Scale {
            open_prefix: self.count_generation_type(GenType::Prefix) < affixlimit,
            open_suffix: self.count_generation_type(GenType::Suffix) < affixlimit,
            domain: self.base.domain,
            item_level: self.item_level,
            groups,
            tags,
        }
    }

    /// How many explicits a fresh roll of the given rarity and item class
    /// receives: none for Normal, one or two for Magic, three or four for
    /// Rare jewels, four to six for other Rare items.
    pub fn roll_mod_count(rarity: Rarity, item_class: &str) -> (r: usize)
        ensures
            rarity == Rarity::Magic ==> 1 <= r <= 2,
            rarity == Rarity::Rare && jewel_class(item_class@) ==> 3 <= r <= 4,
            rarity == Rarity::Rare && !jewel_class(item_class@) ==> 4 <= r <= 6,
            rarity != Rarity::Magic && rarity != Rarity::Rare ==> r == 0,
    {
        if rarity == Rarity::Magic {
            if rand::random::<bool>() {
                1
            } else {
                2
            }
        } else if rarity == Rarity::Rare {
            let jewel = str_eq(item_class, "Jewel") || str_eq(item_class, "AbyssJewel");
            if jewel {
                let mut ws: Vec<u64> = Vec::new();
                ws.push(13);
                ws.push(7);
                assert(ws@.len() == 2 && ws@[0] == 13);
                sample_weighted(&ws) + 3
            } else {
                let mut ws: Vec<u64> = Vec::new();
                ws.push(8);
                ws.push(3);
                ws.push(1);
                assert(ws@.len() == 3 && ws@[0] == 8);
                sample_weighted(&ws) + 4
            }
        } else {
            0
        }
    }

    /// Draws one eligible modifier in proportion to its weight, rolls its
    /// stats, and appends the instance. Fails exactly when every candidate's
    /// weight is zero.
    pub fn add_mod(&mut self, mods: &'a Vec<Mod>, target_rarity: Rarity) -> (r: Result<
        (),
        CraftError,
    >)
        requires
            catalog_usable(mods@),
        ensures
            match r {
                Ok(()) => {
                    &&& final(self).explicits@.len() == old(self).explicits@.len() + 1
                    &&& final(self).explicits@.drop_last() == old(self).explicits@
                    &&& inst_wf(final(self).explicits@.last())
                    &&& draw_weight(
                        *old(self),
                        target_rarity,
                        *final(self).explicits@.last().prototype,
                    ) > 0
                    &&& exists|k: int|
                        0 <= k < mods@.len() && *final(self).explicits@.last().prototype
                            == mods@[k]
                    &&& final(self).base == old(self).base
                    &&& final(self).name == old(self).name
                    &&& final(self).item_level == old(self).item_level
                    &&& final(self).rarity == old(self).rarity
                    &&& final(self).quality == old(self).quality
                },
                Err(e) => {
                    &&& e == CraftError::NoEligibleModifier
                    &&& *final(self) == *old(self)
                    &&& forall|k: int|
                        0 <= k < mods@.len() ==> draw_weight(
                            *old(self),
                            target_rarity,
                            mods@[k],
                        ) == 0
                },
            },
    {
        let scale = self.make_scale(target_rarity);
        let mut ws: Vec<u64> = Vec::new();
        let mut any = false;
        let mut k: usize = 0;
        while k < mods.len()
            invariant
                k <= mods@.len(),
                ws@.len() == k,
                catalog_usable(mods@),
                forall|j: int|
                    0 <= j < k ==> #[trigger] ws@[j] == draw_weight(*self, target_rarity, mods@[j]),
                forall|j: int| 0 <= j < k ==> #[trigger] ws@[j] <= u32::MAX,
                any <==> exists|j: int| 0 <= j < k && ws@[j] > 0,
                scale.open_prefix == open_slot(*self, target_rarity, GenType::Prefix),
                scale.open_suffix == open_slot(*self, target_rarity, GenType::Suffix),
                scale.domain == self.base.domain,
                scale.item_level == self.item_level,
                strs(scale.groups@) == groups_of(self.explicits@),
                strs(scale.tags@) == tags_spec(*self),
            decreases mods@.len() - k,
        {
            let w = scale.mod_weight(&mods[k]);
            if w > 0 {
                any = true;
            }
            let ghost w0 = ws@;
            ws.push(w as u64);
            proof {
                assert(ws@ =~= w0.push(w as u64));
                if w > 0 {
                    assert(ws@[k as int] > 0);
                } else if any {
                    let j0 = choose|j: int| 0 <= j < k && w0[j] > 0;
                    assert(ws@[j0] > 0);
                } else {
                    assert(forall|j: int| 0 <= j < k + 1 && #[trigger] ws@[j] > 0 ==> 0 <= j < k
                        && w0[j] > 0);
                }
            }
            k += 1;
        }
        if !any {
            proof {
                assert forall|j: int| 0 <= j < mods@.len() implies draw_weight(
                    *old(self),
                    target_rarity,
                    mods@[j],
                ) == 0 by {
                    assert(ws@[j] == draw_weight(*self, target_rarity, mods@[j]));
                    assert(!(ws@[j] > 0));
                }
            }
            return Err(CraftError::NoEligibleModifier);
        }
        let idx = sample_weighted(&ws);
        let chosen: &Mod = &mods[idx];
        let inst = chosen.generate();
        proof {
            assert(self.explicits@.push(inst).drop_last() =~= self.explicits@);
        }
        self.explicits.push(inst);
        Ok(())
    }

    /// Upgrades a Normal item to Rare, drawing a Rare number of explicits
    /// for its class; any other rarity is left untouched. Every appended
    /// explicit is an instance of a catalog modifier whose weight was
    /// positive under the scale rebuilt from the item state before its
    /// draw. Failure comes exactly when every candidate's weight is zero
    /// at some draw; the item then keeps its rarity and the explicits
    /// drawn before the failing draw.
    pub fn apply_alchemy(&mut self, mods: &'a Vec<Mod>) -> (r: Result<(), CraftError>)
        requires
            catalog_usable(mods@),
        ensures
            old(self).rarity != Rarity::Normal ==> r == Ok::<(), CraftError>(()) && *final(self)
                == *old(self),
            final(self).base == old(self).base && final(self).name == old(self).name && final(self).item_level == old(self).item_level && final(self).quality == old(self).quality,
            old(self).explicits@.len() <= final(self).explicits@.len(),
            forall|j: int|
                0 <= j < old(self).explicits@.len() ==> final(self).explicits@[j] == old(self).explicits@[j],
            forall|j: int|
                old(self).explicits@.len() <= j < final(self).explicits@.len() ==> inst_wf(
                    #[trigger] final(self).explicits@[j],
                ),
            groups_distinct(old(self).explicits@) ==> groups_distinct(final(self).explicits@),
            count_type(final(self).explicits@, GenType::Prefix) <= vstd::math::max(
                count_type(old(self).explicits@, GenType::Prefix),
                affix_limit(Rarity::Rare, old(self).base.item_class@),
            ),
            count_type(final(self).explicits@, GenType::Suffix) <= vstd::math::max(
                count_type(old(self).explicits@, GenType::Suffix),
                affix_limit(Rarity::Rare, old(self).base.item_class@),
            ),
            old(self).rarity == Rarity::Normal && r is Ok ==> {
                &&& final(self).rarity == Rarity::Rare
                &&& {
                    let n = final(self).explicits@.len() - old(self).explicits@.len();
                    if jewel_class(old(self).base.item_class@) {
                        3 <= n <= 4
                    } else {
                        4 <= n <= 6
                    }
                }
            },
            forall|j: int|
                old(self).explicits@.len() <= j < final(self).explicits@.len() ==> (exists|k: int|
                    0 <= k < mods@.len() && *(#[trigger] final(self).explicits@[j]).prototype
                        == mods@[k]) && draw_weight_at(
                    *old(self).base,
                    old(self).item_level,
                    final(self).explicits@.take(j),
                    Rarity::Rare,
                    *final(self).explicits@[j].prototype,
                ) > 0,
            r is Err ==> old(self).rarity == Rarity::Normal && final(self).rarity
                == Rarity::Normal && forall|k: int|
                0 <= k < mods@.len() ==> draw_weight(*final(self), Rarity::Rare, mods@[k]) == 0,
    {
        if !(self.rarity == Rarity::Normal) {
            return Ok(());
        }

        let explicit_count = Item::roll_mod_count(Rarity::Rare, self.base.item_class.as_str());

        let mut i: usize = 0;
        while i < explicit_count
            invariant
                i <= explicit_count,
                catalog_usable(mods@),
                old(self).rarity == Rarity::Normal,
                jewel_class(self.base.item_class@) ==> 3 <= explicit_count <= 4,
                !jewel_class(self.base.item_class@) ==> 4 <= explicit_count <= 6,
                self.base == old(self).base,
                self.name == old(self).name,
                self.item_level == old(self).item_level,
                self.rarity == old(self).rarity,
                self.quality == old(self).quality,
                self.explicits@.len() == old(self).explicits@.len() + i,
                forall|j: int|
                    0 <= j < old(self).explicits@.len() ==> self.explicits@[j] == old(self).explicits@[j],
                forall|j: int|
                    old(self).explicits@.len() <= j < self.explicits@.len() ==> inst_wf(
                        #[trigger] self.explicits@[j],
                    ),
                groups_distinct(old(self).explicits@) ==> groups_distinct(self.explicits@),
                count_type(self.explicits@, GenType::Prefix) <= vstd::math::max(
                    count_type(old(self).explicits@, GenType::Prefix),
                    affix_limit(Rarity::Rare, self.base.item_class@),
                ),
                count_type(self.explicits@, GenType::Suffix) <= vstd::math::max(
                    count_type(old(self).explicits@, GenType::Suffix),
                    affix_limit(Rarity::Rare, self.base.item_class@),
                ),
                forall|j: int|
                    old(self).explicits@.len() <= j < self.explicits@.len() ==> (exists|k: int|
                        0 <= k < mods@.len() && *(#[trigger] self.explicits@[j]).prototype
                            == mods@[k]) && draw_weight_at(
                        *old(self).base,
                        old(self).item_level,
                        self.explicits@.take(j),
                        Rarity::Rare,
                        *self.explicits@[j].prototype,
                    ) > 0,
            decreases explicit_count - i,
        {
            let ghost before = *self;
            match self.add_mod(mods, Rarity::Rare) {
                Ok(()) => {
                    proof {
                        let e = self.explicits@.last();
                        let ol = old(self).explicits@.len() as int;
                        let bl = before.explicits@.len() as int;
                        assert(self.explicits@ =~= before.explicits@.push(e));
                        lemma_count_push(before.explicits@, e, GenType::Prefix);
                        lemma_count_push(before.explicits@, e, GenType::Suffix);
                        if groups_distinct(old(self).explicits@) {
                            lemma_distinct_push(before.explicits@, e);
                        }
                        assert(self.explicits@.take(bl) =~= before.explicits@);
                        assert(self.explicits@[bl] == e);
                        assert(draw_weight(before, Rarity::Rare, *e.prototype) > 0);
                        assert forall|j: int|
                            ol <= j < bl implies (exists|k: int|
                                0 <= k < mods@.len()
                                    && *(#[trigger] self.explicits@[j]).prototype == mods@[k])
                                && draw_weight_at(
                                *old(self).base,
                                old(self).item_level,
                                self.explicits@.take(j),
                                Rarity::Rare,
                                *self.explicits@[j].prototype,
                            ) > 0 by {
                            assert(self.explicits@.take(j) =~= before.explicits@.take(j));
                            assert(self.explicits@[j] == before.explicits@[j]);
                        }
                    }
                },
                Err(err) => {
                    return Err(err);
                },
            }
            i += 1;
        }

        self.rarity = Rarity::Rare;
        Ok(())
    }


    /// Appends the heading of the display block.
    fn push_header(&self, out: &mut String)
        ensures
            final(out)@ == old(out)@ + header_text(*self),
    {
        let ghost o0 = out@;
        out.append("Rarity: ");
        match self.rarity {
            Rarity::Normal => out.append("Normal"),
            Rarity::Magic => out.append("Magic"),
            Rarity::Rare => out.append("Rare"),
            Rarity::Unique => out.append("Unique"),
        }
        out.append("\n");
        out.append(self.name.as_str());
        out.append("\n");
        out.append("--------\n");
        out.append(self.base.item_class.as_str());
        out.append("\n");
        proof {
            assert(out@ =~= o0 + header_text(*self));
        }
    }

    /// Appends the defence lines.
    #[verifier::rlimit(100)]
    fn push_defences(&self, props: &Properties, out: &mut String)
        requires
            props.quality == quality_total(*self),
            props.armour == armour_resolved(*self),
            props.evasion == evasion_resolved(*self),
            props.energy_shield == energy_shield_resolved(*self),
            props.block == block_total(*self),
        ensures
            final(out)@ == old(out)@ + defence_text(*self),
    {
        let ghost mut expect = old(out)@;
        if props.block != 0 {
            out.append("Chance to Block: ");
            let s = i32_to_string(props.block as i32);
            out.append(s.as_str());
            out.append("%\n");
        }
        proof {
            expect = expect + (if block_total(*self) != 0 {
                "Chance to Block: "@ + dec_i32(block_total(*self)) + "%\n"@
            } else {
                Seq::<char>::empty()
            });
            assert(out@ =~= expect);
        }
        if props.armour != 0 {
            out.append("Armour: ");
            let s = i32_to_string(props.armour);
            out.append(s.as_str());
            out.append("\n");
        }
        proof {
            expect = expect + (if armour_resolved(*self) != 0 {
                "Armour: "@ + dec_i32(armour_resolved(*self)) + "\n"@
            } else {
                Seq::<char>::empty()
            });
            assert(out@ =~= expect);
        }
        if props.evasion != 0 {
            out.append("Evasion: ");
            let s = i32_to_string(props.evasion);
            out.append(s.as_str());
            out.append("\n");
        }
        proof {
            expect = expect + (if evasion_resolved(*self) != 0 {
                "Evasion: "@ + dec_i32(evasion_resolved(*self)) + "\n"@
            } else {
                Seq::<char>::empty()
            });
            assert(out@ =~= expect);
        }
        if props.energy_shield != 0 {
            out.append("Energy Shield: ");
            let s = i32_to_string(props.energy_shield);
            out.append(s.as_str());
            out.append("\n");
        }
        proof {
            expect = expect + (if energy_shield_resolved(*self) != 0 {
                "Energy Shield: "@ + dec_i32(energy_shield_resolved(*self)) + "\n"@
            } else {
                Seq::<char>::empty()
            });
            assert(out@ =~= expect);
        }
        proof {
            assert(out@ =~= old(out)@ + defence_text(*self));
        }
    }

    /// Appends the damage and speed lines.
    #[verifier::rlimit(100)]
    fn push_offences(&self, props: &Properties, out: &mut String)
        requires
            props.attack_time == attack_time_resolved(*self),
            props.critical_strike_chance == crit_resolved(*self),
            props.physical_damage_min == pd_min_resolved(*self),
            props.physical_damage_max == pd_max_resolved(*self),
            0 <= props.attack_time,
            0 <= props.critical_strike_chance,
        ensures
            final(out)@ == old(out)@ + offence_text(*self),
    {
        let ghost mut expect = old(out)@;
        if props.physical_damage_max != 0 {
            out.append("Physical Damage: ");
            let smin = i32_to_string(props.physical_damage_min);
            out.append(smin.as_str());
            out.append("-");
            let smax = i32_to_string(props.physical_damage_max);
            out.append(smax.as_str());
            out.append("\n");
        }
        proof {
            expect = expect + (if pd_max_resolved(*self) != 0 {
                "Physical Damage: "@ + dec_i32(pd_min_resolved(*self)) + "-"@ + dec_i32(
                    pd_max_resolved(*self),
                ) + "\n"@
            } else {
                Seq::<char>::empty()
            });
            assert(out@ =~= expect);
        }
        if props.critical_strike_chance != 0 {
            out.append("Critical Strike Chance: ");
            push_two_dec(out, props.critical_strike_chance);
            out.append("\n");
        }
        proof {
            expect = expect + (if crit_resolved(*self) != 0 {
                "Critical Strike Chance: "@ + two_dec(crit_resolved(*self)) + "\n"@
            } else {
                Seq::<char>::empty()
            });
            assert(out@ =~= expect);
        }
        if props.attack_time != 0 {
            out.append("Attacks per Second: ");
            let at = props.attack_time as u64;
            let v = (200000 / at + 1) / 2;
            assert(v as int == aps_hundredths(*self));
            push_two_dec(out, v as i32);
            out.append("\n");
        }
        proof {
            expect = expect + (if attack_time_resolved(*self) != 0 {
                "Attacks per Second: "@ + two_dec(aps_hundredths(*self)) + "\n"@
            } else {
                Seq::<char>::empty()
            });
            assert(out@ =~= expect);
        }
        proof {
            assert(out@ =~= old(out)@ + offence_text(*self));
        }
    }

    /// Appends each nonzero resolved property on its own line.
    fn push_props(&self, out: &mut String)
        requires
            aggregation_fits(*self),
        ensures
            final(out)@ == old(out)@ + props_text(*self),
    {
        let ghost o0 = out@;
        let props = self.properties();
        proof {
            let cf = self.base.properties.critical_strike_chance as int;
            let cp = crit_pct(*self);
            assert(cf * cp >= 0) by (nonlinear_arith)
                requires
                    cf >= 0 && cp >= 0,
            ;
            assert(crit_resolved(*self) >= 0);
            assert(attack_time_resolved(*self) >= 0);
        }
        self.push_defences(&props, out);
        self.push_offences(&props, out);
        proof {
            assert(out@ =~= o0 + props_text(*self));
        }
    }

    /// The item's display block: the text to print, and the stat ids the
    /// description catalog could not map, in the order they were met.
    #[verifier::rlimit(100)]
    pub fn display(&self, md: &ModDescriber) -> (r: (String, Vec<String>))
        requires
            aggregation_fits(*self),
            describer_wf(md.descriptions@),
        ensures
            r.0@ == display_spec(*self, md.descriptions@),
            strings(r.1@) == explicits_unmapped(md.descriptions@, self.explicits@),
    {
        let ghost descs = md.descriptions@;
        let mut out = String::new();
        self.push_header(&mut out);
        self.push_props(&mut out);
        let ghost mut expect = header_text(*self) + props_text(*self);
        assert(out@ =~= expect);
        out.append("--------\n");
        out.append("Item Level: ");
        let lv = i32_to_string(self.item_level as i32);
        out.append(lv.as_str());
        out.append("\n");
        proof {
            expect = expect + "--------\n"@ + "Item Level: "@ + dec_i32(self.item_level as int)
                + "\n"@;
            assert(out@ =~= expect);
        }

        let mut unmapped: Vec<String> = Vec::new();
        if self.explicits.len() > 0 {
            out.append("--------\n");
            let ghost before = expect + "--------\n"@;
            let mut i: usize = 0;
            proof {
                assert(self.explicits@.take(0) =~= Seq::<ModInstance>::empty());
                assert(out@ =~= before + explicits_text(descs, self.explicits@.take(0)));
                assert(strings(unmapped@) =~= explicits_unmapped(
                    descs,
                    self.explicits@.take(0),
                ));
            }
            while i < self.explicits.len()
                invariant
                    i <= self.explicits@.len(),
                    descs == md.descriptions@,
                    describer_wf(descs),
                    out@ =~= before + explicits_text(descs, self.explicits@.take(i as int)),
                    strings(unmapped@) =~= explicits_unmapped(
                        descs,
                        self.explicits@.take(i as int),
                    ),
                decreases self.explicits@.len() - i,
            {
                let d = md.describe(&self.explicits[i]);
                out.append(d.0.as_str());
                let mut k: usize = 0;
                let ghost u0 = strings(unmapped@);
                while k < d.1.len()
                    invariant
                        k <= d.1@.len(),
                        strings(unmapped@) =~= u0 + strings(d.1@.take(k as int)),
                    decreases d.1@.len() - k,
                {
                    let ghost un0 = unmapped@;
                    let c = d.1[k].clone();
                    assert(c@ == d.1@[k as int]@);
                    unmapped.push(c);
                    proof {
                        assert(strings(unmapped@) =~= strings(un0).push(d.1@[k as int]@));
                        assert(d.1@.take(k as int + 1) =~= d.1@.take(k as int).push(
                            d.1@[k as int],
                        ));
                        assert(strings(d.1@.take(k as int).push(d.1@[k as int])) =~= strings(
                            d.1@.take(k as int),
                        ).push(d.1@[k as int]@));
                    }
                    k += 1;
                }
                proof {
                    assert(d.1@.take(d.1@.len() as int) =~= d.1@);
                    assert(self.explicits@.take(i as int + 1).drop_last() =~= self.explicits@
                        .take(i as int));
                    assert(self.explicits@.take(i as int + 1).last()
                        == self.explicits@[i as int]);
                }
                i += 1;
            }
            proof {
                assert(self.explicits@.take(self.explicits@.len() as int) =~= self.explicits@);
                expect = expect + (if self.explicits@.len() > 0 {
                    "--------\n"@ + explicits_text(descs, self.explicits@)
                } else {
                    Seq::<char>::empty()
                });
                assert(out@ =~= expect);
            }
        } else {
            proof {
                expect = expect + (if self.explicits@.len() > 0 {
                    "--------\n"@ + explicits_text(descs, self.explicits@)
                } else {
                    Seq::<char>::empty()
                });
                assert(out@ =~= expect);
                assert(self.explicits@.take(0) =~= self.explicits@);
                assert(strings(unmapped@) =~= explicits_unmapped(descs, self.explicits@));
            }
        }
        proof {
            assert(expect == display_spec(*self, descs));
        }
        (out, unmapped)
    }
}

} // verus!
