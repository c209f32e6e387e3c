use crafting::item::{Base, CraftError, Item, Properties, Quality, QualityKind, Rarity, Scale};
use crafting::mod_describer::{ModDescriber, Range, StatDescription, StatWording};
use crafting::mods::{Domain, GenType, Mod, SpawnWeight, Stat};

fn props(armour: i32, attack_time: i32) -> Properties {
    Properties {
        quality: 0,
        armour,
        evasion: 0,
        energy_shield: 0,
        block: 0,
        attack_time,
        critical_strike_chance: 0,
        physical_damage_min: 0,
        physical_damage_max: 0,
    }
}

fn base(item_class: &str, tags: Vec<&str>, properties: Properties) -> Base<'static> {
    Base {
        domain: Domain::Item,
        item_class: item_class.to_string(),
        tags: tags.into_iter().map(|t| t.to_string()).collect(),
        name: "Test Base".to_string(),
        properties,
        implicits: vec![],
        requirements: None,
        inventory_width: 1,
        inventory_height: 1,
    }
}

fn simple_mod(
    group: &str,
    generation_type: GenType,
    tag: &str,
    weight: u32,
    stats: Vec<(&str, i32, i32)>,
) -> Mod {
    Mod {
        name: format!("mod_{}", group),
        adds_tags: vec![],
        domain: Domain::Item,
        generation_type,
        group: group.to_string(),
        generation_weights: vec![],
        spawn_weights: vec![SpawnWeight { tag: tag.to_string(), weight }],
        grants_buff: None,
        grants_effects: vec![],
        stats: stats
            .into_iter()
            .map(|(id, min, max)| Stat { id: id.to_string(), min, max })
            .collect(),
        required_level: 0,
        type_id: "t".to_string(),
    }
}

fn item<'a>(b: &'a Base<'a>, rarity: Rarity) -> Item<'a> {
    Item {
        base: b,
        explicits: vec![],
        name: "Test Item".to_string(),
        item_level: 1,
        rarity,
        quality: Quality { amount: 0, kind: QualityKind::Normal },
    }
}

fn catalog() -> Vec<Mod> {
    vec![
        simple_mod("ArmourFlat", GenType::Prefix, "default", 50, vec![(
            "local_base_physical_damage_reduction_rating",
            10,
            20,
        )]),
        simple_mod("ArmourPct", GenType::Prefix, "default", 50, vec![(
            "local_physical_damage_reduction_rating_+%",
            5,
            15,
        )]),
        simple_mod("EvasionFlat", GenType::Prefix, "default", 50, vec![(
            "local_base_evasion_rating",
            10,
            20,
        )]),
        simple_mod("Speed", GenType::Suffix, "default", 50, vec![(
            "local_attack_speed_+%",
            3,
            8,
        )]),
        simple_mod("Crit", GenType::Suffix, "default", 50, vec![(
            "local_critical_strike_chance_+%",
            10,
            30,
        )]),
        simple_mod("Shield", GenType::Suffix, "default", 50, vec![("local_energy_shield", 5, 9)]),
    ]
}

#[test]
fn magic_mod_counts_are_one_or_two() {
    let mut saw_one = false;
    let mut saw_two = false;
    for _ in 0..300 {
        let n = Item::roll_mod_count(Rarity::Magic, "Two Hand Sword");
        assert!(n == 1 || n == 2);
        if n == 1 {
            saw_one = true;
        }
        if n == 2 {
            saw_two = true;
        }
    }
    assert!(saw_one && saw_two);
}

#[test]
fn rare_mod_counts_favour_four() {
    let mut counts = [0usize; 7];
    for _ in 0..3000 {
        let n = Item::roll_mod_count(Rarity::Rare, "Two Hand Sword");
        assert!((4..=6).contains(&n));
        counts[n] += 1;
    }
    assert!(counts[4] > counts[5]);
    assert!(counts[5] > counts[6]);
}

#[test]
fn rare_jewel_mod_counts() {
    for _ in 0..200 {
        let n = Item::roll_mod_count(Rarity::Rare, "Jewel");
        assert!(n == 3 || n == 4);
    }
    let n = Item::roll_mod_count(Rarity::Normal, "Jewel");
    assert_eq!(n, 0);
}

#[test]
fn generated_items_have_distinct_groups_and_limits() {
    let mods = catalog();
    let b = base("Two Hand Sword", vec!["default"], props(100, 1000));
    for _ in 0..50 {
        let mut it = item(&b, Rarity::Normal);
        it.apply_alchemy(&mods).unwrap();
        assert_eq!(it.rarity, Rarity::Rare);
        assert!((4..=6).contains(&it.explicits.len()));
        for i in 0..it.explicits.len() {
            for j in 0..i {
                assert_ne!(it.explicits[i].prototype.group, it.explicits[j].prototype.group);
            }
        }
        let prefixes = it
            .explicits
            .iter()
            .filter(|e| e.prototype.generation_type == GenType::Prefix)
            .count();
        let suffixes = it
            .explicits
            .iter()
            .filter(|e| e.prototype.generation_type == GenType::Suffix)
            .count();
        assert!(prefixes <= 3);
        assert!(suffixes <= 3);
    }
}

#[test]
fn rolled_stats_stay_in_declared_ranges() {
    let mods = catalog();
    let b = base("Two Hand Sword", vec!["default"], props(100, 1000));
    for _ in 0..50 {
        let mut it = item(&b, Rarity::Normal);
        it.apply_alchemy(&mods).unwrap();
        for e in &it.explicits {
            assert_eq!(e.rolls.len(), e.prototype.stats.len());
            for (roll, stat) in e.rolls.iter().zip(e.prototype.stats.iter()) {
                assert!(stat.min <= *roll && *roll <= stat.max);
            }
        }
    }
}

#[test]
fn generate_rolls_every_bound_inclusive() {
    let m = simple_mod("G", GenType::Prefix, "default", 10, vec![("some_stat", 3, 3)]);
    let inst = m.generate();
    assert_eq!(inst.rolls, vec![3]);
    let wide = simple_mod("W", GenType::Prefix, "default", 10, vec![("some_stat", 1, 2)]);
    let mut saw = [false; 3];
    for _ in 0..200 {
        let inst = wide.generate();
        saw[inst.rolls[0] as usize] = true;
    }
    assert!(saw[1] && saw[2]);
}

#[test]
fn weight_formula_default_and_generation_multiplier() {
    let scale = Scale {
        open_prefix: true,
        open_suffix: true,
        item_level: 10,
        domain: Domain::Item,
        groups: vec![],
        tags: vec!["default"],
    };
    let m = simple_mod("A", GenType::Prefix, "default", 20, vec![]);
    assert_eq!(scale.mod_weight(&m), 20);

    let mut m2 = simple_mod("A", GenType::Prefix, "default", 20, vec![]);
    m2.generation_weights = vec![SpawnWeight { tag: "default".to_string(), weight: 50 }];
    assert_eq!(scale.mod_weight(&m2), 10);
}

#[test]
fn weight_is_zero_when_ineligible() {
    let scale = Scale {
        open_prefix: false,
        open_suffix: true,
        item_level: 10,
        domain: Domain::Item,
        groups: vec!["Taken"],
        tags: vec!["default"],
    };
    let prefix = simple_mod("A", GenType::Prefix, "default", 20, vec![]);
    assert_eq!(scale.mod_weight(&prefix), 0);
    let taken = simple_mod("Taken", GenType::Suffix, "default", 20, vec![]);
    assert_eq!(scale.mod_weight(&taken), 0);
    let high_level = Mod { required_level: 60, ..simple_mod("B", GenType::Suffix, "default", 20, vec![]) };
    assert_eq!(scale.mod_weight(&high_level), 0);
    let wrong_tag = simple_mod("C", GenType::Suffix, "other", 20, vec![]);
    assert_eq!(scale.mod_weight(&wrong_tag), 0);
}

#[test]
fn alchemy_leaves_rare_and_unique_untouched() {
    let mods = catalog();
    let b = base("Two Hand Sword", vec!["default"], props(100, 1000));
    let mut rare = item(&b, Rarity::Rare);
    rare.apply_alchemy(&mods).unwrap();
    assert_eq!(rare.rarity, Rarity::Rare);
    assert!(rare.explicits.is_empty());
    let mut unique = item(&b, Rarity::Unique);
    unique.apply_alchemy(&mods).unwrap();
    assert_eq!(unique.rarity, Rarity::Unique);
    assert!(unique.explicits.is_empty());
}

#[test]
fn alchemy_fails_without_eligible_modifiers() {
    let mods = vec![simple_mod("A", GenType::Prefix, "unmatched_tag", 20, vec![])];
    let b = base("Two Hand Sword", vec!["default"], props(100, 1000));
    let mut it = item(&b, Rarity::Normal);
    let r = it.apply_alchemy(&mods);
    assert_eq!(r, Err(CraftError::NoEligibleModifier));
    assert_eq!(it.rarity, Rarity::Normal);
    assert!(it.explicits.is_empty());
}

#[test]
fn aggregation_combines_flat_and_percent_armour() {
    let flat = simple_mod("F", GenType::Prefix, "default", 10, vec![(
        "local_base_physical_damage_reduction_rating",
        50,
        50,
    )]);
    let pct = simple_mod("P", GenType::Prefix, "default", 10, vec![(
        "local_physical_damage_reduction_rating_+%",
        20,
        20,
    )]);
    let b = base("Body Armour", vec!["default"], props(100, 0));
    let mut it = item(&b, Rarity::Normal);
    it.quality = Quality { amount: 0, kind: QualityKind::Imbued };
    it.explicits.push(flat.generate());
    it.explicits.push(pct.generate());
    assert!(it.aggregation_fits_check());
    let p = it.properties();
    assert_eq!(p.armour, 180);
}

#[test]
fn aggregation_inverts_attack_time() {
    let speed = simple_mod("S", GenType::Suffix, "default", 10, vec![(
        "local_attack_speed_+%",
        20,
        20,
    )]);
    let b = base("Two Hand Sword", vec!["default"], props(0, 1000));
    let mut it = item(&b, Rarity::Normal);
    it.quality = Quality { amount: 0, kind: QualityKind::Imbued };
    it.explicits.push(speed.generate());
    assert!(it.aggregation_fits_check());
    let p = it.properties();
    assert_eq!(p.attack_time, 833);
}

#[test]
fn normal_quality_feeds_multipliers_and_imbued_does_not() {
    let b = base("Body Armour", vec!["default"], props(100, 0));
    let mut it = item(&b, Rarity::Normal);
    it.quality = Quality { amount: 20, kind: QualityKind::Normal };
    assert!(it.aggregation_fits_check());
    let p = it.properties();
    assert_eq!(p.quality, 20);
    assert_eq!(p.armour, 120);

    let mut imbued = item(&b, Rarity::Normal);
    imbued.quality = Quality { amount: 20, kind: QualityKind::Imbued };
    let p2 = imbued.properties();
    assert_eq!(p2.quality, 20);
    assert_eq!(p2.armour, 100);
}

fn armour_description() -> StatDescription {
    StatDescription {
        alternatives: vec![StatWording {
            condition: vec![Range { min: None, max: None }],
            format: vec!["#".to_string()],
            index_handlers: vec![vec![]],
            string: "+{0} to Armour".to_string(),
        }],
        ids: vec!["local_base_physical_damage_reduction_rating".to_string()],
    }
}

#[test]
fn description_substitutes_placeholder() {
    let descs = vec![armour_description()];
    let md = ModDescriber::new(&descs);
    let m = simple_mod("F", GenType::Prefix, "default", 10, vec![(
        "local_base_physical_damage_reduction_rating",
        50,
        50,
    )]);
    let inst = m.generate();
    let (text, unmapped) = md.describe(&inst);
    assert_eq!(text, "+50 to Armour\n");
    assert!(unmapped.is_empty());
}

#[test]
fn description_reports_unmapped_stats() {
    let descs = vec![armour_description()];
    let md = ModDescriber::new(&descs);
    let m = simple_mod("X", GenType::Prefix, "default", 10, vec![("unknown_stat", 7, 7)]);
    let inst = m.generate();
    let (text, unmapped) = md.describe(&inst);
    assert_eq!(text, "");
    assert_eq!(unmapped, vec!["unknown_stat".to_string()]);
}

#[test]
fn description_emits_error_marker_without_matching_alternative() {
    let descs = vec![StatDescription {
        alternatives: vec![StatWording {
            condition: vec![Range { min: Some(100), max: None }],
            format: vec!["#".to_string()],
            index_handlers: vec![vec![]],
            string: "+{0} to Armour".to_string(),
        }],
        ids: vec!["local_base_physical_damage_reduction_rating".to_string()],
    }];
    let md = ModDescriber::new(&descs);
    let m = simple_mod("F", GenType::Prefix, "default", 10, vec![(
        "local_base_physical_damage_reduction_rating",
        50,
        50,
    )]);
    let inst = m.generate();
    let (text, _) = md.describe(&inst);
    assert_eq!(text, "ERROR: None of the description alternatives match.\n");
}

#[test]
fn description_picks_first_matching_alternative_and_ignores_directive() {
    let descs = vec![StatDescription {
        alternatives: vec![
            StatWording {
                condition: vec![Range { min: None, max: Some(10) }],
                format: vec!["#".to_string()],
                index_handlers: vec![vec![]],
                string: "small {0}".to_string(),
            },
            StatWording {
                condition: vec![Range { min: Some(11), max: None }],
                format: vec!["ignore".to_string()],
                index_handlers: vec![vec![]],
                string: "large roll".to_string(),
            },
        ],
        ids: vec!["some_stat".to_string()],
    }];
    let md = ModDescriber::new(&descs);
    let small = simple_mod("A", GenType::Prefix, "default", 10, vec![("some_stat", 5, 5)]);
    let (text, _) = md.describe(&small.generate());
    assert_eq!(text, "small 5\n");
    let large = simple_mod("B", GenType::Prefix, "default", 10, vec![("some_stat", 50, 50)]);
    let (text2, _) = md.describe(&large.generate());
    assert_eq!(text2, "large roll\n");
}

#[test]
fn description_groups_multiple_stats_into_one_template() {
    let descs = vec![StatDescription {
        alternatives: vec![StatWording {
            condition: vec![Range { min: None, max: None }, Range { min: None, max: None }],
            format: vec!["#".to_string(), "#".to_string()],
            index_handlers: vec![vec![], vec![]],
            string: "Adds {0} to {1} Damage".to_string(),
        }],
        ids: vec!["dmg_min".to_string(), "dmg_max".to_string()],
    }];
    let md = ModDescriber::new(&descs);
    let m = simple_mod("D", GenType::Prefix, "default", 10, vec![
        ("dmg_min", 3, 3),
        ("dmg_max", 7, 7),
    ]);
    let (text, unmapped) = md.describe(&m.generate());
    assert_eq!(text, "Adds 3 to 7 Damage\n");
    assert!(unmapped.is_empty());
}

#[test]
fn display_renders_full_block() {
    let flat = simple_mod("F", GenType::Prefix, "default", 10, vec![(
        "local_base_physical_damage_reduction_rating",
        50,
        50,
    )]);
    let b = base("Body Armour", vec!["default"], props(100, 0));
    let mut it = item(&b, Rarity::Rare);
    it.quality = Quality { amount: 0, kind: QualityKind::Imbued };
    it.explicits.push(flat.generate());
    let descs = vec![armour_description()];
    let md = ModDescriber::new(&descs);
    assert!(it.aggregation_fits_check());
    let (text, unmapped) = it.display(&md);
    assert_eq!(
        text,
        "Rarity: Rare\nTest Item\n--------\nBody Armour\nArmour: 150\n--------\nItem Level: 1\n--------\n+50 to Armour\n"
    );
    assert!(unmapped.is_empty());
}

#[test]
fn display_shows_attacks_per_second() {
    let b = base("Two Hand Sword", vec!["default"], props(0, 800));
    let mut it = item(&b, Rarity::Normal);
    it.quality = Quality { amount: 0, kind: QualityKind::Imbued };
    let descs: Vec<StatDescription> = vec![];
    let md = ModDescriber::new(&descs);
    assert!(it.aggregation_fits_check());
    let (text, _) = it.display(&md);
    assert!(text.contains("Attacks per Second: 1.25\n"), "got: {}", text);
}

#[test]
fn fits_check_rejects_overflowing_aggregation() {
    let b = base("Body Armour", vec!["default"], props(i32::MAX, 0));
    let pct = simple_mod("P", GenType::Prefix, "default", 10, vec![(
        "local_physical_damage_reduction_rating_+%",
        400,
        400,
    )]);
    let mut it = item(&b, Rarity::Normal);
    it.quality = Quality { amount: 0, kind: QualityKind::Imbued };
    it.explicits.push(pct.generate());
    assert!(!it.aggregation_fits_check());
}

#[test]
fn jewel_items_respect_smaller_affix_limits() {
    let mut mods = catalog();
    mods.push(simple_mod("ExtraPrefix", GenType::Prefix, "default", 50, vec![(
        "local_base_physical_damage_reduction_rating",
        1,
        2,
    )]));
    mods.push(simple_mod("ExtraSuffix", GenType::Suffix, "default", 50, vec![(
        "local_attack_speed_+%",
        1,
        2,
    )]));
    let b = base("Jewel", vec!["default"], props(0, 0));
    for _ in 0..50 {
        let mut it = item(&b, Rarity::Normal);
        it.apply_alchemy(&mods).unwrap();
        assert!((3..=4).contains(&it.explicits.len()));
        let prefixes = it
            .explicits
            .iter()
            .filter(|e| e.prototype.generation_type == GenType::Prefix)
            .count();
        let suffixes = it
            .explicits
            .iter()
            .filter(|e| e.prototype.generation_type == GenType::Suffix)
            .count();
        assert!(prefixes <= 2);
        assert!(suffixes <= 2);
    }
}

#[test]
fn instance_stats_pair_ids_with_rolls_in_order() {
    let m = simple_mod("D", GenType::Prefix, "default", 10, vec![
        ("first_stat", 1, 1),
        ("second_stat", 4, 4),
    ]);
    let inst = m.generate();
    let stats = inst.stats();
    assert_eq!(stats.len(), 2);
    assert_eq!(stats[0].id, "first_stat");
    assert_eq!(stats[0].roll, 1);
    assert_eq!(stats[1].id, "second_stat");
    assert_eq!(stats[1].roll, 4);
}
