use overlay_core::classify::{
    fallback_category, name_of_tag, pattern_matches, MatchKind, ObjectCategory, Rule, RuleTable,
};
use overlay_core::memory::{all_zero_floats, offset_address, read_u32_le, read_u64_le};

fn std_category(tag: &str, flag_second: u8) -> Option<ObjectCategory> {
    RuleTable::standard().category_of(tag.as_bytes(), flag_second)
}

#[test]
fn standard_prefixes_give_their_categories() {
    let cases = [
        ("x;Biter", ObjectCategory::ZombieNormal),
        ("x;Viral_02", ObjectCategory::ZombieNormal),
        ("x;Dead_Body", ObjectCategory::ZombieNormal),
        ("x;Night_Walker", ObjectCategory::ZombieSpecial),
        ("x;Screamer", ObjectCategory::ZombieSpecial),
        ("x;Gas_Tank", ObjectCategory::ZombieSpecial),
        ("x;Demolisher", ObjectCategory::ZombieSpecial),
        ("x;Goon", ObjectCategory::ZombieSpecial),
        ("x;Toad", ObjectCategory::ZombieSpecial),
        ("x;Bomber", ObjectCategory::ZombieSpecial),
        ("x;BTZ_Su", ObjectCategory::ZombieSpecial),
        ("x;Volatile", ObjectCategory::ZombieHunter),
        ("x;Zombie_Player", ObjectCategory::PlayerHunter),
        ("x;DW_Zombie", ObjectCategory::PlayerHunter),
        ("x;enc_bandit", ObjectCategory::SurvivorSpecial),
        ("x;0T_Thug", ObjectCategory::SurvivorSpecial),
        ("x;Shop_Keeper", ObjectCategory::SurvivorShopkeeper),
        ("x;Special_Trader", ObjectCategory::SurvivorShopkeeper),
        ("x;PlayerM1", ObjectCategory::PlayerHuman),
    ];
    for (tag, want) in cases {
        assert_eq!(std_category(tag, 0), Some(want), "{tag}");
    }
}

#[test]
fn dem_and_dea_are_told_apart() {
    assert_eq!(std_category("x;Dea", 0), Some(ObjectCategory::ZombieNormal));
    assert_eq!(std_category("x;Dem", 0), Some(ObjectCategory::ZombieSpecial));
    assert_eq!(std_category("x;De", 0), Some(ObjectCategory::Other));
}

#[test]
fn prefixes_are_case_sensitive_and_anchored() {
    assert_eq!(std_category("x;bite", 0x20), Some(ObjectCategory::SurvivorNormal));
    assert_eq!(std_category("x;_Bite", 0x21), Some(ObjectCategory::Other));
}

#[test]
fn fallback_uses_the_second_flag_byte() {
    assert_eq!(fallback_category(0x20, 0x20), ObjectCategory::SurvivorNormal);
    assert_eq!(fallback_category(0x20, 0x00), ObjectCategory::Other);
    assert_eq!(std_category("Foo;Unknown_Thing", 0x20), Some(ObjectCategory::SurvivorNormal));
    assert_eq!(std_category("Foo;Unknown_Thing", 0x21), Some(ObjectCategory::Other));
}

#[test]
fn rule_match_wins_over_fallback() {
    assert_eq!(std_category("Foo;Bite", 0x20), Some(ObjectCategory::ZombieNormal));
}

#[test]
fn first_matching_rule_wins() {
    let both = |first: ObjectCategory, second: ObjectCategory| RuleTable {
        rules: vec![
            Rule { kind: MatchKind::Contains, pattern: b"Goo".to_vec(), category: first },
            Rule { kind: MatchKind::Contains, pattern: b"Volatile".to_vec(), category: second },
        ],
        survivor_flag: 0x20,
    };
    let t = both(ObjectCategory::ZombieSpecial, ObjectCategory::ZombieHunter);
    assert_eq!(t.category_of(b"Foo;Goon_Volatile", 0), Some(ObjectCategory::ZombieSpecial));
    let t = both(ObjectCategory::ZombieHunter, ObjectCategory::ZombieSpecial);
    assert_eq!(t.category_of(b"Foo;Goon_Volatile", 0), Some(ObjectCategory::ZombieHunter));
    assert_eq!(t.first_match(b"Volatile"), Some(ObjectCategory::ZombieSpecial));
    assert_eq!(t.first_match(b"Gas"), None);
}

#[test]
fn exact_rules_need_the_whole_name() {
    let t = RuleTable {
        rules: vec![Rule { kind: MatchKind::Exact, pattern: b"PlayerM1".to_vec(), category: ObjectCategory::PlayerHuman }],
        survivor_flag: 0x20,
    };
    assert_eq!(t.category_of(b"a;PlayerM1", 0), Some(ObjectCategory::PlayerHuman));
    assert_eq!(t.category_of(b"a;PlayerM10", 0), Some(ObjectCategory::Other));
    assert_eq!(t.category_of(b"a;PlayerM", 0), Some(ObjectCategory::Other));
}

#[test]
fn pattern_kinds() {
    assert!(pattern_matches(MatchKind::Prefix, b"Bi", b"Biter"));
    assert!(!pattern_matches(MatchKind::Prefix, b"Bi", b"B"));
    assert!(pattern_matches(MatchKind::Prefix, b"", b""));
    assert!(pattern_matches(MatchKind::Contains, b"ola", b"Volatile"));
    assert!(pattern_matches(MatchKind::Contains, b"ile", b"Volatile"));
    assert!(!pattern_matches(MatchKind::Contains, b"olt", b"Volatile"));
    assert!(!pattern_matches(MatchKind::Contains, b"Volatiles", b"Volatile"));
    assert!(pattern_matches(MatchKind::Contains, b"", b""));
    assert!(pattern_matches(MatchKind::Exact, b"abc", b"abc"));
    assert!(!pattern_matches(MatchKind::Exact, b"abc", b"abcd"));
}

#[test]
fn tag_names() {
    assert_eq!(name_of_tag(b"Foo;Bar"), Some(b"Bar".to_vec()));
    assert_eq!(name_of_tag(b"Foo;Bar;Baz"), Some(b"Bar;Baz".to_vec()));
    assert_eq!(name_of_tag(b";x"), Some(b"x".to_vec()));
    assert_eq!(name_of_tag(b"Foo;"), None);
    assert_eq!(name_of_tag(b"FooBar"), None);
    assert_eq!(name_of_tag(b""), None);
    assert_eq!(std_category("Foo", 0x20), None);
    assert_eq!(std_category("Foo;", 0x20), None);
}

#[test]
fn little_endian_reads() {
    assert_eq!(read_u32_le(&[0x78, 0x56, 0x34, 0x12]), 0x1234_5678);
    assert_eq!(read_u64_le(&[1, 2, 3, 4, 5, 6, 7, 8]), 0x0807_0605_0403_0201);
}

#[test]
fn float_zero_detection() {
    assert!(all_zero_floats(&0.0f32.to_le_bytes()));
    assert!(all_zero_floats(&(-0.0f32).to_le_bytes()));
    assert!(!all_zero_floats(&1.0f32.to_le_bytes()));
    assert!(!all_zero_floats(&f32::from_bits(1).to_le_bytes()));
    assert!(!all_zero_floats(&[0x80, 0, 0, 0]));
    assert!(all_zero_floats(&[]));
}

#[test]
fn offsets_stay_in_the_address_space() {
    assert_eq!(offset_address(0x1000, 0x20), Some(0x1020));
    assert_eq!(offset_address(0x1000, -0x50), Some(0xFB0));
    assert_eq!(offset_address(0x10, -0x50), None);
    assert_eq!(offset_address(u64::MAX, 1), None);
    assert_eq!(offset_address(u64::MAX, 0), Some(u64::MAX));
    assert_eq!(offset_address(0, i64::MIN), None);
}
