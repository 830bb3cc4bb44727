use std::collections::HashMap;

use bandori_team::cards::{
    ActivateCondition, ActivateEffectType, ActivationEffect, Attribute, Card, CardData,
    CardStatus, EffectKind, EventBonus, Magazine, Skill, SongNote, StatEntry,
};
use bandori_team::optimizer::{calc_max_score, EventType};
use bandori_team::profile::{ItemInventory, RawUserProfile, UserProfile};

fn catalog_card(character_id: u8, attribute: Attribute, skill_id: u8, power: u32, released: bool) -> Card {
    Card {
        character_id,
        rarity: 2,
        attribute,
        level_limit: 30,
        resource_set_name: String::from("res"),
        prefix: vec![String::from("fixture")],
        released: vec![true, released],
        skill_id,
        kind: String::from("permanent"),
        stat: vec![
            StatEntry::BaseTier(CardData { performance: 500, technique: 500, visual: 500 }),
            StatEntry::LevelTier(CardData { performance: power, technique: power, visual: power }),
        ],
    }
}

fn owned(id: u32, exclude: bool) -> CardStatus {
    CardStatus { id, level: 30, exclude, art: 0, train: 0, ep: 0, skill: 0 }
}

fn fixture_profile(card_status: Vec<CardStatus>) -> UserProfile {
    UserProfile {
        name: String::from("player"),
        server: 1,
        bands: vec![(1, vec![40_000_000]), (3, vec![100_000_000, 100_000_000])],
        props: vec![
            (Attribute::Powerful, vec![100_000_000]),
            (Attribute::Pure, vec![50_000_000]),
        ],
        magazine: Magazine {
            performance: 160_000_000,
            technique: 100_000_000,
            visual: 0,
        },
        card_status,
    }
}

fn flat_skill(value: u32) -> Skill {
    Skill {
        duration: vec![3_000_000_000],
        activation_effect: ActivationEffect {
            unification_activate_effect_value: None,
            unification_activate_condition_band_id: None,
            activate_effect_types: vec![(
                EffectKind::Score,
                ActivateEffectType {
                    activate_effect_value: vec![value],
                    activate_condition: ActivateCondition::Other,
                },
            )],
        },
    }
}

fn fixture_world() -> (HashMap<u32, Card>, HashMap<u8, u8>, HashMap<u8, Skill>, Vec<SongNote>) {
    let mut cards: HashMap<u32, Card> = HashMap::new();
    // Seven owned cards over six characters; character 12 owns two cards.
    cards.insert(101, catalog_card(11, Attribute::Pure, 1, 4000, true));
    cards.insert(102, catalog_card(12, Attribute::Pure, 2, 3500, true));
    cards.insert(103, catalog_card(12, Attribute::Cool, 1, 3600, true));
    cards.insert(104, catalog_card(13, Attribute::Happy, 2, 3000, true));
    cards.insert(105, catalog_card(14, Attribute::Pure, 1, 2500, true));
    cards.insert(106, catalog_card(15, Attribute::Powerful, 2, 2000, true));
    cards.insert(107, catalog_card(16, Attribute::Pure, 1, 9999, false));
    cards.insert(108, catalog_card(17, Attribute::Pure, 2, 1500, true));
    let mut character_band: HashMap<u8, u8> = HashMap::new();
    for ch in 10u8..=20u8 {
        character_band.insert(ch, if ch <= 15 { 1 } else { 3 });
    }
    let mut skills: HashMap<u8, Skill> = HashMap::new();
    skills.insert(1, flat_skill(60));
    skills.insert(2, flat_skill(20));
    let notes = vec![
        SongNote { time: 1_000_000_000, fever: None, skill: None },
        SongNote { time: 2_000_000_000, fever: None, skill: Some(true) },
        SongNote { time: 3_000_000_000, fever: Some(true), skill: None },
        SongNote { time: 4_000_000_000, fever: None, skill: None },
    ];
    (cards, character_band, skills, notes)
}

fn fixture_event() -> EventBonus {
    EventBonus {
        prop: Attribute::Pure,
        characters: vec![11, 12, 13],
        prop_bonus: 100_000_000,
        character_bonus: 200_000_000,
        parameter: Some(bandori_team::cards::Axis::Technique),
        all_fit_bonus: 200_000_000,
    }
}

/// The optimizer fields a full team of five distinct characters when
/// enough eligible cards exist.
#[test]
fn calc_test() {
    let (cards, character_band, skills, notes) = fixture_world();
    let statuses = vec![
        owned(101, false),
        owned(102, false),
        owned(103, false),
        owned(104, false),
        owned(105, false),
        owned(106, false),
        owned(108, false),
    ];
    let profile = fixture_profile(statuses);
    let result = calc_max_score(
        &cards,
        &profile,
        &fixture_event(),
        &character_band,
        &notes,
        &skills,
        EventType::VS,
    );
    assert_eq!(result.len(), 5, "Calculation failed!");
    for (k, v) in result.iter() {
        assert_eq!(v.character_id, *k);
    }
}

/// The team never exceeds five entries, holds one card per character,
/// and admits no excluded, unreleased or uncataloged card.
#[test]
fn team_constraints_test() {
    let (cards, character_band, skills, notes) = fixture_world();
    let statuses = vec![
        owned(101, false),
        owned(102, false),
        owned(103, false),
        owned(104, true),  // excluded
        owned(105, false),
        owned(106, false),
        owned(107, false), // not released on server 1
        owned(108, false),
        owned(999, false), // not in the catalog
    ];
    let profile = fixture_profile(statuses);
    let result = calc_max_score(
        &cards,
        &profile,
        &fixture_event(),
        &character_band,
        &notes,
        &skills,
        EventType::Free,
    );
    assert!(result.len() <= 5);
    for (k, v) in result.iter() {
        assert_eq!(v.character_id, *k);
        assert_ne!(v.card_id, 104);
        assert_ne!(v.card_id, 107);
        assert_ne!(v.card_id, 999);
    }
    // Characters 11..=15 and 17 are available: exactly five fit.
    assert_eq!(result.len(), 5);
    // Character 12 owns two cards; the higher-ranked one is kept.
    assert!(result.contains_key(&12));
}

/// Outside the skill-sensitive mode every candidate's skill multiplier
/// is exactly 1.0.
#[test]
fn free_mode_skill_mul_test() {
    let (cards, character_band, skills, notes) = fixture_world();
    let statuses = vec![owned(101, false), owned(102, false)];
    let profile = fixture_profile(statuses);
    let result = calc_max_score(
        &cards,
        &profile,
        &fixture_event(),
        &character_band,
        &notes,
        &skills,
        EventType::Multi,
    );
    for (_, v) in result.iter() {
        assert_eq!(v.skill_mul, 1_000_000_000);
    }
    assert_eq!(result.len(), 2);
}

/// A player with no usable cards gets an empty team.
#[test]
fn empty_collection_test() {
    let (cards, character_band, skills, notes) = fixture_world();
    let profile = fixture_profile(Vec::new());
    let result = calc_max_score(
        &cards,
        &profile,
        &fixture_event(),
        &character_band,
        &notes,
        &skills,
        EventType::VS,
    );
    assert_eq!(result.len(), 0);
    let excluded_only = fixture_profile(vec![owned(101, true), owned(102, true)]);
    let result = calc_max_score(
        &cards,
        &excluded_only,
        &fixture_event(),
        &character_band,
        &notes,
        &skills,
        EventType::Free,
    );
    assert_eq!(result.len(), 0);
}

/// From the encoded save string to the final team: the profile builder
/// decodes the collection and the optimizer fields five distinct
/// characters from it.
#[test]
fn end_to_end_profile_test() {
    let (cards, character_band, skills, notes) = fixture_world();
    // Six 5-character chunks: ids 101..=106, level 30, all flags clear.
    let raw = RawUserProfile {
        name: String::from("player two"),
        server: 1,
        compression: String::from("1"),
        data: String::from("1bU001cU001dU001eU001fU001gU00"),
        items: ItemInventory {
            poppin_party: vec![4, 4],
            afterglow: vec![2],
            hello_happy_world: vec![10, 10],
            pastel_palettes: vec![0],
            roselia: vec![5],
            everyone: vec![1],
            menu: vec![10, 10, 10, 10],
            plaza: vec![1, 1, 1, 1],
            magazine: vec![5, 5, 5],
        },
    };
    let profile = UserProfile::new(&raw);
    assert_eq!(profile.card_status.len(), 6);
    assert_eq!(profile.card_status[0].id, 101);
    assert_eq!(profile.card_status[5].id, 106);
    assert_eq!(profile.card_status[0].level, 30);
    let result = calc_max_score(
        &cards,
        &profile,
        &fixture_event(),
        &character_band,
        &notes,
        &skills,
        EventType::VS,
    );
    assert_eq!(result.len(), 5);
    let mut chars: Vec<u8> = result.keys().copied().collect();
    chars.sort();
    assert_eq!(chars, vec![11, 12, 13, 14, 15]);
}

/// Rerunning the optimizer on identical inputs reproduces the identical
/// team: the search is deterministic.
#[test]
fn deterministic_test() {
    let (cards, character_band, skills, notes) = fixture_world();
    let statuses = vec![
        owned(101, false),
        owned(102, false),
        owned(103, false),
        owned(105, false),
        owned(106, false),
        owned(108, false),
    ];
    let profile = fixture_profile(statuses);
    let a = calc_max_score(
        &cards,
        &profile,
        &fixture_event(),
        &character_band,
        &notes,
        &skills,
        EventType::VS,
    );
    let b = calc_max_score(
        &cards,
        &profile,
        &fixture_event(),
        &character_band,
        &notes,
        &skills,
        EventType::VS,
    );
    assert_eq!(a.len(), b.len());
    for (k, v) in a.iter() {
        let w = b.get(k).unwrap();
        assert_eq!(v.card_id, w.card_id);
        assert_eq!(v.score, w.score);
        assert_eq!(v.skill_mul, w.skill_mul);
        assert_eq!(v.bp_mul, w.bp_mul);
    }
}
