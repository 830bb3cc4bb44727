use std::collections::HashMap;

use bandori_team::cards::{Attribute, Axis, Card, CardData, CardStatus, EventBonus, StatEntry};
use bandori_team::fixed::SCALE;
use bandori_team::level::get_level_score;
use bandori_team::scorer::calc_card_score;

fn fixture_card(character_id: u8, title: &str, extra: CardData) -> Card {
    Card {
        character_id,
        rarity: 3,
        attribute: Attribute::Pure,
        level_limit: 50,
        resource_set_name: String::from("res_fixture"),
        prefix: vec![String::from(title)],
        released: vec![true, true, true, true],
        skill_id: character_id,
        kind: String::from("permanent"),
        stat: vec![
            StatEntry::BaseTier(CardData { performance: 2000, technique: 2000, visual: 2000 }),
            StatEntry::LevelTier(extra),
            StatEntry::Episodes(vec![
                CardData { performance: 100, technique: 100, visual: 100 },
                CardData { performance: 50, technique: 50, visual: 50 },
            ]),
        ],
    }
}

fn fixture_status(id: u32) -> CardStatus {
    CardStatus { id, level: 50, exclude: false, art: 1, train: 1, ep: 1, skill: 0 }
}

fn hello_happy_band_map() -> HashMap<u8, u8> {
    let mut m = HashMap::new();
    for ch in 11u8..=15u8 {
        m.insert(ch, 3u8);
    }
    m
}

/// A fixed fixture of five named cards under the documented band bonus
/// vector, attribute bonus vector, event rule and magazine rate must sum
/// to the known total.
#[test]
fn score_test() {
    let cards = vec![
        fixture_card(11, "Embarrassing!", CardData { performance: 8900, technique: 8900, visual: 8900 }),
        fixture_card(12, "Wishing to the Stars", CardData { performance: 8900, technique: 8900, visual: 8900 }),
        fixture_card(13, "Summer Vacation", CardData { performance: 8900, technique: 8900, visual: 8900 }),
        fixture_card(14, "Dreamy Smile", CardData { performance: 8900, technique: 8900, visual: 8900 }),
        fixture_card(15, "On Stage", CardData { performance: 8805, technique: 9584, visual: 8900 }),
    ];
    let statuses = vec![
        fixture_status(683),
        fixture_status(466),
        fixture_status(588),
        fixture_status(589),
        fixture_status(382),
    ];
    let character_band = hello_happy_band_map();
    let band_bonus: Vec<u64> = vec![
        40_000_000,
        40_000_000,
        40_000_000,
        40_000_000,
        40_000_000,
        100_000_000,
        100_000_000,
    ];
    let prop_bonus: Vec<u64> = vec![100_000_000, 100_000_000];
    let event_bonus = EventBonus {
        prop: Attribute::Pure,
        characters: vec![11, 12, 13, 14, 15],
        prop_bonus: 100_000_000,
        character_bonus: 200_000_000,
        parameter: Some(Axis::Technique),
        all_fit_bonus: 200_000_000,
    };
    let mut final_score: u64 = 0;
    for (card, status) in cards.iter().zip(statuses.iter()) {
        let (curr_score, _) = calc_card_score(
            card,
            status,
            &event_bonus,
            &character_band,
            Axis::Performance,
            160_000_000,
            3,
            &band_bonus,
            Attribute::Pure,
            &prop_bonus,
        );
        final_score += curr_score as u64;
    }
    let game_score: u64 = 314763;
    assert!((game_score - 5..game_score + 5).contains(&final_score));
    assert_eq!(final_score, game_score);
}

/// Reordering the stat-table entries leaves both the score and the bonus
/// unchanged (order-independent accumulation).
#[test]
fn stat_order_independent_test() {
    let card = fixture_card(12, "A", CardData { performance: 3111, technique: 4222, visual: 5333 });
    let mut reordered = fixture_card(12, "A", CardData { performance: 0, technique: 0, visual: 0 });
    reordered.stat = vec![
        StatEntry::Episodes(vec![
            CardData { performance: 100, technique: 100, visual: 100 },
            CardData { performance: 50, technique: 50, visual: 50 },
        ]),
        StatEntry::BaseTier(CardData { performance: 2000, technique: 2000, visual: 2000 }),
        StatEntry::LevelTier(CardData { performance: 3111, technique: 4222, visual: 5333 }),
    ];
    let status = fixture_status(7);
    let character_band = hello_happy_band_map();
    let event_bonus = EventBonus {
        prop: Attribute::Pure,
        characters: vec![12],
        prop_bonus: 100_000_000,
        character_bonus: 200_000_000,
        parameter: Some(Axis::Visual),
        all_fit_bonus: 50_000_000,
    };
    let band_bonus: Vec<u64> = vec![40_000_000];
    let prop_bonus: Vec<u64> = vec![100_000_000];
    let a = calc_card_score(
        &card,
        &status,
        &event_bonus,
        &character_band,
        Axis::Technique,
        160_000_000,
        3,
        &band_bonus,
        Attribute::Pure,
        &prop_bonus,
    );
    let b = calc_card_score(
        &reordered,
        &status,
        &event_bonus,
        &character_band,
        Axis::Technique,
        160_000_000,
        3,
        &band_bonus,
        Attribute::Pure,
        &prop_bonus,
    );
    assert_eq!(a, b);
}

/// A card matching no gate at all keeps a bare 1.0 bonus, and only the
/// magazine term tops up the plain stat sum.
#[test]
fn score_no_bonus_test() {
    let mut card = fixture_card(11, "B", CardData { performance: 1000, technique: 1000, visual: 1000 });
    card.attribute = Attribute::Cool;
    let status = fixture_status(1);
    let character_band = hello_happy_band_map();
    let event_bonus = EventBonus {
        prop: Attribute::Pure,
        characters: vec![21],
        prop_bonus: 100_000_000,
        character_bonus: 200_000_000,
        parameter: None,
        all_fit_bonus: 200_000_000,
    };
    let band_bonus: Vec<u64> = vec![40_000_000];
    let prop_bonus: Vec<u64> = vec![100_000_000];
    let (score, bonus) = calc_card_score(
        &card,
        &status,
        &event_bonus,
        &character_band,
        Axis::Performance,
        0,
        9,
        &band_bonus,
        Attribute::Pure,
        &prop_bonus,
    );
    // stats: 1000 + 100 per axis, bonus exactly 1.0, no magazine rate.
    assert_eq!(bonus, SCALE);
    assert_eq!(score, 3300);
}

/// Level-scaled components stay fractional while they accumulate; the
/// only truncation is the one at the final score boundary. A (3,3,3)
/// tier at a growth fraction near one half sums to about 4.5 and
/// truncates to 4 — per-component flooring would have given 3.
#[test]
fn single_final_truncation_test() {
    let mut card = fixture_card(11, "D", CardData { performance: 3, technique: 3, visual: 3 });
    card.attribute = Attribute::Cool;
    card.stat = vec![StatEntry::LevelTier(CardData { performance: 3, technique: 3, visual: 3 })];
    let mut status = fixture_status(1);
    status.level = 40;
    let character_band = hello_happy_band_map();
    let event_bonus = EventBonus {
        prop: Attribute::Pure,
        characters: vec![99],
        prop_bonus: 100_000_000,
        character_bonus: 200_000_000,
        parameter: None,
        all_fit_bonus: 0,
    };
    let band_bonus: Vec<u64> = vec![];
    let prop_bonus: Vec<u64> = vec![];
    let (score, bonus) = calc_card_score(
        &card,
        &status,
        &event_bonus,
        &character_band,
        Axis::Performance,
        0,
        9,
        &band_bonus,
        Attribute::Pure,
        &prop_bonus,
    );
    // Growth fraction at level 40, rarity 3 is 0.500071373...;
    // 9 * 0.500071373 = 4.50064... truncates to 4.
    assert_eq!(bonus, SCALE);
    assert_eq!(score, 4);
}

/// The unlocked-episode count clamps the episode contribution: zero
/// unlocked episodes add nothing, a count beyond the list takes the
/// whole list.
#[test]
fn episode_count_test() {
    let card = fixture_card(11, "C", CardData { performance: 1000, technique: 1000, visual: 1000 });
    let character_band = hello_happy_band_map();
    let event_bonus = EventBonus {
        prop: Attribute::Powerful,
        characters: vec![99],
        prop_bonus: 100_000_000,
        character_bonus: 200_000_000,
        parameter: None,
        all_fit_bonus: 0,
    };
    let band_bonus: Vec<u64> = vec![];
    let prop_bonus: Vec<u64> = vec![];
    let score_of = |ep: u8| -> u32 {
        let mut status = fixture_status(1);
        status.ep = ep;
        calc_card_score(
            &card,
            &status,
            &event_bonus,
            &character_band,
            Axis::Performance,
            0,
            9,
            &band_bonus,
            Attribute::Powerful,
            &prop_bonus,
        )
        .0
    };
    // The level tier contributes 3000; episodes add 300 for the first
    // unlocked episode and 150 more for the second.
    assert_eq!(score_of(0), 3000);
    assert_eq!(score_of(1), 3300);
    assert_eq!(score_of(2), 3450);
    assert_eq!(score_of(9), 3450);
}

/// The stat-growth curve starts at zero, ends fully matured, and is
/// non-decreasing in between; rarity classes outside the tables are
/// treated as fully matured.
#[test]
fn level_curve_test() {
    assert_eq!(get_level_score(1, 1), 0);
    assert_eq!(get_level_score(1, 4), 0);
    assert_eq!(get_level_score(20, 1), SCALE);
    assert_eq!(get_level_score(30, 2), SCALE);
    assert_eq!(get_level_score(50, 3), SCALE);
    assert_eq!(get_level_score(60, 4), SCALE);
    assert_eq!(get_level_score(2, 2), 17_856_719);
    assert_eq!(get_level_score(33, 5), SCALE);
    for rarity in 1u8..=4u8 {
        let max = match rarity {
            1 => 20,
            2 => 30,
            3 => 50,
            _ => 60,
        };
        let mut prev = 0u64;
        for level in 1u8..=max {
            let cur = get_level_score(level, rarity);
            assert!(prev <= cur);
            prev = cur;
        }
    }
}
