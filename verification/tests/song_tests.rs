use std::collections::HashMap;

use bandori_team::cache::cache_table;
use bandori_team::cards::{
    ActivateCondition, ActivateEffectType, ActivationEffect, EffectKind, Skill, SongNote,
};
use bandori_team::song::{combo_bonus, skill_bonus, song_score};

fn simple_skill(kind: EffectKind, condition: ActivateCondition, value: u32) -> Skill {
    Skill {
        duration: vec![3_000_000_000, 5_000_000_000],
        activation_effect: ActivationEffect {
            unification_activate_effect_value: None,
            unification_activate_condition_band_id: None,
            activate_effect_types: vec![(
                kind,
                ActivateEffectType {
                    activate_effect_value: vec![value],
                    activate_condition: condition,
                },
            )],
        },
    }
}

fn fixture_notes() -> Vec<SongNote> {
    vec![
        SongNote { time: 1_000_000_000, fever: None, skill: None },
        SongNote { time: 2_000_000_000, fever: None, skill: Some(true) },
        SongNote { time: 3_000_000_000, fever: Some(true), skill: None },
        SongNote { time: 4_000_000_000, fever: None, skill: None },
        SongNote { time: 10_000_000_000, fever: None, skill: None },
    ]
}

fn fixture_skills() -> HashMap<u8, Skill> {
    let mut skills = HashMap::new();
    skills.insert(4, simple_skill(EffectKind::Score, ActivateCondition::Other, 60));
    skills.insert(13, simple_skill(EffectKind::Score, ActivateCondition::Perfect, 10));
    skills
}

/// The combo bonus follows its documented step table exactly and never
/// decreases as the combo count grows.
#[test]
fn combo_bonus_test() {
    assert_eq!(combo_bonus(0), 1_000_000_000);
    assert_eq!(combo_bonus(20), 1_000_000_000);
    assert_eq!(combo_bonus(21), 1_010_000_000);
    assert_eq!(combo_bonus(50), 1_010_000_000);
    assert_eq!(combo_bonus(51), 1_020_000_000);
    assert_eq!(combo_bonus(100), 1_020_000_000);
    assert_eq!(combo_bonus(101), 1_030_000_000);
    assert_eq!(combo_bonus(150), 1_030_000_000);
    assert_eq!(combo_bonus(151), 1_040_000_000);
    assert_eq!(combo_bonus(200), 1_040_000_000);
    assert_eq!(combo_bonus(250), 1_050_000_000);
    assert_eq!(combo_bonus(300), 1_060_000_000);
    assert_eq!(combo_bonus(400), 1_070_000_000);
    assert_eq!(combo_bonus(500), 1_080_000_000);
    assert_eq!(combo_bonus(600), 1_090_000_000);
    assert_eq!(combo_bonus(700), 1_100_000_000);
    assert_eq!(combo_bonus(701), 1_110_000_000);
    assert_eq!(combo_bonus(100_000), 1_110_000_000);
    let mut prev = 0u64;
    for c in 0u32..1000 {
        let cur = combo_bonus(c);
        assert!(prev <= cur);
        prev = cur;
    }
}

/// A skill whose only effect applies under any judgement is a flat
/// multiplier, independent of accuracy and occurrence index.
#[test]
fn skill_bonus_flat_test() {
    let skill = simple_skill(EffectKind::Score, ActivateCondition::Other, 60);
    assert_eq!(skill_bonus(&skill, 970_000_000, 0), 1_600_000_000);
    assert_eq!(skill_bonus(&skill, 500_000_000, 7), 1_600_000_000);
}

/// A perfect-only effect blends with the judgement-quality mix.
#[test]
fn skill_bonus_blend_test() {
    let skill = simple_skill(EffectKind::Score, ActivateCondition::Perfect, 60);
    assert_eq!(skill_bonus(&skill, 970_000_000, 0), 1_586_801_099);
}

/// The continued-note-judge family escalates with the occurrence index:
/// the multiplier starts at the escalating target and approaches the
/// any-judgement base as `accuracy^index` decays.
#[test]
fn skill_bonus_escalating_test() {
    let skill = simple_skill(EffectKind::ScoreContinuedNoteJudge, ActivateCondition::Other, 100);
    assert_eq!(skill_bonus(&skill, 900_000_000, 2), 1_810_000_000);
    assert_eq!(skill_bonus(&skill, 900_000_000, 0), 2_000_000_000);
}

/// The single override value replaces the first score-family entry's own
/// value.
#[test]
fn skill_bonus_unification_test() {
    let mut skill = simple_skill(EffectKind::Score, ActivateCondition::Perfect, 60);
    skill.activation_effect.unification_activate_effect_value = Some(80);
    assert_eq!(skill_bonus(&skill, 970_000_000, 0), 1_782_401_466);
}

/// Replaying a fixed chart with a flat 1.6x skill yields the exact
/// fixed-point total, doubled notes under fever included.
#[test]
fn song_test() {
    let notes = fixture_notes();
    let skills = fixture_skills();
    let score1 = song_score(&vec![4; 6], &vec![0; 6], 26, false, 970_000_000, &notes, &skills);
    let score2 = song_score(&vec![13; 6], &vec![0; 6], 26, false, 970_000_000, &notes, &skills);
    assert_eq!(score1, 5_386_048_800);
    assert_eq!(score2, 4_192_722_597);
    assert!(score1 > score2, "{} {}", score1, score2);
    let with_fever = song_score(&vec![4; 6], &vec![0; 6], 26, true, 970_000_000, &notes, &skills);
    assert_eq!(with_fever, 6_653_354_400);
    let empty: Vec<SongNote> = Vec::new();
    assert_eq!(song_score(&vec![4; 6], &vec![0; 6], 26, false, 970_000_000, &empty, &skills), 0);
}

/// All else fixed, a higher target accuracy never lowers the simulated
/// score.
#[test]
fn song_score_accuracy_monotone_test() {
    let notes = fixture_notes();
    let skills = fixture_skills();
    let mut prev = 0u64;
    for acc in [0u64, 500_000_000, 900_000_000, 970_000_000, 1_000_000_000] {
        let cur = song_score(&vec![4; 6], &vec![0; 6], 26, false, acc, &notes, &skills);
        assert!(prev <= cur);
        prev = cur;
    }
}

/// Every diagonal cell of the interaction cache equals the direct
/// simulation of its 5-same+1-variant synthetic team, and rebuilding the
/// cache from the same inputs reproduces it cell for cell.
#[test]
fn skill_test() {
    let notes = fixture_notes();
    let skills = fixture_skills();
    let tags: Vec<u32> = vec![40, 130];
    let table = cache_table(&tags, &skills, &notes, 26, 970_000_000, false);
    assert_eq!(table.tags, tags);
    for (i, tag) in tags.iter().enumerate() {
        let id = (*tag / 10) as u8;
        let lv = (*tag % 10) as u8;
        let direct = song_score(
            &vec![id; 6],
            &vec![lv; 6],
            26,
            false,
            970_000_000,
            &notes,
            &skills,
        );
        assert_eq!(table.rows[i][i], direct);
        assert_eq!(table.diagonal(*tag), Some(direct));
    }
    // A mixed cell uses five column slots and one row slot.
    let mixed = song_score(
        &vec![13, 13, 13, 13, 13, 4],
        &vec![0; 6],
        26,
        false,
        970_000_000,
        &notes,
        &skills,
    );
    assert_eq!(table.rows[0][1], mixed);
    let rebuilt = cache_table(&tags, &skills, &notes, 26, 970_000_000, false);
    assert_eq!(rebuilt.rows, table.rows);
    assert_eq!(table.diagonal(999), None);
}
