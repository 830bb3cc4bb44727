use bandori_team::cards::{CardStatus, Character};
use bandori_team::profile::{
    card_skill_new, character_band_new, decode_data, ItemInventory, RawUserProfile, UserProfile,
};

fn fixture_raw(data: &str) -> RawUserProfile {
    RawUserProfile {
        name: String::from("player one"),
        server: 1,
        compression: String::from("1"),
        data: String::from(data),
        items: ItemInventory {
            poppin_party: vec![4, 4, 4, 4, 4, 10, 10],
            afterglow: vec![2, 2],
            hello_happy_world: vec![3],
            pastel_palettes: vec![0],
            roselia: vec![5, 5],
            everyone: vec![1, 1, 1],
            menu: vec![10, 11, 12, 13],
            plaza: vec![1, 2, 3, 4],
            magazine: vec![0, 5, 2],
        },
    }
}

/// One 5-character chunk decodes to the documented ownership record:
/// two digits of id, one of level, two of packed flags.
#[test]
fn decode_data_test() {
    // id 683 = 10*64 + 43 -> "Ah"; level 50 -> "o";
    // flags: art 1, train 1, ep 1, skill 2 -> 2 + 4 + 8 + 48 = 62 -> "0-".
    let decoded = decode_data(&String::from("Aho0-"));
    assert_eq!(decoded.len(), 1);
    assert_eq!(
        decoded[0],
        CardStatus { id: 683, level: 50, exclude: false, art: 1, train: 1, ep: 1, skill: 2 },
    );
    // Two chunks; the second has the exclude bit set (flags 1 -> "01").
    let decoded = decode_data(&String::from("Aho0-01101"));
    assert_eq!(decoded.len(), 2);
    assert_eq!(
        decoded[1],
        CardStatus { id: 1, level: 1, exclude: true, art: 0, train: 0, ep: 0, skill: 0 },
    );
    assert_eq!(decode_data(&String::from("")).len(), 0);
}

/// A chunk digit outside the encoding alphabet reads as zero, as the
/// decoder's number reader does.
#[test]
fn decode_invalid_digit_test() {
    let decoded = decode_data(&String::from("!!o0-"));
    assert_eq!(decoded.len(), 1);
    assert_eq!(decoded[0].id, 0);
    assert_eq!(decoded[0].level, 50);
}

/// The raw profile's inventories become rate vectors (one percent per
/// item), the magazine counts their rates, and the status string the
/// decoded collection; band and attribute axes come in canonical order.
#[test]
fn user_profile_new_test() {
    let raw = fixture_raw("Aho0-");
    let profile = UserProfile::new(&raw);
    assert_eq!(profile.name, String::from("player one"));
    assert_eq!(profile.server, 1);
    assert_eq!(profile.bands.len(), 6);
    assert_eq!(profile.bands[0], (2, vec![20_000_000, 20_000_000]));
    assert_eq!(profile.bands[1], (0, vec![10_000_000, 10_000_000, 10_000_000]));
    assert_eq!(profile.bands[2], (3, vec![30_000_000]));
    assert_eq!(profile.bands[3], (4, vec![0]));
    assert_eq!(
        profile.bands[4],
        (
            1,
            vec![
                40_000_000,
                40_000_000,
                40_000_000,
                40_000_000,
                40_000_000,
                100_000_000,
                100_000_000,
            ],
        ),
    );
    assert_eq!(profile.bands[5], (5, vec![50_000_000, 50_000_000]));
    assert_eq!(profile.props.len(), 4);
    assert_eq!(profile.props[0].1, vec![100_000_000, 10_000_000]);
    assert_eq!(profile.props[1].1, vec![110_000_000, 20_000_000]);
    assert_eq!(profile.props[2].1, vec![120_000_000, 30_000_000]);
    assert_eq!(profile.props[3].1, vec![130_000_000, 40_000_000]);
    // Magazine: a zero count stays zero; count v gives 0.02*v + 0.06.
    assert_eq!(profile.magazine.performance, 0);
    assert_eq!(profile.magazine.technique, 160_000_000);
    assert_eq!(profile.magazine.visual, 100_000_000);
    assert_eq!(profile.card_status.len(), 1);
    assert_eq!(profile.card_status[0].id, 683);
}

/// The character-to-band relation maps each character id to its band id.
#[test]
fn character_band_new_test() {
    let characters = vec![
        (1u8, Character { band_id: 1 }),
        (21u8, Character { band_id: 3 }),
        (22u8, Character { band_id: 3 }),
    ];
    let m = character_band_new(&characters);
    assert_eq!(m.len(), 3);
    assert_eq!(m.get(&1), Some(&1));
    assert_eq!(m.get(&21), Some(&3));
    assert_eq!(m.get(&22), Some(&3));
    assert_eq!(m.get(&9), None);
}

/// The static card-skill table holds the documented multipliers.
#[test]
fn card_skill_new_test() {
    let m = card_skill_new();
    assert_eq!(m.len(), 25);
    assert_eq!(m.get(&1), Some(&1_100_000_000));
    assert_eq!(m.get(&4), Some(&2_000_000_000));
    assert_eq!(m.get(&17), Some(&1_650_000_000));
    assert_eq!(m.get(&20), Some(&2_150_000_000));
    assert_eq!(m.get(&26), Some(&2_100_000_000));
    assert_eq!(m.get(&19), None);
}
