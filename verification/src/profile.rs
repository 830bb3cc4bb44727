//! The player's profile: the raw save record, the decoder that unpacks
//! the per-card status string, and the typed investment state the
//! optimizer searches over.

use vstd::prelude::*;
use std::collections::HashMap;
use crate::cards::{Attribute, CardStatus, Character, Magazine};

verus! {

/// The player's item inventory, one rate vector per investment source.
pub struct ItemInventory {
    pub poppin_party: Vec<u8>,
    pub afterglow: Vec<u8>,
    pub hello_happy_world: Vec<u8>,
    pub pastel_palettes: Vec<u8>,
    pub roselia: Vec<u8>,
    pub everyone: Vec<u8>,
    pub menu: Vec<u8>,
    pub plaza: Vec<u8>,
    pub magazine: Vec<u8>,
}

/// A raw user profile as the save service hands it over: identity,
/// server, the encoded per-card status string and the item inventory.
pub struct RawUserProfile {
    pub name: String,
    pub server: u8,
    pub compression: String,
    pub data: String,
    pub items: ItemInventory,
}

/// The library's own user profile: named band-axis and attribute-axis
/// bonus vectors (in canonical list order), the magazine rates and the
/// decoded card collection. All rates are in billionths.
pub struct UserProfile {
    pub name: String,
    pub server: u8,
    /// Band-axis investments, keyed by band id, in canonical order.
    pub bands: Vec<(u8, Vec<u64>)>,
    /// Attribute-axis investments, in canonical order.
    pub props: Vec<(Attribute, Vec<u64>)>,
    /// Magazine rates per stat axis.
    pub magazine: Magazine,
    /// The player's card collection.
    pub card_status: Vec<CardStatus>,
}

/// Whether a character of the encoding alphabet is valid:
/// digits, upper case, lower case, `-` and `_`.
pub open spec fn b64_valid(c: char) -> bool {
    ||| 48 <= (c as u32) <= 57
    ||| 65 <= (c as u32) <= 90
    ||| 97 <= (c as u32) <= 122
    ||| c == '-'
    ||| c == '_'
}

/// The value of one character of the encoding alphabet.
pub open spec fn b64_code(c: char) -> int {
    if 48 <= (c as u32) <= 57 {
        (c as u32) - 48
    } else if 65 <= (c as u32) <= 90 {
        (c as u32) - 65 + 10
    } else if 97 <= (c as u32) <= 122 {
        (c as u32) - 97 + 36
    } else if c == '-' {
        62
    } else {
        63
    }
}

/// The positional value of a digit string over the 64-character alphabet.
pub open spec fn b64_value(s: Seq<char>) -> int
    decreases s.len(),
{
    if s.len() == 0 {
        0
    } else {
        b64_value(s.drop_last()) * 64 + b64_code(s.last())
    }
}

/// What `b` returns: the positional value, or 0 if any character falls
/// outside the alphabet.
pub open spec fn b_spec(s: Seq<char>) -> int {
    if forall|i: int| 0 <= i < s.len() ==> b64_valid(#[trigger] s[i]) {
        b64_value(s)
    } else {
        0
    }
}

proof fn lemma_b64_value_bound(s: Seq<char>)
    requires
        forall|i: int| 0 <= i < s.len() ==> b64_valid(#[trigger] s[i]),
        s.len() <= 5,
    ensures
        0 <= b64_value(s),
        s.len() <= 1 ==> b64_value(s) < 64,
        s.len() <= 2 ==> b64_value(s) < 4096,
        s.len() <= 3 ==> b64_value(s) < 262144,
        s.len() <= 4 ==> b64_value(s) < 16777216,
        b64_value(s) < 1073741824,
    decreases s.len(),
{
    if s.len() > 0 {
        assert(forall|i: int| 0 <= i < s.drop_last().len() ==> b64_valid(
            #[trigger] s.drop_last()[i],
        ));
        lemma_b64_value_bound(s.drop_last());
        assert(0 <= b64_code(s.last()) < 64);
    }
}

/// Decodes one digit character of the encoding alphabet.
fn b64_digit(c: char) -> (r: Option<u32>)
    ensures
        r.is_some() == b64_valid(c),
        r.is_some() ==> r->0 == b64_code(c),
{
    let u = c as u32;
    if 48 <= u && u <= 57 {
        Some(u - 48)
    } else if 65 <= u && u <= 90 {
        Some(u - 65 + 10)
    } else if 97 <= u && u <= 122 {
        Some(u - 97 + 36)
    } else if c == '-' {
        Some(62)
    } else if c == '_' {
        Some(63)
    } else {
        None
    }
}

/// Reads a short digit string of the encoding alphabet as a number;
/// a string with any character outside the alphabet reads as 0.
fn b(t: &str) -> (r: u32)
    requires
        t@.len() <= 5,
    ensures
        r == b_spec(t@),
{
    let n_chars = t.unicode_len();
    let mut acc: u32 = 0;
    let mut i: usize = 0;
    proof {
        assert(t@.subrange(0, 0) =~= Seq::<char>::empty());
    }
    while i < n_chars
        invariant
            i <= n_chars,
            n_chars == t@.len(),
            t@.len() <= 5,
            forall|k: int| 0 <= k < i ==> b64_valid(#[trigger] t@[k]),
            acc == b64_value(t@.subrange(0, i as int)),
            acc < 0x4000_0000,
        decreases n_chars - i,
    {
        proof {
            assert(t@.subrange(0, i + 1).drop_last() =~= t@.subrange(0, i as int));
            assert(t@.subrange(0, i + 1).last() == t@[i as int]);
            lemma_b64_value_bound(t@.subrange(0, i as int));
        }
        let c = t.get_char(i);
        match b64_digit(c) {
            Some(v) => {
                acc = acc * 64 + v;
            },
            None => {
                return 0;
            },
        }
        i = i + 1;
    }
    proof {
        assert(t@.subrange(0, t@.len() as int) =~= t@);
    }
    acc
}

/// The ownership record encoded by one 5-character chunk: two digits of
/// card id, one of level, and two digits packing the flags — the low bit
/// excludes the card, the next picks the art, the next the training
/// state, then the episode count modulo 3, and the rest the skill level.
pub open spec fn status_of_chunk(s: Seq<char>) -> CardStatus {
    let id = b_spec(s.subrange(0, 2));
    let level = b_spec(s.subrange(2, 3));
    let i0 = b_spec(s.subrange(3, 5));
    let i1 = i0 / 2;
    let i2 = i1 / 2;
    let i3 = i2 / 2;
    let i4 = i3 / 3;
    CardStatus {
        id: id as u32,
        level: level as u8,
        exclude: i0 % 2 == 1,
        art: (i1 % 2) as u8,
        train: (i2 % 2) as u8,
        ep: (i3 % 3) as u8,
        skill: i4 as u8,
    }
}

/// The card statuses encoded by a status string, chunk by chunk.
pub open spec fn decode_spec(s: Seq<char>) -> Seq<CardStatus>
    decreases s.len(),
{
    if s.len() < 5 {
        Seq::empty()
    } else {
        decode_spec(s.subrange(0, s.len() - 5)).push(
            status_of_chunk(s.subrange(s.len() - 5, s.len() as int)),
        )
    }
}

/// Decodes the save service's card-status string: each 5-character chunk
/// yields one ownership record.
pub fn decode_data(encrypted: &String) -> (r: Vec<CardStatus>)
    requires
        encrypted@.len() % 5 == 0,
    ensures
        r@ == decode_spec(encrypted@),
{
    let s = encrypted.as_str();
    let len = s.unicode_len();
    let mut lst: Vec<CardStatus> = Vec::new();
    let mut n: usize = 0;
    proof {
        assert(s@.subrange(0, 0) =~= Seq::<char>::empty());
    }
    while n < len
        invariant
            n <= len,
            len == s@.len(),
            s@ == encrypted@,
            s@.len() % 5 == 0,
            n % 5 == 0,
            lst@ == decode_spec(s@.subrange(0, n as int)),
        decreases len - n,
    {
        proof {
            assert(n + 5 <= len) by {
                assert(n < len && n % 5 == 0 && len % 5 == 0);
            }
        }
        let id_part = s.substring_char(n, n + 2);
        let level_part = s.substring_char(n + 2, n + 3);
        let flag_part = s.substring_char(n + 3, n + 5);
        let id = b(id_part);
        let level = b(level_part);
        let mut i = b(flag_part);
        proof {
            lemma_b_bounds(id_part@);
            lemma_b_bounds(level_part@);
            lemma_b_bounds(flag_part@);
        }
        let exclude = i % 2 == 1;
        i = i / 2;
        let art = (i % 2) as u8;
        i = i / 2;
        let train = (i % 2) as u8;
        i = i / 2;
        let ep = (i % 3) as u8;
        i = i / 3;
        let skill = i as u8;
        lst.push(
            CardStatus { id, level: level as u8, exclude, art, train, ep, skill },
        );
        proof {
            let chunk = s@.subrange(n as int, n + 5);
            assert(chunk.subrange(0, 2) =~= id_part@);
            assert(chunk.subrange(2, 3) =~= level_part@);
            assert(chunk.subrange(3, 5) =~= flag_part@);
            assert(s@.subrange(0, n + 5).subrange(0, n as int) =~= s@.subrange(0, n as int));
            assert(s@.subrange(0, n + 5).subrange(n as int, n + 5) =~= chunk);
        }
        n = n + 5;
    }
    proof {
        assert(s@.subrange(0, len as int) =~= s@);
    }
    lst
}

/// `b` of a chunk of at most two digits stays under 4096, and any `b`
/// value is non-negative.
proof fn lemma_b_bounds(s: Seq<char>)
    requires
        s.len() <= 2,
    ensures
        0 <= b_spec(s) < 4096,
        s.len() == 1 ==> b_spec(s) < 64,
{
    if forall|i: int| 0 <= i < s.len() ==> b64_valid(#[trigger] s[i]) {
        lemma_b64_value_bound(s);
    }
}

/// Maps an inventory count to an investment rate: one percent per count.
pub open spec fn item_rate(v: u8) -> u64 {
    (v * 10_000_000) as u64
}

/// Maps a magazine count to its rate: zero stays zero, any other count
/// `v` gives `0.02 * v + 0.06`.
pub open spec fn magazine_rate(v: u8) -> u64 {
    if v == 0 {
        0
    } else {
        (v * 20_000_000 + 60_000_000) as u64
    }
}

/// Converts an inventory vector to its rate vector.
fn map_item_rates(v: &Vec<u8>) -> (r: Vec<u64>)
    ensures
        r@ == v@.map_values(|x: u8| item_rate(x)),
{
    let mut r: Vec<u64> = Vec::new();
    let mut i: usize = 0;
    while i < v.len()
        invariant
            i <= v@.len(),
            r@.len() == i,
            forall|k: int| 0 <= k < i ==> #[trigger] r@[k] == item_rate(v@[k]),
        decreases v@.len() - i,
    {
        r.push((v[i] as u64) * 10_000_000);
        i = i + 1;
    }
    proof {
        assert(r@ =~= v@.map_values(|x: u8| item_rate(x)));
    }
    r
}

impl UserProfile {
    /// Builds the typed profile from a raw save record: each band's and
    /// each attribute's inventory becomes a rate vector (one percent per
    /// item), the magazine counts become their rates, and the status
    /// string is decoded into the card collection.
    ///
    /// The band axes are keyed by band id and listed in canonical order;
    /// the id 0 entry stands for the all-band inventory, which no
    /// character's band matches. The attribute axes take the menu and
    /// plaza counts in the canonical attribute order.
    pub fn new(raw: &RawUserProfile) -> (r: UserProfile)
        requires
            raw.items.menu@.len() >= 4,
            raw.items.plaza@.len() >= 4,
            raw.items.magazine@.len() >= 3,
            raw.data@.len() % 5 == 0,
        ensures
            r.name@ == raw.name@,
            r.server == raw.server,
            r.bands@.len() == 6,
            r.bands@[0].0 == 2 && r.bands@[0].1@ == raw.items.afterglow@.map_values(
                |x: u8| item_rate(x),
            ),
            r.bands@[1].0 == 0 && r.bands@[1].1@ == raw.items.everyone@.map_values(
                |x: u8| item_rate(x),
            ),
            r.bands@[2].0 == 3 && r.bands@[2].1@ == raw.items.hello_happy_world@.map_values(
                |x: u8| item_rate(x),
            ),
            r.bands@[3].0 == 4 && r.bands@[3].1@ == raw.items.pastel_palettes@.map_values(
                |x: u8| item_rate(x),
            ),
            r.bands@[4].0 == 1 && r.bands@[4].1@ == raw.items.poppin_party@.map_values(
                |x: u8| item_rate(x),
            ),
            r.bands@[5].0 == 5 && r.bands@[5].1@ == raw.items.roselia@.map_values(
                |x: u8| item_rate(x),
            ),
            r.props@.len() == 4,
            r.props@[0].0 == Attribute::Powerful && r.props@[0].1@ == seq![
                item_rate(raw.items.menu@[0]),
                item_rate(raw.items.plaza@[0]),
            ],
            r.props@[1].0 == Attribute::Cool && r.props@[1].1@ == seq![
                item_rate(raw.items.menu@[1]),
                item_rate(raw.items.plaza@[1]),
            ],
            r.props@[2].0 == Attribute::Happy && r.props@[2].1@ == seq![
                item_rate(raw.items.menu@[2]),
                item_rate(raw.items.plaza@[2]),
            ],
            r.props@[3].0 == Attribute::Pure && r.props@[3].1@ == seq![
                item_rate(raw.items.menu@[3]),
                item_rate(raw.items.plaza@[3]),
            ],
            r.magazine.performance == magazine_rate(raw.items.magazine@[0]),
            r.magazine.technique == magazine_rate(raw.items.magazine@[1]),
            r.magazine.visual == magazine_rate(raw.items.magazine@[2]),
            r.card_status@ == decode_spec(raw.data@),
    {
        let mut bands: Vec<(u8, Vec<u64>)> = Vec::new();
        bands.push((2, map_item_rates(&raw.items.afterglow)));
        bands.push((0, map_item_rates(&raw.items.everyone)));
        bands.push((3, map_item_rates(&raw.items.hello_happy_world)));
        bands.push((4, map_item_rates(&raw.items.pastel_palettes)));
        bands.push((1, map_item_rates(&raw.items.poppin_party)));
        bands.push((5, map_item_rates(&raw.items.roselia)));

        let mut props: Vec<(Attribute, Vec<u64>)> = Vec::new();
        let mut powerful: Vec<u64> = Vec::new();
        powerful.push((raw.items.menu[0] as u64) * 10_000_000);
        powerful.push((raw.items.plaza[0] as u64) * 10_000_000);
        props.push((Attribute::Powerful, powerful));
        let mut cool: Vec<u64> = Vec::new();
        cool.push((raw.items.menu[1] as u64) * 10_000_000);
        cool.push((raw.items.plaza[1] as u64) * 10_000_000);
        props.push((Attribute::Cool, cool));
        let mut happy: Vec<u64> = Vec::new();
        happy.push((raw.items.menu[2] as u64) * 10_000_000);
        happy.push((raw.items.plaza[2] as u64) * 10_000_000);
        props.push((Attribute::Happy, happy));
        let mut pure: Vec<u64> = Vec::new();
        pure.push((raw.items.menu[3] as u64) * 10_000_000);
        pure.push((raw.items.plaza[3] as u64) * 10_000_000);
        props.push((Attribute::Pure, pure));

        let magazine = Magazine {
            performance: magazine_rate_of(raw.items.magazine[0]),
            technique: magazine_rate_of(raw.items.magazine[1]),
            visual: magazine_rate_of(raw.items.magazine[2]),
        };
        let card_status = decode_data(&raw.data);
        UserProfile {
            name: raw.name.clone(),
            server: raw.server,
            bands,
            props,
            magazine,
            card_status,
        }
    }
}

/// Converts one magazine count to its rate.
fn magazine_rate_of(v: u8) -> (r: u64)
    ensures
        r == magazine_rate(v),
{
    if v == 0 {
        0
    } else {
        (v as u64) * 20_000_000 + 60_000_000
    }
}

/// The character-to-band relation a character catalog defines.
pub open spec fn character_band_spec(characters: Seq<(u8, Character)>) -> Map<u8, u8>
    decreases characters.len(),
{
    if characters.len() == 0 {
        Map::empty()
    } else {
        character_band_spec(characters.drop_last()).insert(
            characters.last().0,
            characters.last().1.band_id,
        )
    }
}

/// Generates the character-to-band relation from a character catalog,
/// keyed by character id.
pub fn character_band_new(characters: &Vec<(u8, Character)>) -> (r: HashMap<u8, u8>)
    ensures
        r@ == character_band_spec(characters@),
{
    let mut character_band: HashMap<u8, u8> = HashMap::new();
    let mut i: usize = 0;
    proof {
        assert(characters@.subrange(0, 0) =~= Seq::<(u8, Character)>::empty());
    }
    while i < characters.len()
        invariant
            i <= characters@.len(),
            character_band@ == character_band_spec(characters@.subrange(0, i as int)),
        decreases characters@.len() - i,
    {
        proof {
            assert(characters@.subrange(0, i + 1).drop_last() =~= characters@.subrange(
                0,
                i as int,
            ));
            assert(characters@.subrange(0, i + 1).last() == characters@[i as int]);
        }
        let entry = &characters[i];
        character_band.insert(entry.0, entry.1.band_id);
        i = i + 1;
    }
    proof {
        assert(characters@.subrange(0, characters@.len() as int) =~= characters@);
    }
    character_band
}


/// The static per-skill score multipliers, keyed by skill id.
pub open spec fn card_skill_table() -> Map<u8, u64> {
    Map::empty().insert(1u8, 1100000000u64).insert(2u8, 1300000000u64).insert(3u8, 1600000000u64).insert(4u8, 2000000000u64).insert(5u8, 1100000000u64).insert(6u8, 1200000000u64).insert(7u8, 1400000000u64).insert(8u8, 1100000000u64).insert(9u8, 1200000000u64).insert(10u8, 1400000000u64).insert(11u8, 1300000000u64).insert(12u8, 1600000000u64).insert(13u8, 1300000000u64).insert(14u8, 1600000000u64).insert(15u8, 1000000000u64).insert(16u8, 1000000000u64).insert(17u8, 1650000000u64).insert(18u8, 2100000000u64).insert(20u8, 2150000000u64).insert(21u8, 1400000000u64).insert(22u8, 1800000000u64).insert(23u8, 1100000000u64).insert(24u8, 1300000000u64).insert(25u8, 1650000000u64).insert(26u8, 2100000000u64)
}

/// Generates the static card-skill bonus table, in billionths.
pub fn card_skill_new() -> (r: HashMap<u8, u64>)
    ensures
        r@ == card_skill_table(),
{
    let mut m: HashMap<u8, u64> = HashMap::new();
    m.insert(1, 1100000000);
    m.insert(2, 1300000000);
    m.insert(3, 1600000000);
    m.insert(4, 2000000000);
    m.insert(5, 1100000000);
    m.insert(6, 1200000000);
    m.insert(7, 1400000000);
    m.insert(8, 1100000000);
    m.insert(9, 1200000000);
    m.insert(10, 1400000000);
    m.insert(11, 1300000000);
    m.insert(12, 1600000000);
    m.insert(13, 1300000000);
    m.insert(14, 1600000000);
    m.insert(15, 1000000000);
    m.insert(16, 1000000000);
    m.insert(17, 1650000000);
    m.insert(18, 2100000000);
    m.insert(20, 2150000000);
    m.insert(21, 1400000000);
    m.insert(22, 1800000000);
    m.insert(23, 1100000000);
    m.insert(24, 1300000000);
    m.insert(25, 1650000000);
    m.insert(26, 2100000000);
    m
}

} // verus!
