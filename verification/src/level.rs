//! The stat-growth curve: a lookup from (rarity class, level) to the
//! fraction, in billionths, of a stat tier's growth that a card at that
//! level has realised. Each rarity class from 1 to 4 has a fixed table
//! indexed by `level - 1`; its first entry is 0 (no growth at level 1) and
//! its last is `SCALE` (fully matured at the maximum level). Rarity classes
//! outside 1 to 4 are treated as already fully matured.

use vstd::prelude::*;
use crate::fixed::SCALE;

verus! {

/// Growth fraction for rarity class 1 at table index `i` (level minus one).
pub open spec fn curve_rarity1_at(i: int) -> u64 {
    if i == 0 {
        0
    } else if i == 1 {
        27741577
    } else if i == 2 {
        58270797
    } else if i == 3 {
        91570237
    } else if i == 4 {
        127631579
    } else if i == 5 {
        166463354
    } else if i == 6 {
        208046732
    } else if i == 7 {
        252372563
    } else if i == 8 {
        299459708
    } else if i == 9 {
        349354926
    } else if i == 10 {
        401982989
    } else if i == 11 {
        457371453
    } else if i == 12 {
        515558944
    } else if i == 13 {
        576507019
    } else if i == 14 {
        640187968
    } else if i == 15 {
        706639917
    } else if i == 16 {
        775834384
    } else if i == 17 {
        847770208
    } else if i == 18 {
        922495295
    } else {
        SCALE
    }
}

/// Growth fraction for rarity class 2 at table index `i` (level minus one).
pub open spec fn curve_rarity2_at(i: int) -> u64 {
    if i == 0 {
        0
    } else if i == 1 {
        17856719
    } else if i == 2 {
        36896819
    } else if i == 3 {
        57127203
    } else if i == 4 {
        78548141
    } else if i == 5 {
        101150686
    } else if i == 6 {
        124933670
    } else if i == 7 {
        149918735
    } else if i == 8 {
        176090013
    } else if i == 9 {
        203439069
    } else if i == 10 {
        231980876
    } else if i == 11 {
        261712087
    } else if i == 12 {
        292637953
    } else if i == 13 {
        324741136
    } else if i == 14 {
        358034448
    } else if i == 15 {
        392523141
    } else if i == 16 {
        428193255
    } else if i == 17 {
        465052129
    } else if i == 18 {
        503102418
    } else if i == 19 {
        542334932
    } else if i == 20 {
        582756675
    } else if i == 21 {
        624369994
    } else if i == 22 {
        667164279
    } else if i == 23 {
        711152341
    } else if i == 24 {
        756320242
    } else if i == 25 {
        802684231
    } else if i == 26 {
        850234087
    } else if i == 27 {
        898970020
    } else if i == 28 {
        948892267
    } else {
        SCALE
    }
}

/// Growth fraction for rarity class 3 at table index `i` (level minus one).
pub open spec fn curve_rarity3_at(i: int) -> u64 {
    if i == 0 {
        0
    } else if i == 1 {
        6579811
    } else if i == 2 {
        13490376
    } else if i == 3 {
        20723570
    } else if i == 4 {
        28285746
    } else if i == 5 {
        36174782
    } else if i == 6 {
        44399557
    } else if i == 7 {
        52952037
    } else if i == 8 {
        61827441
    } else if i == 9 {
        71040813
    } else if i == 10 {
        80578492
    } else if i == 11 {
        90443963
    } else if i == 12 {
        100636098
    } else if i == 13 {
        111158267
    } else if i == 14 {
        122010778
    } else if i == 15 {
        133191461
    } else if i == 16 {
        144696966
    } else if i == 17 {
        156532101
    } else if i == 18 {
        168700648
    } else if i == 19 {
        181194412
    } else if i == 20 {
        194016180
    } else if i == 21 {
        207169877
    } else if i == 22 {
        220646377
    } else if i == 23 {
        234456705
    } else if i == 24 {
        248591573
    } else if i == 25 {
        263059820
    } else if i == 26 {
        277857280
    } else if i == 27 {
        292974958
    } else if i == 28 {
        308427644
    } else if i == 29 {
        324204597
    } else if i == 30 {
        340310855
    } else if i == 31 {
        356749025
    } else if i == 32 {
        373518426
    } else if i == 33 {
        390610685
    } else if i == 34 {
        408032156
    } else if i == 35 {
        425787410
    } else if i == 36 {
        443866314
    } else if i == 37 {
        462273094
    } else if i == 38 {
        481010994
    } else if i == 39 {
        500071373
    } else if i == 40 {
        527750831
    } else if i == 41 {
        560388099
    } else if i == 42 {
        597984199
    } else if i == 43 {
        640541357
    } else if i == 44 {
        688055741
    } else if i == 45 {
        740526876
    } else if i == 46 {
        797964803
    } else if i == 47 {
        860354033
    } else if i == 48 {
        927695251
    } else {
        SCALE
    }
}

/// Growth fraction for rarity class 4 at table index `i` (level minus one).
pub open spec fn curve_rarity4_at(i: int) -> u64 {
    if i == 0 {
        0
    } else if i == 1 {
        5213794
    } else if i == 2 {
        10626772
    } else if i == 3 {
        16251406
    } else if i == 4 {
        22083007
    } else if i == 5 {
        28130123
    } else if i == 6 {
        34385919
    } else if i == 7 {
        40845165
    } else if i == 8 {
        47514314
    } else if i == 9 {
        54389209
    } else if i == 10 {
        61469267
    } else if i == 11 {
        68761020
    } else if i == 12 {
        76256241
    } else if i == 13 {
        83966138
    } else if i == 14 {
        91879564
    } else if i == 15 {
        100000283
    } else if i == 16 {
        108336950
    } else if i == 17 {
        116878497
    } else if i == 18 {
        125626434
    } else if i == 19 {
        134583498
    } else if i == 20 {
        143751492
    } else if i == 21 {
        153122034
    } else if i == 22 {
        162701236
    } else if i == 23 {
        172489136
    } else if i == 24 {
        182483072
    } else if i == 25 {
        192689530
    } else if i == 26 {
        203103811
    } else if i == 27 {
        213726694
    } else if i == 28 {
        224558734
    } else if i == 29 {
        235600160
    } else if i == 30 {
        246845117
    } else if i == 31 {
        258302275
    } else if i == 32 {
        269965852
    } else if i == 33 {
        281836810
    } else if i == 34 {
        293916893
    } else if i == 35 {
        306203473
    } else if i == 36 {
        318708502
    } else if i == 37 {
        331413665
    } else if i == 38 {
        344327069
    } else if i == 39 {
        357446995
    } else if i == 40 {
        370774648
    } else if i == 41 {
        384312697
    } else if i == 42 {
        398058443
    } else if i == 43 {
        412010004
    } else if i == 44 {
        426172680
    } else if i == 45 {
        440542342
    } else if i == 46 {
        455120272
    } else if i == 47 {
        469907616
    } else if i == 48 {
        484904560
    } else if i == 49 {
        500106699
    } else if i == 50 {
        527787297
    } else if i == 51 {
        560426086
    } else if i == 52 {
        598019398
    } else if i == 53 {
        640573453
    } else if i == 54 {
        688087421
    } else if i == 55 {
        740557483
    } else if i == 56 {
        797979888
    } else if i == 57 {
        860363958
    } else if i == 58 {
        927706300
    } else {
        SCALE
    }
}

/// The number of tabulated levels for a rarity class; rarity classes
/// outside 1 to 4 have a single (fully matured) point.
pub open spec fn max_level(rarity: u8) -> int {
    if rarity == 1 {
        20
    } else if rarity == 2 {
        30
    } else if rarity == 3 {
        50
    } else if rarity == 4 {
        60
    } else {
        1
    }
}

/// The growth fraction, in billionths, for a card of the given rarity
/// class at the given level.
pub open spec fn level_score_spec(level: u8, rarity: u8) -> u64 {
    if rarity == 1 {
        curve_rarity1_at(level - 1)
    } else if rarity == 2 {
        curve_rarity2_at(level - 1)
    } else if rarity == 3 {
        curve_rarity3_at(level - 1)
    } else if rarity == 4 {
        curve_rarity4_at(level - 1)
    } else {
        SCALE
    }
}

fn curve_rarity1_lookup(i: u8) -> (r: u64)
    ensures
        r == curve_rarity1_at(i as int),
{
    match i {
        0 => 0,
        1 => 27741577,
        2 => 58270797,
        3 => 91570237,
        4 => 127631579,
        5 => 166463354,
        6 => 208046732,
        7 => 252372563,
        8 => 299459708,
        9 => 349354926,
        10 => 401982989,
        11 => 457371453,
        12 => 515558944,
        13 => 576507019,
        14 => 640187968,
        15 => 706639917,
        16 => 775834384,
        17 => 847770208,
        18 => 922495295,
        _ => SCALE,
    }
}

fn curve_rarity2_lookup(i: u8) -> (r: u64)
    ensures
        r == curve_rarity2_at(i as int),
{
    match i {
        0 => 0,
        1 => 17856719,
        2 => 36896819,
        3 => 57127203,
        4 => 78548141,
        5 => 101150686,
        6 => 124933670,
        7 => 149918735,
        8 => 176090013,
        9 => 203439069,
        10 => 231980876,
        11 => 261712087,
        12 => 292637953,
        13 => 324741136,
        14 => 358034448,
        15 => 392523141,
        16 => 428193255,
        17 => 465052129,
        18 => 503102418,
        19 => 542334932,
        20 => 582756675,
        21 => 624369994,
        22 => 667164279,
        23 => 711152341,
        24 => 756320242,
        25 => 802684231,
        26 => 850234087,
        27 => 898970020,
        28 => 948892267,
        _ => SCALE,
    }
}

fn curve_rarity3_lookup(i: u8) -> (r: u64)
    ensures
        r == curve_rarity3_at(i as int),
{
    match i {
        0 => 0,
        1 => 6579811,
        2 => 13490376,
        3 => 20723570,
        4 => 28285746,
        5 => 36174782,
        6 => 44399557,
        7 => 52952037,
        8 => 61827441,
        9 => 71040813,
        10 => 80578492,
        11 => 90443963,
        12 => 100636098,
        13 => 111158267,
        14 => 122010778,
        15 => 133191461,
        16 => 144696966,
        17 => 156532101,
        18 => 168700648,
        19 => 181194412,
        20 => 194016180,
        21 => 207169877,
        22 => 220646377,
        23 => 234456705,
        24 => 248591573,
        25 => 263059820,
        26 => 277857280,
        27 => 292974958,
        28 => 308427644,
        29 => 324204597,
        30 => 340310855,
        31 => 356749025,
        32 => 373518426,
        33 => 390610685,
        34 => 408032156,
        35 => 425787410,
        36 => 443866314,
        37 => 462273094,
        38 => 481010994,
        39 => 500071373,
        40 => 527750831,
        41 => 560388099,
        42 => 597984199,
        43 => 640541357,
        44 => 688055741,
        45 => 740526876,
        46 => 797964803,
        47 => 860354033,
        48 => 927695251,
        _ => SCALE,
    }
}

fn curve_rarity4_lookup(i: u8) -> (r: u64)
    ensures
        r == curve_rarity4_at(i as int),
{
    match i {
        0 => 0,
        1 => 5213794,
        2 => 10626772,
        3 => 16251406,
        4 => 22083007,
        5 => 28130123,
        6 => 34385919,
        7 => 40845165,
        8 => 47514314,
        9 => 54389209,
        10 => 61469267,
        11 => 68761020,
        12 => 76256241,
        13 => 83966138,
        14 => 91879564,
        15 => 100000283,
        16 => 108336950,
        17 => 116878497,
        18 => 125626434,
        19 => 134583498,
        20 => 143751492,
        21 => 153122034,
        22 => 162701236,
        23 => 172489136,
        24 => 182483072,
        25 => 192689530,
        26 => 203103811,
        27 => 213726694,
        28 => 224558734,
        29 => 235600160,
        30 => 246845117,
        31 => 258302275,
        32 => 269965852,
        33 => 281836810,
        34 => 293916893,
        35 => 306203473,
        36 => 318708502,
        37 => 331413665,
        38 => 344327069,
        39 => 357446995,
        40 => 370774648,
        41 => 384312697,
        42 => 398058443,
        43 => 412010004,
        44 => 426172680,
        45 => 440542342,
        46 => 455120272,
        47 => 469907616,
        48 => 484904560,
        49 => 500106699,
        50 => 527787297,
        51 => 560426086,
        52 => 598019398,
        53 => 640573453,
        54 => 688087421,
        55 => 740557483,
        56 => 797979888,
        57 => 860363958,
        58 => 927706300,
        _ => SCALE,
    }
}

/// Looks up the stat-growth fraction for `curr_level` under `rarity`:
/// `table[level - 1]` for rarity classes 1 to 4, fully matured (`SCALE`)
/// for any other rarity class. Levels beyond a class's table are outside
/// the curve's domain; callers guarantee the level is within range.
pub fn get_level_score(curr_level: u8, rarity: u8) -> (r: u64)
    requires
        1 <= curr_level,
    ensures
        r == level_score_spec(curr_level, rarity),
        r <= SCALE,
{
    proof {
        lemma_level_curve_bounded(curr_level, rarity);
    }
    let idx: u8 = curr_level - 1;
    if rarity == 1 {
        curve_rarity1_lookup(idx)
    } else if rarity == 2 {
        curve_rarity2_lookup(idx)
    } else if rarity == 3 {
        curve_rarity3_lookup(idx)
    } else if rarity == 4 {
        curve_rarity4_lookup(idx)
    } else {
        SCALE
    }
}

/// Every point of the curve lies between 0 and `SCALE`.
pub proof fn lemma_level_curve_bounded(level: u8, rarity: u8)
    ensures
        level_score_spec(level, rarity) <= SCALE,
{
}

/// The stat-growth curve is non-decreasing in level for a fixed rarity
/// class: a card never loses growth by levelling up. Past the end of a
/// class's table the curve is constant at `SCALE`, so no level bound is
/// needed here.
pub proof fn lemma_level_curve_monotone(l1: u8, l2: u8, rarity: u8)
    requires
        1 <= l1 <= l2,
    ensures
        level_score_spec(l1, rarity) <= level_score_spec(l2, rarity),
{
    if rarity == 1 {
        lemma_curve_rarity1_monotone(l1 - 1, l2 - 1);
    } else if rarity == 2 {
        lemma_curve_rarity2_monotone(l1 - 1, l2 - 1);
    } else if rarity == 3 {
        lemma_curve_rarity3_monotone(l1 - 1, l2 - 1);
    } else if rarity == 4 {
        lemma_curve_rarity4_monotone(l1 - 1, l2 - 1);
    }
}

/// The curve starts at zero growth: level 1 maps to 0 for every rarity
/// class that has a table.
pub proof fn lemma_level_curve_at_level_one(rarity: u8)
    requires
        1 <= rarity <= 4,
    ensures
        level_score_spec(1, rarity) == 0,
{
}

/// The curve ends fully matured: the maximum tabulated level maps to
/// exactly `SCALE` for every rarity class.
pub proof fn lemma_level_curve_at_max_level(rarity: u8)
    ensures
        level_score_spec(max_level(rarity) as u8, rarity) == SCALE,
{
}

proof fn lemma_curve_rarity1_monotone(i: int, j: int)
    requires
        0 <= i <= j,
    ensures
        curve_rarity1_at(i) <= curve_rarity1_at(j),
    decreases j - i,
{
    if i < j {
        assert(curve_rarity1_at(i) <= curve_rarity1_at(i + 1));
        lemma_curve_rarity1_monotone(i + 1, j);
    }
}

proof fn lemma_curve_rarity2_monotone(i: int, j: int)
    requires
        0 <= i <= j,
    ensures
        curve_rarity2_at(i) <= curve_rarity2_at(j),
    decreases j - i,
{
    if i < j {
        assert(curve_rarity2_at(i) <= curve_rarity2_at(i + 1));
        lemma_curve_rarity2_monotone(i + 1, j);
    }
}

proof fn lemma_curve_rarity3_monotone(i: int, j: int)
    requires
        0 <= i <= j,
    ensures
        curve_rarity3_at(i) <= curve_rarity3_at(j),
    decreases j - i,
{
    if i < j {
        assert(curve_rarity3_at(i) <= curve_rarity3_at(i + 1));
        lemma_curve_rarity3_monotone(i + 1, j);
    }
}

proof fn lemma_curve_rarity4_monotone(i: int, j: int)
    requires
        0 <= i <= j,
    ensures
        curve_rarity4_at(i) <= curve_rarity4_at(j),
    decreases j - i,
{
    if i < j {
        assert(curve_rarity4_at(i) <= curve_rarity4_at(i + 1));
        lemma_curve_rarity4_monotone(i + 1, j);
    }
}

} // verus!
