//! The per-card scorer: one card's integer score and multiplicative bonus
//! under one chosen investment context (band axis, attribute axis, magazine
//! axis) and one event-bonus rule.
//!
//! The whole computation runs in exact integer arithmetic over fixed-point
//! rates; the fractional total is truncated to an integer only at the
//! final step, never mid-computation, so no rounding drift compounds.

use vstd::prelude::*;
use std::collections::HashMap;
use crate::cards::{Attribute, Axis, Card, CardData, CardStatus, EventBonus, StatEntry};
use crate::fixed::SCALE;
use crate::level::{get_level_score, level_score_spec};

verus! {

/// A stat triple as unbounded integers: performance, technique, visual.
pub type StatTriple = (int, int, int);

/// The sum of the first `k` per-episode stat triples (flat, no level
/// scaling).
pub open spec fn ep_prefix_sum(eps: Seq<CardData>, k: int) -> StatTriple
    decreases k,
{
    if k <= 0 {
        (0, 0, 0)
    } else {
        let rest = ep_prefix_sum(eps, k - 1);
        (
            rest.0 + eps[k - 1].performance,
            rest.1 + eps[k - 1].technique,
            rest.2 + eps[k - 1].visual,
        )
    }
}

/// What one stat-table entry contributes, in billionths of a stat point:
/// episode lists contribute the first `ep` triples flatly, the base tier
/// nothing, and every other tier its triple times the growth fraction
/// `frac` (itself in billionths), kept fractional. Nothing is truncated
/// mid-accumulation; the one truncation happens at the final score
/// boundary.
pub open spec fn entry_contribution(e: StatEntry, frac: u64, ep: u8) -> StatTriple {
    match e {
        StatEntry::Episodes(eps) => {
            let s = ep_prefix_sum(
                eps@,
                if ep <= eps@.len() { ep as int } else { eps@.len() as int },
            );
            (s.0 * (SCALE as int), s.1 * (SCALE as int), s.2 * (SCALE as int))
        },
        StatEntry::BaseTier(_) => (0, 0, 0),
        StatEntry::LevelTier(c) => (c.performance * frac, c.technique * frac, c.visual * frac),
    }
}

/// The accumulated stat triple over a stat table, in billionths of a
/// stat point.
pub open spec fn stat_total(stat: Seq<StatEntry>, frac: u64, ep: u8) -> StatTriple
    decreases stat.len(),
{
    if stat.len() == 0 {
        (0, 0, 0)
    } else {
        let rest = stat_total(stat.drop_last(), frac, ep);
        let c = entry_contribution(stat.last(), frac, ep);
        (rest.0 + c.0, rest.1 + c.1, rest.2 + c.2)
    }
}

/// The stat triple a card yields for a given ownership record, in
/// billionths of a stat point.
pub open spec fn spec_stat_total(card: Card, status: CardStatus) -> StatTriple {
    stat_total(card.stat@, level_score_spec(status.level, card.rarity), status.ep)
}

/// The sum of a rate vector.
pub open spec fn sum_rates(s: Seq<u64>) -> int
    decreases s.len(),
{
    if s.len() == 0 {
        0
    } else {
        sum_rates(s.drop_last()) + s.last()
    }
}

/// Whether the event's character list hits the card.
pub open spec fn spec_character_hit(card: Card, event_bonus: EventBonus) -> bool {
    event_bonus.characters@.contains(card.character_id)
}

/// Whether the event's attribute hits the card.
pub open spec fn spec_attribute_hit(card: Card, event_bonus: EventBonus) -> bool {
    event_bonus.prop == card.attribute
}

/// The card's multiplicative bonus, in billionths: 1.0 plus every rate
/// whose gate is open. The all-fit rate needs both event hits at once.
pub open spec fn spec_bonus(
    card: Card,
    event_bonus: EventBonus,
    character_band: Map<u8, u8>,
    band_name: u8,
    band_bonus: Seq<u64>,
    prop_name: Attribute,
    prop_bonus: Seq<u64>,
) -> int {
    (SCALE as int) + (if spec_character_hit(card, event_bonus) {
        event_bonus.character_bonus as int
    } else {
        0
    }) + (if character_band[card.character_id] == band_name {
        sum_rates(band_bonus)
    } else {
        0
    }) + (if spec_attribute_hit(card, event_bonus) {
        event_bonus.prop_bonus as int
    } else {
        0
    }) + (if card.attribute == prop_name {
        sum_rates(prop_bonus)
    } else {
        0
    }) + (if spec_character_hit(card, event_bonus) && spec_attribute_hit(card, event_bonus) {
        event_bonus.all_fit_bonus as int
    } else {
        0
    })
}

/// The component of a stat triple named by an axis.
pub open spec fn axis_component(t: StatTriple, axis: Axis) -> int {
    match axis {
        Axis::Performance => t.0,
        Axis::Technique => t.1,
        Axis::Visual => t.2,
    }
}

/// The component named by an optional axis; no axis names 0.
pub open spec fn opt_axis_component(t: StatTriple, axis: Option<Axis>) -> int {
    match axis {
        Some(a) => axis_component(t, a),
        None => 0,
    }
}

/// The card's score before the single final truncation: the stat sum
/// times the bonus, plus half the event's parameter component when the
/// all-fit condition holds, plus the magazine rate times the magazine
/// axis component. Both factors of each term carry a billionths scale,
/// so the total is in units of `SCALE * SCALE`.
pub open spec fn spec_card_score_fx(
    card: Card,
    status: CardStatus,
    event_bonus: EventBonus,
    character_band: Map<u8, u8>,
    magazine_name: Axis,
    magazine: u64,
    band_name: u8,
    band_bonus: Seq<u64>,
    prop_name: Attribute,
    prop_bonus: Seq<u64>,
) -> int {
    let t = spec_stat_total(card, status);
    let bonus = spec_bonus(
        card,
        event_bonus,
        character_band,
        band_name,
        band_bonus,
        prop_name,
        prop_bonus,
    );
    (t.0 + t.1 + t.2) * bonus + (if spec_character_hit(card, event_bonus)
        && spec_attribute_hit(card, event_bonus) {
        opt_axis_component(t, event_bonus.parameter) * ((SCALE as int) / 2)
    } else {
        0
    }) + (magazine as int) * axis_component(t, magazine_name)
}

/// The card's integer score: the fractional total truncated exactly
/// once, at this final boundary.
pub open spec fn spec_card_score(
    card: Card,
    status: CardStatus,
    event_bonus: EventBonus,
    character_band: Map<u8, u8>,
    magazine_name: Axis,
    magazine: u64,
    band_name: u8,
    band_bonus: Seq<u64>,
    prop_name: Attribute,
    prop_bonus: Seq<u64>,
) -> int {
    spec_card_score_fx(
        card,
        status,
        event_bonus,
        character_band,
        magazine_name,
        magazine,
        band_name,
        band_bonus,
        prop_name,
        prop_bonus,
    ) / ((SCALE as int) * (SCALE as int))
}

/// Every stat-table contribution is componentwise non-negative.
pub proof fn lemma_entry_contribution_nonneg(e: StatEntry, frac: u64, ep: u8)
    ensures
        entry_contribution(e, frac, ep).0 >= 0,
        entry_contribution(e, frac, ep).1 >= 0,
        entry_contribution(e, frac, ep).2 >= 0,
{
    match e {
        StatEntry::Episodes(eps) => {
            let k = if ep <= eps@.len() {
                ep as int
            } else {
                eps@.len() as int
            };
            lemma_ep_prefix_sum_nonneg(eps@, k);
            let s = ep_prefix_sum(eps@, k);
            assert(s.0 * (SCALE as int) >= 0 && s.1 * (SCALE as int) >= 0 && s.2 * (
            SCALE as int) >= 0) by (nonlinear_arith)
                requires s.0 >= 0 && s.1 >= 0 && s.2 >= 0;
        },
        StatEntry::BaseTier(_) => {},
        StatEntry::LevelTier(c) => {
            assert(c.performance * frac >= 0 && c.technique * frac >= 0 && c.visual * frac
                >= 0) by (nonlinear_arith);
        },
    }
}

proof fn lemma_ep_prefix_sum_nonneg(eps: Seq<CardData>, k: int)
    ensures
        ep_prefix_sum(eps, k).0 >= 0,
        ep_prefix_sum(eps, k).1 >= 0,
        ep_prefix_sum(eps, k).2 >= 0,
    decreases k,
{
    if k > 0 {
        lemma_ep_prefix_sum_nonneg(eps, k - 1);
    }
}

/// The accumulated stat triple is componentwise non-negative.
pub proof fn lemma_stat_total_nonneg(stat: Seq<StatEntry>, frac: u64, ep: u8)
    ensures
        stat_total(stat, frac, ep).0 >= 0,
        stat_total(stat, frac, ep).1 >= 0,
        stat_total(stat, frac, ep).2 >= 0,
    decreases stat.len(),
{
    if stat.len() > 0 {
        lemma_stat_total_nonneg(stat.drop_last(), frac, ep);
        lemma_entry_contribution_nonneg(stat.last(), frac, ep);
    }
}

/// A prefix of the stat table never contributes more than the whole.
pub proof fn lemma_stat_total_prefix_le(stat: Seq<StatEntry>, i: int, frac: u64, ep: u8)
    requires
        0 <= i <= stat.len(),
    ensures
        stat_total(stat.subrange(0, i), frac, ep).0 <= stat_total(stat, frac, ep).0,
        stat_total(stat.subrange(0, i), frac, ep).1 <= stat_total(stat, frac, ep).1,
        stat_total(stat.subrange(0, i), frac, ep).2 <= stat_total(stat, frac, ep).2,
    decreases stat.len() - i,
{
    if i == stat.len() {
        assert(stat.subrange(0, i) =~= stat);
    } else {
        lemma_stat_total_prefix_le(stat, i + 1, frac, ep);
        assert(stat.subrange(0, i + 1).drop_last() =~= stat.subrange(0, i));
        lemma_entry_contribution_nonneg(stat.subrange(0, i + 1).last(), frac, ep);
    }
}

/// Rate sums are non-negative.
pub proof fn lemma_sum_rates_nonneg(s: Seq<u64>)
    ensures
        sum_rates(s) >= 0,
    decreases s.len(),
{
    if s.len() > 0 {
        lemma_sum_rates_nonneg(s.drop_last());
    }
}

/// A prefix of a rate vector never sums to more than the whole.
proof fn lemma_sum_rates_prefix_le(s: Seq<u64>, i: int)
    requires
        0 <= i <= s.len(),
    ensures
        sum_rates(s.subrange(0, i)) <= sum_rates(s),
    decreases s.len() - i,
{
    if i == s.len() {
        assert(s.subrange(0, i) =~= s);
    } else {
        lemma_sum_rates_prefix_le(s, i + 1);
        assert(s.subrange(0, i + 1).drop_last() =~= s.subrange(0, i));
    }
}

/// Sums a rate vector. The caller guarantees the sum fits.
fn sum_rate_vec(v: &Vec<u64>) -> (r: u64)
    requires
        sum_rates(v@) <= u64::MAX,
    ensures
        r == sum_rates(v@),
{
    let mut acc: u64 = 0;
    let mut i: usize = 0;
    proof {
        assert(v@.subrange(0, 0) =~= Seq::<u64>::empty());
    }
    while i < v.len()
        invariant
            i <= v@.len(),
            sum_rates(v@) <= u64::MAX,
            acc == sum_rates(v@.subrange(0, i as int)),
        decreases v@.len() - i,
    {
        proof {
            assert(v@.subrange(0, i + 1).drop_last() =~= v@.subrange(0, i as int));
            lemma_sum_rates_prefix_le(v@, i + 1);
            lemma_sum_rates_nonneg(v@.subrange(0, i as int));
        }
        acc = acc + v[i];
        i = i + 1;
    }
    proof {
        assert(v@.subrange(0, v@.len() as int) =~= v@);
    }
    acc
}

/// Computes one card's `(score, bonus)` under one investment context and
/// one event-bonus rule.
///
/// The score is the card's accumulated stat sum times its bonus, plus the
/// gated parameter and magazine terms, truncated to an integer at this
/// final step only and saturated at `u32::MAX`; the bonus (in billionths)
/// is returned for reuse as the card's multiplier during ranking.
pub fn calc_card_score(
    card: &Card,
    card_stat: &CardStatus,
    event_bonus: &EventBonus,
    character_band: &HashMap<u8, u8>,
    magazine_name: Axis,
    magazine: u64,
    band_name: u8,
    band_bonus: &Vec<u64>,
    prop_name: Attribute,
    prop_bonus: &Vec<u64>,
) -> (r: (u32, u64))
    requires
        card_stat.level >= 1,
        character_band@.contains_key(card.character_id),
        spec_stat_total(*card, *card_stat).0 <= (u32::MAX as int) * (SCALE as int),
        spec_stat_total(*card, *card_stat).1 <= (u32::MAX as int) * (SCALE as int),
        spec_stat_total(*card, *card_stat).2 <= (u32::MAX as int) * (SCALE as int),
        spec_bonus(
            *card,
            *event_bonus,
            character_band@,
            band_name,
            band_bonus@,
            prop_name,
            prop_bonus@,
        ) <= u64::MAX,
    ensures
        ({
            let score = spec_card_score(
                *card,
                *card_stat,
                *event_bonus,
                character_band@,
                magazine_name,
                magazine,
                band_name,
                band_bonus@,
                prop_name,
                prop_bonus@,
            );
            r.0 == if score <= u32::MAX { score } else { u32::MAX as int }
        }),
        r.1 == spec_bonus(
            *card,
            *event_bonus,
            character_band@,
            band_name,
            band_bonus@,
            prop_name,
            prop_bonus@,
        ),
{
    let frac = get_level_score(card_stat.level, card.rarity);
    let ghost stats = card.stat@;

    // Accumulate the stat triple over the stat table, in billionths of a
    // stat point, so that no component is truncated mid-computation.
    let mut perf: u64 = 0;
    let mut tech: u64 = 0;
    let mut vis: u64 = 0;
    proof {
        assert(stats.subrange(0, 0) =~= Seq::<StatEntry>::empty());
    }
    let mut i: usize = 0;
    while i < card.stat.len()
        invariant
            i <= stats.len(),
            stats == card.stat@,
            frac == level_score_spec(card_stat.level, card.rarity),
            frac <= SCALE,
            stat_total(stats, frac, card_stat.ep).0 <= (u32::MAX as int) * (SCALE as int),
            stat_total(stats, frac, card_stat.ep).1 <= (u32::MAX as int) * (SCALE as int),
            stat_total(stats, frac, card_stat.ep).2 <= (u32::MAX as int) * (SCALE as int),
            perf == stat_total(stats.subrange(0, i as int), frac, card_stat.ep).0,
            tech == stat_total(stats.subrange(0, i as int), frac, card_stat.ep).1,
            vis == stat_total(stats.subrange(0, i as int), frac, card_stat.ep).2,
        decreases stats.len() - i,
    {
        proof {
            assert(stats.subrange(0, i + 1).drop_last() =~= stats.subrange(0, i as int));
            assert(stats.subrange(0, i + 1).last() == stats[i as int]);
            lemma_stat_total_prefix_le(stats, i + 1, frac, card_stat.ep);
            lemma_stat_total_nonneg(stats.subrange(0, i as int), frac, card_stat.ep);
            lemma_entry_contribution_nonneg(stats[i as int], frac, card_stat.ep);
        }
        match &card.stat[i] {
            StatEntry::Episodes(eps) => {
                let m: usize = if (card_stat.ep as usize) <= eps.len() {
                    card_stat.ep as usize
                } else {
                    eps.len()
                };
                let ghost c = entry_contribution(stats[i as int], frac, card_stat.ep);
                let ghost sm = ep_prefix_sum(eps@, m as int);
                proof {
                    lemma_ep_prefix_sum_nonneg(eps@, m as int);
                    assert(c.0 == sm.0 * (SCALE as int) && c.1 == sm.1 * (SCALE as int) && c.2
                        == sm.2 * (SCALE as int));
                    assert(sm.0 <= u32::MAX && sm.1 <= u32::MAX && sm.2 <= u32::MAX)
                        by (nonlinear_arith)
                        requires
                            sm.0 * (SCALE as int) <= (u32::MAX as int) * (SCALE as int),
                            sm.1 * (SCALE as int) <= (u32::MAX as int) * (SCALE as int),
                            sm.2 * (SCALE as int) <= (u32::MAX as int) * (SCALE as int),
                            (SCALE as int) > 0,
                    ;
                }
                let mut j: usize = 0;
                let mut ep_p: u32 = 0;
                let mut ep_t: u32 = 0;
                let mut ep_v: u32 = 0;
                while j < m
                    invariant
                        j <= m,
                        m <= eps@.len(),
                        sm == ep_prefix_sum(eps@, m as int),
                        sm.0 <= u32::MAX && sm.1 <= u32::MAX && sm.2 <= u32::MAX,
                        ep_p == ep_prefix_sum(eps@, j as int).0,
                        ep_t == ep_prefix_sum(eps@, j as int).1,
                        ep_v == ep_prefix_sum(eps@, j as int).2,
                    decreases m - j,
                {
                    proof {
                        lemma_ep_prefix_sum_mono(eps@, j + 1, m as int);
                        lemma_ep_prefix_sum_nonneg(eps@, j as int);
                    }
                    ep_p = ep_p + eps[j].performance;
                    ep_t = ep_t + eps[j].technique;
                    ep_v = ep_v + eps[j].visual;
                    j = j + 1;
                }
                perf = perf + (ep_p as u64) * SCALE;
                tech = tech + (ep_t as u64) * SCALE;
                vis = vis + (ep_v as u64) * SCALE;
            },
            StatEntry::BaseTier(_) => {},
            StatEntry::LevelTier(c) => {
                proof {
                    assert((c.performance as int) * (frac as int) <= (u32::MAX as int) * (
                    SCALE as int) && (c.technique as int) * (frac as int) <= (u32::MAX as int)
                        * (SCALE as int) && (c.visual as int) * (frac as int) <= (u32::MAX
                        as int) * (SCALE as int)) by (nonlinear_arith)
                        requires
                            c.performance <= u32::MAX,
                            c.technique <= u32::MAX,
                            c.visual <= u32::MAX,
                            frac <= SCALE,
                    ;
                }
                perf = perf + (c.performance as u64) * frac;
                tech = tech + (c.technique as u64) * frac;
                vis = vis + (c.visual as u64) * frac;
            },
        }
        i = i + 1;
    }
    proof {
        assert(stats.subrange(0, stats.len() as int) =~= stats);
    }

    // Multiplier components, each independently gated.
    let ghost bonus_spec = spec_bonus(
        *card,
        *event_bonus,
        character_band@,
        band_name,
        band_bonus@,
        prop_name,
        prop_bonus@,
    );
    proof {
        lemma_sum_rates_nonneg(band_bonus@);
        lemma_sum_rates_nonneg(prop_bonus@);
    }
    let mut bonus: u64 = SCALE;
    let mut has_character_hit = false;
    let character_hit = contains_u8(&event_bonus.characters, card.character_id);
    if character_hit {
        bonus = bonus + event_bonus.character_bonus;
        has_character_hit = true;
    }
    let band_of_character = match character_band.get(&card.character_id) {
        Some(b) => *b,
        None => 0,
    };
    if band_of_character == band_name {
        bonus = bonus + sum_rate_vec(band_bonus);
    }
    let mut has_attribute_hit = false;
    if event_bonus.prop == card.attribute {
        bonus = bonus + event_bonus.prop_bonus;
        has_attribute_hit = true;
    }
    if card.attribute == prop_name {
        bonus = bonus + sum_rate_vec(prop_bonus);
    }
    if has_character_hit && has_attribute_hit {
        bonus = bonus + event_bonus.all_fit_bonus;
    }
    proof {
        assert(bonus == bonus_spec);
    }

    // Every term carries two billionths factors; sum them exactly and
    // truncate once, at this final boundary.
    let total: u64 = perf + tech + vis;
    proof {
        assert((total as int) * (bonus as int)
            <= 237_684_487_487_452_780_546_618_294_275_000_000_000) by (nonlinear_arith)
            requires total <= 12_884_901_885_000_000_000 && bonus <= u64::MAX;
    }
    let mut score_fx: u128 = (total as u128) * (bonus as u128);
    if has_character_hit && has_attribute_hit {
        let param_component: u64 = match event_bonus.parameter {
            Some(Axis::Performance) => perf,
            Some(Axis::Technique) => tech,
            Some(Axis::Visual) => vis,
            None => 0,
        };
        proof {
            assert((param_component as int) * ((SCALE as int) / 2)
                <= 2_147_483_647_500_000_000_000_000_000) by (nonlinear_arith)
                requires
                    param_component <= 4_294_967_295_000_000_000,
                    SCALE == 1_000_000_000,
            ;
        }
        score_fx = score_fx + (param_component as u128) * ((SCALE / 2) as u128);
    }
    let magazine_component: u64 = match magazine_name {
        Axis::Performance => perf,
        Axis::Technique => tech,
        Axis::Visual => vis,
    };
    proof {
        assert((magazine as int) * (magazine_component as int)
            <= 79_228_162_495_817_593_515_539_431_425_000_000_000) by (nonlinear_arith)
            requires
                magazine <= u64::MAX,
                magazine_component <= 4_294_967_295_000_000_000,
        ;
    }
    score_fx = score_fx + (magazine as u128) * (magazine_component as u128);
    proof {
        assert((SCALE as int) * (SCALE as int) == 1_000_000_000_000_000_000)
            by (nonlinear_arith)
            requires SCALE == 1_000_000_000;
    }
    let q: u128 = score_fx / ((SCALE as u128) * (SCALE as u128));
    let score: u32 = if q > u32::MAX as u128 {
        u32::MAX
    } else {
        q as u32
    };
    (score, bonus)
}

/// The stat-table accumulator as a fold operator: add one entry's
/// contribution to a running triple.
pub open spec fn stat_add_fn(frac: u64, ep: u8) -> spec_fn(StatEntry, StatTriple) -> StatTriple {
    |e: StatEntry, acc: StatTriple|
        (
            acc.0 + entry_contribution(e, frac, ep).0,
            acc.1 + entry_contribution(e, frac, ep).1,
            acc.2 + entry_contribution(e, frac, ep).2,
        )
}

proof fn lemma_stat_total_is_fold(stat: Seq<StatEntry>, frac: u64, ep: u8, b: StatTriple)
    ensures
        stat.fold_right(stat_add_fn(frac, ep), b) == (
            stat_total(stat, frac, ep).0 + b.0,
            stat_total(stat, frac, ep).1 + b.1,
            stat_total(stat, frac, ep).2 + b.2,
        ),
    decreases stat.len(),
{
    if stat.len() > 0 {
        lemma_stat_total_is_fold(
            stat.drop_last(),
            frac,
            ep,
            stat_add_fn(frac, ep)(stat.last(), b),
        );
    }
}

/// Accumulation over the stat table is order-independent: two stat tables
/// holding the same entries (as a multiset) accumulate to the same triple.
pub proof fn lemma_stat_total_order_independent(
    s1: Seq<StatEntry>,
    s2: Seq<StatEntry>,
    frac: u64,
    ep: u8,
)
    requires
        s1.to_multiset() == s2.to_multiset(),
    ensures
        stat_total(s1, frac, ep) == stat_total(s2, frac, ep),
{
    let f = stat_add_fn(frac, ep);
    assert forall|x: StatEntry, y: StatEntry, v: StatTriple| #[trigger] f(x, f(y, v)) == f(
        y,
        f(x, v),
    ) by {}
    vstd::seq_lib::lemma_fold_right_permutation(s1, s2, f, (0int, 0int, 0int));
    lemma_stat_total_is_fold(s1, frac, ep, (0int, 0int, 0int));
    lemma_stat_total_is_fold(s2, frac, ep, (0int, 0int, 0int));
}

/// The card score is invariant under reordering of the card's stat-table
/// entries: two cards that agree on every field except the order of their
/// stat tables score identically, with identical bonuses, in every context.
pub proof fn lemma_card_score_stat_order_independent(
    card1: Card,
    card2: Card,
    status: CardStatus,
    event_bonus: EventBonus,
    character_band: Map<u8, u8>,
    magazine_name: Axis,
    magazine: u64,
    band_name: u8,
    band_bonus: Seq<u64>,
    prop_name: Attribute,
    prop_bonus: Seq<u64>,
)
    requires
        card1.stat@.to_multiset() == card2.stat@.to_multiset(),
        card1.character_id == card2.character_id,
        card1.rarity == card2.rarity,
        card1.attribute == card2.attribute,
    ensures
        spec_card_score(
            card1,
            status,
            event_bonus,
            character_band,
            magazine_name,
            magazine,
            band_name,
            band_bonus,
            prop_name,
            prop_bonus,
        ) == spec_card_score(
            card2,
            status,
            event_bonus,
            character_band,
            magazine_name,
            magazine,
            band_name,
            band_bonus,
            prop_name,
            prop_bonus,
        ),
        spec_bonus(
            card1,
            event_bonus,
            character_band,
            band_name,
            band_bonus,
            prop_name,
            prop_bonus,
        ) == spec_bonus(
            card2,
            event_bonus,
            character_band,
            band_name,
            band_bonus,
            prop_name,
            prop_bonus,
        ),
{
    lemma_stat_total_order_independent(
        card1.stat@,
        card2.stat@,
        level_score_spec(status.level, card1.rarity),
        status.ep,
    );
}

proof fn lemma_ep_prefix_sum_mono(eps: Seq<CardData>, i: int, j: int)
    requires
        0 <= i <= j,
    ensures
        ep_prefix_sum(eps, i).0 <= ep_prefix_sum(eps, j).0,
        ep_prefix_sum(eps, i).1 <= ep_prefix_sum(eps, j).1,
        ep_prefix_sum(eps, i).2 <= ep_prefix_sum(eps, j).2,
    decreases j - i,
{
    if i < j {
        lemma_ep_prefix_sum_mono(eps, i + 1, j);
    }
}

/// Whether a list of character ids contains the given id.
pub fn contains_u8(v: &Vec<u8>, x: u8) -> (r: bool)
    ensures
        r == v@.contains(x),
{
    let mut i: usize = 0;
    while i < v.len()
        invariant
            i <= v@.len(),
            forall|k: int| 0 <= k < i ==> v@[k] != x,
        decreases v@.len() - i,
    {
        if v[i] == x {
            return true;
        }
        i = i + 1;
    }
    false
}

} // verus!
