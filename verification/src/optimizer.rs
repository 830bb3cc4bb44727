//! The team optimizer: ranks every eligible card per investment context
//! and greedily assembles the best distinct-character 5-card team over
//! all contexts.
//!
//! Candidates are ranked descending by the product
//! `score * skill_multiplier * bonus` (the product ranking policy), with
//! ties kept in candidate order, so the whole search is deterministic.

use vstd::prelude::*;
use std::collections::HashMap;
use crate::cache::{cache_table, cache_entry_spec, chart_wf, tag_wf, CacheTable};
use crate::cards::{Axis, Card, CardStatus, EventBonus, Magazine, Skill, SongNote};
use crate::fixed::SCALE;
use crate::profile::UserProfile;
use crate::scorer::{calc_card_score, spec_bonus, spec_card_score, spec_stat_total, sum_rates};
use crate::song::NOTE_CAP;

verus! {

/// One card's evaluation result within one context: its id, character,
/// integer score, skill id, and the two multipliers (in billionths) used
/// for ranking.
#[derive(Clone, Copy, Debug, PartialEq, Eq, Structural)]
pub struct CalcCard {
    pub card_id: u32,
    pub character_id: u8,
    pub score: u32,
    pub skill_id: u8,
    pub skill_mul: u64,
    pub bp_mul: u64,
}

/// The event mode; only `VS` is skill-sensitive.
#[derive(Clone, Copy, Debug, PartialEq, Eq, Structural)]
pub enum EventType {
    Free,
    Multi,
    VS,
}

/// Machine cap on a candidate's skill multiplier, in billionths.
pub const SKILL_MUL_CAP: u64 = 700_000_000_000_000_000;

/// Machine cap on a candidate's bonus multiplier, in billionths.
pub const BP_MUL_CAP: u64 = 64_000_000_000;

/// A candidate whose multipliers respect the machine caps, so that rank
/// products fit the comparison width.
pub open spec fn card_bounded(c: CalcCard) -> bool {
    c.skill_mul <= SKILL_MUL_CAP && c.bp_mul <= BP_MUL_CAP
}

/// The ranking key: the product of score and both multipliers.
pub open spec fn rank_key(c: CalcCard) -> int {
    c.score * c.skill_mul * c.bp_mul
}

/// Compares two candidates by the product ranking.
fn rank_gt(a: &CalcCard, b: &CalcCard) -> (r: bool)
    requires
        card_bounded(*a),
        card_bounded(*b),
    ensures
        r == (rank_key(*a) > rank_key(*b)),
{
    proof {
        lemma_rank_key_bounded(*a);
        lemma_rank_key_bounded(*b);
        lemma_rank_product_steps(*a);
        lemma_rank_product_steps(*b);
    }
    let ka: u128 = (a.score as u128) * (a.skill_mul as u128) * (a.bp_mul as u128);
    let kb: u128 = (b.score as u128) * (b.skill_mul as u128) * (b.bp_mul as u128);
    ka > kb
}

proof fn lemma_rank_product_steps(c: CalcCard)
    requires
        card_bounded(c),
    ensures
        0 <= c.score * c.skill_mul <= (u32::MAX as int) * (SKILL_MUL_CAP as int),
        0 <= (c.score * c.skill_mul) * c.bp_mul <= (u32::MAX as int) * (SKILL_MUL_CAP as int) * (
        BP_MUL_CAP as int),
{
    assert(0 <= c.score * c.skill_mul <= (u32::MAX as int) * (SKILL_MUL_CAP as int))
        by (nonlinear_arith)
        requires
            c.score <= u32::MAX,
            c.skill_mul <= SKILL_MUL_CAP,
    ;
    assert(0 <= (c.score * c.skill_mul) * c.bp_mul <= (u32::MAX as int) * (SKILL_MUL_CAP as int)
        * (BP_MUL_CAP as int)) by (nonlinear_arith)
        requires
            0 <= c.score * c.skill_mul <= (u32::MAX as int) * (SKILL_MUL_CAP as int),
            c.bp_mul <= BP_MUL_CAP,
    ;
}

/// Under the machine caps the rank product fits the comparison width.
proof fn lemma_rank_key_bounded(c: CalcCard)
    requires
        card_bounded(c),
    ensures
        0 <= rank_key(c) <= (u32::MAX as int) * (SKILL_MUL_CAP as int) * (BP_MUL_CAP as int),
        rank_key(c) < u128::MAX,
{
    assert(0 <= c.score * c.skill_mul * c.bp_mul <= (u32::MAX as int) * (SKILL_MUL_CAP as int)
        * (BP_MUL_CAP as int)) by (nonlinear_arith)
        requires
            c.score <= u32::MAX,
            c.skill_mul <= SKILL_MUL_CAP,
            c.bp_mul <= BP_MUL_CAP,
    ;
}

/// Inserts a candidate into a descending-ranked sequence, after every
/// existing candidate of equal or higher rank (which keeps ties stable).
pub open spec fn insert_sorted(c: CalcCard, s: Seq<CalcCard>) -> Seq<CalcCard>
    decreases s.len(),
{
    if s.len() == 0 {
        seq![c]
    } else if rank_key(c) > rank_key(s[0]) {
        seq![c] + s
    } else {
        seq![s[0]] + insert_sorted(c, s.drop_first())
    }
}

/// Sorts candidates descending by rank, stably, by inserting them in
/// order.
pub open spec fn sort_cards(s: Seq<CalcCard>) -> Seq<CalcCard>
    decreases s.len(),
{
    if s.len() == 0 {
        Seq::empty()
    } else {
        insert_sorted(s.last(), sort_cards(s.drop_last()))
    }
}

proof fn lemma_insert_sorted_at(c: CalcCard, s: Seq<CalcCard>, j: int)
    requires
        0 <= j <= s.len(),
        forall|i: int| 0 <= i < j ==> !(rank_key(c) > rank_key(#[trigger] s[i])),
        j < s.len() ==> rank_key(c) > rank_key(s[j]),
    ensures
        insert_sorted(c, s) == s.subrange(0, j) + seq![c] + s.subrange(j, s.len() as int),
    decreases j,
{
    if s.len() == 0 {
        assert(insert_sorted(c, s) =~= s.subrange(0, j) + seq![c] + s.subrange(
            j,
            s.len() as int,
        ));
    } else if j == 0 {
        assert(insert_sorted(c, s) =~= s.subrange(0, j) + seq![c] + s.subrange(
            j,
            s.len() as int,
        ));
    } else {
        assert(!(rank_key(c) > rank_key(s[0])));
        assert(forall|i: int|
            0 <= i < j - 1 ==> !(rank_key(c) > rank_key(#[trigger] s.drop_first()[i])));
        lemma_insert_sorted_at(c, s.drop_first(), j - 1);
        assert(seq![s[0]] + (s.drop_first().subrange(0, j - 1) + seq![c]
            + s.drop_first().subrange(j - 1, s.drop_first().len() as int)) =~= s.subrange(0, j)
            + seq![c] + s.subrange(j, s.len() as int));
    }
}

/// Every candidate of an insertion result is the inserted one or one of
/// the sequence's own.
proof fn lemma_insert_sorted_members(c: CalcCard, s: Seq<CalcCard>)
    ensures
        forall|x: CalcCard| #[trigger] insert_sorted(c, s).contains(x) ==> x == c || s.contains(x),
        insert_sorted(c, s).len() == s.len() + 1,
    decreases s.len(),
{
    if s.len() == 0 {
    } else if rank_key(c) > rank_key(s[0]) {
    } else {
        lemma_insert_sorted_members(c, s.drop_first());
        assert forall|x: CalcCard| #[trigger] insert_sorted(c, s).contains(x) implies x == c
            || s.contains(x) by {
            if x != c {
                let t = seq![s[0]] + insert_sorted(c, s.drop_first());
                let i = choose|i: int| 0 <= i < t.len() && t[i] == x;
                if i == 0 {
                    assert(s[0] == x);
                } else {
                    assert(insert_sorted(c, s.drop_first())[i - 1] == x);
                    assert(insert_sorted(c, s.drop_first()).contains(x));
                    assert(s.drop_first().contains(x));
                    let k = choose|k: int|
                        0 <= k < s.drop_first().len() && s.drop_first()[k] == x;
                    assert(s[k + 1] == x);
                }
            }
        }
    }
}

/// The sorted sequence holds exactly the candidates it was given.
pub proof fn lemma_sort_cards_members(s: Seq<CalcCard>)
    ensures
        forall|x: CalcCard| #[trigger] sort_cards(s).contains(x) ==> s.contains(x),
        sort_cards(s).len() == s.len(),
    decreases s.len(),
{
    if s.len() > 0 {
        lemma_sort_cards_members(s.drop_last());
        lemma_insert_sorted_members(s.last(), sort_cards(s.drop_last()));
        assert forall|x: CalcCard| #[trigger] sort_cards(s).contains(x) implies s.contains(x) by {
            if x != s.last() {
                assert(sort_cards(s.drop_last()).contains(x));
                assert(s.drop_last().contains(x));
                let k = choose|k: int| 0 <= k < s.drop_last().len() && s.drop_last()[k] == x;
                assert(s[k] == x);
            } else {
                assert(s[s.len() - 1] == x);
            }
        }
    }
}

/// Sorts the candidate list descending by the product ranking, keeping
/// candidates of equal rank in their original order.
fn sort_by_rank(cards: &Vec<CalcCard>) -> (r: Vec<CalcCard>)
    requires
        forall|i: int| 0 <= i < cards@.len() ==> card_bounded(#[trigger] cards@[i]),
    ensures
        r@ == sort_cards(cards@),
{
    let ghost input = cards@;
    let mut sorted: Vec<CalcCard> = Vec::new();
    let mut i: usize = 0;
    proof {
        assert(input.subrange(0, 0) =~= Seq::<CalcCard>::empty());
    }
    while i < cards.len()
        invariant
            i <= input.len(),
            input == cards@,
            forall|k: int| 0 <= k < input.len() ==> card_bounded(#[trigger] input[k]),
            sorted@ == sort_cards(input.subrange(0, i as int)),
            forall|k: int| 0 <= k < sorted@.len() ==> card_bounded(#[trigger] sorted@[k]),
        decreases input.len() - i,
    {
        let c = cards[i];
        let ghost prev = sorted@;
        let mut j: usize = 0;
        loop
            invariant_except_break
                j <= prev.len(),
                sorted@ == prev,
                forall|k: int| 0 <= k < prev.len() ==> card_bounded(#[trigger] prev[k]),
                card_bounded(c),
                forall|k: int| 0 <= k < j ==> !(rank_key(c) > rank_key(#[trigger] prev[k])),
            ensures
                j <= prev.len(),
                sorted@ == prev,
                forall|k: int| 0 <= k < j ==> !(rank_key(c) > rank_key(#[trigger] prev[k])),
                j < prev.len() ==> rank_key(c) > rank_key(prev[j as int]),
            decreases prev.len() - j,
        {
            if j >= sorted.len() {
                break ;
            }
            if rank_gt(&c, &sorted[j]) {
                break ;
            }
            j = j + 1;
        }
        sorted.insert(j, c);
        proof {
            lemma_insert_sorted_at(c, prev, j as int);
            assert(sorted@ =~= prev.subrange(0, j as int) + seq![c] + prev.subrange(
                j as int,
                prev.len() as int,
            ));
            assert(input.subrange(0, i + 1).drop_last() =~= input.subrange(0, i as int));
            assert(input.subrange(0, i + 1).last() == input[i as int]);
        }
        i = i + 1;
    }
    proof {
        assert(input.subrange(0, input.len() as int) =~= input);
    }
    sorted
}

/// A context's outcome: the selected team, keyed by character id, and
/// its total.
pub struct Selection {
    pub team: Map<u8, CalcCard>,
    pub total: int,
}

/// What one selected candidate adds to the context total: its score times
/// its skill multiplier, truncated to an integer and saturated.
pub open spec fn team_contrib(c: CalcCard) -> int {
    let v = (c.score * c.skill_mul) / (SCALE as int);
    if v <= u32::MAX {
        v
    } else {
        u32::MAX as int
    }
}

/// Greedy selection over the first `n` ranked candidates: walk them in
/// order, keep a candidate unless five are already selected or its
/// character is taken, and accumulate each kept candidate's contribution.
pub open spec fn greedy_select(s: Seq<CalcCard>, n: int) -> Selection
    decreases n,
{
    if n <= 0 {
        Selection { team: Map::empty(), total: 0 }
    } else {
        let prev = greedy_select(s, n - 1);
        let c = s[n - 1];
        if prev.team.len() >= 5 || prev.team.contains_key(c.character_id) {
            prev
        } else {
            Selection {
                team: prev.team.insert(c.character_id, c),
                total: prev.total + team_contrib(c),
            }
        }
    }
}

/// The greedy team stays within five members, has a finite domain, maps
/// each character id to a candidate with that id, holds only candidates
/// of the ranked sequence, and its total stays within five saturated
/// scores.
pub proof fn lemma_greedy_select_props(s: Seq<CalcCard>, n: int)
    requires
        n <= s.len(),
    ensures
        ({
            let sel = greedy_select(s, n);
            &&& sel.team.dom().finite()
            &&& sel.team.len() <= 5
            &&& 0 <= sel.total <= sel.team.len() * (u32::MAX as int)
            &&& forall|ch: u8| #[trigger] sel.team.contains_key(ch) ==> sel.team[ch].character_id
                == ch
            &&& forall|ch: u8| #[trigger] sel.team.contains_key(ch) ==> s.contains(sel.team[ch])
        }),
    decreases n,
{
    if n <= 0 {
    } else {
        lemma_greedy_select_props(s, n - 1);
        let prev = greedy_select(s, n - 1);
        let c = s[n - 1];
        if prev.team.len() >= 5 || prev.team.contains_key(c.character_id) {
        } else {
            if 0 <= n - 1 < s.len() {
                assert(s.contains(c));
            }
            assert(0 <= c.score * c.skill_mul) by (nonlinear_arith);
            vstd::arithmetic::div_mod::lemma_div_pos_is_pos(
                c.score * c.skill_mul,
                SCALE as int,
            );
            assert(prev.total + team_contrib(c) <= (prev.team.len() + 1) * (u32::MAX as int))
                by (nonlinear_arith)
                requires
                    0 <= prev.total <= prev.team.len() * (u32::MAX as int),
                    0 <= team_contrib(c) <= u32::MAX as int,
            ;
        }
    }
}

/// Runs the greedy selection over ranked candidates, returning the team
/// and its total.
fn greedy_pick(sorted: &Vec<CalcCard>) -> (r: (HashMap<u8, CalcCard>, u64))
    requires
        forall|i: int| 0 <= i < sorted@.len() ==> card_bounded(#[trigger] sorted@[i]),
    ensures
        r.0@ == greedy_select(sorted@, sorted@.len() as int).team,
        r.1 == greedy_select(sorted@, sorted@.len() as int).total,
{
    let mut result: HashMap<u8, CalcCard> = HashMap::new();
    let mut result_score: u64 = 0;
    let mut i: usize = 0;
    while i < sorted.len()
        invariant
            i <= sorted@.len(),
            forall|k: int| 0 <= k < sorted@.len() ==> card_bounded(#[trigger] sorted@[k]),
            result@ == greedy_select(sorted@, i as int).team,
            result_score == greedy_select(sorted@, i as int).total,
        decreases sorted@.len() - i,
    {
        proof {
            lemma_greedy_select_props(sorted@, i as int);
            lemma_greedy_select_props(sorted@, i + 1);
        }
        let it = sorted[i];
        if result.len() < 5 && !result.contains_key(&it.character_id) {
            proof {
                lemma_rank_key_bounded(it);
                assert((it.score as int) * (it.skill_mul as int) <= (u32::MAX as int) * (
                SKILL_MUL_CAP as int)) by (nonlinear_arith)
                    requires
                        it.score <= u32::MAX,
                        it.skill_mul <= SKILL_MUL_CAP,
                ;
                vstd::arithmetic::div_mod::lemma_div_pos_is_pos(
                    (it.score as int) * (it.skill_mul as int),
                    SCALE as int,
                );
            }
            let q: u128 = ((it.score as u128) * (it.skill_mul as u128)) / (SCALE as u128);
            let v: u32 = if q > u32::MAX as u128 {
                u32::MAX
            } else {
                q as u32
            };
            result_score = result_score + (v as u64);
            result.insert(it.character_id, it);
        }
        i = i + 1;
    }
    (result, result_score)
}

/// The event simulation's fixed parameters: difficulty level 26, target
/// accuracy 0.97, no fever.
pub const VS_SONG_LEVEL: u32 = 26;

/// The target accuracy the optimizer simulates with, in billionths.
pub const VS_ACCURACY: u64 = 970_000_000;

/// The skill tag of a card under an ownership record:
/// `skill_id * 10 + skill_level`.
pub open spec fn skill_tag(card: Card, status: CardStatus) -> u32 {
    (card.skill_id * 10 + status.skill) as u32
}

/// The skill multiplier of a candidate in the skill-sensitive mode: the
/// diagonal cache cell of its tag, divided by the six synthetic slots.
pub open spec fn vs_skill_mul(
    card: Card,
    status: CardStatus,
    notes: Seq<SongNote>,
    skills: Map<u8, Skill>,
) -> u64 {
    let tag = skill_tag(card, status);
    ((cache_entry_spec(tag, tag, VS_SONG_LEVEL, false, VS_ACCURACY, notes, skills) / 6) as u64)
}

/// Whether an ownership record can field a candidate: not excluded, its
/// card cataloged and released on the profile's server.
pub open spec fn eligible(cards: Map<u32, Card>, server: u8, status: CardStatus) -> bool {
    &&& !status.exclude
    &&& cards.contains_key(status.id)
    &&& cards[status.id].released@[server as int]
}

/// The candidate an eligible ownership record yields in one context.
pub open spec fn spec_candidate(
    cards: Map<u32, Card>,
    status: CardStatus,
    event_bonus: EventBonus,
    character_band: Map<u8, u8>,
    magazine_name: Axis,
    magazine: u64,
    band_name: u8,
    band_bonus: Seq<u64>,
    prop_name: crate::cards::Attribute,
    prop_bonus: Seq<u64>,
    is_vs: bool,
    notes: Seq<SongNote>,
    skills: Map<u8, Skill>,
) -> CalcCard {
    let card = cards[status.id];
    let score = spec_card_score(
        card,
        status,
        event_bonus,
        character_band,
        magazine_name,
        magazine,
        band_name,
        band_bonus,
        prop_name,
        prop_bonus,
    );
    CalcCard {
        card_id: status.id,
        character_id: card.character_id,
        score: (if score <= u32::MAX {
            score
        } else {
            u32::MAX as int
        }) as u32,
        skill_id: card.skill_id,
        skill_mul: if is_vs {
            vs_skill_mul(card, status, notes, skills)
        } else {
            SCALE
        },
        bp_mul: spec_bonus(
            card,
            event_bonus,
            character_band,
            band_name,
            band_bonus,
            prop_name,
            prop_bonus,
        ) as u64,
    }
}

/// The candidate list of one context over the first `n` ownership
/// records, in collection order, skipping ineligible records.
pub open spec fn candidates_spec(
    statuses: Seq<CardStatus>,
    n: int,
    cards: Map<u32, Card>,
    server: u8,
    event_bonus: EventBonus,
    character_band: Map<u8, u8>,
    magazine_name: Axis,
    magazine: u64,
    band_name: u8,
    band_bonus: Seq<u64>,
    prop_name: crate::cards::Attribute,
    prop_bonus: Seq<u64>,
    is_vs: bool,
    notes: Seq<SongNote>,
    skills: Map<u8, Skill>,
) -> Seq<CalcCard>
    decreases n,
{
    if n <= 0 {
        Seq::empty()
    } else {
        let prev = candidates_spec(
            statuses,
            n - 1,
            cards,
            server,
            event_bonus,
            character_band,
            magazine_name,
            magazine,
            band_name,
            band_bonus,
            prop_name,
            prop_bonus,
            is_vs,
            notes,
            skills,
        );
        let st = statuses[n - 1];
        if eligible(cards, server, st) {
            prev.push(
                spec_candidate(
                    cards,
                    st,
                    event_bonus,
                    character_band,
                    magazine_name,
                    magazine,
                    band_name,
                    band_bonus,
                    prop_name,
                    prop_bonus,
                    is_vs,
                    notes,
                    skills,
                ),
            )
        } else {
            prev
        }
    }
}

/// The magazine axis of a context index: performance, technique, visual,
/// in canonical order.
pub open spec fn context_axis(m: int) -> Axis {
    if m == 0 {
        Axis::Performance
    } else if m == 1 {
        Axis::Technique
    } else {
        Axis::Visual
    }
}

/// The magazine rate of a context index.
pub open spec fn context_magazine(mag: Magazine, m: int) -> u64 {
    if m == 0 {
        mag.performance
    } else if m == 1 {
        mag.technique
    } else {
        mag.visual
    }
}

/// One context's outcome: its candidates ranked and greedily selected.
pub open spec fn eval_context(
    cards: Map<u32, Card>,
    profile: UserProfile,
    event_bonus: EventBonus,
    character_band: Map<u8, u8>,
    notes: Seq<SongNote>,
    skills: Map<u8, Skill>,
    is_vs: bool,
    p: int,
    b: int,
    m: int,
) -> Selection {
    let cand = candidates_spec(
        profile.card_status@,
        profile.card_status@.len() as int,
        cards,
        profile.server,
        event_bonus,
        character_band,
        context_axis(m),
        context_magazine(profile.magazine, m),
        profile.bands@[b].0,
        profile.bands@[b].1@,
        profile.props@[p].0,
        profile.props@[p].1@,
        is_vs,
        notes,
        skills,
    );
    let sorted = sort_cards(cand);
    greedy_select(sorted, sorted.len() as int)
}

/// The best outcome over the first `k` contexts in canonical enumeration
/// order (attribute axis outermost, then band axis, then magazine axis);
/// only a strictly higher total displaces an earlier context's outcome,
/// so the first context encountered wins exact ties.
pub open spec fn best_run(
    k: int,
    cards: Map<u32, Card>,
    profile: UserProfile,
    event_bonus: EventBonus,
    character_band: Map<u8, u8>,
    notes: Seq<SongNote>,
    skills: Map<u8, Skill>,
    is_vs: bool,
) -> Selection
    decreases k,
{
    if k <= 0 {
        Selection { team: Map::empty(), total: 0 }
    } else {
        let prev = best_run(
            k - 1,
            cards,
            profile,
            event_bonus,
            character_band,
            notes,
            skills,
            is_vs,
        );
        let nb3 = profile.bands@.len() * 3int;
        let p = (k - 1) / nb3;
        let rem = (k - 1) % nb3;
        let b = rem / 3;
        let m = rem % 3;
        let cur = eval_context(
            cards,
            profile,
            event_bonus,
            character_band,
            notes,
            skills,
            is_vs,
            p,
            b,
            m,
        );
        if cur.total > prev.total {
            cur
        } else {
            prev
        }
    }
}

/// What the team optimizer returns: the best outcome over the whole
/// cartesian product of investment axes.
pub open spec fn spec_calc_max_score(
    cards: Map<u32, Card>,
    profile: UserProfile,
    event_bonus: EventBonus,
    character_band: Map<u8, u8>,
    notes: Seq<SongNote>,
    skills: Map<u8, Skill>,
    is_vs: bool,
) -> Selection {
    best_run(
        profile.props@.len() * profile.bands@.len() * 3int,
        cards,
        profile,
        event_bonus,
        character_band,
        notes,
        skills,
        is_vs,
    )
}

/// What the optimizer needs of its inputs: every cataloged card's
/// character has a band, release markers cover the profile's server,
/// owned levels start at 1, stat tables fit the accumulators, bonus
/// rates respect the machine caps, and — in the skill-sensitive mode —
/// the chart obeys its caps and every owned card's tag decodes to a
/// cataloged skill.
pub open spec fn optimizer_inputs_wf(
    cards: Map<u32, Card>,
    profile: UserProfile,
    event_bonus: EventBonus,
    character_band: Map<u8, u8>,
    notes: Seq<SongNote>,
    skills: Map<u8, Skill>,
    is_vs: bool,
) -> bool {
    &&& forall|id: u32|
        cards.contains_key(id) ==> character_band.contains_key(#[trigger] cards[id].character_id)
    &&& forall|id: u32|
        #[trigger] cards.contains_key(id) ==> (profile.server as int) < cards[id].released@.len()
    &&& forall|k: int|
        0 <= k < profile.card_status@.len() ==> #[trigger] profile.card_status@[k].level >= 1
    &&& forall|k: int|
        0 <= k < profile.card_status@.len() && cards.contains_key(profile.card_status@[k].id)
            ==> {
            let t = spec_stat_total(
                cards[#[trigger] profile.card_status@[k].id],
                profile.card_status@[k],
            );
            t.0 <= (u32::MAX as int) * (SCALE as int) && t.1 <= (u32::MAX as int) * (
            SCALE as int) && t.2 <= (u32::MAX as int) * (SCALE as int)
        }
    &&& event_bonus.character_bonus <= 8_000_000_000
    &&& event_bonus.prop_bonus <= 8_000_000_000
    &&& event_bonus.all_fit_bonus <= 8_000_000_000
    &&& forall|i: int|
        0 <= i < profile.bands@.len() ==> sum_rates(#[trigger] profile.bands@[i].1@)
            <= 8_000_000_000
    &&& forall|i: int|
        0 <= i < profile.props@.len() ==> sum_rates(#[trigger] profile.props@[i].1@)
            <= 8_000_000_000
    &&& (is_vs ==> chart_wf(VS_SONG_LEVEL, notes, skills))
    &&& (is_vs ==> forall|k: int|
        0 <= k < profile.card_status@.len() && cards.contains_key(
            #[trigger] profile.card_status@[k].id,
        ) ==> tag_wf(
            skill_tag(cards[profile.card_status@[k].id], profile.card_status@[k]),
            skills,
        ))
}

proof fn lemma_best_run_ge_context(
    k: int,
    j: int,
    cards: Map<u32, Card>,
    profile: UserProfile,
    event_bonus: EventBonus,
    character_band: Map<u8, u8>,
    notes: Seq<SongNote>,
    skills: Map<u8, Skill>,
    is_vs: bool,
)
    requires
        0 <= j < k,
    ensures
        ({
            let nb3 = profile.bands@.len() * 3int;
            best_run(
                k,
                cards,
                profile,
                event_bonus,
                character_band,
                notes,
                skills,
                is_vs,
            ).total >= eval_context(
                cards,
                profile,
                event_bonus,
                character_band,
                notes,
                skills,
                is_vs,
                j / nb3,
                (j % nb3) / 3,
                (j % nb3) % 3,
            ).total
        }),
    decreases k,
{
    if j < k - 1 {
        lemma_best_run_ge_context(
            k - 1,
            j,
            cards,
            profile,
            event_bonus,
            character_band,
            notes,
            skills,
            is_vs,
        );
    }
}

/// The optimizer's outcome is optimal over the whole search space: no
/// single investment context (attribute axis `p`, band axis `b`,
/// magazine axis `m`) evaluates to a strictly higher total than the
/// returned one.
pub proof fn lemma_calc_max_score_maximal(
    cards: Map<u32, Card>,
    profile: UserProfile,
    event_bonus: EventBonus,
    character_band: Map<u8, u8>,
    notes: Seq<SongNote>,
    skills: Map<u8, Skill>,
    is_vs: bool,
    p: int,
    b: int,
    m: int,
)
    requires
        0 <= p < profile.props@.len(),
        0 <= b < profile.bands@.len(),
        0 <= m < 3,
    ensures
        spec_calc_max_score(
            cards,
            profile,
            event_bonus,
            character_band,
            notes,
            skills,
            is_vs,
        ).total >= eval_context(
            cards,
            profile,
            event_bonus,
            character_band,
            notes,
            skills,
            is_vs,
            p,
            b,
            m,
        ).total,
{
    let nb = profile.bands@.len() as int;
    let nb3 = nb * 3;
    let j = (p * nb + b) * 3 + m;
    assert(j == p * nb3 + (b * 3 + m)) by (nonlinear_arith)
        requires
            j == (p * nb + b) * 3 + m,
            nb3 == nb * 3,
    ;
    assert(0 <= b * 3 + m < nb3) by (nonlinear_arith)
        requires
            0 <= b < nb,
            0 <= m < 3,
            nb3 == nb * 3,
    ;
    vstd::arithmetic::div_mod::lemma_fundamental_div_mod_converse(j, nb3, p, b * 3 + m);
    vstd::arithmetic::div_mod::lemma_fundamental_div_mod_converse(b * 3 + m, 3, b, m);
    assert(j < profile.props@.len() * nb3) by (nonlinear_arith)
        requires
            j == p * nb3 + (b * 3 + m),
            0 <= b * 3 + m < nb3,
            0 <= p < profile.props@.len(),
            0 < nb3,
    ;
    assert(0 <= j) by (nonlinear_arith)
        requires
            j == p * nb3 + (b * 3 + m),
            0 <= p,
            0 <= b * 3 + m,
            0 < nb3,
    ;
    assert(profile.props@.len() * nb3 == profile.props@.len() * nb * 3) by (nonlinear_arith)
        requires nb3 == nb * 3;
    lemma_best_run_ge_context(
        profile.props@.len() * nb * 3,
        j,
        cards,
        profile,
        event_bonus,
        character_band,
        notes,
        skills,
        is_vs,
    );
}

/// Whether a list of tags contains the given tag.
fn contains_u32(v: &Vec<u32>, x: u32) -> (r: bool)
    ensures
        r == v@.contains(x),
{
    let mut i: usize = 0;
    while i < v.len()
        invariant
            i <= v@.len(),
            forall|k: int| 0 <= k < i ==> v@[k] != x,
        decreases v@.len() - i,
    {
        if v[i] == x {
            return true;
        }
        i = i + 1;
    }
    false
}

/// Every candidate of a context stems from an eligible ownership record.
proof fn lemma_candidates_members(
    statuses: Seq<CardStatus>,
    n: int,
    cards: Map<u32, Card>,
    server: u8,
    event_bonus: EventBonus,
    character_band: Map<u8, u8>,
    magazine_name: Axis,
    magazine: u64,
    band_name: u8,
    band_bonus: Seq<u64>,
    prop_name: crate::cards::Attribute,
    prop_bonus: Seq<u64>,
    is_vs: bool,
    notes: Seq<SongNote>,
    skills: Map<u8, Skill>,
)
    requires
        n <= statuses.len(),
    ensures
        forall|x: CalcCard|
            #[trigger] candidates_spec(
                statuses,
                n,
                cards,
                server,
                event_bonus,
                character_band,
                magazine_name,
                magazine,
                band_name,
                band_bonus,
                prop_name,
                prop_bonus,
                is_vs,
                notes,
                skills,
            ).contains(x) ==> exists|k: int|
                0 <= k < statuses.len() && eligible(cards, server, #[trigger] statuses[k])
                    && x.card_id == statuses[k].id && x.character_id
                    == cards[statuses[k].id].character_id,
    decreases n,
{
    if n > 0 {
        lemma_candidates_members(
            statuses,
            n - 1,
            cards,
            server,
            event_bonus,
            character_band,
            magazine_name,
            magazine,
            band_name,
            band_bonus,
            prop_name,
            prop_bonus,
            is_vs,
            notes,
            skills,
        );
        let prev = candidates_spec(
            statuses,
            n - 1,
            cards,
            server,
            event_bonus,
            character_band,
            magazine_name,
            magazine,
            band_name,
            band_bonus,
            prop_name,
            prop_bonus,
            is_vs,
            notes,
            skills,
        );
        let cur = candidates_spec(
            statuses,
            n,
            cards,
            server,
            event_bonus,
            character_band,
            magazine_name,
            magazine,
            band_name,
            band_bonus,
            prop_name,
            prop_bonus,
            is_vs,
            notes,
            skills,
        );
        assert forall|x: CalcCard| #[trigger] cur.contains(x) implies exists|k: int|
            0 <= k < statuses.len() && eligible(cards, server, #[trigger] statuses[k])
                && x.card_id == statuses[k].id && x.character_id
                == cards[statuses[k].id].character_id by {
            if eligible(cards, server, statuses[n - 1]) {
                let i = choose|i: int| 0 <= i < cur.len() && cur[i] == x;
                if i < prev.len() {
                    assert(prev.contains(x));
                } else {
                    assert(eligible(cards, server, statuses[n - 1]) && x.card_id == statuses[n
                        - 1].id && x.character_id == cards[statuses[n - 1].id].character_id);
                }
            } else {
                assert(prev.contains(x));
            }
        }
    }
}

/// Every member of the best team over the first `k` contexts is keyed by
/// its own character id and stems from an eligible ownership record; the
/// team never exceeds five members.
pub proof fn lemma_best_run_props(
    k: int,
    cards: Map<u32, Card>,
    profile: UserProfile,
    event_bonus: EventBonus,
    character_band: Map<u8, u8>,
    notes: Seq<SongNote>,
    skills: Map<u8, Skill>,
    is_vs: bool,
)
    ensures
        ({
            let sel = best_run(
                k,
                cards,
                profile,
                event_bonus,
                character_band,
                notes,
                skills,
                is_vs,
            );
            &&& sel.team.dom().finite()
            &&& sel.team.len() <= 5
            &&& sel.total >= 0
            &&& forall|ch: u8| #[trigger] sel.team.contains_key(ch) ==> sel.team[ch].character_id
                == ch
            &&& forall|ch: u8| #[trigger] sel.team.contains_key(ch) ==> exists|j: int|
                0 <= j < profile.card_status@.len() && eligible(
                    cards,
                    profile.server,
                    #[trigger] profile.card_status@[j],
                ) && sel.team[ch].card_id == profile.card_status@[j].id
        }),
    decreases k,
{
    if k > 0 {
        lemma_best_run_props(
            k - 1,
            cards,
            profile,
            event_bonus,
            character_band,
            notes,
            skills,
            is_vs,
        );
        let nb3 = profile.bands@.len() * 3int;
        let p = (k - 1) / nb3;
        let rem = (k - 1) % nb3;
        let b = rem / 3;
        let m = rem % 3;
        let cand = candidates_spec(
            profile.card_status@,
            profile.card_status@.len() as int,
            cards,
            profile.server,
            event_bonus,
            character_band,
            context_axis(m),
            context_magazine(profile.magazine, m),
            profile.bands@[b].0,
            profile.bands@[b].1@,
            profile.props@[p].0,
            profile.props@[p].1@,
            is_vs,
            notes,
            skills,
        );
        let sorted = sort_cards(cand);
        lemma_sort_cards_members(cand);
        lemma_greedy_select_props(sorted, sorted.len() as int);
        lemma_candidates_members(
            profile.card_status@,
            profile.card_status@.len() as int,
            cards,
            profile.server,
            event_bonus,
            character_band,
            context_axis(m),
            context_magazine(profile.magazine, m),
            profile.bands@[b].0,
            profile.bands@[b].1@,
            profile.props@[p].0,
            profile.props@[p].1@,
            is_vs,
            notes,
            skills,
        );
    }
}

/// Searches the cartesian product of investment contexts (attribute axis,
/// band axis, magazine axis), scores every eligible owned card per
/// context, ranks the candidates by the product ranking and greedily
/// selects up to five cards of distinct characters; the context with the
/// strictly highest total wins, the first such context on ties.
///
/// The returned map is keyed by character id, so no two entries share a
/// character; every entry is an eligible (owned, non-excluded, released,
/// cataloged) card of the collection.
pub fn calc_max_score(
    cards: &HashMap<u32, Card>,
    user_profile: &UserProfile,
    event_bonus: &EventBonus,
    character_band: &HashMap<u8, u8>,
    song_data: &Vec<SongNote>,
    skills: &HashMap<u8, Skill>,
    event_type: EventType,
) -> (r: HashMap<u8, CalcCard>)
    requires
        optimizer_inputs_wf(
            cards@,
            *user_profile,
            *event_bonus,
            character_band@,
            song_data@,
            skills@,
            event_type == EventType::VS,
        ),
    ensures
        r@ == spec_calc_max_score(
            cards@,
            *user_profile,
            *event_bonus,
            character_band@,
            song_data@,
            skills@,
            event_type == EventType::VS,
        ).team,
        r@.len() <= 5,
        forall|ch: u8| #[trigger] r@.contains_key(ch) ==> r@[ch].character_id == ch,
        forall|ch: u8| #[trigger] r@.contains_key(ch) ==> exists|j: int|
            0 <= j < user_profile.card_status@.len() && eligible(
                cards@,
                user_profile.server,
                #[trigger] user_profile.card_status@[j],
            ) && r@[ch].card_id == user_profile.card_status@[j].id,
{
    let is_vs = match event_type {
        EventType::VS => true,
        _ => false,
    };
    let ghost statuses = user_profile.card_status@;

    // Collect the distinct skill tags of the owned, cataloged cards.
    let mut calc_skills: Vec<u32> = Vec::new();
    if is_vs {
        let mut si: usize = 0;
        while si < user_profile.card_status.len()
            invariant
                is_vs,
                si <= statuses.len(),
                statuses == user_profile.card_status@,
                optimizer_inputs_wf(
                    cards@,
                    *user_profile,
                    *event_bonus,
                    character_band@,
                    song_data@,
                    skills@,
                    true,
                ),
                forall|j: int|
                    0 <= j < calc_skills@.len() ==> tag_wf(#[trigger] calc_skills@[j], skills@),
                forall|k: int|
                    0 <= k < si && cards@.contains_key(#[trigger] statuses[k].id)
                        ==> calc_skills@.contains(
                        skill_tag(cards@[statuses[k].id], statuses[k]),
                    ),
            decreases statuses.len() - si,
        {
            let st = &user_profile.card_status[si];
            match cards.get(&st.id) {
                Some(card) => {
                    let tag: u32 = (card.skill_id as u32) * 10 + (st.skill as u32);
                    proof {
                        assert(tag == skill_tag(cards@[statuses[si as int].id], statuses[si as int]));
                    }
                    let ghost old_tags = calc_skills@;
                    if !contains_u32(&calc_skills, tag) {
                        calc_skills.push(tag);
                        proof {
                            assert(calc_skills@[old_tags.len() as int] == tag);
                            assert(calc_skills@.contains(tag));
                            assert forall|x: u32| old_tags.contains(x) implies calc_skills@
                                .contains(x) by {
                                let w = choose|w: int| 0 <= w < old_tags.len() && old_tags[w] == x;
                                assert(calc_skills@[w] == x);
                            }
                        }
                    }
                },
                None => {},
            }
            si = si + 1;
        }
    }

    // Build the skill-interaction cache once; only the skill-sensitive
    // mode consults it.
    let table: CacheTable = if is_vs {
        cache_table(&calc_skills, skills, song_data, VS_SONG_LEVEL, VS_ACCURACY, false)
    } else {
        CacheTable { tags: Vec::new(), rows: Vec::new() }
    };

    let np = user_profile.props.len();
    let nb = user_profile.bands.len();
    let mut best_cardset: HashMap<u8, CalcCard> = HashMap::new();
    let mut best_score: u64 = 0;
    let ghost mut ctx: int = 0;
    let mut pi: usize = 0;
    proof {
        lemma_best_run_props(
            0,
            cards@,
            *user_profile,
            *event_bonus,
            character_band@,
            song_data@,
            skills@,
            is_vs,
        );
    }
    while pi < np
        invariant
            pi <= np,
            np == user_profile.props@.len(),
            nb == user_profile.bands@.len(),
            statuses == user_profile.card_status@,
            is_vs == (event_type == EventType::VS),
            optimizer_inputs_wf(
                cards@,
                *user_profile,
                *event_bonus,
                character_band@,
                song_data@,
                skills@,
                is_vs,
            ),
            is_vs ==> table.complete_for(
                calc_skills@,
                VS_SONG_LEVEL,
                false,
                VS_ACCURACY,
                song_data@,
                skills@,
            ),
            is_vs ==> forall|i: int, j: int|
                0 <= i < calc_skills@.len() && 0 <= j < calc_skills@.len()
                    ==> #[trigger] table.rows@[i]@[j] <= song_data@.len() * (NOTE_CAP as int),
            is_vs ==> forall|k: int|
                0 <= k < statuses.len() && cards@.contains_key(#[trigger] statuses[k].id)
                    ==> calc_skills@.contains(skill_tag(cards@[statuses[k].id], statuses[k])),
            ctx == (pi as int) * (nb as int) * 3,
            ({
                let sel = best_run(
                    ctx,
                    cards@,
                    *user_profile,
                    *event_bonus,
                    character_band@,
                    song_data@,
                    skills@,
                    is_vs,
                );
                best_cardset@ == sel.team && best_score == sel.total
            }),
        decreases np - pi,
    {
        let prop_entry = &user_profile.props[pi];
        let mut bi: usize = 0;
        while bi < nb
            invariant
                pi < np,
                bi <= nb,
                np == user_profile.props@.len(),
                nb == user_profile.bands@.len(),
                statuses == user_profile.card_status@,
                is_vs == (event_type == EventType::VS),
                prop_entry.0 == user_profile.props@[pi as int].0,
                prop_entry.1@ == user_profile.props@[pi as int].1@,
                optimizer_inputs_wf(
                    cards@,
                    *user_profile,
                    *event_bonus,
                    character_band@,
                    song_data@,
                    skills@,
                    is_vs,
                ),
                is_vs ==> table.complete_for(
                    calc_skills@,
                    VS_SONG_LEVEL,
                    false,
                    VS_ACCURACY,
                    song_data@,
                    skills@,
                ),
                is_vs ==> forall|i: int, j: int|
                    0 <= i < calc_skills@.len() && 0 <= j < calc_skills@.len()
                        ==> #[trigger] table.rows@[i]@[j] <= song_data@.len() * (NOTE_CAP as int),
                is_vs ==> forall|k: int|
                    0 <= k < statuses.len() && cards@.contains_key(#[trigger] statuses[k].id)
                        ==> calc_skills@.contains(skill_tag(cards@[statuses[k].id], statuses[k])),
                ctx == ((pi as int) * (nb as int) + (bi as int)) * 3,
                ({
                    let sel = best_run(
                        ctx,
                        cards@,
                        *user_profile,
                        *event_bonus,
                        character_band@,
                        song_data@,
                        skills@,
                        is_vs,
                    );
                    best_cardset@ == sel.team && best_score == sel.total
                }),
            decreases nb - bi,
        {
            let band_entry = &user_profile.bands[bi];
            let mut mi: usize = 0;
            while mi < 3
                invariant
                    pi < np,
                    bi < nb,
                    mi <= 3,
                    np == user_profile.props@.len(),
                    nb == user_profile.bands@.len(),
                    statuses == user_profile.card_status@,
                    is_vs == (event_type == EventType::VS),
                    prop_entry.0 == user_profile.props@[pi as int].0,
                    prop_entry.1@ == user_profile.props@[pi as int].1@,
                    band_entry.0 == user_profile.bands@[bi as int].0,
                    band_entry.1@ == user_profile.bands@[bi as int].1@,
                    optimizer_inputs_wf(
                        cards@,
                        *user_profile,
                        *event_bonus,
                        character_band@,
                        song_data@,
                        skills@,
                        is_vs,
                    ),
                    is_vs ==> table.complete_for(
                        calc_skills@,
                        VS_SONG_LEVEL,
                        false,
                        VS_ACCURACY,
                        song_data@,
                        skills@,
                    ),
                    is_vs ==> forall|i: int, j: int|
                        0 <= i < calc_skills@.len() && 0 <= j < calc_skills@.len()
                            ==> #[trigger] table.rows@[i]@[j] <= song_data@.len() * (
                        NOTE_CAP as int),
                    is_vs ==> forall|k: int|
                        0 <= k < statuses.len() && cards@.contains_key(#[trigger] statuses[k].id)
                            ==> calc_skills@.contains(
                            skill_tag(cards@[statuses[k].id], statuses[k]),
                        ),
                    ctx == ((pi as int) * (nb as int) + (bi as int)) * 3 + (mi as int),
                    ({
                        let sel = best_run(
                            ctx,
                            cards@,
                            *user_profile,
                            *event_bonus,
                            character_band@,
                            song_data@,
                            skills@,
                            is_vs,
                        );
                        best_cardset@ == sel.team && best_score == sel.total
                    }),
                decreases 3 - mi,
            {
                let magazine_name: Axis = if mi == 0 {
                    Axis::Performance
                } else if mi == 1 {
                    Axis::Technique
                } else {
                    Axis::Visual
                };
                let magazine_rate: u64 = if mi == 0 {
                    user_profile.magazine.performance
                } else if mi == 1 {
                    user_profile.magazine.technique
                } else {
                    user_profile.magazine.visual
                };

                // Score every eligible owned card in this context.
                let mut calc_cards: Vec<CalcCard> = Vec::new();
                let mut si: usize = 0;
                while si < user_profile.card_status.len()
                    invariant
                        si <= statuses.len(),
                        statuses == user_profile.card_status@,
                        is_vs == (event_type == EventType::VS),
                        magazine_name == context_axis(mi as int),
                        magazine_rate == context_magazine(user_profile.magazine, mi as int),
                        pi < np && np == user_profile.props@.len(),
                        bi < nb && nb == user_profile.bands@.len(),
                        prop_entry.0 == user_profile.props@[pi as int].0,
                        prop_entry.1@ == user_profile.props@[pi as int].1@,
                        band_entry.0 == user_profile.bands@[bi as int].0,
                        band_entry.1@ == user_profile.bands@[bi as int].1@,
                        optimizer_inputs_wf(
                            cards@,
                            *user_profile,
                            *event_bonus,
                            character_band@,
                            song_data@,
                            skills@,
                            is_vs,
                        ),
                        is_vs ==> table.complete_for(
                            calc_skills@,
                            VS_SONG_LEVEL,
                            false,
                            VS_ACCURACY,
                            song_data@,
                            skills@,
                        ),
                        is_vs ==> forall|i: int, j: int|
                            0 <= i < calc_skills@.len() && 0 <= j < calc_skills@.len()
                                ==> #[trigger] table.rows@[i]@[j] <= song_data@.len() * (
                            NOTE_CAP as int),
                        is_vs ==> forall|k: int|
                            0 <= k < statuses.len() && cards@.contains_key(
                                #[trigger] statuses[k].id,
                            ) ==> calc_skills@.contains(
                                skill_tag(cards@[statuses[k].id], statuses[k]),
                            ),
                        calc_cards@ == candidates_spec(
                            statuses,
                            si as int,
                            cards@,
                            user_profile.server,
                            *event_bonus,
                            character_band@,
                            magazine_name,
                            magazine_rate,
                            band_entry.0,
                            band_entry.1@,
                            prop_entry.0,
                            prop_entry.1@,
                            is_vs,
                            song_data@,
                            skills@,
                        ),
                        forall|k: int|
                            0 <= k < calc_cards@.len() ==> card_bounded(
                                #[trigger] calc_cards@[k],
                            ),
                    decreases statuses.len() - si,
                {
                    let st = &user_profile.card_status[si];
                    if !st.exclude {
                        match cards.get(&st.id) {
                            Some(card) => {
                                if card.released[user_profile.server as usize] {
                                    let skill_mul: u64 = if is_vs {
                                        let tag: u32 = (card.skill_id as u32) * 10 + (st.skill
                                            as u32);
                                        proof {
                                            assert(tag == skill_tag(
                                                cards@[statuses[si as int].id],
                                                statuses[si as int],
                                            ));
                                            assert(calc_skills@.contains(tag));
                                        }
                                        // The tag was collected above, so
                                        // the lookup always hits.
                                        let diag = match table.diagonal(tag) {
                                            Some(v) => v,
                                            None => 0,
                                        };
                                        proof {
                                            vstd::arithmetic::div_mod::lemma_div_is_ordered(
                                                diag as int,
                                                (crate::song::MAX_NOTES as int) * (
                                                NOTE_CAP as int),
                                                6,
                                            );
                                            vstd::arithmetic::div_mod::lemma_div_pos_is_pos(
                                                diag as int,
                                                6,
                                            );
                                        }
                                        diag / 6
                                    } else {
                                        SCALE
                                    };
                                    let scored = calc_card_score(
                                        card,
                                        st,
                                        event_bonus,
                                        character_band,
                                        magazine_name,
                                        magazine_rate,
                                        band_entry.0,
                                        &band_entry.1,
                                        prop_entry.0,
                                        &prop_entry.1,
                                    );
                                    calc_cards.push(
                                        CalcCard {
                                            card_id: st.id,
                                            character_id: card.character_id,
                                            score: scored.0,
                                            skill_id: card.skill_id,
                                            skill_mul,
                                            bp_mul: scored.1,
                                        },
                                    );
                                }
                            },
                            None => {},
                        }
                    }
                    si = si + 1;
                }

                // Rank and greedily select this context's team.
                let sorted = sort_by_rank(&calc_cards);
                proof {
                    lemma_sort_cards_members(calc_cards@);
                    assert(forall|k: int|
                        0 <= k < sorted@.len() ==> card_bounded(#[trigger] sorted@[k])) by {
                        assert forall|k: int|
                            0 <= k < sorted@.len() implies card_bounded(
                            #[trigger] sorted@[k],
                        ) by {
                            assert(sorted@.contains(sorted@[k]));
                            assert(calc_cards@.contains(sorted@[k]));
                            let w = choose|w: int|
                                0 <= w < calc_cards@.len() && calc_cards@[w] == sorted@[k];
                            assert(card_bounded(calc_cards@[w]));
                        }
                    }
                }
                let picked = greedy_pick(&sorted);
                let result = picked.0;
                let result_score = picked.1;

                // Keep the strictly best context; the first wins ties.
                proof {
                    lemma_greedy_select_props(sorted@, sorted@.len() as int);
                    let nb3 = (nb as int) * 3;
                    assert(ctx == (pi as int) * nb3 + ((bi as int) * 3 + (mi as int)))
                        by (nonlinear_arith)
                        requires
                            ctx == ((pi as int) * (nb as int) + (bi as int)) * 3 + (mi as int),
                            nb3 == (nb as int) * 3,
                    ;
                    assert(0 <= (bi as int) * 3 + (mi as int) < nb3) by (nonlinear_arith)
                        requires
                            0 <= (bi as int) < (nb as int),
                            0 <= (mi as int) < 3,
                            nb3 == (nb as int) * 3,
                    ;
                    vstd::arithmetic::div_mod::lemma_fundamental_div_mod_converse(
                        ctx,
                        nb3,
                        pi as int,
                        (bi as int) * 3 + (mi as int),
                    );
                    vstd::arithmetic::div_mod::lemma_fundamental_div_mod_converse(
                        (bi as int) * 3 + (mi as int),
                        3,
                        bi as int,
                        mi as int,
                    );
                }
                if result_score > best_score {
                    best_score = result_score;
                    best_cardset = result;
                }
                proof {
                    ctx = ctx + 1;
                }
                mi = mi + 1;
            }
            bi = bi + 1;
        }
        proof {
            assert(((pi as int) * (nb as int) + (nb as int)) * 3 == ((pi as int) + 1) * (
            nb as int) * 3) by (nonlinear_arith);
        }
        pi = pi + 1;
    }
    proof {
        lemma_best_run_props(
            ctx,
            cards@,
            *user_profile,
            *event_bonus,
            character_band@,
            song_data@,
            skills@,
            is_vs,
        );
    }
    best_cardset
}

} // verus!
