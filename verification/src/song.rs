//! The skill-activation bonus model and the song-timeline simulator.
//!
//! `skill_bonus` turns a skill's activation-effect descriptor, a target
//! accuracy and an activation-occurrence index into an instantaneous score
//! multiplier; `song_score` replays a song's note timeline for an assigned
//! 6-slot skill sequence and accumulates the skill-adjusted score. Both
//! run in fixed point (billionths).

use vstd::prelude::*;
use std::collections::HashMap;
use crate::cards::{ActivateCondition, ActivateEffectType, EffectKind, Skill, SongNote};
use crate::fixed::{fx_div, fx_div_spec, fx_mul, fx_mul_spec, fx_pow, fx_pow_spec, SCALE};
use crate::fixed::{
    lemma_div_cross, lemma_div_sum_bounds, lemma_fx_div_bounds, lemma_fx_mul_bounds,
    lemma_fx_mul_le_one, lemma_fx_mul_mono, lemma_fx_pow_bounds, lemma_fx_pow_mono,
};

verus! {

/// The largest multiplier `skill_bonus` can return under well-formed
/// skills: 1.0 plus the capped effect rate.
pub const RATE_CAP: u64 = 101_000_000_000;

/// One fixed-point unit per percent: effect values are percentages.
pub const PERCENT: u64 = 10_000_000;

/// Step multiplier for a running combo count: a non-decreasing step
/// function of the number of consecutive notes hit so far.
pub open spec fn combo_bonus_spec(combon: int) -> u64 {
    if combon <= 20 {
        1_000_000_000
    } else if combon <= 50 {
        1_010_000_000
    } else if combon <= 100 {
        1_020_000_000
    } else if combon <= 150 {
        1_030_000_000
    } else if combon <= 200 {
        1_040_000_000
    } else if combon <= 250 {
        1_050_000_000
    } else if combon <= 300 {
        1_060_000_000
    } else if combon <= 400 {
        1_070_000_000
    } else if combon <= 500 {
        1_080_000_000
    } else if combon <= 600 {
        1_090_000_000
    } else if combon <= 700 {
        1_100_000_000
    } else {
        1_110_000_000
    }
}

/// Calculates the combo bonus for a combo count.
pub fn combo_bonus(combon: u32) -> (r: u64)
    ensures
        r == combo_bonus_spec(combon as int),
{
    if combon <= 20 {
        1_000_000_000
    } else if combon <= 50 {
        1_010_000_000
    } else if combon <= 100 {
        1_020_000_000
    } else if combon <= 150 {
        1_030_000_000
    } else if combon <= 200 {
        1_040_000_000
    } else if combon <= 250 {
        1_050_000_000
    } else if combon <= 300 {
        1_060_000_000
    } else if combon <= 400 {
        1_070_000_000
    } else if combon <= 500 {
        1_080_000_000
    } else if combon <= 600 {
        1_090_000_000
    } else if combon <= 700 {
        1_100_000_000
    } else {
        1_110_000_000
    }
}

/// The combo bonus is a non-decreasing step function of the combo count,
/// bounded between 1.0 and 1.11.
pub proof fn lemma_combo_bonus_monotone(c1: int, c2: int)
    requires
        c1 <= c2,
    ensures
        combo_bonus_spec(c1) <= combo_bonus_spec(c2),
        SCALE <= combo_bonus_spec(c1),
        combo_bonus_spec(c2) <= 1_110_000_000,
{
}

/// The state of the effect-kind scan: the escalating rate `a` (set by the
/// continued-note-judge family), the perfect-judgement rate `r`, the
/// any-judgement rate `s`, and whether the next score-family entry is the
/// first one (`m`, which decides whether the override value applies).
pub struct SkillScan {
    pub a_set: bool,
    pub a: int,
    pub r: int,
    pub s: int,
    pub m: bool,
}

/// Whether an effect kind belongs to one of the four score families.
pub open spec fn is_score_kind(k: EffectKind) -> bool {
    k == EffectKind::Score || k == EffectKind::ScoreOverLife || k == EffectKind::ScoreUnderLife
        || k == EffectKind::ScoreContinuedNoteJudge
}

/// One step of the effect-kind scan.
pub open spec fn scan_step(
    st: SkillScan,
    kind: EffectKind,
    eff: ActivateEffectType,
    uni: Option<u32>,
) -> SkillScan {
    if is_score_kind(kind) {
        let v = if st.m && uni.is_some() {
            uni->0
        } else {
            eff.activate_effect_value@[0]
        };
        let val = (v as int) * (PERCENT as int);
        let st1 = if kind == EffectKind::ScoreContinuedNoteJudge {
            SkillScan { a_set: true, a: (SCALE as int) + val, ..st }
        } else if eff.activate_condition == ActivateCondition::Perfect {
            if st.r == 0 {
                SkillScan { r: val, ..st }
            } else {
                st
            }
        } else {
            let st_r = if st.r == 0 {
                SkillScan { r: val, ..st }
            } else {
                st
            };
            if st_r.s == 0 {
                SkillScan { s: val, ..st_r }
            } else {
                st_r
            }
        };
        SkillScan { m: false, ..st1 }
    } else {
        st
    }
}

/// The scan state after walking the effect entries in list order.
pub open spec fn scan_effects(
    entries: Seq<(EffectKind, ActivateEffectType)>,
    uni: Option<u32>,
) -> SkillScan
    decreases entries.len(),
{
    if entries.len() == 0 {
        SkillScan { a_set: false, a: 0, r: 0, s: 0, m: true }
    } else {
        scan_step(scan_effects(entries.drop_last(), uni), entries.last().0, entries.last().1, uni)
    }
}

/// The judgement-quality mix: `1.1 * accuracy + 0.8 * (1 - accuracy)`,
/// in billionths.
pub open spec fn accuracy_rate_spec(accuracy: u64) -> int {
    fx_mul_spec(1_100_000_000, accuracy as int) + fx_mul_spec(
        800_000_000,
        (SCALE as int) - (accuracy as int),
    )
}

/// The skill's instantaneous multiplier at a given accuracy and
/// occurrence index, after the canonical scan:
/// - with an escalating rate `a` set, `s + accuracy^index * (a - s)`
///   (the bonus approaches `a` the longer the window continues);
/// - with `r == s`, just `r`;
/// - otherwise the expected-value blend
///   `(1.1 * r * accuracy + 0.8 * s * (1 - accuracy)) / accuracy_rate`,
///   computed as `s + (r - s) * (1.1 * accuracy / accuracy_rate)`.
pub open spec fn skill_bonus_spec(skill: Skill, accurate: u64, index: u32) -> int {
    let st = scan_effects(
        skill.activation_effect.activate_effect_types@,
        skill.activation_effect.unification_activate_effect_value,
    );
    let r = st.r + (SCALE as int);
    let s = st.s + (SCALE as int);
    if st.a_set {
        let p = fx_pow_spec(accurate as int, index as nat);
        if st.a >= s {
            s + fx_mul_spec(p, st.a - s)
        } else {
            s - fx_mul_spec(p, s - st.a)
        }
    } else if r == s {
        r
    } else {
        let w = fx_div_spec(
            fx_mul_spec(1_100_000_000, accurate as int),
            accuracy_rate_spec(accurate),
        );
        if r >= s {
            s + fx_mul_spec(r - s, w)
        } else {
            s - fx_mul_spec(s - r, w)
        }
    }
}

/// The judgement-quality mix is positive and at most 1.9, and its
/// perfect-judgement share never exceeds the whole mix.
proof fn lemma_accuracy_rate_bounds(accuracy: u64)
    requires
        accuracy <= SCALE,
    ensures
        400_000_000 <= accuracy_rate_spec(accuracy),
        accuracy_rate_spec(accuracy) <= 1_900_000_000,
        fx_mul_spec(1_100_000_000, accuracy as int) <= accuracy_rate_spec(accuracy),
{
    let a = accuracy as int;
    lemma_fx_mul_bounds(1_100_000_000, a);
    lemma_fx_mul_bounds(800_000_000, (SCALE as int) - a);
    lemma_fx_mul_le_one(1_100_000_000, a);
    lemma_fx_mul_le_one(800_000_000, (SCALE as int) - a);
    if a >= 500_000_000 {
        lemma_fx_mul_mono(1_100_000_000, 500_000_000, 1_100_000_000, a);
        assert(fx_mul_spec(1_100_000_000, 500_000_000) == 550_000_000);
    } else {
        lemma_fx_mul_mono(800_000_000, 500_000_000, 800_000_000, (SCALE as int) - a);
        assert(fx_mul_spec(800_000_000, 500_000_000) == 400_000_000);
    }
}

/// The blend weight `1.1 * accuracy / accuracy_rate` lies between 0
/// and 1.0.
proof fn lemma_blend_weight_bounds(accuracy: u64)
    requires
        accuracy <= SCALE,
    ensures
        0 <= fx_div_spec(
            fx_mul_spec(1_100_000_000, accuracy as int),
            accuracy_rate_spec(accuracy),
        ) <= SCALE,
{
    let n = fx_mul_spec(1_100_000_000, accuracy as int);
    let o = accuracy_rate_spec(accuracy);
    lemma_accuracy_rate_bounds(accuracy);
    lemma_fx_mul_bounds(1_100_000_000, accuracy as int);
    lemma_fx_div_bounds(n, o);
    assert(n * (SCALE as int) <= o * (SCALE as int)) by (nonlinear_arith)
        requires 0 <= n <= o && 0 < (SCALE as int);
    vstd::arithmetic::div_mod::lemma_div_is_ordered(n * (SCALE as int), o * (SCALE as int), o);
    vstd::arithmetic::div_mod::lemma_div_multiples_vanish(SCALE as int, o);
}

/// `skill_bonus` stays between 0 and `RATE_CAP` for well-formed skills.
pub proof fn lemma_skill_bonus_bounds(skill: Skill, accurate: u64, index: u32)
    requires
        skill.wf(),
        accurate <= SCALE,
    ensures
        0 <= skill_bonus_spec(skill, accurate, index),
        skill_bonus_spec(skill, accurate, index) <= RATE_CAP,
{
    lemma_scan_effects_bounds(
        skill.activation_effect.activate_effect_types@,
        skill.activation_effect.unification_activate_effect_value,
    );
    let st = scan_effects(
        skill.activation_effect.activate_effect_types@,
        skill.activation_effect.unification_activate_effect_value,
    );
    let r = st.r + (SCALE as int);
    let s = st.s + (SCALE as int);
    if st.a_set {
        let p = fx_pow_spec(accurate as int, index as nat);
        lemma_fx_pow_bounds(accurate as int, index as nat);
        if st.a >= s {
            lemma_fx_mul_bounds(p, st.a - s);
            lemma_fx_mul_le_one(st.a - s, p);
            assert(fx_mul_spec(p, st.a - s) == fx_mul_spec(st.a - s, p))
                by (nonlinear_arith);
        } else {
            lemma_fx_mul_bounds(p, s - st.a);
            lemma_fx_mul_le_one(s - st.a, p);
            assert(fx_mul_spec(p, s - st.a) == fx_mul_spec(s - st.a, p))
                by (nonlinear_arith);
        }
    } else if r == s {
    } else {
        let w = fx_div_spec(
            fx_mul_spec(1_100_000_000, accurate as int),
            accuracy_rate_spec(accurate),
        );
        lemma_blend_weight_bounds(accurate);
        if r >= s {
            lemma_fx_mul_bounds(r - s, w);
            lemma_fx_mul_le_one(r - s, w);
        } else {
            lemma_fx_mul_bounds(s - r, w);
            lemma_fx_mul_le_one(s - r, w);
        }
    }
}

/// The scan state of a well-formed skill keeps every rate within the cap.
proof fn lemma_scan_effects_bounds(
    entries: Seq<(EffectKind, ActivateEffectType)>,
    uni: Option<u32>,
)
    requires
        forall|i: int|
            0 <= i < entries.len() ==> #[trigger] entries[i].1.activate_effect_value@.len() >= 1,
        forall|i: int|
            0 <= i < entries.len() ==> #[trigger] entries[i].1.activate_effect_value@[0]
                <= 10_000,
        match uni {
            Some(v) => v <= 10_000,
            None => true,
        },
    ensures
        ({
            let st = scan_effects(entries, uni);
            &&& 0 <= st.r <= 100_000_000_000
            &&& 0 <= st.s <= 100_000_000_000
            &&& (st.a_set ==> (SCALE as int) <= st.a <= (SCALE as int) + 100_000_000_000)
        }),
    decreases entries.len(),
{
    if entries.len() > 0 {
        lemma_scan_effects_bounds(entries.drop_last(), uni);
    }
}

/// Computes a skill's instantaneous score multiplier at the given target
/// accuracy and activation-occurrence index, scanning the effect entries
/// in their (canonical) list order.
pub fn skill_bonus(skill: &Skill, accurate: u64, index: u32) -> (r: u64)
    requires
        skill.wf(),
        accurate <= SCALE,
    ensures
        r == skill_bonus_spec(*skill, accurate, index),
        r <= RATE_CAP,
{
    proof {
        lemma_skill_bonus_bounds(*skill, accurate, index);
        lemma_scan_effects_bounds(
            skill.activation_effect.activate_effect_types@,
            skill.activation_effect.unification_activate_effect_value,
        );
    }
    let ghost uni_spec = skill.activation_effect.unification_activate_effect_value;
    let ghost entries = skill.activation_effect.activate_effect_types@;

    let mut a_set: bool = false;
    let mut a: u64 = 0;
    let mut r: u64 = 0;
    let mut s: u64 = 0;
    let mut m: bool = true;
    let mut i: usize = 0;
    proof {
        assert(entries.subrange(0, 0) =~= Seq::<(EffectKind, ActivateEffectType)>::empty());
    }
    while i < skill.activation_effect.activate_effect_types.len()
        invariant
            skill.wf(),
            i <= entries.len(),
            entries == skill.activation_effect.activate_effect_types@,
            uni_spec == skill.activation_effect.unification_activate_effect_value,
            ({
                let st = scan_effects(entries.subrange(0, i as int), uni_spec);
                &&& a_set == st.a_set
                &&& (a_set ==> a == st.a)
                &&& r == st.r
                &&& s == st.s
                &&& m == st.m
            }),
            a <= (SCALE as int) + 100_000_000_000,
            r <= 100_000_000_000,
            s <= 100_000_000_000,
        decreases entries.len() - i,
    {
        proof {
            assert(entries.subrange(0, i + 1).drop_last() =~= entries.subrange(0, i as int));
            assert(entries.subrange(0, i + 1).last() == entries[i as int]);
        }
        let entry = &skill.activation_effect.activate_effect_types[i];
        let kind = entry.0;
        let is_score = match kind {
            EffectKind::Score => true,
            EffectKind::ScoreOverLife => true,
            EffectKind::ScoreUnderLife => true,
            EffectKind::ScoreContinuedNoteJudge => true,
            EffectKind::Other => false,
        };
        if is_score {
            let v: u32 = if m && skill.activation_effect.unification_activate_effect_value.is_some() {
                match skill.activation_effect.unification_activate_effect_value {
                    Some(u) => u,
                    None => 0,
                }
            } else {
                entry.1.activate_effect_value[0]
            };
            let val: u64 = (v as u64) * PERCENT;
            if match kind {
                EffectKind::ScoreContinuedNoteJudge => true,
                _ => false,
            } {
                a = SCALE + val;
                a_set = true;
            } else if match entry.1.activate_condition {
                ActivateCondition::Perfect => true,
                ActivateCondition::Other => false,
            } {
                if r == 0 {
                    r = val;
                }
            } else {
                if r == 0 {
                    r = val;
                }
                if s == 0 {
                    s = val;
                }
            }
            m = false;
        }
        i = i + 1;
    }
    proof {
        assert(entries.subrange(0, entries.len() as int) =~= entries);
    }

    let rr: u64 = r + SCALE;
    let ss: u64 = s + SCALE;
    if a_set {
        let p = fx_pow(accurate, index);
        proof {
            lemma_fx_pow_bounds(accurate as int, index as nat);
        }
        if a >= ss {
            proof {
                lemma_fx_mul_bounds(p as int, (a - ss) as int);
                lemma_fx_mul_le_one((a - ss) as int, p as int);
                assert(fx_mul_spec(p as int, (a - ss) as int) == fx_mul_spec(
                    (a - ss) as int,
                    p as int,
                )) by (nonlinear_arith);
            }
            ss + fx_mul(p, a - ss)
        } else {
            proof {
                lemma_fx_mul_bounds(p as int, (ss - a) as int);
                lemma_fx_mul_le_one((ss - a) as int, p as int);
                assert(fx_mul_spec(p as int, (ss - a) as int) == fx_mul_spec(
                    (ss - a) as int,
                    p as int,
                )) by (nonlinear_arith);
            }
            ss - fx_mul(p, ss - a)
        }
    } else if rr == ss {
        rr
    } else {
        let n = fx_mul(1_100_000_000, accurate);
        proof {
            lemma_fx_mul_bounds(1_100_000_000, accurate as int);
            lemma_fx_mul_le_one(1_100_000_000, accurate as int);
            lemma_accuracy_rate_bounds(accurate);
            lemma_blend_weight_bounds(accurate);
        }
        let o = n + fx_mul(800_000_000, SCALE - accurate);
        proof {
            lemma_fx_mul_bounds(800_000_000, (SCALE as int) - (accurate as int));
            lemma_fx_mul_le_one(800_000_000, (SCALE as int) - (accurate as int));
        }
        let w = fx_div(n, o);
        if rr >= ss {
            proof {
                lemma_fx_mul_bounds((rr - ss) as int, w as int);
                lemma_fx_mul_le_one((rr - ss) as int, w as int);
            }
            ss + fx_mul(rr - ss, w)
        } else {
            proof {
                lemma_fx_mul_bounds((ss - rr) as int, w as int);
                lemma_fx_mul_le_one((ss - rr) as int, w as int);
            }
            ss - fx_mul(ss - rr, w)
        }
    }
}

/// A skill whose multiplier cannot fall as accuracy rises: its
/// perfect-judgement rate is at least its any-judgement rate, and its
/// escalating target at least its any-judgement base. A skill that
/// rewards poor judgement more than perfect judgement (`r < s`) weights
/// the lower rate more the higher the accuracy, so its multiplier falls.
pub open spec fn skill_monotone_ok(skill: Skill) -> bool {
    let st = scan_effects(
        skill.activation_effect.activate_effect_types@,
        skill.activation_effect.unification_activate_effect_value,
    );
    &&& (st.a_set ==> st.a >= st.s + (SCALE as int))
    &&& (!st.a_set ==> st.r >= st.s)
}

/// The judgement-quality mix is non-decreasing in accuracy, and so is its
/// perfect-judgement share.
proof fn lemma_accuracy_rate_monotone(a1: u64, a2: u64)
    requires
        a1 <= a2,
        a2 <= SCALE,
    ensures
        accuracy_rate_spec(a1) <= accuracy_rate_spec(a2),
        fx_mul_spec(1_100_000_000, a1 as int) <= fx_mul_spec(1_100_000_000, a2 as int),
{
    let d = SCALE as int;
    let delta = (a2 - a1) as int;
    lemma_fx_mul_mono(1_100_000_000, a1 as int, 1_100_000_000, a2 as int);
    if delta > 0 {
        // The perfect-judgement share gains at least `delta`.
        assert(1_100_000_000 * (a2 as int) == 1_100_000_000 * (a1 as int) + 1_100_000_000
            * delta) by (nonlinear_arith)
            requires delta == (a2 as int) - (a1 as int);
        lemma_div_sum_bounds(1_100_000_000 * (a1 as int), 1_100_000_000 * delta, d);
        assert(1_000_000_000 * delta <= 1_100_000_000 * delta) by (nonlinear_arith)
            requires delta >= 0;
        vstd::arithmetic::div_mod::lemma_div_is_ordered(
            1_000_000_000 * delta,
            1_100_000_000 * delta,
            d,
        );
        vstd::arithmetic::div_mod::lemma_div_multiples_vanish(delta, d);
        // The other share loses at most `delta`.
        assert(800_000_000 * ((SCALE as int) - (a1 as int)) == 800_000_000 * ((SCALE as int) - (
        a2 as int)) + 800_000_000 * delta) by (nonlinear_arith)
            requires delta == (a2 as int) - (a1 as int);
        lemma_div_sum_bounds(800_000_000 * ((SCALE as int) - (a2 as int)), 800_000_000 * delta, d);
        assert(800_000_000 * delta < d * delta) by (nonlinear_arith)
            requires delta > 0 && d == 1_000_000_000;
        vstd::arithmetic::div_mod::lemma_multiply_divide_lt(800_000_000 * delta, d, delta);
    }
}

/// The blend weight is non-decreasing in accuracy.
proof fn lemma_blend_weight_monotone(a1: u64, a2: u64)
    requires
        a1 <= a2,
        a2 <= SCALE,
    ensures
        fx_div_spec(fx_mul_spec(1_100_000_000, a1 as int), accuracy_rate_spec(a1)) <= fx_div_spec(
            fx_mul_spec(1_100_000_000, a2 as int),
            accuracy_rate_spec(a2),
        ),
{
    let n1 = fx_mul_spec(1_100_000_000, a1 as int);
    let n2 = fx_mul_spec(1_100_000_000, a2 as int);
    let m1 = fx_mul_spec(800_000_000, (SCALE as int) - (a1 as int));
    let m2 = fx_mul_spec(800_000_000, (SCALE as int) - (a2 as int));
    let o1 = accuracy_rate_spec(a1);
    let o2 = accuracy_rate_spec(a2);
    lemma_accuracy_rate_bounds(a1);
    lemma_accuracy_rate_bounds(a2);
    lemma_accuracy_rate_monotone(a1, a2);
    lemma_fx_mul_bounds(1_100_000_000, a1 as int);
    lemma_fx_mul_bounds(800_000_000, (SCALE as int) - (a2 as int));
    lemma_fx_mul_mono(800_000_000, (SCALE as int) - (a2 as int), 800_000_000, (SCALE as int) - (
    a1 as int));
    assert(n1 * o2 <= n2 * o1) by (nonlinear_arith)
        requires
            0 <= n1 <= n2,
            0 <= m2 <= m1,
            o1 == n1 + m1,
            o2 == n2 + m2,
    ;
    assert((n1 * (SCALE as int)) * o2 <= (n2 * (SCALE as int)) * o1) by (nonlinear_arith)
        requires n1 * o2 <= n2 * o1 && 0 <= n1 && 0 <= n2 && 0 < (SCALE as int) && 0 < o1 && 0
            < o2;
    assert(0 <= n1 * (SCALE as int)) by (nonlinear_arith)
        requires 0 <= n1;
    assert(0 <= n2 * (SCALE as int)) by (nonlinear_arith)
        requires 0 <= n2;
    lemma_div_cross(n1 * (SCALE as int), o1, n2 * (SCALE as int), o2);
}

/// An accuracy-monotone skill's multiplier is non-decreasing in the
/// target accuracy, at every occurrence index.
pub proof fn lemma_skill_bonus_monotone(skill: Skill, a1: u64, a2: u64, index: u32)
    requires
        skill.wf(),
        skill_monotone_ok(skill),
        a1 <= a2,
        a2 <= SCALE,
    ensures
        skill_bonus_spec(skill, a1, index) <= skill_bonus_spec(skill, a2, index),
{
    lemma_scan_effects_bounds(
        skill.activation_effect.activate_effect_types@,
        skill.activation_effect.unification_activate_effect_value,
    );
    let st = scan_effects(
        skill.activation_effect.activate_effect_types@,
        skill.activation_effect.unification_activate_effect_value,
    );
    let r = st.r + (SCALE as int);
    let s = st.s + (SCALE as int);
    if st.a_set {
        let p1 = fx_pow_spec(a1 as int, index as nat);
        let p2 = fx_pow_spec(a2 as int, index as nat);
        lemma_fx_pow_bounds(a1 as int, index as nat);
        lemma_fx_pow_bounds(a2 as int, index as nat);
        lemma_fx_pow_mono(a1 as int, a2 as int, index as nat);
        lemma_fx_mul_mono(p1, st.a - s, p2, st.a - s);
    } else if r == s {
    } else {
        let w1 = fx_div_spec(fx_mul_spec(1_100_000_000, a1 as int), accuracy_rate_spec(a1));
        let w2 = fx_div_spec(fx_mul_spec(1_100_000_000, a2 as int), accuracy_rate_spec(a2));
        lemma_blend_weight_monotone(a1, a2);
        lemma_blend_weight_bounds(a1);
        lemma_blend_weight_bounds(a2);
        lemma_fx_mul_mono(r - s, w1, r - s, w2);
    }
}

/// The simulator's bookkeeping (window, combo, slot, occurrence counter)
/// does not depend on the accuracy; only the accumulated total does, and
/// it is non-decreasing in accuracy when every assigned skill is
/// accuracy-monotone.
proof fn lemma_song_run_monotone(
    notes: Seq<SongNote>,
    n: int,
    ids: Seq<u8>,
    lvls: Seq<u8>,
    skills: Map<u8, Skill>,
    level_rate: int,
    a1: u64,
    a2: u64,
    has_fever: bool,
)
    requires
        0 <= n <= notes.len(),
        a1 <= a2,
        a2 <= SCALE,
        0 <= level_rate,
        count_activations(notes) <= ids.len(),
        forall|k: int| 0 <= k < ids.len() ==> skills.contains_key(#[trigger] ids[k]),
        forall|k: int| 0 <= k < ids.len() ==> skills[#[trigger] ids[k]].wf(),
        forall|k: int| 0 <= k < ids.len() ==> skill_monotone_ok(skills[#[trigger] ids[k]]),
    ensures
        ({
            let st1 = song_run(notes, n, ids, lvls, skills, level_rate, a1, has_fever);
            let st2 = song_run(notes, n, ids, lvls, skills, level_rate, a2, has_fever);
            &&& st1.skill_end == st2.skill_end
            &&& st1.combo == st2.combo
            &&& st1.order == st2.order
            &&& st1.occ == st2.occ
            &&& 0 <= st1.total <= st2.total
            &&& st1.order == count_activations(notes.subrange(0, n))
            &&& (st1.order == 0 ==> st1.skill_end == 0)
        }),
    decreases n,
{
    if n == 0 {
        assert(notes.subrange(0, 0) =~= Seq::<SongNote>::empty());
    } else {
        lemma_song_run_monotone(notes, n - 1, ids, lvls, skills, level_rate, a1, a2, has_fever);
        lemma_count_activations_prefix_le(notes, n);
        lemma_count_activations_nonneg(notes.subrange(0, n - 1));
        assert(notes.subrange(0, n).drop_last() =~= notes.subrange(0, n - 1));
        assert(notes.subrange(0, n).last() == notes[n - 1]);
        let st1 = song_run(notes, n - 1, ids, lvls, skills, level_rate, a1, has_fever);
        let st2 = song_run(notes, n - 1, ids, lvls, skills, level_rate, a2, has_fever);
        let note = notes[n - 1];
        lemma_accuracy_rate_bounds(a1);
        lemma_accuracy_rate_bounds(a2);
        lemma_accuracy_rate_monotone(a1, a2);
        let b0_1 = fx_mul_spec(accuracy_rate_spec(a1), level_rate);
        let b0_2 = fx_mul_spec(accuracy_rate_spec(a2), level_rate);
        lemma_fx_mul_bounds(accuracy_rate_spec(a1), level_rate);
        lemma_fx_mul_mono(accuracy_rate_spec(a1), level_rate, accuracy_rate_spec(a2), level_rate);
        lemma_combo_bonus_monotone(st1.combo, st1.combo);
        let b1_1 = fx_mul_spec(b0_1, combo_bonus_spec(st1.combo) as int);
        let b1_2 = fx_mul_spec(b0_2, combo_bonus_spec(st2.combo) as int);
        lemma_fx_mul_bounds(b0_1, combo_bonus_spec(st1.combo) as int);
        lemma_fx_mul_mono(
            b0_1,
            combo_bonus_spec(st1.combo) as int,
            b0_2,
            combo_bonus_spec(st2.combo) as int,
        );
        let b2_1: int = if note.fever.is_some() && has_fever {
            2 * b1_1
        } else {
            b1_1
        };
        let b2_2: int = if note.fever.is_some() && has_fever {
            2 * b1_2
        } else {
            b1_2
        };
        let in_window = note.time < st1.skill_end;
        let b3_1: int = if in_window {
            fx_mul_spec(
                b2_1,
                skill_bonus_spec(skills[ids[st1.order - 1]], a1, (st1.occ + 1) as u32),
            )
        } else {
            b2_1
        };
        let b3_2: int = if in_window {
            fx_mul_spec(
                b2_2,
                skill_bonus_spec(skills[ids[st2.order - 1]], a2, (st2.occ + 1) as u32),
            )
        } else {
            b2_2
        };
        if in_window {
            assert(st1.order >= 1);
            assert(st1.order - 1 < ids.len());
            let sk = skills[ids[st1.order - 1]];
            lemma_skill_bonus_bounds(sk, a1, (st1.occ + 1) as u32);
            lemma_skill_bonus_monotone(sk, a1, a2, (st1.occ + 1) as u32);
            lemma_fx_mul_bounds(b2_1, skill_bonus_spec(sk, a1, (st1.occ + 1) as u32));
            lemma_fx_mul_mono(
                b2_1,
                skill_bonus_spec(sk, a1, (st1.occ + 1) as u32),
                b2_2,
                skill_bonus_spec(sk, a2, (st1.occ + 1) as u32),
            );
        }
        if note.skill.is_some() {
            assert(count_activations(notes.subrange(0, n)) == count_activations(
                notes.subrange(0, n - 1),
            ) + 1);
            assert(st1.order < ids.len());
            let sk = skills[ids[st1.order]];
            lemma_skill_bonus_bounds(sk, a1, 0);
            lemma_skill_bonus_monotone(sk, a1, a2, 0);
            lemma_fx_mul_bounds(b3_1, skill_bonus_spec(sk, a1, 0));
            lemma_fx_mul_mono(
                b3_1,
                skill_bonus_spec(sk, a1, 0),
                b3_2,
                skill_bonus_spec(sk, a2, 0),
            );
        }
    }
}

/// For a fixed skill assignment and song, the simulated score is
/// non-decreasing in the target accuracy, provided every assigned skill
/// is accuracy-monotone.
pub proof fn lemma_song_score_monotone_in_accuracy(
    ids: Seq<u8>,
    lvls: Seq<u8>,
    song_level: u32,
    has_fever: bool,
    a1: u64,
    a2: u64,
    notes: Seq<SongNote>,
    skills: Map<u8, Skill>,
)
    requires
        song_inputs_wf(ids, lvls, song_level, notes, skills),
        forall|k: int| 0 <= k < ids.len() ==> skill_monotone_ok(skills[#[trigger] ids[k]]),
        a1 <= a2,
        a2 <= SCALE,
    ensures
        song_score_spec(ids, lvls, song_level, has_fever, a1, notes, skills) <= song_score_spec(
            ids,
            lvls,
            song_level,
            has_fever,
            a2,
            notes,
            skills,
        ),
{
    if notes.len() > 0 {
        vstd::arithmetic::div_mod::lemma_div_pos_is_pos(
            2_850_000_000 + 30_000_000 * (song_level as int),
            notes.len() as int,
        );
        lemma_song_run_monotone(
            notes,
            notes.len() as int,
            ids,
            lvls,
            skills,
            level_rate_spec(song_level, notes.len() as int),
            a1,
            a2,
            has_fever,
        );
    }
}

/// Machine cap on a note timestamp and on a skill-window duration, in
/// fixed-point time units, so that window arithmetic cannot overflow.
pub const TIME_CAP: u64 = 1_099_511_627_776;

/// Machine cap on the number of notes of one chart.
pub const MAX_NOTES: usize = 10_000;

/// Machine cap on a song's difficulty level.
pub const MAX_SONG_LEVEL: u32 = 100;

/// Upper bound on what one note can add to the running total, under the
/// caps above.
pub const NOTE_CAP: u64 = 400_000_000_000_000;

/// The simulator's running state: the accumulated score (billionths), the
/// end time of the active skill window, the combo count, the index of the
/// next team slot to activate, and the in-window occurrence counter.
pub struct SongState {
    pub total: int,
    pub skill_end: int,
    pub combo: int,
    pub order: int,
    pub occ: int,
}

/// How many notes of the timeline mark a new skill activation.
pub open spec fn count_activations(notes: Seq<SongNote>) -> int
    decreases notes.len(),
{
    if notes.len() == 0 {
        0
    } else {
        count_activations(notes.drop_last()) + if notes.last().skill.is_some() {
            1int
        } else {
            0int
        }
    }
}

/// The per-note rate from the song's difficulty level, spread over the
/// chart: `(3 + 0.03 * (song_level - 5)) / n_notes` in billionths.
pub open spec fn level_rate_spec(song_level: u32, n_notes: int) -> int {
    (2_850_000_000 + 30_000_000 * (song_level as int)) / n_notes
}

/// One note of the replay: the base rate is the judgement mix times the
/// level rate times the combo bonus, doubled under an active fever, then
/// multiplied by the active window's skill bonus if the note falls inside
/// it, and by the newly activated skill's bonus if the note marks an
/// activation (which also advances the slot, resets the occurrence
/// counter and opens a new window).
pub open spec fn song_step(
    st: SongState,
    note: SongNote,
    ids: Seq<u8>,
    lvls: Seq<u8>,
    skills: Map<u8, Skill>,
    level_rate: int,
    accuracy: u64,
    has_fever: bool,
) -> SongState {
    let b0 = fx_mul_spec(accuracy_rate_spec(accuracy), level_rate);
    let b1 = fx_mul_spec(b0, combo_bonus_spec(st.combo) as int);
    let b2 = if note.fever.is_some() && has_fever {
        2 * b1
    } else {
        b1
    };
    let in_window = note.time < st.skill_end;
    let occ1 = if in_window {
        st.occ + 1
    } else {
        st.occ
    };
    let b3 = if in_window {
        fx_mul_spec(b2, skill_bonus_spec(skills[ids[st.order - 1]], accuracy, occ1 as u32))
    } else {
        b2
    };
    if note.skill.is_some() {
        let sk = skills[ids[st.order]];
        let b4 = fx_mul_spec(b3, skill_bonus_spec(sk, accuracy, 0));
        SongState {
            total: st.total + b4,
            skill_end: note.time + sk.duration@[lvls[st.order] as int],
            combo: st.combo + 1,
            order: st.order + 1,
            occ: 0,
        }
    } else {
        SongState {
            total: st.total + b3,
            skill_end: st.skill_end,
            combo: st.combo + 1,
            order: st.order,
            occ: occ1,
        }
    }
}

/// The simulator's state after the first `n` notes.
pub open spec fn song_run(
    notes: Seq<SongNote>,
    n: int,
    ids: Seq<u8>,
    lvls: Seq<u8>,
    skills: Map<u8, Skill>,
    level_rate: int,
    accuracy: u64,
    has_fever: bool,
) -> SongState
    decreases n,
{
    if n <= 0 {
        SongState { total: 0, skill_end: 0, combo: 0, order: 0, occ: 0 }
    } else {
        song_step(
            song_run(notes, n - 1, ids, lvls, skills, level_rate, accuracy, has_fever),
            notes[n - 1],
            ids,
            lvls,
            skills,
            level_rate,
            accuracy,
            has_fever,
        )
    }
}

/// The aggregate skill-adjusted score of replaying the whole timeline,
/// in billionths; an empty timeline scores 0.
pub open spec fn song_score_spec(
    ids: Seq<u8>,
    lvls: Seq<u8>,
    song_level: u32,
    has_fever: bool,
    accuracy: u64,
    notes: Seq<SongNote>,
    skills: Map<u8, Skill>,
) -> int {
    if notes.len() == 0 {
        0
    } else {
        song_run(
            notes,
            notes.len() as int,
            ids,
            lvls,
            skills,
            level_rate_spec(song_level, notes.len() as int),
            accuracy,
            has_fever,
        ).total
    }
}

/// What the simulator needs of its inputs: caps that keep fixed-point
/// arithmetic in `u64`, a slot sequence long enough for every activation
/// the chart marks, and a catalog entry with a tabulated duration for
/// every assigned slot.
pub open spec fn song_inputs_wf(
    ids: Seq<u8>,
    lvls: Seq<u8>,
    song_level: u32,
    notes: Seq<SongNote>,
    skills: Map<u8, Skill>,
) -> bool {
    &&& notes.len() <= MAX_NOTES
    &&& song_level <= MAX_SONG_LEVEL
    &&& forall|i: int| 0 <= i < notes.len() ==> #[trigger] notes[i].time <= TIME_CAP
    &&& count_activations(notes) <= ids.len()
    &&& lvls.len() == ids.len()
    &&& forall|k: int| 0 <= k < ids.len() ==> skills.contains_key(#[trigger] ids[k])
    &&& forall|k: int| 0 <= k < ids.len() ==> skills[#[trigger] ids[k]].wf()
    &&& forall|k: int|
        0 <= k < ids.len() ==> (#[trigger] lvls[k] as int) < skills[ids[k]].duration@.len()
    &&& forall|k: int|
        0 <= k < ids.len() ==> skills[#[trigger] ids[k]].duration@[lvls[k] as int] <= TIME_CAP
}

proof fn lemma_count_activations_nonneg(notes: Seq<SongNote>)
    ensures
        count_activations(notes) >= 0,
    decreases notes.len(),
{
    if notes.len() > 0 {
        lemma_count_activations_nonneg(notes.drop_last());
    }
}

proof fn lemma_count_activations_prefix_le(notes: Seq<SongNote>, i: int)
    requires
        0 <= i <= notes.len(),
    ensures
        count_activations(notes.subrange(0, i)) <= count_activations(notes),
    decreases notes.len() - i,
{
    if i == notes.len() {
        assert(notes.subrange(0, i) =~= notes);
    } else {
        lemma_count_activations_prefix_le(notes, i + 1);
        assert(notes.subrange(0, i + 1).drop_last() =~= notes.subrange(0, i));
        lemma_count_activations_nonneg(notes.subrange(0, i));
    }
}

/// Replays the note timeline for a 6-slot skill and skill-level sequence
/// and returns the aggregate skill-adjusted score, in billionths.
pub fn song_score(
    skill_ids: &Vec<u8>,
    skill_levels: &Vec<u8>,
    song_level: u32,
    has_fever: bool,
    accuracy: u64,
    song_data: &Vec<SongNote>,
    skills: &HashMap<u8, Skill>,
) -> (r: u64)
    requires
        accuracy <= SCALE,
        song_inputs_wf(skill_ids@, skill_levels@, song_level, song_data@, skills@),
    ensures
        r == song_score_spec(
            skill_ids@,
            skill_levels@,
            song_level,
            has_fever,
            accuracy,
            song_data@,
            skills@,
        ),
        r <= song_data@.len() * (NOTE_CAP as int),
{
    let n_notes = song_data.len();
    if n_notes == 0 {
        return 0;
    }
    let ghost notes = song_data@;
    let ghost ids = skill_ids@;
    let ghost lvls = skill_levels@;
    let ghost skills_m = skills@;

    let accuracy_rate: u64 = {
        proof {
            lemma_fx_mul_bounds(1_100_000_000, accuracy as int);
            lemma_fx_mul_le_one(1_100_000_000, accuracy as int);
            lemma_fx_mul_bounds(800_000_000, (SCALE as int) - (accuracy as int));
            lemma_fx_mul_le_one(800_000_000, (SCALE as int) - (accuracy as int));
        }
        fx_mul(1_100_000_000, accuracy) + fx_mul(800_000_000, SCALE - accuracy)
    };
    let level_num: u64 = 2_850_000_000 + 30_000_000 * (song_level as u64);
    let song_level_rate: u64 = level_num / (n_notes as u64);
    proof {
        assert(song_level_rate == level_rate_spec(song_level, notes.len() as int));
        vstd::arithmetic::div_mod::lemma_div_is_ordered_by_denominator(level_num as int, 1, n_notes as int);
        vstd::arithmetic::div_mod::lemma_div_basics(level_num as int);
    }

    let n_ids = skill_ids.len();
    let mut final_score: u64 = 0;
    let mut skill_end: u64 = 0;
    let mut combo_count: u32 = 0;
    let mut skill_order: usize = 0;
    let mut y: u32 = 0;
    let mut i: usize = 0;
    proof {
        assert(notes.subrange(0, 0) =~= Seq::<SongNote>::empty());
    }
    while i < n_notes
        invariant
            i <= notes.len(),
            n_notes == notes.len(),
            notes == song_data@,
            n_ids == skill_ids@.len(),
            ids == skill_ids@,
            lvls == skill_levels@,
            skills_m == skills@,
            accuracy <= SCALE,
            song_inputs_wf(ids, lvls, song_level, notes, skills_m),
            accuracy_rate == accuracy_rate_spec(accuracy),
            accuracy_rate <= 1_900_000_000,
            song_level_rate == level_rate_spec(song_level, notes.len() as int),
            song_level_rate <= 5_850_000_000,
            ({
                let st = song_run(
                    notes,
                    i as int,
                    ids,
                    lvls,
                    skills_m,
                    song_level_rate as int,
                    accuracy,
                    has_fever,
                );
                &&& final_score == st.total
                &&& skill_end == st.skill_end
                &&& combo_count == st.combo
                &&& skill_order == st.order
                &&& y == st.occ
            }),
            final_score <= (i as int) * (NOTE_CAP as int),
            combo_count == i,
            y <= i,
            skill_order == count_activations(notes.subrange(0, i as int)),
            skill_order == 0 ==> skill_end == 0,
            skill_end <= 2_199_023_255_552,
        decreases notes.len() - i,
    {
        proof {
            lemma_accuracy_rate_bounds(accuracy);
            assert(notes.subrange(0, i + 1).drop_last() =~= notes.subrange(0, i as int));
            assert(notes.subrange(0, i + 1).last() == notes[i as int]);
            lemma_count_activations_prefix_le(notes, i + 1);
            lemma_count_activations_nonneg(notes.subrange(0, i as int));
        }
        let note = song_data[i];
        proof {
            lemma_fx_mul_bounds(accuracy_rate as int, song_level_rate as int);
            lemma_fx_mul_mono(
                accuracy_rate as int,
                song_level_rate as int,
                1_900_000_000,
                5_850_000_000,
            );
        }
        let mut bonus: u64 = fx_mul(accuracy_rate, song_level_rate);
        proof {
            lemma_combo_bonus_monotone(combo_count as int, combo_count as int);
            lemma_fx_mul_bounds(bonus as int, combo_bonus_spec(combo_count as int) as int);
            lemma_fx_mul_mono(
                bonus as int,
                combo_bonus_spec(combo_count as int) as int,
                11_115_000_000,
                1_110_000_000,
            );
        }
        bonus = fx_mul(bonus, combo_bonus(combo_count));
        if note.fever.is_some() && has_fever {
            bonus = bonus * 2;
        }
        if note.time < skill_end {
            y = y + 1;
            let prev_id = skill_ids[skill_order - 1];
            let sk = skills.get(&prev_id).unwrap();
            let sb = skill_bonus(sk, accuracy, y);
            proof {
                lemma_fx_mul_bounds(bonus as int, sb as int);
                lemma_fx_mul_mono(bonus as int, sb as int, 24_700_000_000, RATE_CAP as int);
            }
            bonus = fx_mul(bonus, sb);
        }
        if note.skill.is_some() {
            proof {
                assert(notes[i as int].skill.is_some());
                assert(count_activations(notes.subrange(0, i + 1)) == count_activations(
                    notes.subrange(0, i as int),
                ) + 1);
                assert(count_activations(notes.subrange(0, i + 1)) <= ids.len());
                assert(skill_order < skill_ids@.len());
            }
            skill_order = skill_order + 1;
            y = 0;
            let new_id = skill_ids[skill_order - 1];
            let sk = skills.get(&new_id).unwrap();
            skill_end = note.time + sk.duration[skill_levels[skill_order - 1] as usize];
            let sb = skill_bonus(sk, accuracy, 0);
            proof {
                lemma_fx_mul_bounds(bonus as int, sb as int);
                lemma_fx_mul_mono(bonus as int, sb as int, 2_494_700_000_000, RATE_CAP as int);
            }
            bonus = fx_mul(bonus, sb);
        }
        final_score = final_score + bonus;
        combo_count = combo_count + 1;
        i = i + 1;
    }
    proof {
        assert(notes.subrange(0, notes.len() as int) =~= notes);
    }
    final_score
}

} // verus!
