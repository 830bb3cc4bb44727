//! The data model: catalog entries (cards, characters, skills, song notes),
//! the player's per-card ownership records, and the event-bonus rule.
//!
//! Dynamic string-keyed payloads of the storage format are replaced by
//! tagged variants: a card's stat table is a list of [`StatEntry`] values,
//! a skill's effect map is a list of [`EffectKind`]-tagged entries scanned
//! in list order (loaders supply them sorted by kind name, which makes the
//! scan canonical), and attribute and axis labels are enums.

use vstd::prelude::*;

verus! {

/// One of the four card attribute categories.
#[derive(Clone, Copy, Debug, PartialEq, Eq, Structural)]
pub enum Attribute {
    Powerful,
    Cool,
    Happy,
    Pure,
}

/// One of the three stat axes a rate can apply to.
#[derive(Clone, Copy, Debug, PartialEq, Eq, Structural)]
pub enum Axis {
    Performance,
    Technique,
    Visual,
}

/// A stat triple: performance, technique, visual.
#[derive(Clone, Copy, Debug, PartialEq, Eq, Structural)]
pub struct CardData {
    pub performance: u32,
    pub technique: u32,
    pub visual: u32,
}

/// One entry of a card's stat table.
pub enum StatEntry {
    /// Per-episode stat triples; the first `ep` of them contribute flatly,
    /// without level scaling.
    Episodes(Vec<CardData>),
    /// The base level-1 tier: the unmodified floor already implied by
    /// level 1, skipped during accumulation.
    BaseTier(CardData),
    /// A non-base level tier, scaled by the stat-growth curve.
    LevelTier(CardData),
}

/// A catalog card: static, shared read-only across the whole computation.
pub struct Card {
    pub character_id: u8,
    pub rarity: u8,
    pub attribute: Attribute,
    pub level_limit: u8,
    pub resource_set_name: String,
    /// Display titles, one per server.
    pub prefix: Vec<String>,
    /// Whether the card has been released on each server.
    pub released: Vec<bool>,
    pub skill_id: u8,
    pub kind: String,
    /// The stat table; accumulation over it is order-independent.
    pub stat: Vec<StatEntry>,
}

/// A catalog character; `band_id` ties the character to its band.
pub struct Character {
    pub band_id: u8,
}

/// A player's ownership record for one card id.
#[derive(Clone, Copy, Debug, PartialEq, Eq, Structural)]
pub struct CardStatus {
    /// Card id.
    pub id: u32,
    /// Current level of the card.
    pub level: u8,
    /// Whether the card is excluded from team building.
    pub exclude: bool,
    /// Which art variant is shown.
    pub art: u8,
    /// Whether the card is trained.
    pub train: u8,
    /// Unlocked-episode count.
    pub ep: u8,
    /// Skill level.
    pub skill: u8,
}

/// The magazine investment: a flat additive rate per stat axis,
/// in billionths.
#[derive(Clone, Copy, Debug, PartialEq, Eq, Structural)]
pub struct Magazine {
    pub performance: u64,
    pub technique: u64,
    pub visual: u64,
}

/// An event's bonus rule. All rates are in billionths.
pub struct EventBonus {
    /// The attribute the event favours.
    pub prop: Attribute,
    /// The character ids the event favours.
    pub characters: Vec<u8>,
    /// Rate added when the card's attribute matches `prop`.
    pub prop_bonus: u64,
    /// Rate added when the card's character is in `characters`.
    pub character_bonus: u64,
    /// The stat axis eligible for the extra all-fit boost, if any.
    pub parameter: Option<Axis>,
    /// Rate added when both the character and the attribute bonuses hit.
    pub all_fit_bonus: u64,
}

/// One event of a song's note timeline. The timestamp is in billionths of
/// the chart's time unit. The optional flags mirror the chart format:
/// their presence, not their value, is what counts.
#[derive(Clone, Copy, Debug, PartialEq, Eq, Structural)]
pub struct SongNote {
    pub time: u64,
    pub fever: Option<bool>,
    pub skill: Option<bool>,
}

/// The effect kind of one skill-effect entry. Only the four score families
/// influence the score; any other kind is carried as `Other` and ignored.
#[derive(Clone, Copy, Debug, PartialEq, Eq, Structural)]
pub enum EffectKind {
    Score,
    ScoreContinuedNoteJudge,
    ScoreOverLife,
    ScoreUnderLife,
    Other,
}

/// The condition under which a skill effect activates.
#[derive(Clone, Copy, Debug, PartialEq, Eq, Structural)]
pub enum ActivateCondition {
    Perfect,
    Other,
}

/// One effect entry of a skill's activation-effect descriptor.
pub struct ActivateEffectType {
    /// The effect's listed values; the first one is the rate in percent.
    pub activate_effect_value: Vec<u32>,
    pub activate_condition: ActivateCondition,
}

/// A skill's activation-effect descriptor. Entries are scanned in list
/// order; loaders supply them sorted by kind name so the scan is canonical.
pub struct ActivationEffect {
    /// A single override value applied across all kinds, if present.
    pub unification_activate_effect_value: Option<u32>,
    pub unification_activate_condition_band_id: Option<u32>,
    pub activate_effect_types: Vec<(EffectKind, ActivateEffectType)>,
}

/// A skill: per-skill-level window durations (in the same time unit as
/// note timestamps) and the activation-effect descriptor.
pub struct Skill {
    pub duration: Vec<u64>,
    pub activation_effect: ActivationEffect,
}

impl Skill {
    /// Every effect entry carries at least one listed value (the storage
    /// format guarantees this, and the simulator reads the first value),
    /// and the first value, a rate in percent, stays within a generous
    /// machine cap so that fixed-point products cannot overflow. The
    /// override value, when present, obeys the same cap.
    pub open spec fn wf(&self) -> bool {
        &&& forall|i: int|
            0 <= i < self.activation_effect.activate_effect_types@.len()
                ==> #[trigger] self.activation_effect.activate_effect_types@[i].1
                .activate_effect_value@.len() >= 1
        &&& forall|i: int|
            0 <= i < self.activation_effect.activate_effect_types@.len()
                ==> #[trigger] self.activation_effect.activate_effect_types@[i].1
                .activate_effect_value@[0] <= 10_000
        &&& match self.activation_effect.unification_activate_effect_value {
            Some(v) => v <= 10_000,
            None => true,
        }
    }
}

} // verus!
