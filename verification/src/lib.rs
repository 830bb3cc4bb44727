//! Verified core of a rhythm-game team optimizer: given a card catalog, a
//! player's collection, an event's bonus rule and (for skill-sensitive event
//! modes) a song's note timeline, it computes the highest-scoring five-card
//! team of distinct characters.
//!
//! All rates and fractions (bonus rates, stat-growth fractions, accuracy,
//! skill multipliers) are held in fixed point: a `u64` counts billionths,
//! so `fixed::SCALE` stands for 1.0. Scores are truncated to integers only
//! at each score's final boundary.

pub mod fixed;
pub mod level;
pub mod cards;
pub mod scorer;
pub mod song;
pub mod cache;
pub mod profile;
pub mod optimizer;
