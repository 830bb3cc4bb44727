//! The pairwise skill-interaction cache: for every pair of distinct
//! skill tags (a tag encodes `skill_id * 10 + skill_level`) it stores the
//! simulated score of a synthetic 6-slot team — five slots of the column
//! tag and one slot of the row tag — so the optimizer can amortize the
//! per-card simulation cost over one call.

use vstd::prelude::*;
use std::collections::HashMap;
use crate::cards::{Skill, SongNote};
use crate::fixed::SCALE;
use crate::song::{
    count_activations, song_inputs_wf, song_score, song_score_spec, MAX_NOTES, MAX_SONG_LEVEL,
    NOTE_CAP, TIME_CAP,
};

verus! {

/// The skill ids of the synthetic team for a `(row, column)` tag pair:
/// five slots of the column's skill, one of the row's.
pub open spec fn synth_ids(t1: u32, t2: u32) -> Seq<u8> {
    seq![
        (t2 / 10) as u8,
        (t2 / 10) as u8,
        (t2 / 10) as u8,
        (t2 / 10) as u8,
        (t2 / 10) as u8,
        (t1 / 10) as u8,
    ]
}

/// The skill levels of the synthetic team for a `(row, column)` tag pair.
pub open spec fn synth_levels(t1: u32, t2: u32) -> Seq<u8> {
    seq![
        (t2 % 10) as u8,
        (t2 % 10) as u8,
        (t2 % 10) as u8,
        (t2 % 10) as u8,
        (t2 % 10) as u8,
        (t1 % 10) as u8,
    ]
}

/// What one cache cell holds: the synthetic team's simulated score.
pub open spec fn cache_entry_spec(
    t1: u32,
    t2: u32,
    song_level: u32,
    has_fever: bool,
    accuracy: u64,
    notes: Seq<SongNote>,
    skills: Map<u8, Skill>,
) -> int {
    song_score_spec(
        synth_ids(t1, t2),
        synth_levels(t1, t2),
        song_level,
        has_fever,
        accuracy,
        notes,
        skills,
    )
}

/// A tag decodes to a cataloged skill with a tabulated duration for its
/// level, all within the machine caps.
pub open spec fn tag_wf(t: u32, skills: Map<u8, Skill>) -> bool {
    &&& t / 10 <= 255
    &&& skills.contains_key((t / 10) as u8)
    &&& skills[(t / 10) as u8].wf()
    &&& (t % 10) < skills[(t / 10) as u8].duration@.len()
    &&& skills[(t / 10) as u8].duration@[(t % 10) as int] <= TIME_CAP
}

/// What the cache needs of the chart and skills to simulate every pair.
pub open spec fn chart_wf(song_level: u32, notes: Seq<SongNote>, skills: Map<u8, Skill>) -> bool {
    &&& notes.len() <= MAX_NOTES
    &&& song_level <= MAX_SONG_LEVEL
    &&& forall|i: int| 0 <= i < notes.len() ==> #[trigger] notes[i].time <= TIME_CAP
    &&& count_activations(notes) <= 6
}

/// Two well-formed tags give well-formed simulator inputs for their
/// synthetic team.
pub proof fn lemma_synth_inputs_wf(
    t1: u32,
    t2: u32,
    song_level: u32,
    notes: Seq<SongNote>,
    skills: Map<u8, Skill>,
)
    requires
        tag_wf(t1, skills),
        tag_wf(t2, skills),
        chart_wf(song_level, notes, skills),
    ensures
        song_inputs_wf(synth_ids(t1, t2), synth_levels(t1, t2), song_level, notes, skills),
{
    let ids = synth_ids(t1, t2);
    let lvls = synth_levels(t1, t2);
    assert forall|k: int| 0 <= k < ids.len() implies skills.contains_key(#[trigger] ids[k])
        && skills[ids[k]].wf() && (lvls[k] as int) < skills[ids[k]].duration@.len()
        && skills[ids[k]].duration@[lvls[k] as int] <= TIME_CAP by {
        if k < 5 {
            assert(ids[k] == (t2 / 10) as u8);
            assert(lvls[k] == (t2 % 10) as u8);
        } else {
            assert(ids[k] == (t1 / 10) as u8);
            assert(lvls[k] == (t1 % 10) as u8);
        }
    }
}

/// The precomputed table: `rows[i][j]` holds the synthetic-team score for
/// row tag `tags[i]` and column tag `tags[j]`.
pub struct CacheTable {
    pub tags: Vec<u32>,
    pub rows: Vec<Vec<u64>>,
}

impl CacheTable {
    /// The table covers exactly the given tags, pair by pair.
    pub open spec fn complete_for(
        &self,
        tags: Seq<u32>,
        song_level: u32,
        has_fever: bool,
        accuracy: u64,
        notes: Seq<SongNote>,
        skills: Map<u8, Skill>,
    ) -> bool {
        &&& self.tags@ == tags
        &&& self.rows@.len() == tags.len()
        &&& forall|i: int| 0 <= i < tags.len() ==> #[trigger] self.rows@[i]@.len() == tags.len()
        &&& forall|i: int, j: int|
            0 <= i < tags.len() && 0 <= j < tags.len() ==> #[trigger] self.rows@[i]@[j]
                == cache_entry_spec(tags[i], tags[j], song_level, has_fever, accuracy, notes, skills)
    }

    /// The table is square: one row per tag, one cell per tag in each row.
    pub open spec fn square(&self) -> bool {
        &&& self.rows@.len() == self.tags@.len()
        &&& forall|i: int|
            0 <= i < self.tags@.len() ==> #[trigger] self.rows@[i]@.len() == self.tags@.len()
    }

    /// Looks up the diagonal cell of a tag: the score of the synthetic
    /// team built entirely from that tag.
    pub fn diagonal(&self, tag: u32) -> (r: Option<u64>)
        requires
            self.square(),
        ensures
            match r {
                Some(v) => exists|i: int|
                    0 <= i < self.tags@.len() && self.tags@[i] == tag && v == self.rows@[i]@[i],
                None => !self.tags@.contains(tag),
            },
    {
        let mut i: usize = 0;
        while i < self.tags.len()
            invariant
                self.square(),
                i <= self.tags@.len(),
                forall|k: int| 0 <= k < i ==> self.tags@[k] != tag,
            decreases self.tags@.len() - i,
        {
            if self.tags[i] == tag {
                let row = &self.rows[i];
                return Some(row[i]);
            }
            i = i + 1;
        }
        None
    }
}

/// The cache is deterministic: two tables built over the same tags,
/// chart and parameters agree cell for cell, because every cell is
/// pinned to the synthetic team's simulated score.
pub proof fn lemma_cache_table_deterministic(
    t1: CacheTable,
    t2: CacheTable,
    tags: Seq<u32>,
    song_level: u32,
    has_fever: bool,
    accuracy: u64,
    notes: Seq<SongNote>,
    skills: Map<u8, Skill>,
)
    requires
        t1.complete_for(tags, song_level, has_fever, accuracy, notes, skills),
        t2.complete_for(tags, song_level, has_fever, accuracy, notes, skills),
    ensures
        t1.tags@ == t2.tags@,
        t1.rows@.len() == t2.rows@.len(),
        forall|i: int, j: int|
            0 <= i < tags.len() && 0 <= j < tags.len() ==> #[trigger] t1.rows@[i]@[j]
                == #[trigger] t2.rows@[i]@[j],
{
}

/// Builds the full pairwise table over the distinct tag set: every cell
/// `(i, j)` holds the simulated score of the 5-same+1-variant synthetic
/// team for `(tags[i], tags[j])`. Rebuilding from the same tags and chart
/// yields the identical table, cell for cell.
pub fn cache_table(
    calc_skills: &Vec<u32>,
    skills: &HashMap<u8, Skill>,
    song_data: &Vec<SongNote>,
    song_level: u32,
    accurate: u64,
    has_fever: bool,
) -> (r: CacheTable)
    requires
        accurate <= SCALE,
        chart_wf(song_level, song_data@, skills@),
        forall|j: int| 0 <= j < calc_skills@.len() ==> tag_wf(#[trigger] calc_skills@[j], skills@),
    ensures
        r.complete_for(calc_skills@, song_level, has_fever, accurate, song_data@, skills@),
        forall|i: int, j: int|
            0 <= i < calc_skills@.len() && 0 <= j < calc_skills@.len() ==> #[trigger] r.rows@[i]@[j]
                <= song_data@.len() * (NOTE_CAP as int),
{
    let ghost tags_spec = calc_skills@;
    let n = calc_skills.len();
    let mut tags: Vec<u32> = Vec::new();
    let mut rows: Vec<Vec<u64>> = Vec::new();
    let mut i: usize = 0;
    while i < n
        invariant
            i <= n,
            n == tags_spec.len(),
            tags_spec == calc_skills@,
            accurate <= SCALE,
            chart_wf(song_level, song_data@, skills@),
            forall|j: int| 0 <= j < tags_spec.len() ==> tag_wf(#[trigger] tags_spec[j], skills@),
            tags@ == tags_spec.subrange(0, i as int),
            rows@.len() == i,
            forall|ii: int| 0 <= ii < i ==> #[trigger] rows@[ii]@.len() == tags_spec.len(),
            forall|ii: int, jj: int|
                0 <= ii < i && 0 <= jj < tags_spec.len() ==> #[trigger] rows@[ii]@[jj]
                    == cache_entry_spec(
                    tags_spec[ii],
                    tags_spec[jj],
                    song_level,
                    has_fever,
                    accurate,
                    song_data@,
                    skills@,
                ),
            forall|ii: int, jj: int|
                0 <= ii < i && 0 <= jj < tags_spec.len() ==> #[trigger] rows@[ii]@[jj]
                    <= song_data@.len() * (NOTE_CAP as int),
        decreases n - i,
    {
        let t1 = calc_skills[i];
        let mut row: Vec<u64> = Vec::new();
        let mut j: usize = 0;
        while j < n
            invariant
                j <= n,
                i < n,
                n == tags_spec.len(),
                tags_spec == calc_skills@,
                t1 == tags_spec[i as int],
                accurate <= SCALE,
                chart_wf(song_level, song_data@, skills@),
                forall|k: int| 0 <= k < tags_spec.len() ==> tag_wf(#[trigger] tags_spec[k], skills@),
                row@.len() == j,
                forall|jj: int|
                    0 <= jj < j ==> #[trigger] row@[jj] == cache_entry_spec(
                        tags_spec[i as int],
                        tags_spec[jj],
                        song_level,
                        has_fever,
                        accurate,
                        song_data@,
                        skills@,
                    ),
                forall|jj: int|
                    0 <= jj < j ==> #[trigger] row@[jj] <= song_data@.len() * (NOTE_CAP as int),
            decreases n - j,
        {
            let t2 = calc_skills[j];
            proof {
                lemma_synth_inputs_wf(t1, t2, song_level, song_data@, skills@);
            }
            let mut ids: Vec<u8> = Vec::new();
            let mut lvls: Vec<u8> = Vec::new();
            let id2: u8 = (t2 / 10) as u8;
            let lv2: u8 = (t2 % 10) as u8;
            let id1: u8 = (t1 / 10) as u8;
            let lv1: u8 = (t1 % 10) as u8;
            ids.push(id2);
            ids.push(id2);
            ids.push(id2);
            ids.push(id2);
            ids.push(id2);
            ids.push(id1);
            lvls.push(lv2);
            lvls.push(lv2);
            lvls.push(lv2);
            lvls.push(lv2);
            lvls.push(lv2);
            lvls.push(lv1);
            proof {
                assert(ids@ =~= synth_ids(t1, t2));
                assert(lvls@ =~= synth_levels(t1, t2));
            }
            let v = song_score(&ids, &lvls, song_level, has_fever, accurate, song_data, skills);
            row.push(v);
            j = j + 1;
        }
        tags.push(t1);
        proof {
            assert(tags@ =~= tags_spec.subrange(0, i + 1));
        }
        rows.push(row);
        i = i + 1;
    }
    proof {
        assert(tags_spec.subrange(0, n as int) =~= tags_spec);
    }
    CacheTable { tags, rows }
}

} // verus!
