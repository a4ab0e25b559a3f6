//! Saved viewing state of the index, and the limit on open files the
//! index needs.
use vstd::prelude::*;
use crate::search::IndexStats;
use crate::types::ArticleType;

verus! {

/// Name of the file that keeps the viewing state of the index.
pub const INDEX_CONFIG: &'static str = "index_config.data";

/// Open files the index wants to be able to hold at once.
pub const DESIRED_NOFILE_LIMIT: u64 = 10_240;

/// Index configuration.
#[derive(Debug, Clone)]
pub struct IndexConfig {
    pub index_stats: Vec<IndexStats>,
    pub viewing_count: usize,
    pub viewing_type: ArticleType,
}

impl Default for IndexConfig {
    /// No index statistics, no story count, and the top stories.
    fn default() -> (r: Self)
        ensures
            r.index_stats@.len() == 0,
            r.viewing_count == 0,
            r.viewing_type == ArticleType::Top,
    {
        IndexConfig { index_stats: Vec::new(), viewing_count: 0, viewing_type: ArticleType::Top }
    }
}

impl IndexConfig {
    /// The statistics kept for the index of `category`: the last recorded.
    pub fn stats_for(&self, category: ArticleType) -> (r: Option<IndexStats>)
        ensures
            match r {
                Some(s) => exists|i: int|
                    0 <= i < self.index_stats@.len() && self.index_stats@[i] == s && s.category == category
                        && forall|j: int| i < j < self.index_stats@.len() ==> self.index_stats@[j].category != category,
                None => forall|i: int| 0 <= i < self.index_stats@.len() ==> self.index_stats@[i].category != category,
            },
    {
        let mut i = self.index_stats.len();
        while i > 0
            invariant
                i <= self.index_stats@.len(),
                forall|j: int| i <= j < self.index_stats@.len() ==> self.index_stats@[j].category != category,
            decreases i,
        {
            i = i - 1;
            if self.index_stats[i].category == category {
                return Some(self.index_stats[i]);
            }
        }
        None
    }
}

impl IndexConfig {
    /// Records the statistics of an index just built: they replace those
    /// kept for its category, and the others stay in their order.
    pub fn record_stats(&mut self, stats: IndexStats)
        ensures
            final(self).index_stats@ == old(self).index_stats@.filter(|s: IndexStats| s.category != stats.category).push(stats),
            final(self).viewing_count == old(self).viewing_count,
            final(self).viewing_type == old(self).viewing_type,
    {
        let ghost old_stats = self.index_stats@;
        let mut kept: Vec<IndexStats> = Vec::new();
        let mut i: usize = 0;
        while i < self.index_stats.len()
            invariant
                i <= self.index_stats@.len(),
                self.index_stats@ == old_stats,
                kept@ == old_stats.take(i as int).filter(|s: IndexStats| s.category != stats.category),
            decreases self.index_stats@.len() - i,
        {
            proof {
                reveal(Seq::filter);
                assert(old_stats.take(i as int + 1).drop_last() =~= old_stats.take(i as int));
            }
            let s = self.index_stats[i];
            if s.category != stats.category {
                kept.push(s);
            }
            i = i + 1;
        }
        assert(old_stats.take(old_stats.len() as int) =~= old_stats);
        kept.push(stats);
        self.index_stats = kept;
    }
}

/// The open files limits, soft and hard, to set when the current ones are
/// `soft` and `hard`: when the soft limit is below the desired limit, the
/// desired limit as the soft limit and the larger of the hard limit and
/// the desired limit as the hard limit; none to keep them. Neither limit
/// is ever lowered.
pub fn nofile_limit_to_set(soft: u64, hard: u64) -> (r: Option<(u64, u64)>)
    ensures
        r == (if soft < DESIRED_NOFILE_LIMIT {
            Some((DESIRED_NOFILE_LIMIT, if hard < DESIRED_NOFILE_LIMIT { DESIRED_NOFILE_LIMIT } else { hard }))
        } else {
            None::<(u64, u64)>
        }),
        r matches Some((new_soft, new_hard)) ==> new_soft >= soft && new_hard >= hard && new_soft <= new_hard,
{
    if soft < DESIRED_NOFILE_LIMIT {
        let new_hard = if hard < DESIRED_NOFILE_LIMIT { DESIRED_NOFILE_LIMIT } else { hard };
        Some((DESIRED_NOFILE_LIMIT, new_hard))
    } else {
        None
    }
}

} // verus!
