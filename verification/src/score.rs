//! The score calculator: a validator's score over a bounded window of
//! historical per-epoch records.
//!
//! The window holds up to five consecutive epochs; epochs without a record
//! are skipped, not counted as zero. Each recorded epoch contributes its
//! epoch credits discounted by the commission (a 0..=100 percentage),
//! truncated to an integer; the score is the integer average of the
//! contributions over the recorded epochs alone. A window with no recorded
//! epoch yields no score at all, and the shortlist is left untouched: that
//! is a valid "not enough data yet" outcome, not an error.

use vstd::arithmetic::div_mod::{
    lemma_div_is_ordered, lemma_div_multiples_vanish, lemma_div_pos_is_pos,
};
use vstd::prelude::*;

use crate::ranking::upsert;
use crate::state::{Identity, VList, VListEntry, MAX_VALIDATORS_IN_LIST};

verus! {

/// One epoch's recorded performance: an activity measure and the
/// validator's take-rate, a 0..=100 percentage.
#[derive(Clone, Copy, Debug, PartialEq, Eq, Structural)]
pub struct EpochRecord {
    pub epoch_credits: u32,
    pub commission: u8,
}

/// What one recorded epoch adds to the accumulating score: the epoch
/// credits discounted by the commission, truncated. A commission at or
/// above the full take leaves nothing.
pub open spec fn contribution(r: EpochRecord) -> int {
    if r.commission >= 100 {
        0
    } else {
        (r.epoch_credits * (100 - r.commission)) / 100
    }
}

/// Sum of the contributions of a window's recorded epochs.
pub open spec fn window_sum(window: Seq<Option<EpochRecord>>) -> int
    decreases window.len(),
{
    if window.len() == 0 {
        0
    } else {
        (match window[0] {
            Some(r) => contribution(r),
            None => 0,
        }) + window_sum(window.skip(1))
    }
}

/// How many epochs of a window carry a record.
pub open spec fn window_entries(window: Seq<Option<EpochRecord>>) -> int
    decreases window.len(),
{
    if window.len() == 0 {
        0
    } else {
        (match window[0] {
            Some(r) => 1int,
            None => 0int,
        }) + window_entries(window.skip(1))
    }
}

/// The score over a window: the integer average of the contributions of
/// its recorded epochs, or nothing when no epoch is recorded.
pub open spec fn spec_score(window: Seq<Option<EpochRecord>>) -> Option<u32> {
    if window_entries(window) > 0 {
        Some(((window_sum(window) / window_entries(window)) as u32))
    } else {
        None
    }
}

/// A contribution never exceeds the epoch credits, so it fits the score.
proof fn lemma_contribution_bounds(r: EpochRecord)
    ensures
        0 <= contribution(r) <= r.epoch_credits,
{
    if r.commission < 100 {
        let raw = r.epoch_credits * (100 - r.commission);
        assert(r.epoch_credits * (100 - r.commission) <= r.epoch_credits * 100)
            by (nonlinear_arith)
            requires
                r.commission < 100,
        ;
        assert(r.epoch_credits * (100 - r.commission) >= 0) by (nonlinear_arith)
            requires
                r.commission < 100,
        ;
        lemma_div_pos_is_pos(raw, 100);
        lemma_div_is_ordered(raw, r.epoch_credits * 100, 100);
        lemma_div_multiples_vanish(r.epoch_credits as int, 100);
        assert(100 * r.epoch_credits == r.epoch_credits * 100);
    }
}

/// Window sums stay within the recorded count times the largest score.
proof fn lemma_window_sum_bounds(window: Seq<Option<EpochRecord>>)
    ensures
        0 <= window_entries(window) <= window.len(),
        0 <= window_sum(window) <= window_entries(window) * (u32::MAX as int),
    decreases window.len(),
{
    if window.len() > 0 {
        lemma_window_sum_bounds(window.skip(1));
        match window[0] {
            Some(r) => {
                lemma_contribution_bounds(r);
                assert((1 + window_entries(window.skip(1))) * (u32::MAX as int) == (u32::MAX
                    as int) + window_entries(window.skip(1)) * (u32::MAX as int))
                    by (nonlinear_arith);
            },
            None => {},
        }
    }
}

/// Appending one epoch extends sum and count by that epoch's part.
proof fn lemma_window_push(s: Seq<Option<EpochRecord>>, x: Option<EpochRecord>)
    ensures
        window_sum(s.push(x)) == window_sum(s) + (match x {
            Some(r) => contribution(r),
            None => 0,
        }),
        window_entries(s.push(x)) == window_entries(s) + (match x {
            Some(r) => 1int,
            None => 0int,
        }),
    decreases s.len(),
{
    if s.len() == 0 {
        assert(s.push(x)[0] == x);
        assert(s.push(x).skip(1) =~= Seq::<Option<EpochRecord>>::empty());
        assert(window_sum(s.push(x).skip(1)) == 0);
        assert(window_entries(s.push(x).skip(1)) == 0);
        assert(window_sum(s) == 0);
        assert(window_entries(s) == 0);
    } else {
        assert(s.push(x)[0] == s[0]);
        assert(s.push(x).skip(1) =~= s.skip(1).push(x));
        lemma_window_push(s.skip(1), x);
        assert(window_sum(s) == (match s[0] {
            Some(r) => contribution(r),
            None => 0,
        }) + window_sum(s.skip(1)));
        assert(window_sum(s.push(x)) == (match s[0] {
            Some(r) => contribution(r),
            None => 0,
        }) + window_sum(s.push(x).skip(1)));
        assert(window_entries(s) == (match s[0] {
            Some(r) => 1int,
            None => 0int,
        }) + window_entries(s.skip(1)));
        assert(window_entries(s.push(x)) == (match s[0] {
            Some(r) => 1int,
            None => 0int,
        }) + window_entries(s.push(x).skip(1)));
    }
}

/// One record's contribution, in machine arithmetic.
pub fn contribution_of(rec: EpochRecord) -> (r: u32)
    ensures
        r as int == contribution(rec),
{
    proof {
        lemma_contribution_bounds(rec);
    }
    if rec.commission >= 100 {
        0
    } else {
        let keep: u64 = (100 - rec.commission) as u64;
        let scaled: u64 = (rec.epoch_credits as u64) * keep;
        (scaled / 100) as u32
    }
}

/// The score over a window of up to five per-epoch records: the integer
/// average of the recorded epochs' contributions, or nothing when no
/// epoch in the window is recorded.
pub fn calculate_score(window: &Vec<Option<EpochRecord>>) -> (r: Option<u32>)
    requires
        window@.len() <= 5,
    ensures
        r == spec_score(window@),
{
    let mut total: u64 = 0;
    let mut entries: u64 = 0;
    let mut i: usize = 0;
    while i < window.len()
        invariant
            i <= window@.len(),
            window@.len() <= 5,
            total == window_sum(window@.take(i as int)),
            entries == window_entries(window@.take(i as int)),
        decreases window@.len() - i,
    {
        proof {
            lemma_window_sum_bounds(window@.take(i as int));
            lemma_window_push(window@.take(i as int), window@[i as int]);
            assert(window@.take(i + 1) =~= window@.take(i as int).push(window@[i as int]));
        }
        match window[i] {
            Some(rec) => {
                let c = contribution_of(rec);
                proof {
                    lemma_contribution_bounds(rec);
                    assert(window_entries(window@.take(i as int)) * (u32::MAX as int) <= 5 * (
                    u32::MAX as int)) by (nonlinear_arith)
                        requires
                            0 <= window_entries(window@.take(i as int)) <= 5,
                    ;
                }
                total = total + (c as u64);
                entries = entries + 1;
            },
            None => {},
        }
        i += 1;
    }
    proof {
        assert(window@.take(window@.len() as int) =~= window@);
        lemma_window_sum_bounds(window@);
    }
    if entries > 0 {
        proof {
            lemma_div_is_ordered(
                window_sum(window@),
                window_entries(window@) * (u32::MAX as int),
                window_entries(window@),
            );
            lemma_div_multiples_vanish(u32::MAX as int, window_entries(window@));
            assert(window_entries(window@) * (u32::MAX as int) == (window_entries(window@)) * (
            u32::MAX as int));
            lemma_div_pos_is_pos(window_sum(window@), window_entries(window@));
        }
        let avg = total / entries;
        Some(avg as u32)
    } else {
        None
    }
}

/// The scoring window of an epoch: the five epochs before it, clipped at
/// the origin; the end is exclusive.
pub fn scoring_window_bounds(current_epoch: u64) -> (r: (u64, u64))
    ensures
        r.0 == if current_epoch > 5 {
            (current_epoch - 5) as u64
        } else {
            0u64
        },
        r.1 == current_epoch,
{
    let start = if current_epoch > 5 {
        current_epoch - 5
    } else {
        0
    };
    (start, current_epoch)
}

impl VList {
    /// Score one validator over its window and fold the result into the
    /// shortlist. With at least one recorded epoch the shortlist takes the
    /// average score at `current_epoch` and the score is returned; with
    /// none, nothing changes and nothing is raised.
    pub fn score_and_update(
        &mut self,
        vote_account: Identity,
        window: &Vec<Option<EpochRecord>>,
        current_epoch: u64,
    ) -> (r: Option<u32>)
        requires
            old(self).wf(),
            window@.len() <= 5,
        ensures
            final(self).wf(),
            r == spec_score(window@),
            r is None ==> *final(self) == *old(self),
            r matches Some(score) ==> final(self).ranking() == upsert(
                old(self).ranking(),
                (VListEntry {
                    validator: vote_account,
                    last_scored_epoch: current_epoch,
                    score: score,
                }),
                MAX_VALIDATORS_IN_LIST as nat,
            ),
            final(self).admin == old(self).admin,
            final(self).pool == old(self).pool,
            final(self).bump == old(self).bump,
    {
        match calculate_score(window) {
            Some(score) => {
                self.insert_or_update(vote_account, score, current_epoch);
                Some(score)
            },
            None => None,
        }
    }
}

} // verus!
