//! Persisted records: the administrative pool and its ranked shortlist.

use vstd::prelude::*;

use crate::error::ErrorCode;
use crate::ranking::{
    contains_validator, lemma_bubble_final, lemma_find_validator_at, lemma_move_step_down,
    lemma_move_step_up, lemma_remove_insert_same, lemma_sorted_from_adjacent, lemma_sorted_remove,
    lemma_upsert_sorted, lemma_upsert_unique, place, resort, sorted_desc, unique_validators, upsert,
};

verus! {

/// Capacity of the ranked shortlist: the first hundred distinct validators
/// scored are tracked; later newcomers are dropped rather than evicting an
/// existing entry.
pub const MAX_VALIDATORS_IN_LIST: usize = 100;

/// A stable public identity (a 32-byte key, held as two 128-bit halves so
/// that equality is plain field equality).
#[derive(Clone, Copy, Debug, PartialEq, Eq, Structural)]
pub struct Identity {
    pub hi: u128,
    pub lo: u128,
}

impl Identity {
    /// The all-zero identity, the placeholder of unoccupied slots.
    pub open spec fn spec_zero() -> Identity {
        Identity { hi: 0, lo: 0 }
    }

    pub fn zero() -> (r: Identity)
        ensures
            r == Identity::spec_zero(),
    {
        Identity { hi: 0, lo: 0 }
    }
}

/// The administrative context record: the controlling authority and the
/// slot and epoch at which the pool was created. Immutable after `init`.
#[derive(Clone, Copy, Debug, PartialEq, Eq, Structural)]
pub struct Pool {
    pub admin: Identity,
    pub start_slot: u64,
    pub start_epoch: u64,
    pub bump: u8,
}

impl Default for Pool {
    fn default() -> (r: Pool)
        ensures
            r.admin == Identity::spec_zero(),
            r.start_slot == 0,
            r.start_epoch == 0,
            r.bump == 0,
    {
        Pool { admin: Identity { hi: 0, lo: 0 }, start_slot: 0, start_epoch: 0, bump: 0 }
    }
}

impl Pool {
    /// Record the authority and the creation point. Never fails.
    pub fn init(&mut self, admin: &Identity, start_slot: u64, start_epoch: u64, bump: u8) -> (r:
        Result<(), ErrorCode>)
        ensures
            r is Ok,
            final(self).admin == *admin,
            final(self).start_slot == start_slot,
            final(self).start_epoch == start_epoch,
            final(self).bump == bump,
    {
        self.admin = *admin;
        self.start_slot = start_slot;
        self.start_epoch = start_epoch;
        self.bump = bump;

        Ok(())
    }
}

/// One validator's current standing in the shortlist.
#[derive(Clone, Copy, Debug, PartialEq, Eq, Structural)]
pub struct VListEntry {
    pub validator: Identity,
    pub last_scored_epoch: u64,
    pub score: u32,
}

impl VListEntry {
    /// The zero-valued placeholder that fills unoccupied slots.
    pub open spec fn spec_zeroed() -> VListEntry {
        VListEntry { validator: Identity::spec_zero(), last_scored_epoch: 0, score: 0 }
    }

    pub fn zeroed() -> (r: VListEntry)
        ensures
            r == VListEntry::spec_zeroed(),
    {
        VListEntry { validator: Identity::zero(), last_scored_epoch: 0, score: 0 }
    }
}

/// The fixed-capacity, always-sorted shortlist of the best-scored
/// validators, owned by one pool. Slots `[0, idx)` are occupied and sorted
/// by score, highest first; slots `[idx, capacity)` are zero-valued
/// placeholders.
#[derive(Debug)]
pub struct VList {
    pub validators: Vec<VListEntry>,
    pub idx: usize,
    pub admin: Identity,
    pub pool: Identity,
    pub bump: u8,
}

impl Default for VList {
    fn default() -> (r: VList)
        ensures
            r.validators@ == Seq::<VListEntry>::empty(),
            r.idx == 0,
            r.admin == Identity::spec_zero(),
            r.pool == Identity::spec_zero(),
            r.bump == 0,
    {
        VList {
            validators: Vec::new(),
            idx: 0,
            admin: Identity { hi: 0, lo: 0 },
            pool: Identity { hi: 0, lo: 0 },
            bump: 0,
        }
    }
}

impl VList {
    /// The occupied prefix, in rank order: the current top-`idx` validators.
    pub open spec fn ranking(self) -> Seq<VListEntry> {
        self.validators@.subrange(0, self.idx as int)
    }

    /// Well-formedness: full backing storage, bounded count, the occupied
    /// prefix sorted by score descending with no repeated identity, and
    /// zeroed placeholders beyond it.
    pub open spec fn wf(self) -> bool {
        &&& self.validators@.len() == MAX_VALIDATORS_IN_LIST
        &&& self.idx <= MAX_VALIDATORS_IN_LIST
        &&& sorted_desc(self.ranking())
        &&& unique_validators(self.ranking())
        &&& forall|k: int|
            self.idx <= k < MAX_VALIDATORS_IN_LIST ==> self.validators@[k]
                == VListEntry::spec_zeroed()
    }

    /// Bind the list to its admin and pool and clear every slot. Never fails.
    pub fn init(&mut self, admin: &Identity, pool: Identity, bump: u8) -> (r: Result<
        (),
        ErrorCode,
    >)
        ensures
            r is Ok,
            final(self).wf(),
            final(self).ranking() == Seq::<VListEntry>::empty(),
            final(self).idx == 0,
            final(self).admin == *admin,
            final(self).pool == pool,
            final(self).bump == bump,
    {
        self.admin = *admin;
        self.bump = bump;
        let mut entries: Vec<VListEntry> = Vec::new();
        while entries.len() < MAX_VALIDATORS_IN_LIST
            invariant
                entries@.len() <= MAX_VALIDATORS_IN_LIST,
                forall|k: int|
                    0 <= k < entries@.len() ==> entries@[k] == VListEntry::spec_zeroed(),
            decreases MAX_VALIDATORS_IN_LIST - entries@.len(),
        {
            entries.push(VListEntry::zeroed());
        }
        self.validators = entries;
        self.idx = 0;
        self.pool = pool;

        assert(self.ranking() =~= Seq::<VListEntry>::empty());
        Ok(())
    }

    /// Whether the record is well-formed, decided at run time: full backing
    /// storage, bounded count, occupied prefix sorted with no repeated
    /// identity, zeroed placeholders beyond it. Lets an unverified caller
    /// that read the record from storage establish the invariant before
    /// mutating it.
    pub fn check_wf(&self) -> (r: bool)
        ensures
            r == self.wf(),
    {
        if self.validators.len() != MAX_VALIDATORS_IN_LIST || self.idx > MAX_VALIDATORS_IN_LIST {
            return false;
        }
        let mut k: usize = 1;
        while k < self.idx
            invariant
                1 <= k,
                self.idx <= MAX_VALIDATORS_IN_LIST,
                self.validators@.len() == MAX_VALIDATORS_IN_LIST,
                forall|t: int|
                    0 < t < k && t < self.idx ==> #[trigger] self.ranking()[t].score
                        <= self.ranking()[t - 1].score,
            decreases self.idx - k,
        {
            if self.validators[k - 1].score < self.validators[k].score {
                proof {
                    assert(self.ranking()[k - 1].score < self.ranking()[k as int].score);
                    assert(!sorted_desc(self.ranking()));
                }
                return false;
            }
            k += 1;
        }
        proof {
            assert forall|t: int|
                0 <= t < self.ranking().len() - 1 implies #[trigger] self.ranking()[t].score
                >= self.ranking()[t + 1].score by {
                assert(0 < t + 1 < k && t + 1 < self.idx);
                assert(self.ranking()[t + 1].score <= self.ranking()[t].score);
            }
            lemma_sorted_from_adjacent(self.ranking());
        }
        let mut a: usize = 0;
        while a < self.idx
            invariant
                self.idx <= MAX_VALIDATORS_IN_LIST,
                self.validators@.len() == MAX_VALIDATORS_IN_LIST,
                forall|i: int, j: int|
                    0 <= i < j < self.idx && i < a ==> self.ranking()[i].validator
                        != self.ranking()[j].validator,
            decreases self.idx - a,
        {
            let mut b: usize = a + 1;
            while b < self.idx
                invariant
                    a < b,
                    a < self.idx,
                    self.idx <= MAX_VALIDATORS_IN_LIST,
                    self.validators@.len() == MAX_VALIDATORS_IN_LIST,
                    forall|j: int|
                        a < j < b && j < self.idx ==> self.ranking()[a as int].validator
                            != self.ranking()[j].validator,
                decreases self.idx - b,
            {
                if self.validators[a].validator == self.validators[b].validator {
                    proof {
                        assert(self.ranking()[a as int].validator
                            == self.ranking()[b as int].validator);
                        assert(!unique_validators(self.ranking()));
                    }
                    return false;
                }
                b += 1;
            }
            a += 1;
        }
        let blank = VListEntry::zeroed();
        let mut t: usize = self.idx;
        while t < MAX_VALIDATORS_IN_LIST
            invariant
                self.idx <= t,
                self.validators@.len() == MAX_VALIDATORS_IN_LIST,
                blank == VListEntry::spec_zeroed(),
                forall|m: int|
                    self.idx <= m < t ==> self.validators@[m] == VListEntry::spec_zeroed(),
            decreases MAX_VALIDATORS_IN_LIST - t,
        {
            if !(self.validators[t] == blank) {
                return false;
            }
            t += 1;
        }
        true
    }

    /// Idempotent-per-call upsert. When `validator_pubkey` is already
    /// listed, its score and last-scored epoch are overwritten in place;
    /// when it is new and there is room, a fresh entry is appended; when it
    /// is new and the list is full, the call changes nothing (the capacity
    /// policy drops newcomers rather than evicting). The occupied prefix is
    /// then restored to the order a stable descending sort by score gives:
    /// entries of equal score keep their relative order.
    #[verifier::rlimit(100)]
    pub fn insert_or_update(
        &mut self,
        validator_pubkey: Identity,
        new_score: u32,
        current_epoch: u64,
    )
        requires
            old(self).wf(),
        ensures
            final(self).wf(),
            final(self).ranking() == upsert(
                old(self).ranking(),
                (VListEntry {
                    validator: validator_pubkey,
                    last_scored_epoch: current_epoch,
                    score: new_score,
                }),
                MAX_VALIDATORS_IN_LIST as nat,
            ),
            final(self).admin == old(self).admin,
            final(self).pool == old(self).pool,
            final(self).bump == old(self).bump,
    {
        let entry = VListEntry {
            validator: validator_pubkey,
            last_scored_epoch: current_epoch,
            score: new_score,
        };
        let ghost s0 = self.ranking();
        let ghost cap = MAX_VALIDATORS_IN_LIST as nat;

        // Search the occupied slots for the validator.
        let mut pos: usize = 0;
        while pos < self.idx && !(self.validators[pos].validator == validator_pubkey)
            invariant
                self.wf(),
                s0 == self.ranking(),
                pos <= self.idx,
                forall|k: int| 0 <= k < pos ==> s0[k].validator != validator_pubkey,
            decreases self.idx - pos,
        {
            proof {
                assert(s0[pos as int] == self.validators@[pos as int]);
            }
            pos += 1;
        }
        let found = pos < self.idx;
        proof {
            if found {
                assert(s0[pos as int] == self.validators@[pos as int]);
                lemma_find_validator_at(s0, validator_pubkey, pos as int);
            } else {
                assert(!contains_validator(s0, validator_pubkey)) by {
                    if contains_validator(s0, validator_pubkey) {
                        let k = choose|k: int|
                            0 <= k < s0.len() && s0[k].validator == validator_pubkey;
                        assert(s0[k].validator != validator_pubkey);
                    }
                }
            }
        }

        if !found && self.idx == MAX_VALIDATORS_IN_LIST {
            // Full, and the validator is unseen: the score is dropped.
            proof {
                assert(upsert(s0, entry, cap) == s0);
            }
            return;
        }

        // Write the entry: in place when found, appended otherwise.
        if found {
            self.validators[pos] = entry;
        } else {
            let at = self.idx;
            self.validators[at] = entry;
            self.idx = at + 1;
            pos = at;
        }
        let ghost p = pos as int;
        let ghost idx0 = self.idx as int;
        let ghost u = self.ranking();
        let ghost w = u.remove(p);
        proof {
            u.remove_ensures(p);
            if found {
                assert(u =~= s0.update(p, entry));
                s0.remove_ensures(p);
                assert(w =~= s0.remove(p));
                lemma_sorted_remove(s0, p);
                assert(upsert(s0, entry, cap) == resort(u, p));
            } else {
                assert(u =~= s0.push(entry));
                assert(w =~= s0);
                assert(upsert(s0, entry, cap) == resort(u, p));
            }
            assert(sorted_desc(w));
            assert(u[p] == entry);
            lemma_remove_insert_same(u, p);
            assert(self.ranking() == w.insert(p, entry));
        }

        // Restore the order: the written entry moves up past strictly
        // lower scores, or down past strictly higher ones.
        while pos > 0 && self.validators[pos - 1].score < new_score
            invariant
                0 <= pos as int <= p,
                p < idx0,
                idx0 == self.idx as int,
                self.idx <= MAX_VALIDATORS_IN_LIST,
                self.validators@.len() == MAX_VALIDATORS_IN_LIST,
                u.len() == idx0,
                w == u.remove(p),
                u[p] == entry,
                sorted_desc(w),
                self.ranking() == w.insert(pos as int, entry),
                forall|k: int| pos as int <= k < p ==> w[k].score < new_score,
                forall|k: int|
                    idx0 <= k < MAX_VALIDATORS_IN_LIST ==> self.validators@[k]
                        == VListEntry::spec_zeroed(),
                self.admin == old(self).admin,
                self.pool == old(self).pool,
                self.bump == old(self).bump,
            decreases pos,
        {
            let ghost pre = self.ranking();
            proof {
                u.remove_ensures(p);
                lemma_move_step_up(u, p, pos as int);
                assert(self.validators@[pos - 1] == pre[pos - 1]);
                assert(pre[pos - 1] == u[pos - 1]);
                assert(w[pos - 1] == u[pos - 1]);
                w.insert_ensures(pos as int, entry);
                assert(pre[pos as int] == entry);
                assert(self.validators@[pos as int] == entry);
            }
            let upper = self.validators[pos - 1];
            let lower = self.validators[pos];
            self.validators[pos - 1] = lower;
            self.validators[pos] = upper;
            proof {
                assert(self.ranking() =~= pre.update(pos - 1, entry).update(
                    pos as int,
                    u[pos - 1],
                ));
                assert(self.ranking() == w.insert(pos - 1, entry));
            }
            pos -= 1;
        }
        let ghost q0 = pos as int;
        proof {
            if pos > 0 {
                w.insert_ensures(q0, entry);
                assert(self.ranking()[q0 - 1] == self.validators@[q0 - 1]);
                assert(w[q0 - 1].score >= new_score);
            }
        }
        while pos + 1 < self.idx && self.validators[pos + 1].score > new_score
            invariant
                q0 <= pos as int,
                q0 < p ==> pos as int == q0,
                0 <= q0 <= p,
                (pos as int) < idx0,
                p < idx0,
                idx0 == self.idx as int,
                self.idx <= MAX_VALIDATORS_IN_LIST,
                self.validators@.len() == MAX_VALIDATORS_IN_LIST,
                u.len() == idx0,
                w == u.remove(p),
                u[p] == entry,
                sorted_desc(w),
                self.ranking() == w.insert(pos as int, entry),
                forall|k: int| q0 <= k < p ==> w[k].score < new_score,
                q0 == 0 || w[q0 - 1].score >= new_score,
                forall|k: int| p <= k < pos as int ==> w[k].score > new_score,
                forall|k: int|
                    idx0 <= k < MAX_VALIDATORS_IN_LIST ==> self.validators@[k]
                        == VListEntry::spec_zeroed(),
                self.admin == old(self).admin,
                self.pool == old(self).pool,
                self.bump == old(self).bump,
            decreases idx0 - pos,
        {
            let ghost pre = self.ranking();
            proof {
                u.remove_ensures(p);
                w.insert_ensures(pos as int, entry);
                assert(self.validators@[pos + 1] == pre[pos + 1]);
                assert(pre[pos + 1] == w[pos as int]);
                if (pos as int) < p {
                    assert(w[pos as int].score < new_score);
                    assert(false);
                }
                lemma_move_step_down(u, p, pos as int);
                assert(pre[pos as int] == entry);
                assert(self.validators@[pos as int] == entry);
            }
            let below = self.validators[pos + 1];
            let cur = self.validators[pos];
            self.validators[pos] = below;
            self.validators[pos + 1] = cur;
            proof {
                assert(self.ranking() =~= pre.update(pos as int, w[pos as int]).update(
                    pos + 1,
                    entry,
                ));
                assert(self.ranking() == w.insert(pos + 1, entry));
            }
            pos += 1;
        }

        proof {
            let j = pos as int;
            w.insert_ensures(j, entry);
            if j + 1 < idx0 {
                assert(self.ranking()[j + 1] == self.validators@[j + 1]);
                assert(self.ranking()[j + 1] == w[j]);
            }
            lemma_bubble_final(w, new_score, p, q0, j, idx0);
            assert(place(w, entry.score, p) == j);
            assert(resort(u, p) == w.insert(j, entry));
            assert(self.ranking() == upsert(s0, entry, cap));
            lemma_upsert_sorted(s0, entry, cap);
            lemma_upsert_unique(s0, entry, cap);
        }
    }
}

} // verus!
