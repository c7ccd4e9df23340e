//! Mathematical model of the ranked shortlist.
//!
//! The occupied prefix of the shortlist is a sequence of entries. One call
//! of the insert-or-update operation maps that sequence through [`upsert`]:
//! the entry of a validator already present is overwritten in place, a new
//! validator is appended while there is room and dropped once the list is
//! full, and the prefix is then restored to the order a stable descending
//! sort by score would give it.

use vstd::prelude::*;

use crate::state::{Identity, VListEntry};

verus! {

/// The sequence is sorted by score, highest first.
pub open spec fn sorted_desc(s: Seq<VListEntry>) -> bool {
    forall|i: int, j: int| 0 <= i < j < s.len() ==> s[i].score >= s[j].score
}

/// No validator identity appears twice.
pub open spec fn unique_validators(s: Seq<VListEntry>) -> bool {
    forall|i: int, j: int| 0 <= i < j < s.len() ==> s[i].validator != s[j].validator
}

/// Some entry carries the identity `v`.
pub open spec fn contains_validator(s: Seq<VListEntry>, v: Identity) -> bool {
    exists|i: int| 0 <= i < s.len() && s[i].validator == v
}

/// Index of the first entry carrying `v`, or `s.len()` when `v` is absent.
pub open spec fn find_validator(s: Seq<VListEntry>, v: Identity) -> int
    decreases s.len(),
{
    if s.len() == 0 {
        0
    } else if s[0].validator == v {
        0
    } else {
        1 + find_validator(s.skip(1), v)
    }
}

/// How many entries of `w` precede, under a stable descending sort, an
/// entry of score `sc` that stood at position `p` before the sort (the
/// entries of `w` below position `p` stood before it, the others after).
pub open spec fn place(w: Seq<VListEntry>, sc: u32, p: int) -> int
    decreases w.len(),
{
    if w.len() == 0 {
        0
    } else if w[0].score > sc || (w[0].score == sc && p > 0) {
        1 + place(w.skip(1), sc, p - 1)
    } else {
        0
    }
}

/// Restore sortedness of a sequence that is sorted everywhere but at
/// position `p`: the entry at `p` moves to the position a stable
/// descending sort of the whole sequence would give it.
pub open spec fn resort(u: Seq<VListEntry>, p: int) -> Seq<VListEntry>
    recommends
        0 <= p < u.len(),
{
    let e = u[p];
    let w = u.remove(p);
    w.insert(place(w, e.score, p), e)
}

/// One insert-or-update call on the model: overwrite the entry of
/// `e.validator` when present, append `e` when there is room, drop it when
/// the list is full; then restore the stable descending order.
pub open spec fn upsert(s: Seq<VListEntry>, e: VListEntry, cap: nat) -> Seq<VListEntry> {
    if contains_validator(s, e.validator) {
        resort(s.update(find_validator(s, e.validator), e), find_validator(s, e.validator))
    } else if s.len() < cap {
        resort(s.push(e), s.len() as int)
    } else {
        s
    }
}

/// `find_validator` names the first occurrence: it is in bounds exactly when
/// the identity occurs, it points at a matching entry, and nothing before it
/// matches.
pub proof fn lemma_find_validator(s: Seq<VListEntry>, v: Identity)
    ensures
        0 <= find_validator(s, v) <= s.len(),
        contains_validator(s, v) <==> find_validator(s, v) < s.len(),
        find_validator(s, v) < s.len() ==> s[find_validator(s, v)].validator == v,
        forall|k: int| 0 <= k < find_validator(s, v) ==> s[k].validator != v,
    decreases s.len(),
{
    if s.len() == 0 {
    } else if s[0].validator == v {
    } else {
        let s1 = s.skip(1);
        lemma_find_validator(s1, v);
        let f = find_validator(s, v);
        assert(f == 1 + find_validator(s1, v));
        assert forall|k: int| 0 <= k < f implies s[k].validator != v by {
            if k > 0 {
                assert(s[k] == s1[k - 1]);
            }
        }
        if contains_validator(s, v) {
            let i = choose|i: int| 0 <= i < s.len() && s[i].validator == v;
            assert(s1[i - 1] == s[i]);
            assert(contains_validator(s1, v));
        }
        if contains_validator(s1, v) {
            let i = choose|i: int| 0 <= i < s1.len() && s1[i].validator == v;
            assert(s[i + 1] == s1[i]);
            assert(contains_validator(s, v));
        }
        if f < s.len() {
            assert(s[f] == s1[f - 1]);
        }
    }
}

/// `find_validator` of a known first occurrence is that occurrence.
pub proof fn lemma_find_validator_at(s: Seq<VListEntry>, v: Identity, q: int)
    requires
        0 <= q < s.len(),
        s[q].validator == v,
        forall|k: int| 0 <= k < q ==> s[k].validator != v,
    ensures
        find_validator(s, v) == q,
        contains_validator(s, v),
{
    lemma_find_validator(s, v);
    let f = find_validator(s, v);
    assert(contains_validator(s, v));
    if f < q {
        assert(s[f].validator != v);
        assert(false);
    }
    if f > q {
        assert(s[q].validator != v);
        assert(false);
    }
}

/// Where a stable descending sort puts an entry of score `sc` that stood at
/// position `p`, relative to the sorted remainder `w`: everything before the
/// place outranks the entry, everything after is outranked by it.
pub proof fn lemma_place_characterization(w: Seq<VListEntry>, sc: u32, p: int)
    requires
        sorted_desc(w),
    ensures
        0 <= place(w, sc, p) <= w.len(),
        forall|k: int|
            0 <= k < place(w, sc, p) ==> (w[k].score > sc || (w[k].score == sc && k < p)),
        forall|k: int|
            place(w, sc, p) <= k < w.len() ==> (w[k].score < sc || (w[k].score == sc && k >= p)),
    decreases w.len(),
{
    if w.len() == 0 {
    } else if w[0].score > sc || (w[0].score == sc && p > 0) {
        let w1 = w.skip(1);
        assert forall|i: int, j: int| 0 <= i < j < w1.len() implies w1[i].score >= w1[j].score by {
            assert(w1[i] == w[i + 1]);
            assert(w1[j] == w[j + 1]);
        }
        lemma_place_characterization(w1, sc, p - 1);
        let f = place(w, sc, p);
        assert(f == 1 + place(w1, sc, p - 1));
        assert forall|k: int| 0 <= k < f implies (w[k].score > sc || (w[k].score == sc && k
            < p)) by {
            if k > 0 {
                assert(w[k] == w1[k - 1]);
            }
        }
        assert forall|k: int| f <= k < w.len() implies (w[k].score < sc || (w[k].score == sc && k
            >= p)) by {
            assert(w[k] == w1[k - 1]);
        }
    } else {
        assert forall|k: int| 0 <= k < w.len() implies (w[k].score < sc || (w[k].score == sc && k
            >= p)) by {
            if k > 0 {
                assert(w[0].score >= w[k].score);
            }
        }
    }
}

/// The place is the only cut that obeys the characterization above.
pub proof fn lemma_place_unique(w: Seq<VListEntry>, sc: u32, p: int, j: int)
    requires
        sorted_desc(w),
        0 <= j <= w.len(),
        forall|k: int| 0 <= k < j ==> (w[k].score > sc || (w[k].score == sc && k < p)),
        forall|k: int| j <= k < w.len() ==> (w[k].score < sc || (w[k].score == sc && k >= p)),
    ensures
        place(w, sc, p) == j,
{
    lemma_place_characterization(w, sc, p);
    let f = place(w, sc, p);
    if f < j {
        assert(w[f].score > sc || (w[f].score == sc && f < p));
        assert(w[f].score < sc || (w[f].score == sc && f >= p));
        assert(false);
    }
    if f > j {
        assert(w[j].score > sc || (w[j].score == sc && j < p));
        assert(w[j].score < sc || (w[j].score == sc && j >= p));
        assert(false);
    }
}

/// Removing an entry keeps the sequence sorted.
pub proof fn lemma_sorted_remove(s: Seq<VListEntry>, p: int)
    requires
        sorted_desc(s),
        0 <= p < s.len(),
    ensures
        sorted_desc(s.remove(p)),
{
    s.remove_ensures(p);
    let w = s.remove(p);
    assert forall|i: int, j: int| 0 <= i < j < w.len() implies w[i].score >= w[j].score by {
        if i < p {
            assert(w[i] == s[i]);
        } else {
            assert(w[i] == s[i + 1]);
        }
        if j < p {
            assert(w[j] == s[j]);
        } else {
            assert(w[j] == s[j + 1]);
        }
    }
}

/// Removing an entry keeps identities unique.
pub proof fn lemma_unique_remove(s: Seq<VListEntry>, p: int)
    requires
        unique_validators(s),
        0 <= p < s.len(),
    ensures
        unique_validators(s.remove(p)),
{
    s.remove_ensures(p);
    let w = s.remove(p);
    assert forall|i: int, j: int| 0 <= i < j < w.len() implies w[i].validator != w[j].validator by {
        if i < p {
            assert(w[i] == s[i]);
        } else {
            assert(w[i] == s[i + 1]);
        }
        if j < p {
            assert(w[j] == s[j]);
        } else {
            assert(w[j] == s[j + 1]);
        }
    }
}

/// In a sequence without repeated identities, removing the entry at `p`
/// removes its identity altogether.
pub proof fn lemma_remove_no_occurrence(s: Seq<VListEntry>, p: int)
    requires
        unique_validators(s),
        0 <= p < s.len(),
    ensures
        !contains_validator(s.remove(p), s[p].validator),
{
    s.remove_ensures(p);
    let w = s.remove(p);
    let v = s[p].validator;
    assert forall|k: int| 0 <= k < w.len() implies w[k].validator != v by {
        if k < p {
            assert(w[k] == s[k]);
        } else {
            assert(w[k] == s[k + 1]);
        }
    }
}

/// Inserting between the higher and the lower scores keeps the order.
pub proof fn lemma_sorted_insert(w: Seq<VListEntry>, e: VListEntry, j: int)
    requires
        sorted_desc(w),
        0 <= j <= w.len(),
        forall|k: int| 0 <= k < j ==> w[k].score >= e.score,
        forall|k: int| j <= k < w.len() ==> w[k].score <= e.score,
    ensures
        sorted_desc(w.insert(j, e)),
{
    w.insert_ensures(j, e);
    let r = w.insert(j, e);
    assert forall|a: int, b: int| 0 <= a < b < r.len() implies r[a].score >= r[b].score by {
        if a < j {
            assert(r[a] == w[a]);
        } else if a == j {
            assert(r[a] == e);
        } else {
            assert(r[a] == w[a - 1]);
        }
        if b < j {
            assert(r[b] == w[b]);
        } else if b == j {
            assert(r[b] == e);
        } else {
            assert(r[b] == w[b - 1]);
        }
    }
}

/// Inserting an identity that is absent keeps identities unique.
pub proof fn lemma_unique_insert(w: Seq<VListEntry>, e: VListEntry, j: int)
    requires
        unique_validators(w),
        !contains_validator(w, e.validator),
        0 <= j <= w.len(),
    ensures
        unique_validators(w.insert(j, e)),
{
    w.insert_ensures(j, e);
    let r = w.insert(j, e);
    assert forall|k: int| 0 <= k < w.len() implies w[k].validator != e.validator by {
        if w[k].validator == e.validator {
            assert(contains_validator(w, e.validator));
        }
    }
    assert forall|a: int, b: int| 0 <= a < b < r.len() implies r[a].validator
        != r[b].validator by {
        if a < j {
            assert(r[a] == w[a]);
        } else if a == j {
            assert(r[a] == e);
        } else {
            assert(r[a] == w[a - 1]);
        }
        if b < j {
            assert(r[b] == w[b]);
        } else if b == j {
            assert(r[b] == e);
        } else {
            assert(r[b] == w[b - 1]);
        }
    }
}

/// Inserting adds exactly one identity to those present.
pub proof fn lemma_insert_contains(w: Seq<VListEntry>, e: VListEntry, j: int, v: Identity)
    requires
        0 <= j <= w.len(),
    ensures
        contains_validator(w.insert(j, e), v) <==> (contains_validator(w, v) || e.validator == v),
{
    w.insert_ensures(j, e);
    let r = w.insert(j, e);
    if contains_validator(r, v) {
        let k = choose|k: int| 0 <= k < r.len() && r[k].validator == v;
        if k < j {
            assert(r[k] == w[k]);
            assert(contains_validator(w, v));
        } else if k > j {
            assert(r[k] == w[k - 1]);
            assert(contains_validator(w, v));
        }
    }
    if contains_validator(w, v) {
        let k = choose|k: int| 0 <= k < w.len() && w[k].validator == v;
        if k < j {
            assert(r[k] == w[k]);
        } else {
            assert(r[k + 1] == w[k]);
        }
        assert(contains_validator(r, v));
    }
    if e.validator == v {
        assert(r[j] == e);
        assert(contains_validator(r, v));
    }
}

/// Removing the entry at `p` keeps every other identity present.
pub proof fn lemma_remove_contains(s: Seq<VListEntry>, p: int, v: Identity)
    requires
        0 <= p < s.len(),
    ensures
        contains_validator(s, v) <==> (contains_validator(s.remove(p), v) || s[p].validator == v),
{
    s.remove_ensures(p);
    let w = s.remove(p);
    if contains_validator(s, v) {
        let k = choose|k: int| 0 <= k < s.len() && s[k].validator == v;
        if k < p {
            assert(w[k] == s[k]);
            assert(contains_validator(w, v));
        } else if k > p {
            assert(w[k - 1] == s[k]);
            assert(contains_validator(w, v));
        }
    }
    if contains_validator(w, v) {
        let k = choose|k: int| 0 <= k < w.len() && w[k].validator == v;
        if k < p {
            assert(s[k] == w[k]);
        } else {
            assert(s[k + 1] == w[k]);
        }
        assert(contains_validator(s, v));
    }
}

/// Re-sorting a sequence that is sorted everywhere but at `p` keeps its
/// length and its identities, keeps uniqueness, sorts it, and keeps the
/// moved entry intact at the place the sort gives it.
pub proof fn lemma_resort(u: Seq<VListEntry>, p: int)
    requires
        0 <= p < u.len(),
        sorted_desc(u.remove(p)),
        unique_validators(u),
    ensures
        resort(u, p).len() == u.len(),
        sorted_desc(resort(u, p)),
        unique_validators(resort(u, p)),
        forall|v: Identity| contains_validator(resort(u, p), v) <==> contains_validator(u, v),
        0 <= place(u.remove(p), u[p].score, p) < u.len(),
        resort(u, p)[place(u.remove(p), u[p].score, p)] == u[p],
{
    let e = u[p];
    let w = u.remove(p);
    u.remove_ensures(p);
    lemma_place_characterization(w, e.score, p);
    let j = place(w, e.score, p);
    w.insert_ensures(j, e);
    assert forall|k: int| 0 <= k < j implies w[k].score >= e.score by {
        assert(w[k].score > e.score || (w[k].score == e.score && k < p));
    }
    assert forall|k: int| j <= k < w.len() implies w[k].score <= e.score by {
        assert(w[k].score < e.score || (w[k].score == e.score && k >= p));
    }
    lemma_sorted_insert(w, e, j);
    lemma_unique_remove(u, p);
    lemma_remove_no_occurrence(u, p);
    lemma_unique_insert(w, e, j);
    assert forall|v: Identity|
        contains_validator(resort(u, p), v) <==> contains_validator(u, v) by {
        lemma_insert_contains(w, e, j, v);
        lemma_remove_contains(u, p, v);
    }
}

/// Order between neighbours carries along the whole chain.
proof fn lemma_score_chain(s: Seq<VListEntry>, i: int, j: int)
    requires
        forall|k: int| 0 <= k < s.len() - 1 ==> #[trigger] s[k].score >= s[k + 1].score,
        0 <= i <= j < s.len(),
    ensures
        s[i].score >= s[j].score,
    decreases j - i,
{
    if i < j {
        lemma_score_chain(s, i, j - 1);
        assert(s[j - 1].score >= s[j].score);
    }
}

/// A sequence whose neighbours are in order is sorted.
pub proof fn lemma_sorted_from_adjacent(s: Seq<VListEntry>)
    requires
        forall|k: int| 0 <= k < s.len() - 1 ==> #[trigger] s[k].score >= s[k + 1].score,
    ensures
        sorted_desc(s),
{
    assert forall|i: int, j: int| 0 <= i < j < s.len() implies s[i].score >= s[j].score by {
        lemma_score_chain(s, i, j);
    }
}

/// Removing an entry and putting it back where it stood yields the
/// sequence again.
pub proof fn lemma_remove_insert_same(u: Seq<VListEntry>, p: int)
    requires
        0 <= p < u.len(),
    ensures
        u.remove(p).insert(p, u[p]) == u,
{
    u.remove_ensures(p);
    u.remove(p).insert_ensures(p, u[p]);
    assert(u.remove(p).insert(p, u[p]) =~= u);
}

/// Swapping the travelling entry with its upper neighbour moves it one
/// place toward the front.
pub proof fn lemma_move_step_up(u: Seq<VListEntry>, p: int, pos: int)
    requires
        0 < pos <= p < u.len(),
    ensures
        u.remove(p).insert(pos, u[p])[pos - 1] == u[pos - 1],
        u.remove(p).insert(pos, u[p]).update(pos - 1, u[p]).update(pos, u[pos - 1]) == u.remove(
            p,
        ).insert(pos - 1, u[p]),
{
    let e = u[p];
    let w = u.remove(p);
    u.remove_ensures(p);
    w.insert_ensures(pos, e);
    w.insert_ensures(pos - 1, e);
    let a = w.insert(pos, e).update(pos - 1, e).update(pos, u[pos - 1]);
    let b = w.insert(pos - 1, e);
    assert(w[pos - 1] == u[pos - 1]);
    assert forall|k: int| 0 <= k < a.len() implies a[k] == b[k] by {
        if k < pos - 1 {
            assert(w.insert(pos, e)[k] == w[k]);
            assert(b[k] == w[k]);
        } else if k == pos - 1 {
            assert(b[k] == e);
        } else if k == pos {
            assert(b[k] == w[k - 1]);
        } else {
            assert(w.insert(pos, e)[k] == w[k - 1]);
            assert(b[k] == w[k - 1]);
        }
    }
    assert(a =~= b);
}

/// Swapping the travelling entry with its lower neighbour moves it one
/// place toward the back.
pub proof fn lemma_move_step_down(u: Seq<VListEntry>, p: int, pos: int)
    requires
        0 <= p <= pos,
        pos + 1 < u.len(),
    ensures
        u.remove(p).insert(pos, u[p])[pos + 1] == u.remove(p)[pos],
        u.remove(p).insert(pos, u[p]).update(pos, u.remove(p)[pos]).update(pos + 1, u[p])
            == u.remove(p).insert(pos + 1, u[p]),
{
    let e = u[p];
    let w = u.remove(p);
    u.remove_ensures(p);
    w.insert_ensures(pos, e);
    w.insert_ensures(pos + 1, e);
    let a = w.insert(pos, e).update(pos, w[pos]).update(pos + 1, e);
    let b = w.insert(pos + 1, e);
    assert(w.insert(pos, e)[pos + 1] == w[pos]);
    assert forall|k: int| 0 <= k < a.len() implies a[k] == b[k] by {
        if k < pos {
            assert(w.insert(pos, e)[k] == w[k]);
            assert(b[k] == w[k]);
        } else if k == pos {
            assert(b[k] == w[k]);
        } else if k == pos + 1 {
            assert(b[k] == e);
        } else {
            assert(w.insert(pos, e)[k] == w[k - 1]);
            assert(b[k] == w[k - 1]);
        }
    }
    assert(a =~= b);
}

/// Where the bubbling pass of the shortlist leaves the travelling entry is
/// the place the stable sort names: `q0` is where the upward pass stopped,
/// `j` where the downward pass stopped, `p` where the entry stood, over the
/// sorted remainder `w` of an occupied prefix of length `idx0`.
pub proof fn lemma_bubble_final(w: Seq<VListEntry>, sc: u32, p: int, q0: int, j: int, idx0: int)
    requires
        sorted_desc(w),
        w.len() == idx0 - 1,
        0 <= p < idx0,
        0 <= q0 <= p,
        q0 <= j < idx0,
        q0 < p ==> j == q0,
        forall|k: int| q0 <= k < p ==> w[k].score < sc,
        q0 == 0 || w[q0 - 1].score >= sc,
        forall|k: int| p <= k < j ==> w[k].score > sc,
        j + 1 < idx0 ==> w[j].score <= sc,
    ensures
        place(w, sc, p) == j,
{
    assert forall|k: int| 0 <= k < j implies (w[k].score > sc || (w[k].score == sc && k < p)) by {
        if j <= p {
            assert(j == q0);
            assert(w[j - 1].score >= sc);
            if k < j - 1 {
                assert(w[k].score >= w[j - 1].score);
            }
        } else {
            if k < p {
                assert(w[p].score > sc);
                assert(w[k].score >= w[p].score);
            }
        }
    }
    assert forall|k: int| j <= k < w.len() implies (w[k].score < sc || (w[k].score == sc && k
        >= p)) by {
        if j < p {
            if k < p {
                assert(w[k].score < sc);
            } else {
                assert(w[p - 1].score < sc);
                assert(w[k].score <= w[p - 1].score);
            }
        } else {
            assert(j + 1 < idx0);
            assert(w[j].score <= sc);
            if k > j {
                assert(w[k].score <= w[j].score);
            }
        }
    }
    lemma_place_unique(w, sc, p, j);
}

/// A sorted sequence is already in place: re-sorting it around any
/// position returns it unchanged.
proof fn lemma_resort_fixpoint(r: Seq<VListEntry>, q: int)
    requires
        sorted_desc(r),
        0 <= q < r.len(),
    ensures
        resort(r, q) == r,
{
    let e = r[q];
    let w = r.remove(q);
    r.remove_ensures(q);
    lemma_sorted_remove(r, q);
    assert forall|k: int| 0 <= k < q implies (w[k].score > e.score || (w[k].score == e.score && k
        < q)) by {
        assert(w[k] == r[k]);
    }
    assert forall|k: int| q <= k < w.len() implies (w[k].score < e.score || (w[k].score == e.score
        && k >= q)) by {
        assert(w[k] == r[k + 1]);
    }
    lemma_place_unique(w, e.score, q, q);
    w.insert_ensures(q, e);
    assert(w.insert(q, e) =~= r);
}

/// What one upsert does to order, uniqueness, length and membership.
proof fn lemma_upsert_shape(s: Seq<VListEntry>, e: VListEntry, cap: nat)
    requires
        sorted_desc(s),
        unique_validators(s),
    ensures
        sorted_desc(upsert(s, e, cap)),
        unique_validators(upsert(s, e, cap)),
        upsert(s, e, cap).len() == if contains_validator(s, e.validator) {
            s.len() as int
        } else if s.len() < cap {
            s.len() + 1 as int
        } else {
            s.len() as int
        },
        forall|v: Identity|
            contains_validator(upsert(s, e, cap), v) <==> (contains_validator(s, v) || (s.len()
                < cap && e.validator == v)),
        (contains_validator(s, e.validator) || s.len() < cap) ==> exists|q: int|
            0 <= q < upsert(s, e, cap).len() && upsert(s, e, cap)[q] == e,
{
    if contains_validator(s, e.validator) {
        let p = find_validator(s, e.validator);
        lemma_find_validator(s, e.validator);
        let u = s.update(p, e);
        s.remove_ensures(p);
        u.remove_ensures(p);
        assert(u.remove(p) =~= s.remove(p));
        lemma_sorted_remove(s, p);
        assert forall|i: int, j: int| 0 <= i < j < u.len() implies u[i].validator
            != u[j].validator by {
            if i != p {
                assert(u[i] == s[i]);
            }
            if j != p {
                assert(u[j] == s[j]);
            }
            assert(u[p].validator == s[p].validator);
        }
        lemma_resort(u, p);
        assert(u[p] == e);
        assert forall|v: Identity|
            contains_validator(u, v) <==> contains_validator(s, v) by {
            if contains_validator(u, v) {
                let k = choose|k: int| 0 <= k < u.len() && u[k].validator == v;
                if k == p {
                    assert(s[p].validator == v);
                } else {
                    assert(u[k] == s[k]);
                }
                assert(contains_validator(s, v));
            }
            if contains_validator(s, v) {
                let k = choose|k: int| 0 <= k < s.len() && s[k].validator == v;
                if k == p {
                    assert(u[p].validator == v);
                } else {
                    assert(u[k] == s[k]);
                }
                assert(contains_validator(u, v));
            }
        }
        let jw = place(u.remove(p), e.score, p);
        assert(upsert(s, e, cap) == resort(u, p));
        assert(0 <= jw < upsert(s, e, cap).len() && upsert(s, e, cap)[jw] == e);
    } else if s.len() < cap {
        let p = s.len() as int;
        let u = s.push(e);
        u.remove_ensures(p);
        assert(u.remove(p) =~= s);
        assert forall|k: int| 0 <= k < s.len() implies s[k].validator != e.validator by {
            if s[k].validator == e.validator {
                assert(contains_validator(s, e.validator));
            }
        }
        assert forall|i: int, j: int| 0 <= i < j < u.len() implies u[i].validator
            != u[j].validator by {
            if j == p {
                assert(u[i] == s[i]);
                assert(u[j] == e);
            } else {
                assert(u[i] == s[i]);
                assert(u[j] == s[j]);
            }
        }
        lemma_resort(u, p);
        assert(u[p] == e);
        assert forall|v: Identity|
            contains_validator(u, v) <==> (contains_validator(s, v) || e.validator == v) by {
            if contains_validator(u, v) {
                let k = choose|k: int| 0 <= k < u.len() && u[k].validator == v;
                if k < p {
                    assert(u[k] == s[k]);
                    assert(contains_validator(s, v));
                }
            }
            if contains_validator(s, v) {
                let k = choose|k: int| 0 <= k < s.len() && s[k].validator == v;
                assert(u[k] == s[k]);
                assert(contains_validator(u, v));
            }
            if e.validator == v {
                assert(u[p].validator == v);
                assert(contains_validator(u, v));
            }
        }
        let jw = place(u.remove(p), e.score, p);
        assert(upsert(s, e, cap) == resort(u, p));
        assert(0 <= jw < upsert(s, e, cap).len() && upsert(s, e, cap)[jw] == e);
    } else {
    }
}

/// Sortedness: one insert-or-update call keeps the occupied prefix sorted
/// by score, highest first. Starting from the empty prefix, any sequence
/// of calls therefore leaves it sorted.
pub proof fn lemma_upsert_sorted(s: Seq<VListEntry>, e: VListEntry, cap: nat)
    requires
        sorted_desc(s),
        unique_validators(s),
    ensures
        sorted_desc(upsert(s, e, cap)),
{
    lemma_upsert_shape(s, e, cap);
}

/// Uniqueness: one insert-or-update call never duplicates a validator
/// identity among the occupied slots. Starting from the empty prefix, any
/// sequence of calls therefore keeps every identity unique.
pub proof fn lemma_upsert_unique(s: Seq<VListEntry>, e: VListEntry, cap: nat)
    requires
        sorted_desc(s),
        unique_validators(s),
    ensures
        unique_validators(upsert(s, e, cap)),
{
    lemma_upsert_shape(s, e, cap);
}

/// Capacity ceiling: the occupied count never passes the capacity, and
/// once the list is full an insert of a never-seen validator leaves the
/// list — count and every entry — unchanged.
pub proof fn lemma_upsert_capacity(s: Seq<VListEntry>, e: VListEntry, cap: nat)
    requires
        sorted_desc(s),
        unique_validators(s),
        s.len() <= cap,
    ensures
        upsert(s, e, cap).len() <= cap,
        s.len() == cap && !contains_validator(s, e.validator) ==> upsert(s, e, cap) == s,
{
    lemma_upsert_shape(s, e, cap);
}

/// Idempotent update: a second insert-or-update with identical arguments
/// leaves the list exactly as the first left it.
pub proof fn lemma_upsert_idempotent(s: Seq<VListEntry>, e: VListEntry, cap: nat)
    requires
        sorted_desc(s),
        unique_validators(s),
    ensures
        upsert(upsert(s, e, cap), e, cap) == upsert(s, e, cap),
{
    lemma_upsert_shape(s, e, cap);
    let r = upsert(s, e, cap);
    if !contains_validator(s, e.validator) && s.len() >= cap {
        assert(r == s);
    } else {
        let q0 = choose|q: int| 0 <= q < r.len() && r[q] == e;
        assert(contains_validator(r, e.validator));
        lemma_find_validator(r, e.validator);
        let q = find_validator(r, e.validator);
        if q != q0 {
            if q < q0 {
                assert(r[q].validator != r[q0].validator);
            } else {
                assert(r[q0].validator != r[q].validator);
            }
            assert(false);
        }
        assert(r[q] == e);
        assert(r.update(q, e) =~= r);
        lemma_resort_fixpoint(r, q);
    }
}

} // verus!
