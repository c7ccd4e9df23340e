use seraph::state::{Identity, Pool, VList, VListEntry, MAX_VALIDATORS_IN_LIST};

fn id(n: u64) -> Identity {
    Identity { hi: 0, lo: n as u128 }
}

fn fresh_list(admin: Identity) -> VList {
    let mut list = VList::default();
    list.init(&admin, id(7), 1).unwrap();
    list
}

fn scores(list: &VList) -> Vec<u32> {
    list.validators[..list.idx].iter().map(|e| e.score).collect()
}

#[test]
fn pool_init_records_the_creation_point() {
    let admin = id(1);
    let mut pool = Pool::default();
    pool.init(&admin, 1234, 56, 250).unwrap();
    assert_eq!(pool.admin, admin);
    assert_eq!(pool.start_slot, 1234);
    assert_eq!(pool.start_epoch, 56);
    assert_eq!(pool.bump, 250);
}

#[test]
fn vlist_init_starts_empty_and_zeroed() {
    let admin = id(1);
    let list = fresh_list(admin);
    assert_eq!(list.idx, 0);
    assert_eq!(list.admin, admin);
    assert_eq!(list.pool, id(7));
    assert_eq!(list.bump, 1);
    assert_eq!(list.validators.len(), MAX_VALIDATORS_IN_LIST);
    for entry in &list.validators {
        assert_eq!(entry.score, 0);
        assert_eq!(entry.last_scored_epoch, 0);
        assert_eq!(entry.validator, Identity { hi: 0, lo: 0 });
    }
}

#[test]
fn three_inserts_come_out_ranked() {
    // A pool with an empty shortlist takes three validators with scores
    // 10, 50 and 30 and ranks them 50, 30, 10.
    let mut list = fresh_list(id(1));
    list.insert_or_update(id(10), 10, 1);
    list.insert_or_update(id(11), 50, 1);
    list.insert_or_update(id(12), 30, 1);
    assert_eq!(list.idx, 3);
    assert_eq!(scores(&list), vec![50, 30, 10]);
    assert_eq!(list.validators[0].validator, id(11));
    assert_eq!(list.validators[1].validator, id(12));
    assert_eq!(list.validators[2].validator, id(10));
}

#[test]
fn updating_the_tail_reorders_the_list() {
    // The validator sitting at score 10 is re-scored to 90 and rises to
    // the front: 90, 50, 30.
    let mut list = fresh_list(id(1));
    list.insert_or_update(id(10), 10, 1);
    list.insert_or_update(id(11), 50, 1);
    list.insert_or_update(id(12), 30, 1);
    list.insert_or_update(id(10), 90, 2);
    assert_eq!(list.idx, 3);
    assert_eq!(scores(&list), vec![90, 50, 30]);
    assert_eq!(list.validators[0].validator, id(10));
    assert_eq!(list.validators[0].last_scored_epoch, 2);
}

#[test]
fn a_full_list_drops_newcomers() {
    // One hundred distinct validators fill the list; the hundred-and-first
    // is dropped, the count stays at capacity and no entry changes.
    let mut list = fresh_list(id(1));
    for n in 0..MAX_VALIDATORS_IN_LIST as u64 {
        list.insert_or_update(id(100 + n), (n as u32) + 1, 3);
    }
    assert_eq!(list.idx, MAX_VALIDATORS_IN_LIST);
    let before = list.validators.clone();
    list.insert_or_update(id(999), 1_000_000, 4);
    assert_eq!(list.idx, MAX_VALIDATORS_IN_LIST);
    assert_eq!(list.validators, before);
    assert!(list.validators.iter().all(|e| e.validator != id(999)));
}

#[test]
fn a_full_list_still_updates_known_validators() {
    let mut list = fresh_list(id(1));
    for n in 0..MAX_VALIDATORS_IN_LIST as u64 {
        list.insert_or_update(id(100 + n), (n as u32) + 1, 3);
    }
    list.insert_or_update(id(100), 1_000_000, 4);
    assert_eq!(list.idx, MAX_VALIDATORS_IN_LIST);
    assert_eq!(list.validators[0].validator, id(100));
    assert_eq!(list.validators[0].score, 1_000_000);
}

#[test]
fn the_occupied_prefix_stays_sorted_and_unique() {
    // An unordered burst of inserts and updates leaves the prefix sorted
    // by score descending with no identity listed twice.
    let mut list = fresh_list(id(1));
    let raw = [37u32, 5, 91, 5, 62, 91, 14, 0, 77, 41];
    for (n, score) in raw.iter().enumerate() {
        list.insert_or_update(id((n % 7) as u64), *score, n as u64);
    }
    let occupied = &list.validators[..list.idx];
    for pair in occupied.windows(2) {
        assert!(pair[0].score >= pair[1].score);
    }
    for (a, ea) in occupied.iter().enumerate() {
        for eb in occupied.iter().skip(a + 1) {
            assert_ne!(ea.validator, eb.validator);
        }
    }
}

#[test]
fn equal_scores_keep_their_arrival_order() {
    // The sort is stable: validators scored equal stay in the order they
    // first entered, and a re-score to the same value does not move them.
    let mut list = fresh_list(id(1));
    list.insert_or_update(id(21), 50, 1);
    list.insert_or_update(id(22), 50, 1);
    list.insert_or_update(id(23), 50, 1);
    assert_eq!(list.validators[0].validator, id(21));
    assert_eq!(list.validators[1].validator, id(22));
    assert_eq!(list.validators[2].validator, id(23));
    list.insert_or_update(id(22), 50, 2);
    assert_eq!(list.validators[0].validator, id(21));
    assert_eq!(list.validators[1].validator, id(22));
    assert_eq!(list.validators[2].validator, id(23));
}

#[test]
fn repeating_an_update_changes_nothing_more() {
    // Two identical insert-or-update calls end in the same state as one.
    let mut once = fresh_list(id(1));
    once.insert_or_update(id(31), 40, 1);
    once.insert_or_update(id(32), 60, 1);
    once.insert_or_update(id(31), 55, 2);
    let mut twice = fresh_list(id(1));
    twice.insert_or_update(id(31), 40, 1);
    twice.insert_or_update(id(32), 60, 1);
    twice.insert_or_update(id(31), 55, 2);
    twice.insert_or_update(id(31), 55, 2);
    assert_eq!(once.validators, twice.validators);
    assert_eq!(once.idx, twice.idx);
}

#[test]
fn an_entry_holds_what_was_written() {
    let entry = VListEntry { validator: id(5), last_scored_epoch: 9, score: 17 };
    assert_eq!(entry.validator, id(5));
    assert_eq!(entry.last_scored_epoch, 9);
    assert_eq!(entry.score, 17);
}
