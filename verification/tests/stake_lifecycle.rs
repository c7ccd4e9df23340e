use seraph::lifecycle::{
    deactivate, delegate, redelegate, LifecycleError, NativeRejection, StakeAccount, StakeStatus,
};
use seraph::state::{Identity, Pool};

fn id(n: u64) -> Identity {
    Identity { hi: 0, lo: n as u128 }
}

fn pool_of(admin: Identity) -> Pool {
    let mut pool = Pool::default();
    pool.init(&admin, 100, 10, 255).unwrap();
    pool
}

fn undelegated(staker: Identity, lamports: u64) -> StakeAccount {
    StakeAccount { staker, status: StakeStatus::Undelegated, lamports }
}

#[test]
fn delegating_twice_without_deactivating_is_rejected() {
    // Delegate to X, then try to delegate the same account to Y: the
    // native primitive rejects it and the account stays delegated to X.
    let admin = id(1);
    let pool = pool_of(admin);
    let account = undelegated(admin, 5_000);
    let delegated = delegate(&pool, &admin, &account, &id(100)).unwrap();
    assert_eq!(delegated.status, StakeStatus::Delegated { validator: id(100) });

    let second = delegate(&pool, &admin, &delegated, &id(101));
    assert_eq!(
        second,
        Err(LifecycleError::Native { rejection: NativeRejection::AlreadyDelegated })
    );
    assert_eq!(delegated.status, StakeStatus::Delegated { validator: id(100) });
    assert_eq!(delegated.lamports, 5_000);
}

#[test]
fn redelegation_moves_the_stake_into_a_fresh_account() {
    // Redelegate from an account on X into a freshly created account
    // targeting Y: the new account ends delegated to Y with the value,
    // the old ends deactivated and emptied.
    let admin = id(1);
    let pool = pool_of(admin);
    let source = StakeAccount {
        staker: admin,
        status: StakeStatus::Delegated { validator: id(100) },
        lamports: 5_000,
    };
    let receiver = undelegated(admin, 0);
    let (old_after, new_after) = redelegate(&pool, &admin, &source, &receiver, &id(101)).unwrap();
    assert_eq!(new_after.status, StakeStatus::Delegated { validator: id(101) });
    assert_eq!(new_after.lamports, 5_000);
    assert_eq!(old_after.status, StakeStatus::Deactivated);
    assert_eq!(old_after.lamports, 0);
}

#[test]
fn a_failed_redelegation_commits_nothing() {
    // The receiving account is already in use: the whole operation is
    // refused, and neither account produces a new state — there is no
    // partially initialised receiver.
    let admin = id(1);
    let pool = pool_of(admin);
    let source = StakeAccount {
        staker: admin,
        status: StakeStatus::Delegated { validator: id(100) },
        lamports: 5_000,
    };
    let busy_receiver = undelegated(admin, 1);
    let outcome = redelegate(&pool, &admin, &source, &busy_receiver, &id(101));
    assert_eq!(
        outcome,
        Err(LifecycleError::Native { rejection: NativeRejection::AccountInUse })
    );
    assert_eq!(source.status, StakeStatus::Delegated { validator: id(100) });
    assert_eq!(source.lamports, 5_000);
    assert_eq!(busy_receiver.status, StakeStatus::Undelegated);
}

#[test]
fn redelegating_an_undelegated_account_is_rejected() {
    let admin = id(1);
    let pool = pool_of(admin);
    let source = undelegated(admin, 5_000);
    let receiver = undelegated(admin, 0);
    let outcome = redelegate(&pool, &admin, &source, &receiver, &id(101));
    assert_eq!(
        outcome,
        Err(LifecycleError::Native { rejection: NativeRejection::NotDelegated })
    );
}

#[test]
fn only_the_pool_authority_may_move_stake() {
    let admin = id(1);
    let intruder = id(2);
    let pool = pool_of(admin);
    let account = undelegated(admin, 5_000);
    assert_eq!(
        delegate(&pool, &intruder, &account, &id(100)),
        Err(LifecycleError::AuthorityMismatch)
    );
    assert_eq!(deactivate(&pool, &intruder, &account), Err(LifecycleError::AuthorityMismatch));
    let receiver = undelegated(admin, 0);
    assert_eq!(
        redelegate(&pool, &intruder, &account, &receiver, &id(100)),
        Err(LifecycleError::AuthorityMismatch)
    );
}

#[test]
fn a_foreign_staking_authority_is_rejected() {
    // The signer is the pool's admin, but the account answers to another
    // staking authority.
    let admin = id(1);
    let pool = pool_of(admin);
    let foreign = undelegated(id(3), 5_000);
    assert_eq!(
        delegate(&pool, &admin, &foreign, &id(100)),
        Err(LifecycleError::AuthorityMismatch)
    );
}

#[test]
fn deactivation_needs_an_active_delegation() {
    let admin = id(1);
    let pool = pool_of(admin);
    let idle = undelegated(admin, 5_000);
    assert_eq!(
        deactivate(&pool, &admin, &idle),
        Err(LifecycleError::Native { rejection: NativeRejection::NotDelegated })
    );
}

#[test]
fn deactivating_twice_is_rejected_by_the_primitive() {
    let admin = id(1);
    let pool = pool_of(admin);
    let delegated = StakeAccount {
        staker: admin,
        status: StakeStatus::Delegated { validator: id(100) },
        lamports: 5_000,
    };
    let deactivated_account = deactivate(&pool, &admin, &delegated).unwrap();
    assert_eq!(deactivated_account.status, StakeStatus::Deactivated);
    assert_eq!(deactivated_account.lamports, 5_000);
    assert_eq!(
        deactivate(&pool, &admin, &deactivated_account),
        Err(LifecycleError::Native { rejection: NativeRejection::NotDelegated })
    );
}

#[test]
fn a_deactivated_account_can_be_delegated_anew() {
    let admin = id(1);
    let pool = pool_of(admin);
    let account = undelegated(admin, 5_000);
    let delegated = delegate(&pool, &admin, &account, &id(100)).unwrap();
    let rested = deactivate(&pool, &admin, &delegated).unwrap();
    let again = delegate(&pool, &admin, &rested, &id(101)).unwrap();
    assert_eq!(again.status, StakeStatus::Delegated { validator: id(101) });
}

#[test]
fn an_empty_account_cannot_be_delegated() {
    let admin = id(1);
    let pool = pool_of(admin);
    let empty = undelegated(admin, 0);
    assert_eq!(
        delegate(&pool, &admin, &empty, &id(100)),
        Err(LifecycleError::Native { rejection: NativeRejection::InsufficientBalance })
    );
}
