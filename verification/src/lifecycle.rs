//! The stake-lifecycle state machine: delegate, deactivate and redelegate
//! transitions on stake accounts, authorized by a pool's administrative
//! authority and arbitrated by the native staking primitive's rules.

use vstd::prelude::*;

use crate::state::{Identity, Pool};

verus! {

/// The delegation state of a stake account, as the native staking
/// primitive settles it. Activation timing between a request and its
/// settlement is owned by the primitive and not tracked here.
#[derive(Clone, Copy, Debug, PartialEq, Eq, Structural)]
pub enum StakeStatus {
    /// Holds value, delegated to no validator.
    Undelegated,
    /// Delegated to the named validator.
    Delegated { validator: Identity },
    /// Deactivated after a delegation; may be delegated anew.
    Deactivated,
}

/// What this system reads of a stake account owned by the native staking
/// primitive: its configured staking authority, its delegation state and
/// its balance.
#[derive(Clone, Copy, Debug, PartialEq, Eq, Structural)]
pub struct StakeAccount {
    pub staker: Identity,
    pub status: StakeStatus,
    pub lamports: u64,
}

/// A refusal of the native staking primitive, propagated verbatim.
#[derive(Clone, Copy, Debug, PartialEq, Eq, Structural)]
pub enum NativeRejection {
    /// The account is already delegated and not yet deactivated.
    AlreadyDelegated,
    /// The account holds no active delegation to act on.
    NotDelegated,
    /// The account holds no value to delegate.
    InsufficientBalance,
    /// The account meant to receive a redelegation is already in use.
    AccountInUse,
}

/// Why a lifecycle transition was refused. Every refusal leaves all
/// accounts unchanged: a failed operation commits nothing.
#[derive(Clone, Copy, Debug, PartialEq, Eq, Structural)]
pub enum LifecycleError {
    /// The caller is not the recognized administrative authority for the
    /// pool and stake account addressed.
    AuthorityMismatch,
    /// The native staking primitive rejected the transition request.
    Native { rejection: NativeRejection },
}

/// The authority gate shared by every transition: the signer must be the
/// pool's registered administrative authority, and that same authority
/// must be the stake account's configured staking authority.
pub open spec fn authorized(pool: Pool, signer: Identity, stake: StakeAccount) -> bool {
    signer == pool.admin && stake.staker == pool.admin
}

/// When the native primitive accepts a delegation request: the account is
/// not delegated elsewhere and holds value.
pub open spec fn delegable(stake: StakeAccount) -> bool {
    (stake.status is Undelegated || stake.status is Deactivated) && stake.lamports > 0
}

/// The account a successful delegation leaves behind.
pub open spec fn delegated_to(stake: StakeAccount, validator: Identity) -> StakeAccount {
    StakeAccount {
        staker: stake.staker,
        status: StakeStatus::Delegated { validator },
        lamports: stake.lamports,
    }
}

/// The account a settled deactivation leaves behind.
pub open spec fn deactivated(stake: StakeAccount) -> StakeAccount {
    StakeAccount { staker: stake.staker, status: StakeStatus::Deactivated, lamports: stake.lamports }
}

/// Whether a freshly created account can receive a redelegation: it must
/// carry no delegation and no value yet.
pub open spec fn fresh_receiver(account: StakeAccount) -> bool {
    account.status is Undelegated && account.lamports == 0
}

/// Request a delegation of `stake` to `target_validator`. The signer must
/// hold the pool's administrative authority over the account; the native
/// primitive then accepts only an undelegated or deactivated account that
/// holds value. On success the account is delegated to the target; every
/// refusal returns the exact error below and commits nothing.
pub fn delegate(
    pool: &Pool,
    signer: &Identity,
    stake: &StakeAccount,
    target_validator: &Identity,
) -> (r: Result<StakeAccount, LifecycleError>)
    ensures
        r is Ok <==> authorized(*pool, *signer, *stake) && delegable(*stake),
        r matches Ok(next) ==> next == delegated_to(*stake, *target_validator),
        !authorized(*pool, *signer, *stake) ==> r == Err::<StakeAccount, LifecycleError>(
            LifecycleError::AuthorityMismatch,
        ),
        authorized(*pool, *signer, *stake) && stake.status is Delegated ==> r == Err::<
            StakeAccount,
            LifecycleError,
        >(LifecycleError::Native { rejection: NativeRejection::AlreadyDelegated }),
        authorized(*pool, *signer, *stake) && !(stake.status is Delegated) && stake.lamports == 0
            ==> r == Err::<StakeAccount, LifecycleError>(
            LifecycleError::Native { rejection: NativeRejection::InsufficientBalance },
        ),
{
    if !(*signer == pool.admin) || !(stake.staker == pool.admin) {
        return Err(LifecycleError::AuthorityMismatch);
    }
    match stake.status {
        StakeStatus::Delegated { .. } => Err(
            LifecycleError::Native { rejection: NativeRejection::AlreadyDelegated },
        ),
        _ => {
            if stake.lamports == 0 {
                Err(LifecycleError::Native { rejection: NativeRejection::InsufficientBalance })
            } else {
                Ok(
                    StakeAccount {
                        staker: stake.staker,
                        status: StakeStatus::Delegated { validator: *target_validator },
                        lamports: stake.lamports,
                    },
                )
            }
        },
    }
}

/// Request a deactivation of `stake`. The signer must hold the pool's
/// administrative authority over the account; the native primitive then
/// accepts only a delegated account — deactivating an account that is not
/// delegated (or already deactivated) is rejected, not retried. On success
/// the account ends deactivated; every refusal commits nothing.
pub fn deactivate(pool: &Pool, signer: &Identity, stake: &StakeAccount) -> (r: Result<
    StakeAccount,
    LifecycleError,
>)
    ensures
        r is Ok <==> authorized(*pool, *signer, *stake) && stake.status is Delegated,
        r matches Ok(next) ==> next == deactivated(*stake),
        !authorized(*pool, *signer, *stake) ==> r == Err::<StakeAccount, LifecycleError>(
            LifecycleError::AuthorityMismatch,
        ),
        authorized(*pool, *signer, *stake) && !(stake.status is Delegated) ==> r == Err::<
            StakeAccount,
            LifecycleError,
        >(LifecycleError::Native { rejection: NativeRejection::NotDelegated }),
{
    if !(*signer == pool.admin) || !(stake.staker == pool.admin) {
        return Err(LifecycleError::AuthorityMismatch);
    }
    match stake.status {
        StakeStatus::Delegated { .. } => Ok(
            StakeAccount {
                staker: stake.staker,
                status: StakeStatus::Deactivated,
                lamports: stake.lamports,
            },
        ),
        _ => Err(LifecycleError::Native { rejection: NativeRejection::NotDelegated }),
    }
}

/// Move the delegation of `stake` into the freshly created
/// `new_account`, targeting `new_validator`, in one atomic step: on
/// success the old account ends deactivated and emptied and the new
/// account ends delegated to the target carrying the value; on any
/// refusal neither account changes — nothing commits partially. The
/// signer must hold the pool's administrative authority over both
/// accounts; the native primitive then accepts only a delegated source
/// and a receiver that carries no delegation and no value yet.
pub fn redelegate(
    pool: &Pool,
    signer: &Identity,
    stake: &StakeAccount,
    new_account: &StakeAccount,
    new_validator: &Identity,
) -> (r: Result<(StakeAccount, StakeAccount), LifecycleError>)
    ensures
        r is Ok <==> authorized(*pool, *signer, *stake) && authorized(*pool, *signer, *new_account)
            && stake.status is Delegated && fresh_receiver(*new_account),
        r matches Ok(next) ==> next.0 == (StakeAccount {
            staker: stake.staker,
            status: StakeStatus::Deactivated,
            lamports: 0u64,
        }) && next.1 == (StakeAccount {
            staker: new_account.staker,
            status: StakeStatus::Delegated { validator: *new_validator },
            lamports: stake.lamports,
        }),
        !(authorized(*pool, *signer, *stake) && authorized(*pool, *signer, *new_account)) ==> r
            == Err::<(StakeAccount, StakeAccount), LifecycleError>(
            LifecycleError::AuthorityMismatch,
        ),
        authorized(*pool, *signer, *stake) && authorized(*pool, *signer, *new_account) && !(
        stake.status is Delegated) ==> r == Err::<(StakeAccount, StakeAccount), LifecycleError>(
            LifecycleError::Native { rejection: NativeRejection::NotDelegated },
        ),
        authorized(*pool, *signer, *stake) && authorized(*pool, *signer, *new_account)
            && stake.status is Delegated && !fresh_receiver(*new_account) ==> r == Err::<
            (StakeAccount, StakeAccount),
            LifecycleError,
        >(LifecycleError::Native { rejection: NativeRejection::AccountInUse }),
{
    if !(*signer == pool.admin) || !(stake.staker == pool.admin) || !(new_account.staker
        == pool.admin) {
        return Err(LifecycleError::AuthorityMismatch);
    }
    match stake.status {
        StakeStatus::Delegated { .. } => {
            let receiver_free = match new_account.status {
                StakeStatus::Undelegated => new_account.lamports == 0,
                _ => false,
            };
            if receiver_free {
                Ok(
                    (
                        StakeAccount {
                            staker: stake.staker,
                            status: StakeStatus::Deactivated,
                            lamports: 0,
                        },
                        StakeAccount {
                            staker: new_account.staker,
                            status: StakeStatus::Delegated { validator: *new_validator },
                            lamports: stake.lamports,
                        },
                    ),
                )
            } else {
                Err(LifecycleError::Native { rejection: NativeRejection::AccountInUse })
            }
        },
        _ => Err(LifecycleError::Native { rejection: NativeRejection::NotDelegated }),
    }
}

} // verus!
