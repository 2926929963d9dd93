//! The four operations of the counter state machine. Every check precedes
//! every mutation: a failing call returns its error with the record exactly
//! as it was.

use vstd::prelude::*;
use crate::config::{
    CONFIG_VERSION, ClawsError, Config, Identity, TIER_COUNT, lemma_tier_sum_take_succ,
    lemma_tier_sum_update, lemma_tier_sum_zero, same_record, tier_sum,
};
use crate::laws::{finalize_step, freeze_step, mint_step, step};

verus! {

/// Creates the one counter record.
///
/// Succeeds exactly when the seven tier caps sum to `total_supply`; the new
/// record then starts active, empty, and owned by `authority`. Otherwise
/// nothing is created and `TierCapsMismatch` is returned.
pub fn initialize_config(
    authority: Identity,
    bump: u8,
    total_supply: u16,
    tier_caps: Vec<u16>,
) -> (r: Result<Config, ClawsError>)
    requires
        tier_caps@.len() == TIER_COUNT,
    ensures
        match r {
            Ok(cfg) => {
                &&& tier_sum(tier_caps@) == total_supply as int
                &&& cfg.wf()
                &&& cfg.version == CONFIG_VERSION
                &&& cfg.bump == bump
                &&& cfg.authority == authority
                &&& !cfg.is_frozen
                &&& !cfg.is_finalized
                &&& cfg.total_supply == total_supply
                &&& cfg.minted_total == 0
                &&& cfg.tier_caps@ == tier_caps@
                &&& cfg.tier_minted@.len() == TIER_COUNT
                &&& forall|k: int| 0 <= k < TIER_COUNT ==> cfg.tier_minted@[k] == 0u16
            },
            Err(e) => {
                &&& e == ClawsError::TierCapsMismatch
                &&& tier_sum(tier_caps@) != total_supply as int
            },
        },
{
    let mut cap_total: u32 = 0;
    let mut i: usize = 0;
    while i < TIER_COUNT
        invariant
            i <= TIER_COUNT,
            tier_caps@.len() == TIER_COUNT,
            cap_total as int == tier_sum(tier_caps@.take(i as int)),
            cap_total <= i * 65535,
        decreases TIER_COUNT - i,
    {
        proof {
            lemma_tier_sum_take_succ(tier_caps@, i as int);
        }
        cap_total = cap_total + tier_caps[i] as u32;
        i = i + 1;
    }
    proof {
        assert(tier_caps@.take(TIER_COUNT as int) =~= tier_caps@);
    }
    if cap_total != total_supply as u32 {
        return Err(ClawsError::TierCapsMismatch);
    }

    let mut tier_minted: Vec<u16> = Vec::new();
    let mut j: usize = 0;
    while j < TIER_COUNT
        invariant
            j <= TIER_COUNT,
            tier_minted@.len() == j,
            forall|k: int| 0 <= k < j ==> tier_minted@[k] == 0u16,
        decreases TIER_COUNT - j,
    {
        tier_minted.push(0u16);
        j = j + 1;
    }
    proof {
        lemma_tier_sum_zero(tier_minted@);
    }

    Ok(
        Config {
            version: CONFIG_VERSION,
            bump,
            authority,
            is_frozen: false,
            is_finalized: false,
            total_supply,
            minted_total: 0,
            tier_caps,
            tier_minted,
        },
    )
}

/// Mints one item in `tier`. Callable by anyone; gated only by capacity.
///
/// Succeeds exactly when the record is not frozen, `tier` is one of the
/// seven tiers, the global cap is not reached, and the tier's cap is not
/// reached; the two counters then each grow by one. The checks run in that
/// order, and a failing call leaves the record untouched.
pub fn mint_seed(cfg: &mut Config, tier: u8) -> (r: Result<(), ClawsError>)
    requires
        old(cfg).wf(),
    ensures
        final(cfg).wf(),
        step(*old(cfg), *final(cfg)),
        final(cfg).version == old(cfg).version,
        final(cfg).bump == old(cfg).bump,
        final(cfg).authority == old(cfg).authority,
        final(cfg).is_frozen == old(cfg).is_frozen,
        final(cfg).is_finalized == old(cfg).is_finalized,
        final(cfg).total_supply == old(cfg).total_supply,
        final(cfg).tier_caps@ == old(cfg).tier_caps@,
        final(cfg).minted_total >= old(cfg).minted_total,
        forall|k: int| 0 <= k < TIER_COUNT
            ==> final(cfg).tier_minted@[k] >= old(cfg).tier_minted@[k],
        match r {
            Ok(()) => mint_step(*old(cfg), *final(cfg), tier as int),
            Err(e) => {
                &&& same_record(*old(cfg), *final(cfg))
                &&& if old(cfg).is_frozen {
                    e == ClawsError::MintFrozen
                } else if tier as int >= TIER_COUNT {
                    e == ClawsError::InvalidTier
                } else if old(cfg).minted_total == old(cfg).total_supply {
                    e == ClawsError::SoldOut
                } else {
                    &&& e == ClawsError::TierSoldOut
                    &&& old(cfg).tier_minted@[tier as int] == old(cfg).tier_caps@[tier as int]
                }
            },
        },
{
    if cfg.is_frozen {
        return Err(ClawsError::MintFrozen);
    }
    if tier as usize >= TIER_COUNT {
        return Err(ClawsError::InvalidTier);
    }
    let i = tier as usize;
    if cfg.minted_total == cfg.total_supply {
        return Err(ClawsError::SoldOut);
    }
    if cfg.tier_minted[i] == cfg.tier_caps[i] {
        return Err(ClawsError::TierSoldOut);
    }

    let newly_minted = cfg.tier_minted[i] + 1;
    cfg.minted_total = cfg.minted_total + 1;
    cfg.tier_minted[i] = newly_minted;
    proof {
        lemma_tier_sum_update(old(cfg).tier_minted@, i as int, newly_minted);
        assert(mint_step(*old(cfg), *cfg, tier as int));
    }
    Ok(())
}

/// Permanently disables minting.
///
/// Fails with `ScarcityFinalized` if the record is already finalized, and
/// with `Unauthorized` if `caller` is not the stored authority; otherwise it
/// sets the frozen latch and changes nothing else. A repeated freeze by the
/// authority succeeds again and changes nothing.
pub fn freeze_mint_permanent(cfg: &mut Config, caller: Identity) -> (r: Result<
    (),
    ClawsError,
>)
    requires
        old(cfg).wf(),
    ensures
        final(cfg).wf(),
        step(*old(cfg), *final(cfg)),
        final(cfg).version == old(cfg).version,
        final(cfg).bump == old(cfg).bump,
        final(cfg).authority == old(cfg).authority,
        final(cfg).is_finalized == old(cfg).is_finalized,
        final(cfg).total_supply == old(cfg).total_supply,
        final(cfg).minted_total == old(cfg).minted_total,
        final(cfg).tier_caps@ == old(cfg).tier_caps@,
        final(cfg).tier_minted@ == old(cfg).tier_minted@,
        old(cfg).is_frozen ==> final(cfg).is_frozen,
        match r {
            Ok(()) => freeze_step(*old(cfg), *final(cfg), caller),
            Err(e) => {
                &&& same_record(*old(cfg), *final(cfg))
                &&& if old(cfg).is_finalized {
                    e == ClawsError::ScarcityFinalized
                } else {
                    &&& e == ClawsError::Unauthorized
                    &&& caller != old(cfg).authority
                }
            },
        },
{
    if cfg.is_finalized {
        return Err(ClawsError::ScarcityFinalized);
    }
    if !(caller == cfg.authority) {
        return Err(ClawsError::Unauthorized);
    }

    cfg.is_frozen = true;
    proof {
        assert(freeze_step(*old(cfg), *cfg, caller));
    }
    Ok(())
}

/// Permanently revokes all administrative control.
///
/// Fails with `AlreadyFinalized` if the record is already finalized, and
/// with `Unauthorized` if `caller` is not the stored authority; otherwise it
/// sets the finalized latch and overwrites the authority with the null
/// identity, so no privileged call can ever succeed again.
pub fn finalize_scarcity_law(cfg: &mut Config, caller: Identity) -> (r: Result<
    (),
    ClawsError,
>)
    requires
        old(cfg).wf(),
    ensures
        final(cfg).wf(),
        step(*old(cfg), *final(cfg)),
        final(cfg).version == old(cfg).version,
        final(cfg).bump == old(cfg).bump,
        final(cfg).is_frozen == old(cfg).is_frozen,
        final(cfg).total_supply == old(cfg).total_supply,
        final(cfg).minted_total == old(cfg).minted_total,
        final(cfg).tier_caps@ == old(cfg).tier_caps@,
        final(cfg).tier_minted@ == old(cfg).tier_minted@,
        old(cfg).is_finalized ==> final(cfg).is_finalized,
        match r {
            Ok(()) => finalize_step(*old(cfg), *final(cfg), caller),
            Err(e) => {
                &&& same_record(*old(cfg), *final(cfg))
                &&& if old(cfg).is_finalized {
                    e == ClawsError::AlreadyFinalized
                } else {
                    &&& e == ClawsError::Unauthorized
                    &&& caller != old(cfg).authority
                }
            },
        },
{
    if cfg.is_finalized {
        return Err(ClawsError::AlreadyFinalized);
    }
    if !(caller == cfg.authority) {
        return Err(ClawsError::Unauthorized);
    }

    cfg.is_finalized = true;
    cfg.authority = Identity::zero();
    proof {
        assert(finalize_step(*old(cfg), *cfg, caller));
    }
    Ok(())
}

} // verus!
