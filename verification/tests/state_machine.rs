use claws_effect::config::{ClawsError, Config, Identity, CONFIG_VERSION};
use claws_effect::ops::{
    finalize_scarcity_law, freeze_mint_permanent, initialize_config, mint_seed,
};

fn authority() -> Identity {
    Identity { hi: 0xfeed, lo: 0xbeef }
}

fn stranger() -> Identity {
    Identity { hi: 7, lo: 9 }
}

fn new_config(total_supply: u16, tier_caps: [u16; 7]) -> Config {
    initialize_config(authority(), 255, total_supply, tier_caps.to_vec())
        .expect("tier caps sum to the total supply")
}

fn minted_sum(cfg: &Config) -> u32 {
    cfg.tier_minted.iter().map(|&x| x as u32).sum()
}

#[test]
fn initialize_sets_every_field() {
    let cfg = new_config(10, [2, 2, 2, 2, 1, 1, 0]);
    assert_eq!(cfg.version, CONFIG_VERSION);
    assert_eq!(cfg.bump, 255);
    assert_eq!(cfg.authority, authority());
    assert!(!cfg.is_frozen);
    assert!(!cfg.is_finalized);
    assert_eq!(cfg.total_supply, 10);
    assert_eq!(cfg.minted_total, 0);
    assert_eq!(cfg.tier_caps, vec![2, 2, 2, 2, 1, 1, 0]);
    assert_eq!(cfg.tier_minted, vec![0; 7]);
}

#[test]
fn scenario_a_zero_cap_tier_is_sold_out_at_once() {
    let mut cfg = new_config(10, [2, 2, 2, 2, 1, 1, 0]);
    assert_eq!(mint_seed(&mut cfg, 6), Err(ClawsError::TierSoldOut));
    assert_eq!(cfg.minted_total, 0);
    assert_eq!(cfg.tier_minted, vec![0; 7]);
}

#[test]
fn scenario_b_single_item_supply_sells_out() {
    let mut cfg = new_config(1, [1, 0, 0, 0, 0, 0, 0]);
    assert_eq!(mint_seed(&mut cfg, 0), Ok(()));
    assert_eq!(cfg.minted_total, 1);
    assert_eq!(cfg.tier_minted, vec![1, 0, 0, 0, 0, 0, 0]);
    assert_eq!(mint_seed(&mut cfg, 0), Err(ClawsError::SoldOut));
    assert_eq!(cfg.minted_total, 1);
}

#[test]
fn scenario_c_mismatched_caps_are_rejected() {
    let r = initialize_config(authority(), 255, 5, vec![1, 1, 1, 1, 2, 0, 0]);
    assert_eq!(r.unwrap_err(), ClawsError::TierCapsMismatch);
}

#[test]
fn matching_caps_of_the_same_shape_are_accepted() {
    let cfg = new_config(5, [1, 1, 1, 1, 1, 0, 0]);
    assert_eq!(cfg.total_supply, 5);
}

#[test]
fn scenario_d_freeze_needs_authority_and_stops_minting() {
    let mut cfg = new_config(10, [2, 2, 2, 2, 1, 1, 0]);
    assert_eq!(freeze_mint_permanent(&mut cfg, stranger()), Err(ClawsError::Unauthorized));
    assert!(!cfg.is_frozen);
    assert_eq!(freeze_mint_permanent(&mut cfg, authority()), Ok(()));
    assert!(cfg.is_frozen);
    assert_eq!(mint_seed(&mut cfg, 0), Err(ClawsError::MintFrozen));
    assert_eq!(cfg.minted_total, 0);
}

#[test]
fn scenario_e_finalize_destroys_authority_for_good() {
    let mut cfg = new_config(10, [2, 2, 2, 2, 1, 1, 0]);
    assert_eq!(finalize_scarcity_law(&mut cfg, authority()), Ok(()));
    assert!(cfg.is_finalized);
    assert_eq!(cfg.authority, Identity { hi: 0, lo: 0 });
    assert_eq!(finalize_scarcity_law(&mut cfg, authority()), Err(ClawsError::AlreadyFinalized));
    assert_eq!(freeze_mint_permanent(&mut cfg, authority()), Err(ClawsError::ScarcityFinalized));
    assert!(!cfg.is_frozen);
}

#[test]
fn finalize_by_stranger_is_unauthorized() {
    let mut cfg = new_config(3, [3, 0, 0, 0, 0, 0, 0]);
    assert_eq!(finalize_scarcity_law(&mut cfg, stranger()), Err(ClawsError::Unauthorized));
    assert!(!cfg.is_finalized);
    assert_eq!(cfg.authority, authority());
}

#[test]
fn out_of_range_tiers_are_invalid() {
    let mut cfg = new_config(10, [2, 2, 2, 2, 1, 1, 0]);
    assert_eq!(mint_seed(&mut cfg, 7), Err(ClawsError::InvalidTier));
    assert_eq!(mint_seed(&mut cfg, 255), Err(ClawsError::InvalidTier));
    assert_eq!(cfg.minted_total, 0);
}

#[test]
fn frozen_check_precedes_tier_check() {
    let mut cfg = new_config(10, [2, 2, 2, 2, 1, 1, 0]);
    assert_eq!(freeze_mint_permanent(&mut cfg, authority()), Ok(()));
    assert_eq!(mint_seed(&mut cfg, 9), Err(ClawsError::MintFrozen));
}

#[test]
fn counters_stay_consistent_across_a_run() {
    let mut cfg = new_config(10, [2, 2, 2, 2, 1, 1, 0]);
    let plan: [u8; 6] = [0, 0, 1, 4, 5, 3];
    for (n, &tier) in plan.iter().enumerate() {
        assert_eq!(mint_seed(&mut cfg, tier), Ok(()));
        assert_eq!(cfg.minted_total as usize, n + 1);
        assert_eq!(minted_sum(&cfg), cfg.minted_total as u32);
        for k in 0..7 {
            assert!(cfg.tier_minted[k] <= cfg.tier_caps[k]);
        }
        assert!(cfg.minted_total <= cfg.total_supply);
    }
    assert_eq!(cfg.tier_minted, vec![2, 1, 0, 1, 1, 1, 0]);
}

#[test]
fn caps_and_supply_never_change() {
    let mut cfg = new_config(10, [2, 2, 2, 2, 1, 1, 0]);
    let caps = cfg.tier_caps.clone();
    let _ = mint_seed(&mut cfg, 0);
    let _ = mint_seed(&mut cfg, 6);
    let _ = freeze_mint_permanent(&mut cfg, stranger());
    let _ = freeze_mint_permanent(&mut cfg, authority());
    let _ = finalize_scarcity_law(&mut cfg, authority());
    assert_eq!(cfg.tier_caps, caps);
    assert_eq!(cfg.total_supply, 10);
    assert_eq!(cfg.version, CONFIG_VERSION);
    assert_eq!(cfg.bump, 255);
}

#[test]
fn counters_never_decrease() {
    let mut cfg = new_config(4, [2, 2, 0, 0, 0, 0, 0]);
    let calls: [u8; 8] = [0, 9, 0, 1, 0, 2, 1, 1];
    let mut last_total = 0u16;
    let mut last_tiers = cfg.tier_minted.clone();
    for &tier in calls.iter() {
        let _ = mint_seed(&mut cfg, tier);
        assert!(cfg.minted_total >= last_total);
        for k in 0..7 {
            assert!(cfg.tier_minted[k] >= last_tiers[k]);
        }
        last_total = cfg.minted_total;
        last_tiers = cfg.tier_minted.clone();
    }
    assert_eq!(cfg.minted_total, 4);
    assert_eq!(mint_seed(&mut cfg, 0), Err(ClawsError::SoldOut));
}

#[test]
fn tier_cap_blocks_before_global_cap() {
    let mut cfg = new_config(3, [1, 2, 0, 0, 0, 0, 0]);
    assert_eq!(mint_seed(&mut cfg, 0), Ok(()));
    assert_eq!(mint_seed(&mut cfg, 0), Err(ClawsError::TierSoldOut));
    assert_eq!(mint_seed(&mut cfg, 1), Ok(()));
    assert_eq!(mint_seed(&mut cfg, 1), Ok(()));
    assert_eq!(mint_seed(&mut cfg, 1), Err(ClawsError::SoldOut));
}

#[test]
fn freeze_is_idempotent_for_the_authority() {
    let mut cfg = new_config(2, [1, 1, 0, 0, 0, 0, 0]);
    assert_eq!(freeze_mint_permanent(&mut cfg, authority()), Ok(()));
    assert_eq!(freeze_mint_permanent(&mut cfg, authority()), Ok(()));
    assert!(cfg.is_frozen);
    assert!(!cfg.is_finalized);
}

#[test]
fn finalize_without_freeze_leaves_minting_open() {
    let mut cfg = new_config(2, [1, 1, 0, 0, 0, 0, 0]);
    assert_eq!(finalize_scarcity_law(&mut cfg, authority()), Ok(()));
    assert!(!cfg.is_frozen);
    assert_eq!(mint_seed(&mut cfg, 1), Ok(()));
    assert_eq!(cfg.minted_total, 1);
}

#[test]
fn freeze_then_finalize_reaches_the_terminal_state() {
    let mut cfg = new_config(2, [1, 1, 0, 0, 0, 0, 0]);
    assert_eq!(mint_seed(&mut cfg, 0), Ok(()));
    assert_eq!(freeze_mint_permanent(&mut cfg, authority()), Ok(()));
    assert_eq!(finalize_scarcity_law(&mut cfg, authority()), Ok(()));
    assert!(cfg.is_frozen);
    assert!(cfg.is_finalized);
    assert_eq!(cfg.authority, Identity { hi: 0, lo: 0 });
    assert_eq!(mint_seed(&mut cfg, 1), Err(ClawsError::MintFrozen));
    assert_eq!(cfg.minted_total, 1);
}

#[test]
fn zero_supply_sells_out_immediately() {
    let mut cfg = new_config(0, [0, 0, 0, 0, 0, 0, 0]);
    assert_eq!(mint_seed(&mut cfg, 0), Err(ClawsError::SoldOut));
}

#[test]
fn one_tier_can_carry_the_largest_supply() {
    let mut cfg = new_config(u16::MAX, [u16::MAX, 0, 0, 0, 0, 0, 0]);
    assert_eq!(mint_seed(&mut cfg, 0), Ok(()));
    assert_eq!(mint_seed(&mut cfg, 0), Ok(()));
    assert_eq!(cfg.minted_total, 2);
    assert_eq!(cfg.tier_minted[0], 2);
    assert_eq!(mint_seed(&mut cfg, 1), Err(ClawsError::TierSoldOut));
}

#[test]
fn caps_summing_past_the_declared_supply_are_rejected() {
    let r = initialize_config(authority(), 0, 100, vec![50, 50, 50, 0, 0, 0, 0]);
    assert_eq!(r.unwrap_err(), ClawsError::TierCapsMismatch);
    let r = initialize_config(authority(), 0, u16::MAX, vec![u16::MAX; 7]);
    assert_eq!(r.unwrap_err(), ClawsError::TierCapsMismatch);
}
