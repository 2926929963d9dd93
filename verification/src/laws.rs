//! The transition relation of the counter state machine, and the laws that
//! hold along every run of it: invariant preservation, immutability of the
//! caps, monotonicity of the counters, and the one-way latches.

use vstd::prelude::*;
use crate::config::{
    Config, Identity, TIER_COUNT, lemma_tier_sum_update, same_record,
};

verus! {

/// A successful mint of one item in `tier`: the guards of `mint_seed` hold,
/// the two counters grow by one, and nothing else changes.
pub open spec fn mint_step(pre: Config, post: Config, tier: int) -> bool {
    &&& !pre.is_frozen
    &&& 0 <= tier < TIER_COUNT
    &&& pre.minted_total < pre.total_supply
    &&& pre.tier_minted@[tier] < pre.tier_caps@[tier]
    &&& post.minted_total == pre.minted_total + 1
    &&& post.tier_minted@ == pre.tier_minted@.update(
        tier,
        (pre.tier_minted@[tier] + 1) as u16,
    )
    &&& post.version == pre.version
    &&& post.bump == pre.bump
    &&& post.authority == pre.authority
    &&& post.is_frozen == pre.is_frozen
    &&& post.is_finalized == pre.is_finalized
    &&& post.total_supply == pre.total_supply
    &&& post.tier_caps@ == pre.tier_caps@
}

/// A successful freeze by the stored authority: the frozen latch is set,
/// and nothing else changes.
pub open spec fn freeze_step(pre: Config, post: Config, caller: Identity) -> bool {
    &&& !pre.is_finalized
    &&& caller == pre.authority
    &&& post.is_frozen
    &&& post.version == pre.version
    &&& post.bump == pre.bump
    &&& post.authority == pre.authority
    &&& post.is_finalized == pre.is_finalized
    &&& post.total_supply == pre.total_supply
    &&& post.minted_total == pre.minted_total
    &&& post.tier_caps@ == pre.tier_caps@
    &&& post.tier_minted@ == pre.tier_minted@
}

/// A successful finalization by the stored authority: the finalized latch is
/// set, the authority is destroyed, and nothing else changes.
pub open spec fn finalize_step(pre: Config, post: Config, caller: Identity) -> bool {
    &&& !pre.is_finalized
    &&& caller == pre.authority
    &&& post.is_finalized
    &&& post.authority == Identity::zero_spec()
    &&& post.version == pre.version
    &&& post.bump == pre.bump
    &&& post.is_frozen == pre.is_frozen
    &&& post.total_supply == pre.total_supply
    &&& post.minted_total == pre.minted_total
    &&& post.tier_caps@ == pre.tier_caps@
    &&& post.tier_minted@ == pre.tier_minted@
}

/// One call of any operation: either it failed (or was an idempotent
/// re-freeze) and left the record as it was, or it was one of the three
/// successful transitions.
pub open spec fn step(pre: Config, post: Config) -> bool {
    ||| same_record(pre, post)
    ||| exists|tier: int| mint_step(pre, post, tier)
    ||| exists|caller: Identity| freeze_step(pre, post, caller)
    ||| exists|caller: Identity| finalize_step(pre, post, caller)
}

/// A step preserves well-formedness, and never alters the total supply or
/// the tier caps.
pub proof fn lemma_step_preserves_wf(pre: Config, post: Config)
    requires
        pre.wf(),
        step(pre, post),
    ensures
        post.wf(),
        post.total_supply == pre.total_supply,
        post.tier_caps@ == pre.tier_caps@,
{
    if exists|tier: int| mint_step(pre, post, tier) {
        let tier = choose|tier: int| mint_step(pre, post, tier);
        lemma_tier_sum_update(
            pre.tier_minted@,
            tier,
            (pre.tier_minted@[tier] + 1) as u16,
        );
    }
}

/// The counters and the two latches never move backwards across a step.
pub proof fn lemma_step_monotonic(pre: Config, post: Config)
    requires
        pre.wf(),
        step(pre, post),
    ensures
        post.minted_total >= pre.minted_total,
        forall|k: int| 0 <= k < TIER_COUNT ==> post.tier_minted@[k] >= pre.tier_minted@[k],
        pre.is_frozen ==> post.is_frozen,
        pre.is_finalized ==> post.is_finalized,
{
}

/// Once the record is frozen, no step mints: the counters are exactly
/// preserved.
pub proof fn lemma_frozen_no_mint(pre: Config, post: Config)
    requires
        step(pre, post),
        pre.is_frozen,
    ensures
        post.minted_total == pre.minted_total,
        post.tier_minted@ == pre.tier_minted@,
        post.is_frozen,
{
}

/// Once the record is finalized, no step freezes or finalizes again: the
/// latches and the (null) authority are exactly preserved.
pub proof fn lemma_finalized_latch(pre: Config, post: Config)
    requires
        step(pre, post),
        pre.is_finalized,
    ensures
        post.is_finalized,
        post.is_frozen == pre.is_frozen,
        post.authority == pre.authority,
{
}

/// The record's lifecycle state, as the two latches determine it. Once the
/// record is finalized, the frozen latch no longer matters.
pub enum Phase {
    /// Minting and both administrative transitions permitted.
    Active,
    /// Minting permanently disabled; finalization still permitted.
    Frozen,
    /// Terminal: no privileged transition ever succeeds again.
    Finalized,
}

/// The phase a record is in.
pub open spec fn phase_of(c: Config) -> Phase {
    if c.is_finalized {
        Phase::Finalized
    } else if c.is_frozen {
        Phase::Frozen
    } else {
        Phase::Active
    }
}

/// Phases in lifecycle order.
pub open spec fn phase_rank(p: Phase) -> int {
    match p {
        Phase::Active => 0,
        Phase::Frozen => 1,
        Phase::Finalized => 2,
    }
}

/// The lifecycle is one-directional: a step moves the record from Active to
/// Frozen or Finalized, or from Frozen to Finalized, never backwards.
pub proof fn lemma_step_phase_forward(pre: Config, post: Config)
    requires
        step(pre, post),
    ensures
        phase_rank(phase_of(pre)) <= phase_rank(phase_of(post)),
{
}

/// A run of the state machine: a well-formed starting record followed by
/// any number of steps.
pub open spec fn trace_ok(t: Seq<Config>) -> bool {
    &&& t.len() > 0
    &&& t[0].wf()
    &&& forall|i: int| 0 <= i < t.len() - 1 ==> step(#[trigger] t[i], t[i + 1])
}

/// Along every run, every record is well-formed, and the total supply and
/// tier caps are those fixed at creation.
pub proof fn lemma_trace_wf(t: Seq<Config>, i: int)
    requires
        trace_ok(t),
        0 <= i < t.len(),
    ensures
        t[i].wf(),
        t[i].total_supply == t[0].total_supply,
        t[i].tier_caps@ == t[0].tier_caps@,
    decreases i,
{
    if i > 0 {
        lemma_trace_wf(t, i - 1);
        lemma_step_preserves_wf(t[i - 1], t[i]);
    }
}

/// Along every run, `minted_total`, every `tier_minted[k]` and the two
/// latches never decrease between an earlier and a later record.
pub proof fn lemma_trace_monotonic(t: Seq<Config>, i: int, j: int)
    requires
        trace_ok(t),
        0 <= i <= j < t.len(),
    ensures
        t[j].minted_total >= t[i].minted_total,
        forall|k: int| 0 <= k < TIER_COUNT ==> t[j].tier_minted@[k] >= t[i].tier_minted@[k],
        t[i].is_frozen ==> t[j].is_frozen,
        t[i].is_finalized ==> t[j].is_finalized,
    decreases j - i,
{
    if i < j {
        lemma_trace_monotonic(t, i, j - 1);
        lemma_trace_wf(t, j - 1);
        lemma_step_monotonic(t[j - 1], t[j]);
    }
}

/// Once a record in a run is frozen, no later step of that run mints: the
/// counters stand still from that point on.
pub proof fn lemma_trace_frozen_no_mint(t: Seq<Config>, i: int, j: int)
    requires
        trace_ok(t),
        0 <= i <= j < t.len(),
        t[i].is_frozen,
    ensures
        t[j].minted_total == t[i].minted_total,
        t[j].tier_minted@ == t[i].tier_minted@,
        t[j].is_frozen,
    decreases j - i,
{
    if i < j {
        lemma_trace_frozen_no_mint(t, i, j - 1);
        lemma_frozen_no_mint(t[j - 1], t[j]);
    }
}

/// Once a record in a run is finalized, it stays finalized and its
/// authority stays the null identity for the rest of the run.
pub proof fn lemma_trace_finalized_latch(t: Seq<Config>, i: int, j: int)
    requires
        trace_ok(t),
        0 <= i <= j < t.len(),
        t[i].is_finalized,
    ensures
        t[j].is_finalized,
        t[j].authority == t[i].authority,
    decreases j - i,
{
    if i < j {
        lemma_trace_finalized_latch(t, i, j - 1);
        lemma_finalized_latch(t[j - 1], t[j]);
    }
}

} // verus!
