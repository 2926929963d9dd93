//! The counter record, its error taxonomy, and its invariant.

use vstd::prelude::*;

verus! {

/// Number of fixed mint tiers.
pub const TIER_COUNT: usize = 7;

/// Schema tag written at creation; never changed afterwards.
pub const CONFIG_VERSION: u8 = 1;

/// A 32-byte account identity, held as two 128-bit halves
/// (`hi` is the upper half, `lo` the lower).
///
/// The state machine only ever compares identities for equality and
/// installs the null identity when administrative control is revoked;
/// producing real identities is the host's concern.
#[derive(PartialEq, Eq, Structural, Clone, Copy, Debug)]
pub struct Identity {
    pub hi: u128,
    pub lo: u128,
}

impl Identity {
    /// The all-zero identity, which no real account holds.
    pub open spec fn zero_spec() -> Identity {
        Identity { hi: 0, lo: 0 }
    }

    /// The all-zero identity, which no real account holds.
    pub fn zero() -> (r: Identity)
        ensures
            r == Identity::zero_spec(),
    {
        Identity { hi: 0, lo: 0 }
    }
}

/// Every way an operation can be refused. Each failure leaves the record
/// untouched, and none is retryable.
#[derive(PartialEq, Eq, Structural, Clone, Copy, Debug)]
pub enum ClawsError {
    /// Caller identity does not match the stored authority.
    Unauthorized,
    /// Mint attempted while frozen.
    MintFrozen,
    /// Tier index outside the seven tiers.
    InvalidTier,
    /// Global cap reached.
    SoldOut,
    /// Per-tier cap reached.
    TierSoldOut,
    /// Freeze attempted after finalization.
    ScarcityFinalized,
    /// Finalize attempted twice.
    AlreadyFinalized,
    /// Tier caps do not sum to the declared total supply, at creation.
    TierCapsMismatch,
}

/// The single mutable record of the counter state machine.
#[derive(Debug, PartialEq, Eq)]
pub struct Config {
    /// Schema tag; always `CONFIG_VERSION`.
    pub version: u8,
    /// Disambiguating suffix of the record's derived address, fixed at creation.
    pub bump: u8,
    /// Identity permitted to freeze or finalize; the null identity once finalized.
    pub authority: Identity,
    /// Monotonic latch: once true, minting is permanently disabled.
    pub is_frozen: bool,
    /// Monotonic latch: once true, no privileged transition ever succeeds again.
    pub is_finalized: bool,
    /// Upper bound on `minted_total`, fixed at creation.
    pub total_supply: u16,
    /// Running count of all items minted across all tiers.
    pub minted_total: u16,
    /// Per-tier caps, fixed at creation; they sum to `total_supply`.
    pub tier_caps: Vec<u16>,
    /// Per-tier counters; `tier_minted[i] <= tier_caps[i]`, and they sum
    /// to `minted_total`.
    pub tier_minted: Vec<u16>,
}

/// Sum of a sequence of tier counters, as a mathematical integer.
pub open spec fn tier_sum(s: Seq<u16>) -> int
    decreases s.len(),
{
    if s.len() == 0 {
        0
    } else {
        tier_sum(s.drop_last()) + s.last()
    }
}

/// A sequence of zeros sums to zero.
pub proof fn lemma_tier_sum_zero(s: Seq<u16>)
    requires
        forall|k: int| 0 <= k < s.len() ==> s[k] == 0,
    ensures
        tier_sum(s) == 0,
    decreases s.len(),
{
    if s.len() > 0 {
        lemma_tier_sum_zero(s.drop_last());
    }
}

/// Replacing one element changes the sum by the difference of that element.
pub proof fn lemma_tier_sum_update(s: Seq<u16>, i: int, v: u16)
    requires
        0 <= i < s.len(),
    ensures
        tier_sum(s.update(i, v)) == tier_sum(s) - s[i] + v,
    decreases s.len(),
{
    if i == s.len() - 1 {
        assert(s.update(i, v).drop_last() =~= s.drop_last());
    } else {
        assert(s.update(i, v).drop_last() =~= s.drop_last().update(i, v));
        lemma_tier_sum_update(s.drop_last(), i, v);
    }
}

/// A prefix one element longer adds exactly that element to the sum.
pub proof fn lemma_tier_sum_take_succ(s: Seq<u16>, i: int)
    requires
        0 <= i < s.len(),
    ensures
        tier_sum(s.take(i + 1)) == tier_sum(s.take(i)) + s[i],
{
    assert(s.take(i + 1).drop_last() =~= s.take(i));
}

impl Config {
    /// Well-formedness: the permanent invariants of the record, established
    /// at creation and preserved by every operation.
    pub open spec fn wf(self) -> bool {
        &&& self.version == CONFIG_VERSION
        &&& self.tier_caps@.len() == TIER_COUNT
        &&& self.tier_minted@.len() == TIER_COUNT
        &&& tier_sum(self.tier_caps@) == self.total_supply as int
        &&& tier_sum(self.tier_minted@) == self.minted_total as int
        &&& forall|k: int| 0 <= k < TIER_COUNT ==> self.tier_minted@[k] <= self.tier_caps@[k]
        &&& self.minted_total <= self.total_supply
        &&& self.is_finalized ==> self.authority == Identity::zero_spec()
    }
}

/// Two records hold the same data, field for field.
pub open spec fn same_record(a: Config, b: Config) -> bool {
    &&& b.version == a.version
    &&& b.bump == a.bump
    &&& b.authority == a.authority
    &&& b.is_frozen == a.is_frozen
    &&& b.is_finalized == a.is_finalized
    &&& b.total_supply == a.total_supply
    &&& b.minted_total == a.minted_total
    &&& b.tier_caps@ == a.tier_caps@
    &&& b.tier_minted@ == a.tier_minted@
}

} // verus!
