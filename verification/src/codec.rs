//! The record's fixed byte layout, for any external reader: version,
//! disambiguator, the 32-byte authority, the two flags, the supply counters,
//! and the two tier arrays, 68 bytes in all. Multi-byte integers are
//! little-endian; the authority's low half comes first.

use vstd::prelude::*;
use crate::config::{Config, Identity, TIER_COUNT, same_record};

verus! {

broadcast use vstd::std_specs::vec::axiom_spec_len;

/// Number of bytes in the record's fixed layout.
pub const RECORD_BYTES: usize = 68;

/// 256 raised to `n`: the number of values `n` bytes can hold.
pub open spec fn pow256(n: nat) -> int
    decreases n,
{
    if n == 0 {
        1
    } else {
        256 * pow256((n - 1) as nat)
    }
}

pub proof fn lemma_pow256_pos(n: nat)
    ensures
        pow256(n) >= 1,
    decreases n,
{
    if n > 0 {
        lemma_pow256_pos((n - 1) as nat);
    }
}

/// 256^16 is the number of values of a 16-byte word.
pub proof fn lemma_pow256_16()
    ensures
        pow256(16) == 0x1_0000_0000_0000_0000_0000_0000_0000_0000,
{
    reveal_with_fuel(pow256, 17);
}

pub proof fn lemma_pow256_mono(a: nat, b: nat)
    requires
        a <= b,
    ensures
        pow256(a) <= pow256(b),
    decreases b,
{
    if a < b {
        lemma_pow256_mono(a, (b - 1) as nat);
        lemma_pow256_pos((b - 1) as nat);
    }
}

/// The `n` little-endian bytes of `x`.
pub open spec fn le_bytes(x: int, n: nat) -> Seq<u8>
    decreases n,
{
    if n == 0 {
        Seq::empty()
    } else {
        seq![(x % 256) as u8] + le_bytes(x / 256, (n - 1) as nat)
    }
}

pub proof fn lemma_le_bytes_len(x: int, n: nat)
    ensures
        le_bytes(x, n).len() == n,
    decreases n,
{
    if n > 0 {
        lemma_le_bytes_len(x / 256, (n - 1) as nat);
    }
}

/// The value a little-endian byte sequence denotes.
pub open spec fn le_val(s: Seq<u8>) -> int
    decreases s.len(),
{
    if s.len() == 0 {
        0
    } else {
        s[0] + 256 * le_val(s.drop_first())
    }
}

pub proof fn lemma_le_val_bound(s: Seq<u8>)
    ensures
        0 <= le_val(s) < pow256(s.len()),
    decreases s.len(),
{
    if s.len() > 0 {
        lemma_le_val_bound(s.drop_first());
    }
}

/// Reading back the little-endian bytes of an `n`-byte value gives the value.
pub proof fn lemma_le_val_le_bytes(x: int, n: nat)
    requires
        0 <= x < pow256(n),
    ensures
        le_val(le_bytes(x, n)) == x,
    decreases n,
{
    if n > 0 {
        lemma_pow256_pos((n - 1) as nat);
        lemma_le_val_le_bytes(x / 256, (n - 1) as nat);
        assert(le_bytes(x, n).drop_first() =~= le_bytes(x / 256, (n - 1) as nat));
    }
}

/// Writing back the value a byte sequence denotes gives the sequence.
pub proof fn lemma_le_bytes_le_val(s: Seq<u8>)
    ensures
        le_bytes(le_val(s), s.len()) =~= s,
    decreases s.len(),
{
    if s.len() > 0 {
        let rest = s.drop_first();
        lemma_le_val_bound(rest);
        lemma_le_bytes_le_val(rest);
        assert(le_val(s) % 256 == s[0]);
        assert(le_val(s) / 256 == le_val(rest));
    }
}

/// One byte for a flag.
pub open spec fn flag_byte(b: bool) -> u8 {
    if b {
        1
    } else {
        0
    }
}

/// Two little-endian bytes for each tier counter, in tier order.
pub open spec fn tiers_bytes(s: Seq<u16>) -> Seq<u8>
    decreases s.len(),
{
    if s.len() == 0 {
        Seq::empty()
    } else {
        tiers_bytes(s.drop_last()) + le_bytes(s.last() as int, 2)
    }
}

pub proof fn lemma_tiers_bytes_len(s: Seq<u16>)
    ensures
        tiers_bytes(s).len() == 2 * s.len(),
    decreases s.len(),
{
    if s.len() > 0 {
        lemma_tiers_bytes_len(s.drop_last());
        lemma_le_bytes_len(s.last() as int, 2);
    }
}

/// Two tier arrays with the same bytes are the same array.
pub proof fn lemma_tiers_bytes_injective(a: Seq<u16>, b: Seq<u16>)
    requires
        a.len() == b.len(),
        tiers_bytes(a) == tiers_bytes(b),
    ensures
        a =~= b,
    decreases a.len(),
{
    if a.len() > 0 {
        lemma_tiers_bytes_len(a.drop_last());
        lemma_tiers_bytes_len(b.drop_last());
        lemma_le_bytes_len(a.last() as int, 2);
        lemma_le_bytes_len(b.last() as int, 2);
        assert(tiers_bytes(a.drop_last()) =~= tiers_bytes(a).take(2 * a.len() - 2));
        assert(tiers_bytes(b.drop_last()) =~= tiers_bytes(b).take(2 * b.len() - 2));
        lemma_tiers_bytes_injective(a.drop_last(), b.drop_last());
        assert(le_bytes(a.last() as int, 2) =~= tiers_bytes(a).skip(2 * a.len() - 2));
        assert(le_bytes(b.last() as int, 2) =~= tiers_bytes(b).skip(2 * b.len() - 2));
        assert(pow256(2) == 65536) by {
            reveal_with_fuel(pow256, 3);
        }
        lemma_le_val_le_bytes(a.last() as int, 2);
        lemma_le_val_le_bytes(b.last() as int, 2);
        assert(a.last() == b.last());
        assert forall|i: int| 0 <= i < a.len() implies a[i] == b[i] by {
            if i < a.len() - 1 {
                assert(a[i] == a.drop_last()[i]);
                assert(b[i] == b.drop_last()[i]);
            }
        }
    }
}

/// The record's fixed layout, 68 bytes.
pub open spec fn record_bytes(c: Config) -> Seq<u8> {
    seq![c.version, c.bump] + le_bytes(c.authority.lo as int, 16) + le_bytes(
        c.authority.hi as int,
        16,
    ) + seq![flag_byte(c.is_frozen), flag_byte(c.is_finalized)] + le_bytes(
        c.total_supply as int,
        2,
    ) + le_bytes(c.minted_total as int, 2) + tiers_bytes(c.tier_caps@) + tiers_bytes(
        c.tier_minted@,
    )
}

/// Appends the two little-endian bytes of `x`.
fn push_u16_le(out: &mut Vec<u8>, x: u16)
    ensures
        final(out)@ == old(out)@ + le_bytes(x as int, 2),
{
    out.push((x % 256) as u8);
    out.push((x / 256) as u8);
    proof {
        reveal_with_fuel(le_bytes, 3);
        assert(out@ =~= old(out)@ + le_bytes(x as int, 2));
    }
}

/// Appends the sixteen little-endian bytes of `x`.
fn push_u128_le(out: &mut Vec<u8>, x: u128)
    ensures
        final(out)@ == old(out)@ + le_bytes(x as int, 16),
{
    let mut cur: u128 = x;
    let mut i: usize = 0;
    while i < 16
        invariant
            i <= 16,
            out@ + le_bytes(cur as int, (16 - i) as nat) == old(out)@ + le_bytes(x as int, 16),
        decreases 16 - i,
    {
        let ghost prev = out@;
        let ghost prev_cur = cur as int;
        out.push((cur % 256) as u8);
        cur = cur / 256;
        i = i + 1;
        proof {
            assert(le_bytes(prev_cur, (16 - (i - 1)) as nat) =~= seq![(prev_cur % 256) as u8]
                + le_bytes(prev_cur / 256, (16 - i) as nat));
            assert(out@ + le_bytes(cur as int, (16 - i) as nat) =~= prev + le_bytes(
                prev_cur,
                (16 - (i - 1)) as nat,
            ));
        }
    }
    proof {
        assert(out@ + le_bytes(cur as int, 0) =~= out@);
    }
}

/// Appends two little-endian bytes for each tier counter, in tier order.
fn push_tiers(out: &mut Vec<u8>, tiers: &Vec<u16>)
    ensures
        final(out)@ == old(out)@ + tiers_bytes(tiers@),
{
    let mut k: usize = 0;
    while k < tiers.len()
        invariant
            k <= tiers@.len(),
            out@ == old(out)@ + tiers_bytes(tiers@.take(k as int)),
        decreases tiers@.len() - k,
    {
        let ghost prev = out@;
        push_u16_le(out, tiers[k]);
        k = k + 1;
        proof {
            assert(tiers@.take(k as int).drop_last() =~= tiers@.take(k as int - 1));
            assert(out@ =~= old(out)@ + tiers_bytes(tiers@.take(k as int)));
        }
    }
    proof {
        assert(tiers@.take(tiers@.len() as int) =~= tiers@);
    }
}

/// Encodes the record into its fixed 68-byte layout.
pub fn encode_record(cfg: &Config) -> (r: Vec<u8>)
    requires
        cfg.tier_caps@.len() == TIER_COUNT,
        cfg.tier_minted@.len() == TIER_COUNT,
    ensures
        r@ == record_bytes(*cfg),
        r@.len() == RECORD_BYTES,
{
    let mut out: Vec<u8> = Vec::new();
    out.push(cfg.version);
    out.push(cfg.bump);
    push_u128_le(&mut out, cfg.authority.lo);
    push_u128_le(&mut out, cfg.authority.hi);
    out.push(if cfg.is_frozen { 1 } else { 0 });
    out.push(if cfg.is_finalized { 1 } else { 0 });
    push_u16_le(&mut out, cfg.total_supply);
    push_u16_le(&mut out, cfg.minted_total);
    push_tiers(&mut out, &cfg.tier_caps);
    push_tiers(&mut out, &cfg.tier_minted);
    proof {
        lemma_record_bytes_len(*cfg);
        assert(out@ =~= record_bytes(*cfg));
    }
    out
}

pub proof fn lemma_record_bytes_len(c: Config)
    requires
        c.tier_caps@.len() == TIER_COUNT,
        c.tier_minted@.len() == TIER_COUNT,
    ensures
        record_bytes(c).len() == RECORD_BYTES,
{
    lemma_le_bytes_len(c.authority.lo as int, 16);
    lemma_le_bytes_len(c.authority.hi as int, 16);
    lemma_le_bytes_len(c.total_supply as int, 2);
    lemma_le_bytes_len(c.minted_total as int, 2);
    lemma_tiers_bytes_len(c.tier_caps@);
    lemma_tiers_bytes_len(c.tier_minted@);
}

/// Reads the two little-endian bytes at `off`.
fn read_u16_le(bytes: &Vec<u8>, off: usize) -> (r: u16)
    requires
        off + 2 <= bytes@.len(),
    ensures
        r as int == le_val(bytes@.subrange(off as int, off as int + 2)),
{
    let n = bytes.len();
    assert(off + 2 <= n);
    let b0 = bytes[off] as u16;
    let b1 = bytes[off + 1] as u16;
    proof {
        reveal_with_fuel(le_val, 3);
        let s = bytes@.subrange(off as int, off as int + 2);
        assert(s.drop_first() =~= bytes@.subrange(off as int + 1, off as int + 2));
        assert(s.drop_first().drop_first() =~= Seq::<u8>::empty());
    }
    b0 + 256 * b1
}

/// Reads the sixteen little-endian bytes at `off`.
fn read_u128_le(bytes: &Vec<u8>, off: usize) -> (r: u128)
    requires
        off + 16 <= bytes@.len(),
    ensures
        r as int == le_val(bytes@.subrange(off as int, off as int + 16)),
{
    let n = bytes.len();
    assert(off + 16 <= n);
    let mut x: u128 = 0;
    let mut i: usize = 16;
    while i > 0
        invariant
            i <= 16,
            off + 16 <= n,
            n == bytes@.len(),
            x as int == le_val(bytes@.subrange(off as int + i, off as int + 16)),
            (x as int) < pow256((16 - i) as nat),
        decreases i,
    {
        proof {
            lemma_pow256_16();
            assert(pow256(16) == 256 * pow256(15));
            lemma_pow256_mono((16 - i) as nat, 15);
        }
        let b = bytes[off + i - 1] as u128;
        let ghost prev = x as int;
        x = x * 256 + b;
        i = i - 1;
        proof {
            let s = bytes@.subrange(off as int + i, off as int + 16);
            assert(s.drop_first() =~= bytes@.subrange(off as int + i + 1, off as int + 16));
            assert(s[0] == bytes@[off as int + i]);
            assert(pow256((16 - i) as nat) == 256 * pow256((16 - i - 1) as nat));
        }
    }
    proof {
        assert(bytes@.subrange(off as int, off as int + 16) =~= bytes@.subrange(
            off as int + 0,
            off as int + 16,
        ));
    }
    x
}


/// Reads the seven tier counters at `off`.
fn read_tiers(bytes: &Vec<u8>, off: usize) -> (r: Vec<u16>)
    requires
        off + 2 * TIER_COUNT <= bytes@.len(),
    ensures
        r@.len() == TIER_COUNT,
        tiers_bytes(r@) == bytes@.subrange(off as int, off as int + 2 * TIER_COUNT),
{
    let n = bytes.len();
    assert(off + 2 * TIER_COUNT <= n);
    let mut out: Vec<u16> = Vec::new();
    let mut k: usize = 0;
    while k < TIER_COUNT
        invariant
            k <= TIER_COUNT,
            off + 2 * TIER_COUNT <= bytes@.len() <= usize::MAX,
            out@.len() == k,
            tiers_bytes(out@) == bytes@.subrange(off as int, off as int + 2 * k),
        decreases TIER_COUNT - k,
    {
        let ghost prev = out@;
        let t = read_u16_le(bytes, off + 2 * k);
        out.push(t);
        k = k + 1;
        proof {
            let chunk = bytes@.subrange(off as int + 2 * (k - 1), off as int + 2 * k);
            lemma_le_bytes_le_val(chunk);
            assert(le_bytes(t as int, 2) == chunk);
            assert(out@.drop_last() =~= prev);
            assert(tiers_bytes(out@) =~= bytes@.subrange(off as int, off as int + 2 * k));
        }
    }
    out
}

/// Decodes a 68-byte layout back into a record.
///
/// Succeeds exactly when the input is 68 bytes long and both flag bytes are
/// 0 or 1; the record returned is the one whose layout the input is.
pub fn decode_record(bytes: &Vec<u8>) -> (r: Option<Config>)
    ensures
        match r {
            Some(cfg) => {
                &&& bytes@.len() == RECORD_BYTES
                &&& cfg.tier_caps@.len() == TIER_COUNT
                &&& cfg.tier_minted@.len() == TIER_COUNT
                &&& record_bytes(cfg) == bytes@
            },
            None => {
                ||| bytes@.len() != RECORD_BYTES
                ||| (bytes@[34] != 0 && bytes@[34] != 1)
                ||| (bytes@[35] != 0 && bytes@[35] != 1)
            },
        },
{
    if bytes.len() != RECORD_BYTES {
        return None;
    }
    let frozen_byte = bytes[34];
    if frozen_byte > 1 {
        return None;
    }
    let finalized_byte = bytes[35];
    if finalized_byte > 1 {
        return None;
    }
    let cfg = Config {
        version: bytes[0],
        bump: bytes[1],
        authority: Identity { hi: read_u128_le(bytes, 18), lo: read_u128_le(bytes, 2) },
        is_frozen: frozen_byte == 1,
        is_finalized: finalized_byte == 1,
        total_supply: read_u16_le(bytes, 36),
        minted_total: read_u16_le(bytes, 38),
        tier_caps: read_tiers(bytes, 40),
        tier_minted: read_tiers(bytes, 54),
    };
    proof {
        lemma_le_bytes_le_val(bytes@.subrange(2, 18));
        lemma_le_bytes_le_val(bytes@.subrange(18, 34));
        lemma_le_bytes_le_val(bytes@.subrange(36, 38));
        lemma_le_bytes_le_val(bytes@.subrange(38, 40));
        assert(record_bytes(cfg) =~= bytes@);
    }
    Some(cfg)
}

/// Two records of the fixed shape with the same layout are the same record:
/// the layout loses nothing.
pub proof fn lemma_record_bytes_injective(a: Config, b: Config)
    requires
        a.tier_caps@.len() == TIER_COUNT,
        a.tier_minted@.len() == TIER_COUNT,
        b.tier_caps@.len() == TIER_COUNT,
        b.tier_minted@.len() == TIER_COUNT,
        record_bytes(a) == record_bytes(b),
    ensures
        same_record(a, b),
{
    let ra = record_bytes(a);
    let rb = record_bytes(b);
    lemma_record_pieces(a);
    lemma_record_pieces(b);
    lemma_pow256_16();
    assert(pow256(2) == 65536) by {
        reveal_with_fuel(pow256, 3);
    }
    lemma_le_val_le_bytes(a.authority.lo as int, 16);
    lemma_le_val_le_bytes(b.authority.lo as int, 16);
    lemma_le_val_le_bytes(a.authority.hi as int, 16);
    lemma_le_val_le_bytes(b.authority.hi as int, 16);
    lemma_le_val_le_bytes(a.total_supply as int, 2);
    lemma_le_val_le_bytes(b.total_supply as int, 2);
    lemma_le_val_le_bytes(a.minted_total as int, 2);
    lemma_le_val_le_bytes(b.minted_total as int, 2);
    lemma_tiers_bytes_injective(a.tier_caps@, b.tier_caps@);
    lemma_tiers_bytes_injective(a.tier_minted@, b.tier_minted@);
}

/// Each field's bytes stand at their fixed offsets within the layout.
pub proof fn lemma_record_pieces(c: Config)
    requires
        c.tier_caps@.len() == TIER_COUNT,
        c.tier_minted@.len() == TIER_COUNT,
    ensures
        record_bytes(c).len() == RECORD_BYTES,
        record_bytes(c)[0] == c.version,
        record_bytes(c)[1] == c.bump,
        record_bytes(c).subrange(2, 18) == le_bytes(c.authority.lo as int, 16),
        record_bytes(c).subrange(18, 34) == le_bytes(c.authority.hi as int, 16),
        record_bytes(c)[34] == flag_byte(c.is_frozen),
        record_bytes(c)[35] == flag_byte(c.is_finalized),
        record_bytes(c).subrange(36, 38) == le_bytes(c.total_supply as int, 2),
        record_bytes(c).subrange(38, 40) == le_bytes(c.minted_total as int, 2),
        record_bytes(c).subrange(40, 54) == tiers_bytes(c.tier_caps@),
        record_bytes(c).subrange(54, 68) == tiers_bytes(c.tier_minted@),
{
    lemma_record_bytes_len(c);
    lemma_le_bytes_len(c.authority.lo as int, 16);
    lemma_le_bytes_len(c.authority.hi as int, 16);
    lemma_le_bytes_len(c.total_supply as int, 2);
    lemma_le_bytes_len(c.minted_total as int, 2);
    lemma_tiers_bytes_len(c.tier_caps@);
    lemma_tiers_bytes_len(c.tier_minted@);
    assert(record_bytes(c).subrange(2, 18) =~= le_bytes(c.authority.lo as int, 16));
    assert(record_bytes(c).subrange(18, 34) =~= le_bytes(c.authority.hi as int, 16));
    assert(record_bytes(c).subrange(36, 38) =~= le_bytes(c.total_supply as int, 2));
    assert(record_bytes(c).subrange(38, 40) =~= le_bytes(c.minted_total as int, 2));
    assert(record_bytes(c).subrange(40, 54) =~= tiers_bytes(c.tier_caps@));
    assert(record_bytes(c).subrange(54, 68) =~= tiers_bytes(c.tier_minted@));
}

} // verus!
