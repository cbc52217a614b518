//! Widening of 16-bit wire sequence numbers into logical 64-bit sequence
//! numbers.
//!
//! The request-issuing side assigns logical sequence numbers in strictly
//! increasing order, but the wire carries only their low 16 bits.  A wire
//! value is therefore interpreted relative to the last issued logical
//! sequence number: a value that, read literally, would go backwards is
//! assumed to have wrapped and is promoted into the next 16-bit block.  The
//! promoted value is the smallest logical sequence number not below the last
//! issued one that is congruent to the wire value modulo 65536.

use vstd::arithmetic::div_mod::{lemma_fundamental_div_mod, lemma_fundamental_div_mod_converse};
use vstd::prelude::*;

verus! {

/// One full turn of the 16-bit wire sequence counter.
pub const SEQUENCE_BLOCK: u64 = 65536;

/// The largest logical sequence number the widening rule accepts: one more
/// block must still fit in a `u64`.
pub const SEQUENCE_LIMIT: u64 = 0xffff_ffff_ffff_ffff - 65536;

/// The logical sequence number a wire value `wire` promotes to, relative to
/// the last issued logical sequence number `last`.
pub open spec fn spec_promote(last: u64, wire: u16) -> u64
    recommends
        last <= SEQUENCE_LIMIT,
{
    let base = last - (last % 65536);
    if base + wire >= last {
        (base + wire) as u64
    } else {
        (base + wire + 65536) as u64
    }
}

/// The promoted value is at least `last`, congruent to the wire value, and
/// within one block of `last`.
proof fn lemma_promote_properties(last: u64, wire: u16)
    requires
        last <= SEQUENCE_LIMIT,
    ensures
        spec_promote(last, wire) >= last,
        spec_promote(last, wire) % 65536 == wire as int,
        spec_promote(last, wire) <= last + 65536,
{
    let q = (last as int) / 65536;
    lemma_fundamental_div_mod(last as int, 65536);
    let base = last - (last % 65536);
    assert(base == 65536 * q);
    if base + wire >= last {
        lemma_fundamental_div_mod_converse(base + wire, 65536, q, wire as int);
    } else {
        lemma_fundamental_div_mod_converse(base + wire + 65536, 65536, q + 1, wire as int);
    }
}

/// Promote a 16-bit wire sequence value to the logical sequence number it
/// stands for: the smallest value not below `last` that is congruent to
/// `wire` modulo 65536.
pub fn promote_sequence(last: u64, wire: u16) -> (r: u64)
    requires
        last <= SEQUENCE_LIMIT,
    ensures
        r == spec_promote(last, wire),
        r >= last,
        r % 65536 == wire as u64,
{
    proof {
        lemma_promote_properties(last, wire);
    }
    let base = last - (last % 65536);
    let cand = base + (wire as u64);
    if cand >= last {
        cand
    } else {
        cand + 65536
    }
}

/// Sequence widening law: the promoted logical sequence is the smallest
/// value that is not below the last issued logical sequence `last` and is
/// congruent to the wire value `wire` modulo 65536.
pub proof fn lemma_promote_minimal(last: u64, wire: u16)
    requires
        last <= SEQUENCE_LIMIT,
    ensures
        spec_promote(last, wire) >= last,
        spec_promote(last, wire) % 65536 == wire as int,
        forall|m: u64| m >= last && #[trigger] (m % 65536) == wire as u64 ==> m >= spec_promote(
            last,
            wire,
        ),
{
    lemma_promote_properties(last, wire);
    let r = spec_promote(last, wire);
    let q = (last as int) / 65536;
    lemma_fundamental_div_mod(last as int, 65536);
    let base = last - (last % 65536);
    assert(base == 65536 * q);
    assert forall|m: u64| m >= last && #[trigger] (m % 65536) == wire as u64 implies m >= r by {
        let qm = (m as int) / 65536;
        lemma_fundamental_div_mod(m as int, 65536);
        assert(m == 65536 * qm + wire);
        if m < r {
            if base + wire >= last {
                // r == 65536 * q + wire, so m's block index lies below q and
                // m sits under base, hence under last
                assert(qm <= q - 1);
                assert(m < base);
            } else {
                // r == 65536 * (q + 1) + wire, so m's block index is at most
                // q and m is at most the unpromoted candidate, under last
                assert(qm <= q);
                assert(m <= base + wire);
            }
            assert(m < last);
        }
    }
}

} // verus!
