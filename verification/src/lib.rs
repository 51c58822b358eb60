//! Socket ancillary-data (control message) codec and socket-address
//! conversion.
//!
//! The library encodes a list of typed control messages into one contiguous
//! byte buffer honouring the kernel's alignment rules, decodes a received
//! buffer back into typed control messages without ever reading past the
//! buffer end, and converts between a tagged socket-address variant and the
//! generic byte-level form the kernel exchanges. All byte layouts follow the
//! 64-bit Linux ABI and are written down as named constants in `layout`.

use vstd::prelude::*;

pub mod layout;
pub mod wire;
pub mod cmsg;
pub mod addr;
pub mod msg;

verus! {

/// The control-message alignment unit: lengths are rounded up to the next
/// multiple of this when stepping from one record to the next.
pub open spec fn spec_align(len: nat) -> nat {
    ((len + 7) / 8) * 8
}

/// Round `len` up to the next multiple of the control-message alignment unit.
pub fn cmsg_align(len: usize) -> (r: usize)
    requires
        len + 7 <= usize::MAX,
    ensures
        r == spec_align(len as nat),
        r % 8 == 0,
        len <= r < len + 8,
{
    proof {
        lemma_align_bounds(len as nat);
    }
    ((len + 7) / 8) * 8
}

/// The rounded length is the smallest multiple of the alignment unit that is
/// at least `len`.
pub proof fn lemma_align_bounds(len: nat)
    ensures
        spec_align(len) % 8 == 0,
        len <= spec_align(len) < len + 8,
{
    assert(((len + 7) / 8) * 8 % 8 == 0) by (nonlinear_arith);
    assert(len <= ((len + 7) / 8) * 8 < len + 8) by (nonlinear_arith);
}

/// Any aligned length at least `len` is at least `spec_align(len)`: the
/// rounded length is the smallest such multiple.
pub proof fn lemma_align_smallest(len: nat, m: nat)
    requires
        m % 8 == 0,
        m >= len,
    ensures
        m >= spec_align(len),
{
    lemma_align_bounds(len);
    if m < spec_align(len) {
        assert(false) by (nonlinear_arith)
            requires
                m % 8 == 0,
                spec_align(len) % 8 == 0,
                len <= m < spec_align(len),
                spec_align(len) < len + 8,
        ;
    }
}

} // verus!
