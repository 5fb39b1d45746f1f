//! A library for exposing a backing store as a Linux network block device
//! (NBD): the request/reply wire codec, the block-device model with its
//! zero-fill read semantics, device geometry, the per-request servicing
//! step, and the kernel ioctl constants.

use vstd::prelude::*;

pub mod bytes;
pub mod codec;
pub mod device;
pub mod kernel;
pub mod serve;

verus! {

/// Ceiling division: the number of blocks of size `bs` needed to cover `len` bytes.
pub open spec fn spec_block_count(len: nat, bs: nat) -> nat
    recommends
        bs >= 1,
{
    ((len + bs - 1) / bs as int) as nat
}

/// Number of blocks of size `block_size` needed to cover `len` bytes,
/// the device geometry derived from a backend's length: the blocks hold
/// at least `len` bytes, and any shortfall is within the final block.
pub fn block_count_for(len: u64, block_size: u32) -> (count: u64)
    requires
        block_size >= 1,
    ensures
        count == spec_block_count(len as nat, block_size as nat),
        count * block_size >= len,
        len > 0 ==> (count - 1) * block_size < len,
{
    let bs = block_size as u64;
    let q: u64 = len / bs;
    let r: u64 = len % bs;
    proof {
        lemma_div_plus_round_up_is_ceil(len as nat, bs as nat);
        lemma_geometry_covers(len as nat, bs as nat);
        assert(bs * q + r == len && (r != 0 ==> q < len)) by (nonlinear_arith)
            requires
                bs >= 1 && q == len / bs && r == len % bs,
        ;
    }
    if r != 0 {
        q + 1
    } else {
        q
    }
}

/// The geometry covers the backing store: `block_count` blocks of size
/// `bs` hold at least `len` bytes, and any shortfall is within the final
/// block — one block fewer would not reach `len`.
pub proof fn lemma_geometry_covers(len: nat, bs: nat)
    requires
        bs >= 1,
    ensures
        bs * spec_block_count(len, bs) >= len,
        len > 0 ==> bs * (spec_block_count(len, bs) - 1) < len,
{
    let q: nat = len / bs;
    let r: nat = len % bs;
    assert(len == bs * q + r && r < bs) by (nonlinear_arith)
        requires
            bs >= 1 && q == len / bs && r == len % bs,
    ;
    lemma_div_plus_round_up_is_ceil(len, bs);
    if r == 0 {
        assert(bs * spec_block_count(len, bs) == len) by (nonlinear_arith)
            requires
                bs >= 1 && len == bs * q && spec_block_count(len, bs) == q,
        ;
        if len > 0 {
            assert(bs * (q - 1) < len) by (nonlinear_arith)
                requires
                    bs >= 1 && len == bs * q && len > 0,
            ;
        }
    } else {
        assert(bs * (q + 1) >= len && bs * q < len) by (nonlinear_arith)
            requires
                bs >= 1 && len == bs * q + r && 0 < r < bs,
        ;
    }
}

/// Ceiling division computed without overflow (`len / bs`, rounded up)
/// equals the `(len + bs - 1) / bs` form.
proof fn lemma_div_plus_round_up_is_ceil(len: nat, bs: nat)
    requires
        bs >= 1,
    ensures
        len / bs + (if len % bs != 0 { 1nat } else { 0nat }) == spec_block_count(len, bs),
{
    let q: nat = len / bs;
    let r: nat = len % bs;
    assert(len == bs * q + r && r < bs) by (nonlinear_arith)
        requires
            bs >= 1 && q == len / bs && r == len % bs,
    ;
    if r == 0 {
        assert((len + bs - 1) / bs as int == q) by (nonlinear_arith)
            requires
                bs >= 1 && len == bs * q,
        ;
    } else {
        assert((len + bs - 1) / bs as int == q + 1) by (nonlinear_arith)
            requires
                bs >= 1 && len == bs * q + r && 0 < r < bs,
        ;
    }
}

} // verus!
