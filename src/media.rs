//! What the prompt shows about a candidate's storage medium.
use vstd::prelude::*;

verus! {

/// Bytes in a mebibyte.
pub const MIB: u64 = 1024 * 1024;

/// What a device's block-access capability reports about its medium.
#[derive(Clone, Copy, Debug, PartialEq, Eq, Structural)]
pub struct MediaInfo {
    pub removable: bool,
    pub logical_partition: bool,
    /// Index of the last block on the medium.
    pub last_block: u64,
    /// Bytes per block.
    pub block_size: u32,
}

/// The descriptor shown beside a candidate's ordinal.
#[derive(Clone, Copy, Debug, PartialEq, Eq, Structural)]
pub struct MediaSummary {
    pub removable: bool,
    pub partition: bool,
    /// Capacity in whole mebibytes, rounded down.
    pub capacity_mib: u64,
}

pub open spec fn saturate(x: nat) -> nat {
    if x > u64::MAX {
        u64::MAX as nat
    } else {
        x
    }
}

/// The block count and the byte count each saturate at the largest `u64`;
/// the byte count is then divided down to whole mebibytes.
pub open spec fn capacity_mib_spec(last_block: nat, block_size: nat) -> nat {
    saturate(saturate(last_block + 1) * block_size) / (MIB as nat)
}

pub fn capacity_mib(last_block: u64, block_size: u32) -> (r: u64)
    ensures
        r == capacity_mib_spec(last_block as nat, block_size as nat),
{
    let blocks = last_block.saturating_add(1);
    proof {
        assert(blocks as nat * block_size as nat <= u64::MAX as nat * u32::MAX as nat) by (nonlinear_arith)
            requires
                blocks <= u64::MAX,
                block_size <= u32::MAX,
        ;
    }
    let wide: u128 = blocks as u128 * block_size as u128;
    let bytes: u64 = if wide > u64::MAX as u128 {
        u64::MAX
    } else {
        wide as u64
    };
    bytes / MIB
}

pub fn describe_media(info: &MediaInfo) -> (r: MediaSummary)
    ensures
        r.removable == info.removable,
        r.partition == info.logical_partition,
        r.capacity_mib == capacity_mib_spec(info.last_block as nat, info.block_size as nat),
{
    MediaSummary {
        removable: info.removable,
        partition: info.logical_partition,
        capacity_mib: capacity_mib(info.last_block, info.block_size),
    }
}

} // verus!
