//! The kernel's NBD control surface: the feature-flag bits advertised
//! before activation, the ioctl operation numbers keyed against ioctl
//! type `0xab`, and the order the mount sequence must apply them in.

use vstd::prelude::*;

verus! {

/// Flag bits are there.
pub const HAS_FLAGS: u64 = 1;

/// Device is read-only.
pub const READ_ONLY: u64 = 1 << 1;

/// Kernel may send Flush.
pub const SEND_FLUSH: u64 = 1 << 2;

/// Kernel may send Force Unit Access writes.
pub const SEND_FUA: u64 = 1 << 3;

/// Rotational media: use the elevator algorithm.
pub const ROTATIONAL: u64 = 1 << 4;

/// Kernel may send Trim.
pub const SEND_TRIM: u64 = 1 << 5;

/// Kernel may send WriteZeroes.
pub const SEND_WRITE_ZEROES: u64 = 1 << 6;

/// Multiple connections are okay.
pub const CAN_MULTI_CONN: u64 = 1 << 8;

/// The ioctl "type" every NBD control operation is keyed against.
pub const NBD_IOC_TYPE: u64 = 0xab;

/// Operation number: hand the kernel its end of the socket pair.
pub const OP_SET_SOCK: u64 = 0;

/// Operation number: set the device's block size.
pub const OP_SET_BLKSIZE: u64 = 1;

/// Operation number: activate the device; blocks until teardown.
pub const OP_DO_IT: u64 = 3;

/// Operation number: drop the bound socket.
pub const OP_CLEAR_SOCK: u64 = 4;

/// Operation number: abandon queued requests.
pub const OP_CLEAR_QUEUE: u64 = 5;

/// Operation number: set the device's size in blocks.
pub const OP_SET_SIZE_BLOCKS: u64 = 7;

/// Operation number: ask the kernel to disconnect the device.
pub const OP_DISCONNECT: u64 = 8;

/// Operation number: set the kernel-side request timeout.
pub const OP_SET_TIMEOUT: u64 = 9;

/// Operation number: advertise the feature flags.
pub const OP_SET_FLAGS: u64 = 10;

/// The ioctl request code of an NBD control operation: a no-argument-size
/// code of type `0xab` with the given operation number in the low byte.
pub fn ioctl_request_code(nr: u64) -> (code: u64)
    requires
        nr < 256,
    ensures
        code == (NBD_IOC_TYPE << 8) | nr,
        code == 0xab00 + nr,
{
    let code = (NBD_IOC_TYPE << 8) | nr;
    proof {
        assert((0xabu64 << 8) | nr == 0xab00 + nr) by (bit_vector)
            requires
                nr < 256,
        ;
    }
    code
}

/// One step of the mount sequence.
#[derive(Clone, Copy, Debug, PartialEq, Eq, Structural)]
pub enum MountStep {
    /// Bind the kernel's end of the socket pair to the device.
    BindSocket,
    /// Apply the block size.
    SetBlockSize,
    /// Apply the size in blocks.
    SetSizeBlocks,
    /// Apply the kernel-side request timeout.
    SetTimeout,
    /// Advertise the feature flags.
    SetFlags,
    /// Start serving: blocks until the device is torn down.
    Activate,
    /// Cleanup: abandon queued requests.
    ClearQueue,
    /// Cleanup: drop the bound socket.
    ClearSock,
}

/// The order a mount must take: the socket is bound before any geometry
/// or flags are applied, and everything is applied before activation.
pub open spec fn mount_steps() -> Seq<MountStep> {
    seq![
        MountStep::BindSocket,
        MountStep::SetBlockSize,
        MountStep::SetSizeBlocks,
        MountStep::SetTimeout,
        MountStep::SetFlags,
        MountStep::Activate,
    ]
}

/// What to undo, best-effort, when a setup step fails, so the device node
/// is not left half-configured for the next mount attempt.
pub open spec fn cleanup_steps() -> Seq<MountStep> {
    seq![MountStep::ClearQueue, MountStep::ClearSock]
}

/// The mount sequence, to be executed front to back; `Activate` comes
/// last and blocks until the device is torn down.
pub fn mount_plan() -> (plan: Vec<MountStep>)
    ensures
        plan@ == mount_steps(),
        plan@[0] == MountStep::BindSocket,
        plan@.last() == MountStep::Activate,
{
    let mut plan: Vec<MountStep> = Vec::new();
    plan.push(MountStep::BindSocket);
    plan.push(MountStep::SetBlockSize);
    plan.push(MountStep::SetSizeBlocks);
    plan.push(MountStep::SetTimeout);
    plan.push(MountStep::SetFlags);
    plan.push(MountStep::Activate);
    proof {
        assert(plan@ =~= mount_steps());
    }
    plan
}

/// The cleanup sequence a failed setup step triggers, front to back.
pub fn cleanup_plan() -> (plan: Vec<MountStep>)
    ensures
        plan@ == cleanup_steps(),
{
    let mut plan: Vec<MountStep> = Vec::new();
    plan.push(MountStep::ClearQueue);
    plan.push(MountStep::ClearSock);
    proof {
        assert(plan@ =~= cleanup_steps());
    }
    plan
}

} // verus!
