//! System-call numbers and the dispatch decision of the trap handler.

use vstd::prelude::*;

verus! {

/// Request the caller's process id.
pub const NR_GET_PID: u32 = 0;

/// Write bytes to the console.
pub const NR_WRITE: u32 = 1;

/// Allocate from the caller's heap.
pub const NR_MALLOC: u32 = 2;

/// Return a block to the caller's heap.
pub const NR_FREE: u32 = 3;

/// What a trapped system call asks for, decoded from the saved registers.
#[derive(Clone, Copy, PartialEq, Eq, Structural, Debug)]
pub enum SysAction {
    GetPid,
    Write { ptr: u32, len: u32 },
    Malloc { size: u32 },
    Free { ptr: u32 },
    Unknown,
}

/// Decode the dispatch decision of the system-call handler from the saved
/// `eax` (the call number) and the argument registers.
pub fn sys_decode(eax: u32, ebx: u32, ecx: u32) -> (r: SysAction)
    ensures
        eax == NR_GET_PID ==> r == SysAction::GetPid,
        eax == NR_WRITE ==> r == (SysAction::Write { ptr: ebx, len: ecx }),
        eax == NR_MALLOC ==> r == (SysAction::Malloc { size: ebx }),
        eax == NR_FREE ==> r == (SysAction::Free { ptr: ebx }),
        eax != NR_GET_PID && eax != NR_WRITE && eax != NR_MALLOC && eax != NR_FREE ==> r
            == SysAction::Unknown,
{
    if eax == NR_GET_PID {
        SysAction::GetPid
    } else if eax == NR_WRITE {
        SysAction::Write { ptr: ebx, len: ecx }
    } else if eax == NR_MALLOC {
        SysAction::Malloc { size: ebx }
    } else if eax == NR_FREE {
        SysAction::Free { ptr: ebx }
    } else {
        SysAction::Unknown
    }
}

} // verus!
