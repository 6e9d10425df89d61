//! Saved register contexts placed at the tail of a control block's page.
//!
//! A thread entered through a lightweight call resumes from a `KernelCtx`;
//! one entered through an interrupt return path resumes from an `IntCtx`.

use vstd::prelude::*;

verus! {

/// Bytes of a saved kernel context.
pub const KERNEL_CTX_SIZE: usize = 64;

/// Bytes of a saved interrupt context.
pub const INT_CTX_SIZE: usize = 76;

/// Context restored by the lightweight switch path. `eip` carries the entry
/// trampoline, `func` and `arg` the routine it hands control to.
#[derive(Clone, Copy, PartialEq, Eq, Structural, Debug)]
pub struct KernelCtx {
    pub edi: u32,
    pub esi: u32,
    pub ebp: u32,
    pub dum_esp: u32,
    pub ebx: u32,
    pub edx: u32,
    pub ecx: u32,
    pub eax: u32,
    pub gs: u32,
    pub fs: u32,
    pub es: u32,
    pub ds: u32,
    pub eip: u32,
    pub dum_ret: u32,
    pub func: u32,
    pub arg: u32,
}

impl KernelCtx {
    /// An all-zero context.
    pub fn zero() -> (r: KernelCtx)
        ensures
            r == (KernelCtx {
                edi: 0,
                esi: 0,
                ebp: 0,
                dum_esp: 0,
                ebx: 0,
                edx: 0,
                ecx: 0,
                eax: 0,
                gs: 0,
                fs: 0,
                es: 0,
                ds: 0,
                eip: 0,
                dum_ret: 0,
                func: 0,
                arg: 0,
            }),
    {
        KernelCtx {
            edi: 0,
            esi: 0,
            ebp: 0,
            dum_esp: 0,
            ebx: 0,
            edx: 0,
            ecx: 0,
            eax: 0,
            gs: 0,
            fs: 0,
            es: 0,
            ds: 0,
            eip: 0,
            dum_ret: 0,
            func: 0,
            arg: 0,
        }
    }
}

/// Context pushed by the interrupt entry path and consumed by its return.
#[derive(Clone, Copy, PartialEq, Eq, Structural, Debug)]
pub struct IntCtx {
    pub vec: u32,
    pub edi: u32,
    pub esi: u32,
    pub ebp: u32,
    pub dum: u32,
    pub ebx: u32,
    pub edx: u32,
    pub ecx: u32,
    pub eax: u32,
    pub gs: u32,
    pub fs: u32,
    pub es: u32,
    pub ds: u32,
    pub e_code: u32,
    pub eip: u32,
    pub cs: u32,
    pub e_flags: u32,
    pub esp: u32,
    pub ss: u32,
}

impl IntCtx {
    /// An all-zero context.
    pub fn zero() -> (r: IntCtx)
        ensures
            r.vec == 0 && r.eax == 0 && r.ebx == 0 && r.ecx == 0 && r.edx == 0 && r.eip == 0
                && r.esp == 0 && r.e_flags == 0 && r.cs == 0 && r.ds == 0 && r.ss == 0 && r.es == 0,
    {
        IntCtx {
            vec: 0,
            edi: 0,
            esi: 0,
            ebp: 0,
            dum: 0,
            ebx: 0,
            edx: 0,
            ecx: 0,
            eax: 0,
            gs: 0,
            fs: 0,
            es: 0,
            ds: 0,
            e_code: 0,
            eip: 0,
            cs: 0,
            e_flags: 0,
            esp: 0,
            ss: 0,
        }
    }
}

} // verus!
