//! A verified model of a single-core, 32-bit protected-mode kernel:
//! bitmap page allocators, a two-level page-table layer, a size-classed
//! heap, a round-robin scheduler over a thread registry, and semaphore,
//! lock and spinlock primitives built on the scheduler's block/unblock
//! protocol.

pub mod arena;
pub mod bitmap;
pub mod err;
pub mod fmtbuf;
pub mod fsinfo;
pub mod gdt;
pub mod ide;
pub mod idt;
pub mod intr;
pub mod link;
pub mod list;
pub mod mem;
pub mod page;
pub mod palloc;
pub mod pool;
pub mod reg;
pub mod sync;
pub mod syscall;
pub mod vga;
pub mod thread;
pub mod timer;
pub mod tss;
pub mod user;
