//! The Win32 numbers that the decisions of this library turn on.
use vstd::prelude::*;

verus! {

/// State of a committed page.
pub const MEM_COMMIT: u32 = 0x0000_1000;

/// State of a page that nothing is mapped to.
pub const MEM_FREE: u32 = 0x0001_0000;

pub const MEM_PRIVATE: u32 = 0x0002_0000;

pub const MEM_MAPPED: u32 = 0x0004_0000;

/// Type of pages that belong to a loaded executable or DLL.
pub const MEM_IMAGE: u32 = 0x0100_0000;

pub const PAGE_NOACCESS: u32 = 0x01;

pub const PAGE_READONLY: u32 = 0x02;

pub const PAGE_EXECUTE_READ: u32 = 0x20;

pub const PAGE_EXECUTE_READWRITE: u32 = 0x40;

/// Protection modifier of guard pages, which raise an exception on the first
/// access and which the system sets up anew for every process.
pub const PAGE_GUARD: u32 = 0x100;

} // verus!
