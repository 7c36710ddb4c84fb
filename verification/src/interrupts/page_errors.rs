use vstd::prelude::*;

verus! {

/// The fault was a protection violation rather than a missing page.
pub const PROTECTION_VIOLATION: u64 = 1;

/// The access that faulted was a write.
pub const CAUSED_BY_WRITE: u64 = 2;

/// The access that faulted came from user mode.
pub const USER_MODE: u64 = 4;

/// A reserved bit was set in a paging-structure entry.
pub const MALFORMED_TABLE: u64 = 8;

/// The access that faulted was an instruction fetch.
pub const INSTRUCTION_FETCH: u64 = 16;

/// The fault was caused by a protection key.
pub const PROTECTION_KEY: u64 = 32;

/// The fault was caused by a shadow-stack access.
pub const SHADOW_STACK: u64 = 64;

/// The fault is related to SGX.
pub const SGX: u64 = 32768;

/// The fault was caused by an RMP violation.
pub const RMP: u64 = 2147483648;

} // verus!
