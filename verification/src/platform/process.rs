//! Process options and process/thread identifiers.
use vstd::prelude::*;

verus! {

/// Access right: read the process's memory.
pub const PROCESS_VM_READ: u32 = 0x0010;
/// Access right: query information about the process.
pub const PROCESS_QUERY_INFORMATION: u32 = 0x0400;
/// Access right: wait on the process.
pub const PROCESS_SYNCHRONIZE: u32 = 0x0010_0000;
/// Access right: write the process's memory.
pub const PROCESS_VM_WRITE: u32 = 0x0020;
/// Access right: operate on the process's address space.
pub const PROCESS_VM_OPERATION: u32 = 0x0008;
/// Access right: terminate the process.
pub const PROCESS_TERMINATE: u32 = 0x0001;

/// The rights that a process handle is opened with.
#[derive(Clone, Copy, Debug, PartialEq, Eq, Structural)]
pub struct ProcessOptions {
    pub readable: bool,
    pub query_information: bool,
    pub sync: bool,
    pub writable: bool,
    pub terminate: bool,
}

impl Default for ProcessOptions {
    /// Readable, queryable and waitable; neither writable nor terminable.
    fn default() -> (r: ProcessOptions)
        ensures
            r == (ProcessOptions {
                readable: true,
                query_information: true,
                sync: true,
                writable: false,
                terminate: false,
            }),
    {
        ProcessOptions {
            readable: true,
            query_information: true,
            sync: true,
            writable: false,
            terminate: false,
        }
    }
}

/// The access rights that the options ask for.
pub open spec fn spec_access_rights(o: ProcessOptions) -> u32 {
    (if o.readable { PROCESS_VM_READ } else { 0 }) | (if o.query_information {
        PROCESS_QUERY_INFORMATION
    } else {
        0
    }) | (if o.sync { PROCESS_SYNCHRONIZE } else { 0 }) | (if o.writable {
        PROCESS_VM_WRITE | PROCESS_VM_OPERATION
    } else {
        0
    }) | (if o.terminate { PROCESS_TERMINATE } else { 0 })
}

impl ProcessOptions {
    /// The access rights that the options ask for: reading the memory,
    /// querying information, waiting, writing (with address-space
    /// operations) and terminating.
    pub fn access_rights(&self) -> (r: u32)
        ensures
            r == spec_access_rights(*self),
    {
        let read: u32 = if self.readable { PROCESS_VM_READ } else { 0 };
        let query: u32 = if self.query_information { PROCESS_QUERY_INFORMATION } else { 0 };
        let sync: u32 = if self.sync { PROCESS_SYNCHRONIZE } else { 0 };
        let write: u32 = if self.writable { PROCESS_VM_WRITE | PROCESS_VM_OPERATION } else { 0 };
        let terminate: u32 = if self.terminate { PROCESS_TERMINATE } else { 0 };
        read | query | sync | write | terminate
    }
}

/// Each option grants exactly its own rights: a right is in the access mask
/// if and only if the option that asks for it is set.
pub proof fn law_access_rights_exact(o: ProcessOptions)
    ensures
        (spec_access_rights(o) & PROCESS_VM_READ != 0) == o.readable,
        (spec_access_rights(o) & PROCESS_QUERY_INFORMATION != 0) == o.query_information,
        (spec_access_rights(o) & PROCESS_SYNCHRONIZE != 0) == o.sync,
        (spec_access_rights(o) & PROCESS_VM_WRITE != 0) == o.writable,
        (spec_access_rights(o) & PROCESS_VM_OPERATION != 0) == o.writable,
        (spec_access_rights(o) & PROCESS_TERMINATE != 0) == o.terminate,
{
    let a: u32 = if o.readable { 0x10u32 } else { 0u32 };
    let b: u32 = if o.query_information { 0x400u32 } else { 0u32 };
    let c: u32 = if o.sync { 0x10_0000u32 } else { 0u32 };
    let d: u32 = if o.writable { 0x20u32 | 0x8u32 } else { 0u32 };
    let e: u32 = if o.terminate { 0x1u32 } else { 0u32 };
    assert(spec_access_rights(o) == a | b | c | d | e);
    assert(((a | b | c | d | e) & 0x10u32 != 0) == (a == 0x10u32)) by (bit_vector)
        requires
            a == 0x10u32 || a == 0,
            b == 0x400u32 || b == 0,
            c == 0x10_0000u32 || c == 0,
            d == 0x20u32 | 0x8u32 || d == 0,
            e == 0x1u32 || e == 0,
    ;
    assert(((a | b | c | d | e) & 0x400u32 != 0) == (b == 0x400u32)) by (bit_vector)
        requires
            a == 0x10u32 || a == 0,
            b == 0x400u32 || b == 0,
            c == 0x10_0000u32 || c == 0,
            d == 0x20u32 | 0x8u32 || d == 0,
            e == 0x1u32 || e == 0,
    ;
    assert(((a | b | c | d | e) & 0x10_0000u32 != 0) == (c == 0x10_0000u32)) by (bit_vector)
        requires
            a == 0x10u32 || a == 0,
            b == 0x400u32 || b == 0,
            c == 0x10_0000u32 || c == 0,
            d == 0x20u32 | 0x8u32 || d == 0,
            e == 0x1u32 || e == 0,
    ;
    assert(((a | b | c | d | e) & 0x20u32 != 0) == (d != 0)) by (bit_vector)
        requires
            a == 0x10u32 || a == 0,
            b == 0x400u32 || b == 0,
            c == 0x10_0000u32 || c == 0,
            d == 0x20u32 | 0x8u32 || d == 0,
            e == 0x1u32 || e == 0,
    ;
    assert(((a | b | c | d | e) & 0x8u32 != 0) == (d != 0)) by (bit_vector)
        requires
            a == 0x10u32 || a == 0,
            b == 0x400u32 || b == 0,
            c == 0x10_0000u32 || c == 0,
            d == 0x20u32 | 0x8u32 || d == 0,
            e == 0x1u32 || e == 0,
    ;
    assert(((a | b | c | d | e) & 0x1u32 != 0) == (e == 0x1u32)) by (bit_vector)
        requires
            a == 0x10u32 || a == 0,
            b == 0x400u32 || b == 0,
            c == 0x10_0000u32 || c == 0,
            d == 0x20u32 | 0x8u32 || d == 0,
            e == 0x1u32 || e == 0,
    ;
    assert(0x20u32 | 0x8u32 != 0u32) by (bit_vector);
}

/// Process identifier
pub type ProcessId = u32;

/// Thread identifier
pub type ThreadId = u32;

/// The process and thread of a window.
#[derive(Clone, Copy, Debug, PartialEq, Eq, Structural)]
pub struct PidTid {
    pub pid: ProcessId,
    pub tid: ThreadId,
}

impl PidTid {
    /// Identifiers that name a process and thread: not both zero.
    pub fn valid(&self) -> (r: bool)
        ensures
            r == !(self.pid == 0 && self.tid == 0),
    {
        !(self.pid == 0 && self.tid == 0)
    }
}

} // verus!
