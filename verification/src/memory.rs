//! The machine's memory, in a chosen unit.

use vstd::prelude::*;

verus! {

/// The unit a memory amount is given in.
pub enum MemoryFormat {
    Bytes,
    KB,
    MB,
    GB,
}

/// `bytes` in the unit `format`, rounded down.
pub open spec fn in_format(bytes: u64, format: MemoryFormat) -> nat {
    match format {
        MemoryFormat::Bytes => bytes as nat,
        MemoryFormat::KB => bytes as nat / 1024,
        MemoryFormat::MB => bytes as nat / 0x10_0000,
        MemoryFormat::GB => bytes as nat / 0x4000_0000,
    }
}

/// `bytes` in the unit `format`; a missing format is refused, as unwrapping it would fail.
pub fn bytes_to_format(bytes: u64, format: Option<MemoryFormat>) -> (r: u64)
    requires
        format is Some,
    ensures
        r == in_format(bytes, format->0),
{
    match format {
        Some(MemoryFormat::Bytes) => bytes,
        Some(MemoryFormat::KB) => bytes / 1024,
        Some(MemoryFormat::MB) => bytes / (1024 * 1024),
        Some(MemoryFormat::GB) => bytes / (1024 * 1024 * 1024),
        None => 0,
    }
}

/// The machine's RAM in bytes, as `sysinfo` reports it; it depends on the
/// machine, so nothing is claimed of it.
#[verifier::external_body]
fn system_total_memory() -> u64 {
    sysinfo::System::new_all().total_memory()
}

/// The machine's available RAM in bytes, as `sysinfo` reports it; it depends
/// on the machine, so nothing is claimed of it.
#[verifier::external_body]
fn system_available_memory() -> u64 {
    sysinfo::System::new_all().available_memory()
}

/// The machine's RAM in the unit `format`.
pub fn total_memory_with_format(format: Option<MemoryFormat>) -> (r: u64)
    requires
        format is Some,
    ensures
        exists|bytes: u64| r == in_format(bytes, format->0),
{
    let bytes = system_total_memory();
    bytes_to_format(bytes, format)
}

/// The machine's available RAM in the unit `format`.
pub fn free_memory_with_format(format: Option<MemoryFormat>) -> (r: u64)
    requires
        format is Some,
    ensures
        exists|bytes: u64| r == in_format(bytes, format->0),
{
    let bytes = system_available_memory();
    bytes_to_format(bytes, format)
}

} // verus!
