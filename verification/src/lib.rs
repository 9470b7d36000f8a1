//! Firmware-to-kernel boot handoff library.
//!
//! Discovers and validates platform description tables supplied by boot
//! firmware, decodes the interrupt-topology table (MADT) into a typed
//! sequence of interrupt-controller records, classifies the firmware
//! memory map, and sequences the one-way transition from the firmware
//! environment into the kernel.

pub mod acpi;
pub mod handoff;
pub mod index;
pub mod madt;
pub mod memmap;
pub mod sdt;
pub mod setup;
