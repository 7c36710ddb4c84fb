//! Verified core of a small x86-64 kernel for single-application virtual
//! machines: memory-map planning, interrupt-descriptor encoding, ACPI table
//! discovery and a VGA text console, each modelled on plain values.
pub mod util;
pub mod memory;
pub mod interrupts;
pub mod acpi;
pub mod vga;
pub mod boot;
