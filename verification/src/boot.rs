use vstd::prelude::*;

verus! {

/// One thing the kernel does on entry, in the order it does them.
#[derive(Clone, Copy, Debug, PartialEq, Eq, Structural)]
pub enum BootStep {
    /// Report that the bootloader handed over control in the lower half.
    AnnounceLowerHalf,
    /// Report that control arrived in the higher half.
    AnnounceHigherHalf,
    /// Build the interrupt descriptor table and load it.
    InstallIdt,
    /// Enable interrupts.
    EnableInterrupts,
    /// Read the memory map and plan the high-memory pages.
    PlanHighMemory,
    /// Find the ACPI root table and list the tables it points at.
    FindPcie,
    /// Print the greeting.
    Greet,
    /// Halt forever.
    Halt,
}

/// Whether an entry point at `entry` lies in the lower half of the address
/// space, where the bootloader runs the kernel first.
pub open spec fn in_lower_half(entry: usize) -> bool {
    entry < isize::MAX
}

/// The steps taken on entry for a kernel whose entry point lies at `entry`.
pub open spec fn spec_boot_plan(entry: usize) -> Seq<BootStep> {
    if in_lower_half(entry) {
        seq![
            BootStep::AnnounceLowerHalf,
            BootStep::InstallIdt,
            BootStep::EnableInterrupts,
            BootStep::PlanHighMemory,
            BootStep::Halt,
        ]
    } else {
        seq![
            BootStep::AnnounceHigherHalf,
            BootStep::InstallIdt,
            BootStep::EnableInterrupts,
            BootStep::FindPcie,
            BootStep::Greet,
            BootStep::Halt,
        ]
    }
}

/// The steps taken on entry: in the lower half the kernel installs its
/// interrupt table and plans high memory; in the higher half it installs
/// the table, looks for the PCIe configuration and greets; both end halted.
pub fn boot_plan(entry: usize) -> (r: Vec<BootStep>)
    ensures
        r@ == spec_boot_plan(entry),
{
    if entry < (isize::MAX as usize) {
        vec![
            BootStep::AnnounceLowerHalf,
            BootStep::InstallIdt,
            BootStep::EnableInterrupts,
            BootStep::PlanHighMemory,
            BootStep::Halt,
        ]
    } else {
        vec![
            BootStep::AnnounceHigherHalf,
            BootStep::InstallIdt,
            BootStep::EnableInterrupts,
            BootStep::FindPcie,
            BootStep::Greet,
            BootStep::Halt,
        ]
    }
}

/// Every entry point, lower or higher half, installs the interrupt table
/// and enables interrupts before anything else and ends halted.
pub proof fn lemma_boot_plan_shape(entry: usize)
    ensures
        spec_boot_plan(entry)[1] == BootStep::InstallIdt,
        spec_boot_plan(entry)[2] == BootStep::EnableInterrupts,
        spec_boot_plan(entry).last() == BootStep::Halt,
        spec_boot_plan(entry).contains(BootStep::PlanHighMemory) <==> in_lower_half(entry),
{
    if in_lower_half(entry) {
        assert(spec_boot_plan(entry)[3] == BootStep::PlanHighMemory);
    } else {
        assert(!spec_boot_plan(entry).contains(BootStep::PlanHighMemory)) by {
            if spec_boot_plan(entry).contains(BootStep::PlanHighMemory) {
                let i = choose|i: int| 0 <= i < spec_boot_plan(entry).len() && spec_boot_plan(entry)[i] == BootStep::PlanHighMemory;
                assert(false);
            }
        }
    }
}

} // verus!
