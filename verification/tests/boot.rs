use kernel::boot::{boot_plan, BootStep};

#[test]
fn lower_half_entry_plans_high_memory() {
    assert_eq!(
        boot_plan(0x10_0000),
        vec![
            BootStep::AnnounceLowerHalf,
            BootStep::InstallIdt,
            BootStep::EnableInterrupts,
            BootStep::PlanHighMemory,
            BootStep::Halt,
        ]
    );
}

#[test]
fn higher_half_entry_finds_pcie() {
    assert_eq!(
        boot_plan(0xffff_8000_0010_0000),
        vec![
            BootStep::AnnounceHigherHalf,
            BootStep::InstallIdt,
            BootStep::EnableInterrupts,
            BootStep::FindPcie,
            BootStep::Greet,
            BootStep::Halt,
        ]
    );
}

#[test]
fn half_boundary_is_isize_max() {
    assert_eq!(boot_plan(isize::MAX as usize - 1)[0], BootStep::AnnounceLowerHalf);
    assert_eq!(boot_plan(isize::MAX as usize)[0], BootStep::AnnounceHigherHalf);
}
