use kernel::interrupts::{
    BErFunc, BadFunc, ErrFunc, IDTEnt, IntFunc, InterruptFrame, InterruptFrameInternal, IDT, IDTR,
    IDT_BYTES,
};

#[test]
fn empty_gate_is_not_present() {
    let e = IDTEnt::<IntFunc>::new_empty();
    assert_eq!(e.offset_low, 0);
    assert_eq!(e.code_elector, 8);
    assert_eq!(e.stack_table_index, 0);
    assert_eq!(e.flags, 0b1110);
    assert_eq!(e.offset_high, 0);
    assert_eq!(e.offset_extended, 0);
    assert_eq!(e.reserved, 0);
}

#[test]
fn gate_splits_address() {
    let e = IDTEnt::<ErrFunc>::new_unchecked(0x1234_5678_9abc_def0);
    assert_eq!(e.offset_low, 0xdef0);
    assert_eq!(e.offset_high, 0x9abc);
    assert_eq!(e.offset_extended, 0x1234_5678);
    assert_eq!(e.flags, 0x8e);
    assert_eq!(e.code_elector, 8);
    assert_eq!(e.reserved, 0);
}

#[test]
fn gate_address_reassembles() {
    let addr: u64 = 0xffff_8000_0012_3456;
    let e = IDTEnt::<IntFunc>::new(addr);
    let back = e.offset_low as u64 | (e.offset_high as u64) << 16 | (e.offset_extended as u64) << 32;
    assert_eq!(back, addr);
}

#[test]
fn set_present_sets_bit_seven_only() {
    let mut e = IDTEnt::<BadFunc>::new_empty();
    e.set_present();
    assert_eq!(e.flags, 0x8e);
    e.set_present();
    assert_eq!(e.flags, 0x8e);
    assert_eq!(e.code_elector, 8);
}

#[test]
fn gate_kinds_build_the_same_encoding() {
    let a = IDTEnt::<BErFunc>::new(0x4000);
    let b = IDTEnt::<BadFunc>::new(0x4000);
    assert_eq!(a.offset_low, 0x4000);
    assert_eq!(b.offset_low, 0x4000);
    assert_eq!(a.flags, b.flags);
}

#[test]
fn table_uses_handlers_by_kind() {
    let t = IDT::new(0x1000, 0x2000, 0x3000, 0x4000);
    assert_eq!(t.de.offset_low, 0x1000);
    assert_eq!(t.gp.offset_low, 0x2000);
    assert_eq!(t.pf.offset_low, 0x2000);
    assert_eq!(t.mc.offset_low, 0x3000);
    assert_eq!(t.df.offset_low, 0x4000);
    assert_eq!(t.cp.offset_low, 0x2000);
    assert_eq!(t.ve.offset_low, 0x1000);
    assert_eq!(t._a.flags, 0b1110);
    assert_eq!(t._a.offset_low, 0);
    assert_eq!(t.nmi.flags, 0x8e);
}

#[test]
fn descriptor_covers_table() {
    let d = IDTR::for_table(0xffff_8000_0000_5000);
    assert_eq!(d.limit, IDT_BYTES);
    assert_eq!(d.limit, 352);
    assert_eq!(d.base, 0xffff_8000_0000_5000);
}

#[test]
fn frame_reads_through() {
    let f = InterruptFrame(InterruptFrameInternal {
        instruction_pointer: 0xdead_beef,
        code_segment: 8,
        cpu_flags: 0x202,
        stack_pointer: 0x7000,
        stack_segment: 0x10,
    });
    assert_eq!(f.instruction_pointer, 0xdead_beef);
    assert_eq!(f.cpu_flags, 0x202);
}
