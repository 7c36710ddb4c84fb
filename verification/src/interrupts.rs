use vstd::prelude::*;
use core::marker::PhantomData;

pub mod page_errors;

verus! {

/// Handler kind: an interrupt without an error code that returns.
pub struct IntFunc;

/// Handler kind: an interrupt with an error code that returns.
pub struct ErrFunc;

/// Handler kind: an interrupt without an error code that never returns.
pub struct BadFunc;

/// Handler kind: an interrupt with an error code that never returns.
pub struct BErFunc;

/// One 16-byte interrupt-descriptor-table gate; `T` is the kind of the
/// handler it points at.
pub struct IDTEnt<T> {
    pub offset_low: u16,
    pub code_elector: u16,
    pub stack_table_index: u8,
    pub flags: u8,
    pub offset_high: u16,
    pub offset_extended: u32,
    pub reserved: u32,
    pub handler: PhantomData<T>,
}

/// Kernel code segment selector used by every gate.
pub const KERNEL_CODE_SELECTOR: u16 = 8;

/// Gate type of a 64-bit interrupt gate.
pub const INTERRUPT_GATE: u8 = 14;

/// The present bit of a gate's flags.
pub const PRESENT_BIT: u8 = 128;

/// A gate that is not present and points at address 0.
pub open spec fn empty_entry<T>() -> IDTEnt<T> {
    IDTEnt {
        offset_low: 0,
        code_elector: KERNEL_CODE_SELECTOR,
        stack_table_index: 0,
        flags: INTERRUPT_GATE,
        offset_high: 0,
        offset_extended: 0,
        reserved: 0,
        handler: PhantomData,
    }
}

/// A present interrupt gate for a handler at `offset`: the address is split
/// into its low 16 bits, the next 16 bits and the upper 32 bits.
pub open spec fn gate_entry<T>(offset: u64) -> IDTEnt<T> {
    IDTEnt {
        offset_low: (offset % 0x1_0000) as u16,
        code_elector: KERNEL_CODE_SELECTOR,
        stack_table_index: 0,
        flags: (INTERRUPT_GATE + PRESENT_BIT) as u8,
        offset_high: ((offset / 0x1_0000) % 0x1_0000) as u16,
        offset_extended: (offset / 0x1_0000_0000) as u32,
        reserved: 0,
        handler: PhantomData,
    }
}

/// The handler address a gate points at.
pub open spec fn entry_address<T>(e: IDTEnt<T>) -> int {
    e.offset_low + e.offset_high * 0x1_0000 + e.offset_extended * 0x1_0000_0000
}

impl<T> IDTEnt<T> {
    /// A gate that is not present, with the kernel code selector and the
    /// interrupt-gate type.
    pub fn new_empty() -> (r: Self)
        ensures
            r == empty_entry::<T>(),
    {
        IDTEnt {
            offset_low: 0,
            code_elector: 0x8,
            stack_table_index: 0,
            flags: 0b1110,
            offset_high: 0,
            offset_extended: 0,
            reserved: 0,
            handler: PhantomData,
        }
    }

    /// A present gate for a handler at `offset`; nothing checks that a
    /// handler of kind `T` lives there.
    pub fn new_unchecked(offset: u64) -> (r: Self)
        ensures
            r == gate_entry::<T>(offset),
            r.stack_table_index == 0,
            r.code_elector == KERNEL_CODE_SELECTOR,
            r.reserved == 0,
            entry_address(r) == offset,
    {
        let mut res = Self::new_empty();
        let low = offset & 0xffff;
        let high = (offset & 0xffff0000) >> 16;
        let ext = offset >> 32;
        assert(low == offset % 0x1_0000) by (bit_vector)
            requires
                low == offset & 0xffff,
        ;
        assert(high == (offset / 0x1_0000) % 0x1_0000) by (bit_vector)
            requires
                high == (offset & 0xffff0000) >> 16,
        ;
        assert(ext == offset / 0x1_0000_0000) by (bit_vector)
            requires
                ext == offset >> 32,
        ;
        res.offset_low = low as u16;
        res.offset_high = high as u16;
        res.offset_extended = ext as u32;
        res.set_present();
        assert(INTERRUPT_GATE | PRESENT_BIT == INTERRUPT_GATE + PRESENT_BIT) by (bit_vector);
        res
    }

    /// Sets the present bit; every other field keeps its value.
    pub fn set_present(&mut self)
        ensures
            final(self).flags == old(self).flags | PRESENT_BIT,
            final(self).offset_low == old(self).offset_low,
            final(self).code_elector == old(self).code_elector,
            final(self).stack_table_index == old(self).stack_table_index,
            final(self).offset_high == old(self).offset_high,
            final(self).offset_extended == old(self).offset_extended,
            final(self).reserved == old(self).reserved,
    {
        self.flags = self.flags | PRESENT_BIT;
    }
}

impl IDTEnt<IntFunc> {
    /// A present gate for a returning handler without an error code.
    pub fn new(address: u64) -> (r: Self)
        ensures
            r == gate_entry::<IntFunc>(address),
    {
        Self::new_unchecked(address)
    }
}

impl IDTEnt<ErrFunc> {
    /// A present gate for a returning handler with an error code.
    pub fn new(address: u64) -> (r: Self)
        ensures
            r == gate_entry::<ErrFunc>(address),
    {
        Self::new_unchecked(address)
    }
}

impl IDTEnt<BadFunc> {
    /// A present gate for a diverging handler without an error code.
    pub fn new(address: u64) -> (r: Self)
        ensures
            r == gate_entry::<BadFunc>(address),
    {
        Self::new_unchecked(address)
    }
}

impl IDTEnt<BErFunc> {
    /// A present gate for a diverging handler with an error code.
    pub fn new(address: u64) -> (r: Self)
        ensures
            r == gate_entry::<BErFunc>(address),
    {
        Self::new_unchecked(address)
    }
}

/// A gate made for an address points back at that address, is present, and
/// keeps the interrupt-gate type.
pub proof fn lemma_gate_round_trip<T>(offset: u64)
    ensures
        entry_address(gate_entry::<T>(offset)) == offset,
        gate_entry::<T>(offset).flags & PRESENT_BIT != 0,
        gate_entry::<T>(offset).flags & 0xf == INTERRUPT_GATE,
{
    assert(INTERRUPT_GATE + PRESENT_BIT == 0x8e);
    assert(0x8eu8 & 0x80u8 != 0) by (bit_vector);
    assert(0x8eu8 & 0xfu8 == 0xe) by (bit_vector);
}

/// Marking a gate present twice is the same as marking it once.
pub proof fn lemma_set_present_idempotent(flags: u8)
    ensures
        (flags | PRESENT_BIT) | PRESENT_BIT == flags | PRESENT_BIT,
        (flags | PRESENT_BIT) & PRESENT_BIT != 0,
{
    assert((flags | 0x80u8) | 0x80u8 == flags | 0x80u8) by (bit_vector);
    assert((flags | 0x80u8) & 0x80u8 != 0) by (bit_vector);
}

/// The exception gates the kernel installs, in vector order 0 to 21.
pub struct IDT {
    pub de: IDTEnt<IntFunc>,
    pub db: IDTEnt<IntFunc>,
    pub nmi: IDTEnt<IntFunc>,
    pub bp: IDTEnt<IntFunc>,
    pub of: IDTEnt<IntFunc>,
    pub br: IDTEnt<IntFunc>,
    pub ud: IDTEnt<IntFunc>,
    pub nm: IDTEnt<IntFunc>,
    pub df: IDTEnt<BErFunc>,
    pub co: IDTEnt<IntFunc>,
    pub ts: IDTEnt<ErrFunc>,
    pub np: IDTEnt<ErrFunc>,
    pub ss: IDTEnt<ErrFunc>,
    pub gp: IDTEnt<ErrFunc>,
    pub pf: IDTEnt<ErrFunc>,
    pub _a: IDTEnt<IntFunc>,
    pub mf: IDTEnt<IntFunc>,
    pub ac: IDTEnt<ErrFunc>,
    pub mc: IDTEnt<BadFunc>,
    pub xm: IDTEnt<IntFunc>,
    pub ve: IDTEnt<IntFunc>,
    pub cp: IDTEnt<ErrFunc>,
}

/// Size in bytes of the table: 22 gates of 16 bytes.
pub const IDT_BYTES: u16 = 352;

impl IDT {
    /// The table whose gates all point at the given handlers, by kind:
    /// `panic` for returning handlers without an error code, `panic_err` for
    /// returning handlers with one, `panic_bad` for machine check and
    /// `panic_ber` for double fault. Vector 15 is reserved and left empty.
    pub fn new(panic: u64, panic_err: u64, panic_bad: u64, panic_ber: u64) -> (r: Self)
        ensures
            r.de == gate_entry::<IntFunc>(panic),
            r.db == gate_entry::<IntFunc>(panic),
            r.nmi == gate_entry::<IntFunc>(panic),
            r.bp == gate_entry::<IntFunc>(panic),
            r.of == gate_entry::<IntFunc>(panic),
            r.br == gate_entry::<IntFunc>(panic),
            r.ud == gate_entry::<IntFunc>(panic),
            r.nm == gate_entry::<IntFunc>(panic),
            r.df == gate_entry::<BErFunc>(panic_ber),
            r.co == gate_entry::<IntFunc>(panic),
            r.ts == gate_entry::<ErrFunc>(panic_err),
            r.np == gate_entry::<ErrFunc>(panic_err),
            r.ss == gate_entry::<ErrFunc>(panic_err),
            r.gp == gate_entry::<ErrFunc>(panic_err),
            r.pf == gate_entry::<ErrFunc>(panic_err),
            r._a == empty_entry::<IntFunc>(),
            r.mf == gate_entry::<IntFunc>(panic),
            r.ac == gate_entry::<ErrFunc>(panic_err),
            r.mc == gate_entry::<BadFunc>(panic_bad),
            r.xm == gate_entry::<IntFunc>(panic),
            r.ve == gate_entry::<IntFunc>(panic),
            r.cp == gate_entry::<ErrFunc>(panic_err),
    {
        IDT {
            de: IDTEnt::<IntFunc>::new(panic),
            db: IDTEnt::<IntFunc>::new(panic),
            nmi: IDTEnt::<IntFunc>::new(panic),
            bp: IDTEnt::<IntFunc>::new(panic),
            of: IDTEnt::<IntFunc>::new(panic),
            br: IDTEnt::<IntFunc>::new(panic),
            ud: IDTEnt::<IntFunc>::new(panic),
            nm: IDTEnt::<IntFunc>::new(panic),
            df: IDTEnt::<BErFunc>::new(panic_ber),
            co: IDTEnt::<IntFunc>::new(panic),
            ts: IDTEnt::<ErrFunc>::new(panic_err),
            np: IDTEnt::<ErrFunc>::new(panic_err),
            ss: IDTEnt::<ErrFunc>::new(panic_err),
            gp: IDTEnt::<ErrFunc>::new(panic_err),
            pf: IDTEnt::<ErrFunc>::new(panic_err),
            _a: IDTEnt::<IntFunc>::new_empty(),
            mf: IDTEnt::<IntFunc>::new(panic),
            ac: IDTEnt::<ErrFunc>::new(panic_err),
            mc: IDTEnt::<BadFunc>::new(panic_bad),
            xm: IDTEnt::<IntFunc>::new(panic),
            ve: IDTEnt::<IntFunc>::new(panic),
            cp: IDTEnt::<ErrFunc>::new(panic_err),
        }
    }
}

/// The operand of `lidt`: the table's size and its address.
pub struct IDTR {
    pub limit: u16,
    pub base: u64,
}

impl IDTR {
    /// The descriptor loaded for a table at `base`; its limit is the table's
    /// size in bytes.
    pub fn for_table(base: u64) -> (r: Self)
        ensures
            r.limit == IDT_BYTES,
            r.base == base,
    {
        IDTR { limit: IDT_BYTES, base }
    }
}

/// The frame the processor pushes when it delivers an interrupt, with
/// addresses held as integers.
pub struct InterruptFrameInternal {
    pub instruction_pointer: u64,
    pub code_segment: u64,
    pub cpu_flags: u64,
    pub stack_pointer: u64,
    pub stack_segment: u64,
}

/// The frame handed to a handler; it reads as the frame it wraps.
pub struct InterruptFrame(pub InterruptFrameInternal);

impl core::ops::Deref for InterruptFrame {
    type Target = InterruptFrameInternal;

    fn deref(&self) -> (r: &InterruptFrameInternal)
        ensures
            *r == self.0,
    {
        &self.0
    }
}

/// The empty gate points at address 0, is not present, is an interrupt
/// gate for the kernel code segment, switches no stack and reserves
/// nothing.
pub proof fn lemma_empty_gate_fields<T>()
    ensures
        entry_address(empty_entry::<T>()) == 0,
        empty_entry::<T>().flags & PRESENT_BIT == 0,
        empty_entry::<T>().flags == 14,
        empty_entry::<T>().code_elector == 8,
        empty_entry::<T>().stack_table_index == 0,
        empty_entry::<T>().reserved == 0,
{
    assert(14u8 & 0x80u8 == 0) by (bit_vector);
}

/// A gate made for a handler differs from the empty gate only in its three
/// offset fields and its present bit: same selector (8), no stack switch
/// (index 0), nothing reserved, and the empty gate's flags with bit 7 set.
pub proof fn lemma_gate_differs_from_empty_only_in_address_and_present<T>(offset: u64)
    ensures
        gate_entry::<T>(offset).code_elector == empty_entry::<T>().code_elector,
        gate_entry::<T>(offset).stack_table_index == empty_entry::<T>().stack_table_index,
        gate_entry::<T>(offset).reserved == empty_entry::<T>().reserved,
        gate_entry::<T>(offset).flags == empty_entry::<T>().flags | PRESENT_BIT,
        gate_entry::<T>(offset).stack_table_index == 0,
        gate_entry::<T>(offset).code_elector == 8,
        gate_entry::<T>(offset).reserved == 0,
        gate_entry::<T>(offset).offset_low == offset % 0x1_0000,
        gate_entry::<T>(offset).offset_high == (offset / 0x1_0000) % 0x1_0000,
        gate_entry::<T>(offset).offset_extended == offset / 0x1_0000_0000,
{
    assert(14u8 | 0x80u8 == 0x8e) by (bit_vector);
}

} // verus!
