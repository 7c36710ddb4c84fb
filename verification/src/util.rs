use vstd::prelude::*;
use core::marker::PhantomData;

verus! {

/// One kibibyte.
pub const KIB: u64 = 1024;

/// One mebibyte.
pub const MIB: u64 = 1048576;

/// One gibibyte.
pub const GIB: u64 = 1073741824;

/// `n` kibibytes expressed in bytes.
pub fn k_bytes(n: usize) -> (r: usize)
    requires
        n * 1024 <= usize::MAX,
    ensures
        r == n * 1024,
{
    n * 1024
}

/// How many whole elements of type `T` fit in `bytes` bytes.
pub fn bytes_to_elements<T>(bytes: usize) -> (r: usize)
    requires
        vstd::layout::size_of::<T>() > 0,
    ensures
        r == bytes as nat / vstd::layout::size_of::<T>(),
{
    let size = core::mem::size_of::<T>();
    bytes.checked_div(size).unwrap()
}


/// The address reached by moving `count` bytes from `addr` in a
/// `usize`-wide address space that wraps around at both ends.
pub open spec fn wrapped_address(addr: usize, count: int) -> int {
    let s = addr + count;
    if s > usize::MAX {
        s - (usize::MAX + 1)
    } else if s < 0 {
        s + (usize::MAX + 1)
    } else {
        s
    }
}

/// Moving an address by a byte count, either strictly or with wrap-around.
pub trait OffsetBytes: Sized {
    /// The address `count` bytes away; the move must stay inside the
    /// address space.
    fn offset_bytes(self, count: isize) -> (r: Self)
        requires
            0 <= self.address() + count <= usize::MAX,
        ensures
            r.address() == self.address() + count,
    ;

    /// The address `count` bytes away, wrapping around the address space.
    fn wrapping_offset_bytes(self, count: isize) -> (r: Self)
        ensures
            r.address() == wrapped_address(self.address(), count as int),
    ;

    /// The numeric address this value stands for.
    spec fn address(self) -> usize;
}

/// A machine address held as a plain integer.
impl OffsetBytes for usize {
    open spec fn address(self) -> usize {
        self
    }

    fn offset_bytes(self, count: isize) -> (r: usize) {
        if count >= 0 {
            self + (count as usize)
        } else {
            let back: usize = (0 - (count as i128)) as usize;
            self - back
        }
    }

    fn wrapping_offset_bytes(self, count: isize) -> (r: usize) {
        self.wrapping_add_signed(count)
    }
}

/// Moving back by the same count undoes a wrapping move.
pub proof fn lemma_wrapping_offset_undone(addr: usize, count: isize)
    requires
        count != isize::MIN,
    ensures
        wrapped_address(wrapped_address(addr, count as int) as usize, -count) == addr,
{
}

/// Walks `remaining` consecutive elements of type `T`, starting at the
/// address `.0`, handing out one element address per step.
pub struct PtrIter<T>(pub usize, pub usize, pub PhantomData<T>);

impl<T> PtrIter<T> {
    /// The next element address, or `None` once every element was handed
    /// out; the cursor moves one element forward, wrapping around.
    pub fn next(&mut self) -> (r: Option<usize>)
        ensures
            old(self).1 == 0 ==> r is None && *final(self) == *old(self),
            old(self).1 > 0 ==> {
                &&& r == Some(old(self).0)
                &&& final(self).1 == old(self).1 - 1
                &&& final(self).0 == wrapped_address(
                    old(self).0,
                    vstd::layout::size_of::<T>() as int,
                )
            },
    {
        if self.1 == 0 {
            None
        } else {
            self.1 = self.1 - 1;
            let res = self.0;
            let size = core::mem::size_of::<T>();
            self.0 = self.0.wrapping_add(size);
            Some(res)
        }
    }
}

/// A run of `len` elements of type `T` starting at address `addr`, known
/// only by where it lies.
pub struct RawSlice<T> {
    pub addr: usize,
    pub len: usize,
    pub marker: PhantomData<T>,
}

/// Producing an element-address walk over a region.
pub trait IterPtr<T>: Sized {
    fn iter_ptr(self) -> (r: PtrIter<T>)
        ensures
            r.0 == self.start_address(),
            r.1 == self.element_count(),
    ;

    spec fn start_address(self) -> usize;

    spec fn element_count(self) -> usize;
}

impl<T> IterPtr<T> for RawSlice<T> {
    open spec fn start_address(self) -> usize {
        self.addr
    }

    open spec fn element_count(self) -> usize {
        self.len
    }

    fn iter_ptr(self) -> (r: PtrIter<T>) {
        PtrIter(self.addr, self.len, PhantomData)
    }
}

/// Converting a whole number of elements to bytes and back gives the
/// number of elements.
pub proof fn lemma_elements_round_trip<T>(n: nat)
    requires
        vstd::layout::size_of::<T>() > 0,
    ensures
        (n * vstd::layout::size_of::<T>()) / vstd::layout::size_of::<T>() == n,
{
    vstd::arithmetic::div_mod::lemma_div_by_multiple(n as int, vstd::layout::size_of::<T>() as int);
}

} // verus!
