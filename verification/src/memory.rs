use vstd::prelude::*;
use vstd::std_specs::convert::FromSpecImpl;
use crate::util::{GIB, MIB};

verus! {

/// The kind of a firmware memory-map entry.
#[derive(Clone, Copy, Debug, PartialEq, Eq, Structural)]
pub enum MemMapFlag {
    Unknown,
    Usable,
    Reserved,
    ACPI,
    NVS,
    Bad,
}

/// The kind that a raw firmware type code stands for; codes outside
/// 1..=5 are `Unknown`.
pub open spec fn flag_from_code(flag: u32) -> MemMapFlag {
    if flag == 1 {
        MemMapFlag::Usable
    } else if flag == 2 {
        MemMapFlag::Reserved
    } else if flag == 3 {
        MemMapFlag::ACPI
    } else if flag == 4 {
        MemMapFlag::NVS
    } else if flag == 5 {
        MemMapFlag::Bad
    } else {
        MemMapFlag::Unknown
    }
}

/// The firmware type code of a kind (`Unknown` is 0).
pub open spec fn spec_flag_code(f: MemMapFlag) -> u32 {
    match f {
        MemMapFlag::Unknown => 0,
        MemMapFlag::Usable => 1,
        MemMapFlag::Reserved => 2,
        MemMapFlag::ACPI => 3,
        MemMapFlag::NVS => 4,
        MemMapFlag::Bad => 5,
    }
}

impl MemMapFlag {
    /// The firmware type code of this kind.
    pub fn code(self) -> (r: u32)
        ensures
            r == spec_flag_code(self),
    {
        match self {
            MemMapFlag::Unknown => 0,
            MemMapFlag::Usable => 1,
            MemMapFlag::Reserved => 2,
            MemMapFlag::ACPI => 3,
            MemMapFlag::NVS => 4,
            MemMapFlag::Bad => 5,
        }
    }
}

impl From<u32> for MemMapFlag {
    fn from(flag: u32) -> (r: Self) {
        match flag {
            1 => MemMapFlag::Usable,
            2 => MemMapFlag::Reserved,
            3 => MemMapFlag::ACPI,
            4 => MemMapFlag::NVS,
            5 => MemMapFlag::Bad,
            _ => MemMapFlag::Unknown,
        }
    }
}

impl FromSpecImpl<u32> for MemMapFlag {
    open spec fn obeys_from_spec() -> bool {
        true
    }

    open spec fn from_spec(v: u32) -> Self {
        flag_from_code(v)
    }
}

/// Decoding a code and encoding it again gives the code back exactly when
/// it is one of the known codes; an unknown code comes back as 0. Encoding
/// a kind and decoding it gives the kind back.
pub proof fn lemma_flag_code_round_trip(code: u32, f: MemMapFlag)
    ensures
        flag_from_code(spec_flag_code(f)) == f,
        1 <= code <= 5 ==> spec_flag_code(flag_from_code(code)) == code,
        !(1 <= code <= 5) ==> spec_flag_code(flag_from_code(code)) == 0,
        flag_from_code(spec_flag_code(flag_from_code(code))) == flag_from_code(code),
{
}

/// One entry of the firmware memory map; `T` is the raw code (`u32`) or
/// the decoded kind (`MemMapFlag`).
#[derive(Clone, Copy, Debug, PartialEq, Eq)]
pub struct MemMapEntry<T> {
    pub base: u64,
    pub len: u64,
    pub flags: T,
    pub _reserved: u32,
}

/// The number of entries before the terminator, the first entry whose base
/// is `u64::MAX`; all of them when there is none.
pub open spec fn map_len(raw: Seq<MemMapEntry<u32>>) -> nat
    decreases raw.len(),
{
    if raw.len() == 0 {
        0
    } else if raw[0].base == u64::MAX {
        0
    } else {
        1 + map_len(raw.drop_first())
    }
}

/// A raw entry with its type code decoded.
pub open spec fn decode_entry(e: MemMapEntry<u32>) -> MemMapEntry<MemMapFlag> {
    MemMapEntry { base: e.base, len: e.len, flags: flag_from_code(e.flags), _reserved: e._reserved }
}

proof fn lemma_map_len_prefix(raw: Seq<MemMapEntry<u32>>, i: int)
    requires
        0 <= i <= raw.len(),
        forall|j: int| 0 <= j < i ==> raw[j].base != u64::MAX,
    ensures
        i < raw.len() && raw[i].base == u64::MAX ==> map_len(raw) == i,
        i == raw.len() ==> map_len(raw) == i,
        map_len(raw) >= i,
    decreases i,
{
    if i > 0 {
        let rest = raw.drop_first();
        assert forall|j: int| 0 <= j < i - 1 implies rest[j].base != u64::MAX by {
            assert(rest[j] == raw[j + 1]);
        }
        lemma_map_len_prefix(rest, i - 1);
    }
}

/// Whether a raw entry ends the memory map.
pub fn is_map_terminator(e: &MemMapEntry<u32>) -> (r: bool)
    ensures
        r == (e.base == u64::MAX),
{
    e.base == u64::MAX
}

/// The entries of a raw memory map up to its terminator, with their type
/// codes decoded.
pub fn decode_memory_map(raw: &[MemMapEntry<u32>]) -> (r: Vec<MemMapEntry<MemMapFlag>>)
    ensures
        r@.len() == map_len(raw@),
        forall|i: int| 0 <= i < r@.len() ==> r@[i] == decode_entry(raw@[i]),
{
    let mut out: Vec<MemMapEntry<MemMapFlag>> = Vec::new();
    let mut i: usize = 0;
    while i < raw.len() && raw[i].base < u64::MAX
        invariant
            i <= raw@.len(),
            out@.len() == i,
            forall|j: int| 0 <= j < i ==> raw@[j].base != u64::MAX,
            forall|j: int| 0 <= j < i ==> out@[j] == decode_entry(raw@[j]),
        decreases raw@.len() - i,
    {
        let e = raw[i];
        out.push(MemMapEntry { base: e.base, len: e.len, flags: MemMapFlag::from(e.flags), _reserved: e._reserved });
        i = i + 1;
    }
    proof {
        lemma_map_len_prefix(raw@, i as int);
    }
    out
}

/// `x` rounded down to a multiple of `a`.
pub open spec fn round_down(x: int, a: int) -> int {
    x - x % a
}

/// `x` rounded up to a multiple of `a`.
pub open spec fn round_up(x: int, a: int) -> int {
    if x % a == 0 {
        x
    } else {
        x - x % a + a
    }
}

/// Masking with the gibibyte masks keeps or drops the offset inside a
/// gibibyte.
proof fn lemma_gib_masks(x: u64)
    ensures
        x & !0x3fff_ffffu64 == x - x % 0x4000_0000,
        x & 0x3fff_ffffu64 == x % 0x4000_0000,
{
    assert(x & !0x3fff_ffffu64 == x - x % 0x4000_0000) by (bit_vector);
    assert(x & 0x3fff_ffffu64 == x % 0x4000_0000) by (bit_vector);
}

/// Masking with the mebibyte masks keeps or drops the offset inside a
/// mebibyte.
proof fn lemma_mib_masks(x: u64)
    ensures
        x & !0xf_ffffu64 == x - x % 0x10_0000,
        x & 0xf_ffffu64 == x % 0x10_0000,
{
    assert(x & !0xf_ffffu64 == x - x % 0x10_0000) by (bit_vector);
    assert(x & 0xf_ffffu64 == x % 0x10_0000) by (bit_vector);
}

/// A run of physical memory: `len` bytes from `base`.
#[derive(Clone, Copy, Debug, PartialEq, Eq)]
pub struct Span {
    pub base: u64,
    pub len: u64,
}

/// The 1 GiB step of an entry: the part before the first gibibyte boundary,
/// the number of gibibyte pages taken, and what is left after them.
#[derive(Clone, Copy, Debug, PartialEq, Eq)]
pub struct HugeCarve {
    pub head: Span,
    pub pages: u64,
    pub tail: Span,
}

/// The 2 MiB step on the tail: the number of mebibyte pages taken from its
/// front and the tail that remains.
#[derive(Clone, Copy, Debug, PartialEq, Eq)]
pub struct TailCarve {
    pub pages: u64,
    pub tail: Span,
}

/// The 2 MiB step on the head: the part before the first mebibyte boundary,
/// the number of mebibyte pages taken, and a new tail when one is left over.
#[derive(Clone, Copy, Debug, PartialEq, Eq)]
pub struct HeadCarve {
    pub head: Span,
    pub pages: u64,
    pub tail: Option<Span>,
}

/// How one usable entry is cut into page-sized pieces.
#[derive(Clone, Copy, Debug, PartialEq, Eq)]
pub struct EntryPlan {
    pub huge: Option<HugeCarve>,
    pub large_tail: Option<TailCarve>,
    pub large_head: Option<HeadCarve>,
    pub small_pages: u64,
}

/// The first gibibyte boundary at or above `b`.
pub open spec fn huge_start(b: int) -> int {
    round_up(b, GIB as int)
}

/// The whole gibibytes taken from an entry of `l` bytes at `b`.
pub open spec fn huge_size(b: int, l: int) -> int {
    round_down(l - (huge_start(b) - b), GIB as int)
}

/// Head base, head length, tail base and tail length after the 1 GiB step
/// (which only applies to entries of at least a gibibyte).
pub open spec fn after_huge(b: int, l: int) -> (int, int, int, int) {
    if l >= GIB {
        let s = huge_start(b);
        let z = huge_size(b, l);
        (b, s - b, s + z, (b + l) - s + z)
    } else {
        (b, l, b + l, 0)
    }
}

/// Whether the 2 MiB step on the tail applies.
pub open spec fn tail_applies(b: int, l: int) -> bool {
    after_huge(b, l).3 >= MIB
}

/// The whole mebibytes taken from the front of the tail.
pub open spec fn tail_size(b: int, l: int) -> int {
    round_down(after_huge(b, l).3, MIB as int)
}

/// Tail base and length after the 2 MiB step on the tail.
pub open spec fn after_tail(b: int, l: int) -> (int, int) {
    let t = after_huge(b, l);
    if tail_applies(b, l) {
        (t.2 + tail_size(b, l), t.3 - tail_size(b, l))
    } else {
        (t.2, t.3)
    }
}

/// Whether the 2 MiB step on the head applies.
pub open spec fn head_applies(b: int, l: int) -> bool {
    after_huge(b, l).1 >= MIB
}

/// The first mebibyte boundary at or above `b`.
pub open spec fn head_start(b: int) -> int {
    round_up(b, MIB as int)
}

/// The whole mebibytes taken from the head.
pub open spec fn head_size(b: int, l: int) -> int {
    round_down(after_huge(b, l).1 - (head_start(b) - b), MIB as int)
}

/// The end of the head's mebibyte pages minus the end of the head.
pub open spec fn head_right(b: int, l: int) -> int {
    head_start(b) + head_size(b, l) - (b + after_huge(b, l).1)
}

/// Head length once all steps are done.
pub open spec fn final_head_len(b: int, l: int) -> int {
    if head_applies(b, l) {
        head_start(b) - b
    } else {
        after_huge(b, l).1
    }
}

/// Tail base and length once all steps are done.
pub open spec fn final_tail(b: int, l: int) -> (int, int) {
    if head_applies(b, l) && head_right(b, l) != 0 {
        (head_start(b) + head_size(b, l), head_right(b, l))
    } else {
        after_tail(b, l)
    }
}

/// Whether cutting a usable entry stays inside `u64` at every step; where
/// it does not, the unchecked arithmetic of the cut would overflow.
pub open spec fn carve_defined(b: int, l: int) -> bool {
    &&& b + l <= u64::MAX
    &&& l >= GIB ==> huge_start(b) <= u64::MAX && after_huge(b, l).3 <= u64::MAX
    &&& tail_applies(b, l) ==> after_tail(b, l).0 <= u64::MAX
    &&& head_applies(b, l) ==> head_start(b) <= u64::MAX && head_right(b, l) >= 0
}

/// The plan for a usable entry of `l` bytes at `b`.
pub open spec fn usable_plan(b: u64, l: u64) -> EntryPlan {
    let h = after_huge(b as int, l as int);
    let t = after_tail(b as int, l as int);
    let f = final_tail(b as int, l as int);
    EntryPlan {
        huge: if l >= GIB {
            Some(
                HugeCarve {
                    head: Span { base: b, len: h.1 as u64 },
                    pages: (huge_size(b as int, l as int) / GIB as int) as u64,
                    tail: Span { base: h.2 as u64, len: h.3 as u64 },
                },
            )
        } else {
            None
        },
        large_tail: if tail_applies(b as int, l as int) {
            Some(
                TailCarve {
                    pages: (tail_size(b as int, l as int) / MIB as int) as u64,
                    tail: Span { base: t.0 as u64, len: t.1 as u64 },
                },
            )
        } else {
            None
        },
        large_head: if head_applies(b as int, l as int) {
            Some(
                HeadCarve {
                    head: Span { base: b, len: (head_start(b as int) - b) as u64 },
                    pages: (head_size(b as int, l as int) / MIB as int) as u64,
                    tail: if head_right(b as int, l as int) != 0 {
                        Some(Span { base: f.0 as u64, len: f.1 as u64 })
                    } else {
                        None
                    },
                },
            )
        } else {
            None
        },
        small_pages: (final_head_len(b as int, l as int) / 4096 + f.1 / 4096) as u64,
    }
}

/// Cuts a usable entry into gibibyte, mebibyte and 4 KiB pages: first whole
/// gibibytes from the first gibibyte boundary, then whole mebibytes from the
/// front of what follows them, then whole mebibytes from the first mebibyte
/// boundary of what precedes them; the rest counts as 4 KiB pages. `None`
/// exactly when a step would overflow `u64`.
pub fn carve_usable(base: u64, len: u64) -> (r: Option<EntryPlan>)
    ensures
        r == (if carve_defined(base as int, len as int) {
            Some(usable_plan(base, len))
        } else {
            None
        }),
{
    let end = match base.checked_add(len) {
        Some(e) => e,
        None => return None,
    };
    let mut head_len = len;
    let mut tail_base = end;
    let mut tail_len: u64 = 0;
    let mut huge: Option<HugeCarve> = None;
    if len >= GIB {
        proof {
            lemma_gib_masks(base);
        }
        let down = base & !(GIB - 1);
        let up = if base & (GIB - 1) != 0 {
            GIB
        } else {
            0
        };
        let start = match down.checked_add(up) {
            Some(s) => s,
            None => return None,
        };
        assert(start == huge_start(base as int));
        let rest = len - (start - base);
        proof {
            lemma_gib_masks(rest);
        }
        let size = rest & !(GIB - 1);
        assert(size == huge_size(base as int, len as int));
        head_len = start - base;
        tail_base = start + size;
        tail_len = match (end - start).checked_add(size) {
            Some(t) => t,
            None => return None,
        };
        huge = Some(
            HugeCarve {
                head: Span { base, len: head_len },
                pages: size / GIB,
                tail: Span { base: tail_base, len: tail_len },
            },
        );
    }
    assert(after_huge(base as int, len as int) == (base as int, head_len as int, tail_base as int, tail_len as int));
    let mut large_tail: Option<TailCarve> = None;
    if tail_len >= MIB {
        proof {
            lemma_mib_masks(tail_len);
        }
        let size = tail_len & !(MIB - 1);
        assert(size == tail_size(base as int, len as int));
        tail_base = match tail_base.checked_add(size) {
            Some(t) => t,
            None => return None,
        };
        tail_len = tail_len - size;
        large_tail = Some(TailCarve { pages: size / MIB, tail: Span { base: tail_base, len: tail_len } });
    }
    assert(after_tail(base as int, len as int) == (tail_base as int, tail_len as int));
    let mut large_head: Option<HeadCarve> = None;
    if head_len >= MIB {
        proof {
            lemma_mib_masks(base);
        }
        let old_len = head_len;
        let down = base & !(MIB - 1);
        let up = if base & (MIB - 1) != 0 {
            MIB
        } else {
            0
        };
        let start = match down.checked_add(up) {
            Some(s) => s,
            None => return None,
        };
        assert(start == head_start(base as int));
        let rest = old_len - (start - base);
        proof {
            lemma_mib_masks(rest);
        }
        let size = rest & !(MIB - 1);
        assert(size == head_size(base as int, len as int));
        head_len = start - base;
        let stop = start + size;
        let right = match stop.checked_sub(base + old_len) {
            Some(r) => r,
            None => return None,
        };
        if right != 0 {
            tail_base = stop;
            tail_len = right;
            large_head = Some(
                HeadCarve {
                    head: Span { base, len: head_len },
                    pages: size / MIB,
                    tail: Some(Span { base: tail_base, len: tail_len }),
                },
            );
        } else {
            large_head = Some(HeadCarve { head: Span { base, len: head_len }, pages: size / MIB, tail: None });
        }
    }
    let small_pages = head_len / 4096 + tail_len / 4096;
    Some(EntryPlan { huge, large_tail, large_head, small_pages })
}

/// Page counts by size: 4 KiB, 2 MiB and 1 GiB pages.
#[derive(Clone, Copy, Debug, PartialEq, Eq)]
pub struct PageCounts {
    pub small: u64,
    pub large: u64,
    pub huge: u64,
}

/// The page plan of a whole memory map: for each entry its plan (`None` for
/// entries that are not usable) and the page counts over all entries.
#[derive(Debug)]
pub struct HighMemPlan {
    pub entries: Vec<Option<EntryPlan>>,
    pub counts: PageCounts,
}

/// The plan of one decoded entry: only usable entries are cut.
pub open spec fn entry_plan(e: MemMapEntry<MemMapFlag>) -> Option<EntryPlan> {
    if e.flags == MemMapFlag::Usable {
        Some(usable_plan(e.base, e.len))
    } else {
        None
    }
}

/// The 4 KiB, 2 MiB and 1 GiB pages one entry contributes.
#[verifier::opaque]
pub open spec fn entry_counts(e: MemMapEntry<MemMapFlag>) -> (int, int, int) {
    match entry_plan(e) {
        Some(p) => (
            p.small_pages as int,
            (match p.large_tail {
                Some(t) => t.pages as int,
                None => 0,
            }) + (match p.large_head {
                Some(h) => h.pages as int,
                None => 0,
            }),
            match p.huge {
                Some(h) => h.pages as int,
                None => 0,
            },
        ),
        None => (0, 0, 0),
    }
}

/// The page counts summed over a sequence of entries.
pub open spec fn map_totals(s: Seq<MemMapEntry<MemMapFlag>>) -> (int, int, int)
    decreases s.len(),
{
    if s.len() == 0 {
        (0, 0, 0)
    } else {
        let t = map_totals(s.drop_last());
        let c = entry_counts(s.last());
        (t.0 + c.0, t.1 + c.1, t.2 + c.2)
    }
}

/// Whether planning a memory map stays inside `u64`: every usable entry can
/// be cut and the three sums fit.
pub open spec fn plan_defined(s: Seq<MemMapEntry<MemMapFlag>>) -> bool {
    &&& forall|i: int|
        0 <= i < s.len() && #[trigger] s[i].flags == MemMapFlag::Usable ==> carve_defined(
            s[i].base as int,
            s[i].len as int,
        )
    &&& map_totals(s).0 <= u64::MAX
    &&& map_totals(s).1 <= u64::MAX
    &&& map_totals(s).2 <= u64::MAX
}

proof fn lemma_entry_counts_nonneg(e: MemMapEntry<MemMapFlag>)
    ensures
        entry_counts(e).0 >= 0,
        entry_counts(e).1 >= 0,
        entry_counts(e).2 >= 0,
{
    reveal(entry_counts);
}

/// The sums over a prefix never exceed the sums over a longer prefix.
proof fn lemma_totals_prefix_mono(s: Seq<MemMapEntry<MemMapFlag>>, i: int, j: int)
    requires
        0 <= i <= j <= s.len(),
    ensures
        map_totals(s.take(i)).0 <= map_totals(s.take(j)).0,
        map_totals(s.take(i)).1 <= map_totals(s.take(j)).1,
        map_totals(s.take(i)).2 <= map_totals(s.take(j)).2,
    decreases j - i,
{
    if i < j {
        lemma_totals_prefix_mono(s, i, j - 1);
        assert(s.take(j).drop_last() =~= s.take(j - 1));
        lemma_entry_counts_nonneg(s.take(j).last());
    }
}

/// Plans a decoded memory map: each usable entry is cut as `carve_usable`
/// says and the page counts are summed. `None` exactly when a step would
/// overflow `u64`.
pub fn try_plan_high_mem(map: &[MemMapEntry<MemMapFlag>]) -> (r: Option<HighMemPlan>)
    ensures
        r is Some <==> plan_defined(map@),
        r matches Some(p) ==> {
            &&& p.entries@.len() == map@.len()
            &&& forall|i: int| 0 <= i < map@.len() ==> p.entries@[i] == entry_plan(map@[i])
            &&& p.counts.small == map_totals(map@).0
            &&& p.counts.large == map_totals(map@).1
            &&& p.counts.huge == map_totals(map@).2
        },
{
    let mut entries: Vec<Option<EntryPlan>> = Vec::new();
    let mut small: u64 = 0;
    let mut large: u64 = 0;
    let mut huge: u64 = 0;
    let mut i: usize = 0;
    while i < map.len()
        invariant
            i <= map@.len(),
            entries@.len() == i,
            forall|j: int| 0 <= j < i ==> entries@[j] == entry_plan(map@[j]),
            forall|j: int|
                0 <= j < i && #[trigger] map@[j].flags == MemMapFlag::Usable ==> carve_defined(
                    map@[j].base as int,
                    map@[j].len as int,
                ),
            small == map_totals(map@.take(i as int)).0,
            large == map_totals(map@.take(i as int)).1,
            huge == map_totals(map@.take(i as int)).2,
        decreases map@.len() - i,
    {
        let e = map[i];
        let ghost next = map@.take(i + 1);
        proof {
            assert(next.drop_last() =~= map@.take(i as int));
            assert(next.last() == map@[i as int]);
            reveal(entry_counts);
        }
        if e.flags == MemMapFlag::Usable {
            let p = match carve_usable(e.base, e.len) {
                Some(p) => p,
                None => return None,
            };
            let tail_pages = match p.large_tail {
                Some(t) => t.pages,
                None => 0,
            };
            let head_pages = match p.large_head {
                Some(h) => h.pages,
                None => 0,
            };
            let huge_pages = match p.huge {
                Some(h) => h.pages,
                None => 0,
            };
            proof {
                lemma_totals_prefix_mono(map@, i + 1, map@.len() as int);
                assert(map@.take(map@.len() as int) =~= map@);
            }
            small = match small.checked_add(p.small_pages) {
                Some(v) => v,
                None => return None,
            };
            large = match large.checked_add(tail_pages) {
                Some(v) => v,
                None => return None,
            };
            large = match large.checked_add(head_pages) {
                Some(v) => v,
                None => return None,
            };
            huge = match huge.checked_add(huge_pages) {
                Some(v) => v,
                None => return None,
            };
            entries.push(Some(p));
        } else {
            entries.push(None);
        }
        i = i + 1;
    }
    proof {
        assert(map@.take(i as int) =~= map@);
    }
    Some(HighMemPlan { entries, counts: PageCounts { small, large, huge } })
}

/// Plans a decoded memory map whose planning stays inside `u64`; see
/// `try_plan_high_mem`.
pub fn plan_high_mem(map: &[MemMapEntry<MemMapFlag>]) -> (p: HighMemPlan)
    requires
        plan_defined(map@),
    ensures
        p.entries@.len() == map@.len(),
        forall|i: int| 0 <= i < map@.len() ==> p.entries@[i] == entry_plan(map@[i]),
        p.counts.small == map_totals(map@).0,
        p.counts.large == map_totals(map@).1,
        p.counts.huge == map_totals(map@).2,
{
    try_plan_high_mem(map).unwrap()
}

/// What the cut of a usable entry guarantees. The gibibyte pages start on
/// the first gibibyte boundary at or above the base, are whole gibibytes and
/// end inside the entry, and the head before them is shorter than a
/// gibibyte. The head's mebibyte pages start on the first mebibyte boundary
/// at or above the base, are whole mebibytes and end exactly where the head
/// ends, so that step never leaves a new tail and the final head is shorter
/// than a mebibyte. The mebibyte pages taken from the tail are whole
/// mebibytes and leave less than a mebibyte of tail.
pub proof fn lemma_carve_shape(b: u64, l: u64)
    requires
        carve_defined(b as int, l as int),
    ensures
        l >= GIB ==> {
            &&& huge_start(b as int) % (GIB as int) == 0
            &&& b <= huge_start(b as int) < b + GIB
            &&& huge_size(b as int, l as int) % (GIB as int) == 0
            &&& huge_size(b as int, l as int) >= 0
            &&& huge_start(b as int) + huge_size(b as int, l as int) <= b + l
        },
        head_applies(b as int, l as int) ==> {
            &&& head_start(b as int) % (MIB as int) == 0
            &&& b <= head_start(b as int) < b + MIB
            &&& head_size(b as int, l as int) % (MIB as int) == 0
            &&& head_start(b as int) + head_size(b as int, l as int) == b + after_huge(
                b as int,
                l as int,
            ).1
            &&& head_right(b as int, l as int) == 0
            &&& final_head_len(b as int, l as int) < MIB
        },
        tail_applies(b as int, l as int) ==> {
            &&& tail_size(b as int, l as int) % (MIB as int) == 0
            &&& 0 <= after_tail(b as int, l as int).1 < MIB
        },
        usable_plan(b, l).large_head matches Some(h) ==> h.tail is None,
{
}

/// A usable entry of at least a mebibyte but less than a gibibyte can only
/// be cut when it ends on a mebibyte boundary: otherwise the head step's
/// unchecked subtraction goes below zero.
pub proof fn lemma_mid_entry_needs_aligned_end(b: u64, l: u64)
    requires
        MIB <= l < GIB,
        b + l <= u64::MAX,
        head_start(b as int) <= u64::MAX,
    ensures
        carve_defined(b as int, l as int) <==> (b + l) % (MIB as int) == 0,
{
}

/// Planning two maps one after the other counts the same pages as planning
/// them joined.
pub proof fn lemma_totals_concat(s1: Seq<MemMapEntry<MemMapFlag>>, s2: Seq<MemMapEntry<MemMapFlag>>)
    ensures
        map_totals(s1 + s2) == ({
            let a = map_totals(s1);
            let b = map_totals(s2);
            (a.0 + b.0, a.1 + b.1, a.2 + b.2)
        }),
    decreases s2.len(),
{
    if s2.len() == 0 {
        assert(s1 + s2 =~= s1);
    } else {
        lemma_totals_concat(s1, s2.drop_last());
        assert((s1 + s2).drop_last() =~= s1 + s2.drop_last());
    }
}

/// Entries that are not usable add no pages.
pub proof fn lemma_unusable_adds_nothing(s: Seq<MemMapEntry<MemMapFlag>>, e: MemMapEntry<MemMapFlag>)
    requires
        e.flags != MemMapFlag::Usable,
    ensures
        map_totals(s.push(e)) == map_totals(s),
{
    reveal(entry_counts);
    assert(s.push(e).drop_last() =~= s);
}

/// What the plan of a usable entry of `l` bytes at `b` says, in terms of
/// the entry alone. Entries of at least a gibibyte get gibibyte pages: the
/// head before them runs from the base to a gibibyte boundary and is
/// shorter than a gibibyte, and they are as many whole gibibytes as fit in
/// the rest of the entry. The tail after them starts where they end; its
/// length is the entry's length minus the head plus the gibibytes taken.
/// The tail gives up as many whole mebibytes as it holds, from its front.
/// The head gives up whole mebibytes from its first mebibyte boundary up
/// to its own end, leaving less than a mebibyte before them. What is left
/// of head and tail counts in 4 KiB pages, rounded down each.
pub proof fn lemma_plan_in_entry_terms(b: u64, l: u64)
    requires
        carve_defined(b as int, l as int),
    ensures
        ({
            let p = usable_plan(b, l);
            let g = GIB as int;
            let m = MIB as int;
            let hl: int = match p.huge {
                Some(h) => h.head.len as int,
                None => l as int,
            };
            let tb: int = match p.huge {
                Some(h) => h.tail.base as int,
                None => b + l,
            };
            let tl: int = match p.huge {
                Some(h) => h.tail.len as int,
                None => 0,
            };
            let fl: int = match p.large_tail {
                Some(t) => t.tail.len as int,
                None => tl,
            };
            let fh: int = match p.large_head {
                Some(h) => h.head.len as int,
                None => hl,
            };
            &&& (l >= g <==> p.huge is Some)
            &&& p.huge matches Some(h) ==> {
                &&& h.head.base == b
                &&& (b + h.head.len) % g == 0
                &&& h.head.len < g
                &&& h.head.len + h.pages * g <= l
                &&& h.head.len + (h.pages + 1) * g > l
                &&& h.tail.base == b + h.head.len + h.pages * g
                &&& h.tail.len == l - h.head.len + h.pages * g
            }
            &&& (tl >= m <==> p.large_tail is Some)
            &&& p.large_tail matches Some(t) ==> {
                &&& t.pages * m <= tl < (t.pages + 1) * m
                &&& t.tail.base == tb + t.pages * m
                &&& t.tail.len == tl - t.pages * m
            }
            &&& (hl >= m <==> p.large_head is Some)
            &&& p.large_head matches Some(h) ==> {
                &&& h.head.base == b
                &&& (b + h.head.len) % m == 0
                &&& h.head.len < m
                &&& h.head.len + h.pages * m == hl
                &&& h.tail is None
            }
            &&& p.small_pages == fh / 4096 + fl / 4096
        }),
{
    lemma_carve_shape(b, l);
}

/// A map of one entry counts the pages of that entry's plan: its 4 KiB
/// pages, the mebibyte pages of both mebibyte steps, and its gibibyte
/// pages; an entry that is not usable counts none.
pub proof fn lemma_totals_of_one_entry(e: MemMapEntry<MemMapFlag>)
    ensures
        e.flags != MemMapFlag::Usable ==> map_totals(seq![e]) == (0int, 0int, 0int),
        e.flags == MemMapFlag::Usable ==> ({
            let p = usable_plan(e.base, e.len);
            let t = map_totals(seq![e]);
            &&& t.0 == p.small_pages
            &&& t.1 == (match p.large_tail {
                Some(x) => x.pages as int,
                None => 0,
            }) + (match p.large_head {
                Some(x) => x.pages as int,
                None => 0,
            })
            &&& t.2 == (match p.huge {
                Some(x) => x.pages as int,
                None => 0,
            })
        }),
{
    reveal(entry_counts);
    let one = seq![e];
    assert(one.len() == 1);
    assert(one.last() == e);
    assert(one.drop_last() =~= Seq::<MemMapEntry<MemMapFlag>>::empty());
    assert(map_totals(Seq::<MemMapEntry<MemMapFlag>>::empty()) == (0int, 0int, 0int));
    assert(map_totals(one) == ({
        let t = map_totals(one.drop_last());
        let c = entry_counts(one.last());
        (t.0 + c.0, t.1 + c.1, t.2 + c.2)
    }));
}

/// The firmware codes of the kinds: 1 usable, 2 reserved, 3 ACPI
/// reclaimable, 4 ACPI NVS, 5 bad; every other code is unknown.
pub proof fn lemma_flag_codes(code: u32)
    ensures
        flag_from_code(code) == MemMapFlag::Usable <==> code == 1,
        flag_from_code(code) == MemMapFlag::Reserved <==> code == 2,
        flag_from_code(code) == MemMapFlag::ACPI <==> code == 3,
        flag_from_code(code) == MemMapFlag::NVS <==> code == 4,
        flag_from_code(code) == MemMapFlag::Bad <==> code == 5,
        flag_from_code(code) == MemMapFlag::Unknown <==> !(1 <= code <= 5),
{
}

/// The decoded map ends at the first entry whose base is `u64::MAX`: no
/// entry before that point has that base, and the entry right after it, if
/// any, does.
pub proof fn lemma_map_len_stops_at_terminator(raw: Seq<MemMapEntry<u32>>)
    ensures
        map_len(raw) <= raw.len(),
        forall|j: int| 0 <= j < map_len(raw) ==> raw[j].base != u64::MAX,
        map_len(raw) < raw.len() ==> raw[map_len(raw) as int].base == u64::MAX,
    decreases raw.len(),
{
    if raw.len() > 0 && raw[0].base != u64::MAX {
        let rest = raw.drop_first();
        lemma_map_len_stops_at_terminator(rest);
        assert forall|j: int| 0 <= j < map_len(raw) implies raw[j].base != u64::MAX by {
            if j > 0 {
                assert(raw[j] == rest[j - 1]);
            }
        }
        if map_len(raw) < raw.len() {
            assert(raw[map_len(raw) as int] == rest[map_len(rest) as int]);
        }
    }
}

} // verus!
