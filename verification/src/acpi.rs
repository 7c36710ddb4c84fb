use vstd::prelude::*;

verus! {

/// Address of the BIOS data-area word holding the EBDA segment.
pub const EBDA_PTR_ADDR: usize = 0x40e;

/// Number of 8-byte words searched in the EBDA: its first kibibyte.
pub const EBDA_SEARCH_LEN: usize = 128;

/// Start of the read-only BIOS area searched second.
pub const BIOS_RO_ADDR: usize = 0xe0000;

/// Number of 8-byte words searched in the BIOS area: up to 1 MiB.
pub const BIOS_RO_SEARCH_LEN: usize = 16384;

/// The signature `"RSD PTR "` read as a little-endian word.
pub const RSDP_HEADER: u64 = 0x2052_5450_2044_5352;

/// The signature `"MCFG"` read as a little-endian word.
pub const MCFG_SIG: u32 = 0x4746_434d;

/// Size in bytes of a system description table header.
pub const TABLE_HEADER_LEN: usize = 36;

/// Size in bytes of the ACPI 1.0 root system description pointer.
pub const RSDP_LEN: usize = 20;

/// The little-endian value of `n` bytes of `s` from `i`.
pub open spec fn le_value(s: Seq<u8>, i: int, n: nat) -> int
    decreases n,
{
    if n == 0 {
        0
    } else {
        s[i] + 256 * le_value(s, i + 1, (n - 1) as nat)
    }
}

/// Reads a little-endian `u32` at `i`.
pub fn read_u32_le(b: &[u8], i: usize) -> (r: u32)
    requires
        i + 4 <= b@.len(),
    ensures
        r == le_value(b@, i as int, 4),
{
    proof {
        reveal_with_fuel(le_value, 5);
    }
    (b[i] as u32) + 256 * ((b[i + 1] as u32) + 256 * ((b[i + 2] as u32) + 256 * (b[i + 3] as u32)))
}

/// Reads a little-endian `u64` at `i`.
pub fn read_u64_le(b: &[u8], i: usize) -> (r: u64)
    requires
        i + 8 <= b@.len(),
    ensures
        r == le_value(b@, i as int, 8),
{
    proof {
        reveal_with_fuel(le_value, 9);
    }
    assert(i + 8 <= b.len());
    let lo = read_u32_le(b, i) as u64;
    let hi = read_u32_le(b, i + 4) as u64;
    proof {
        reveal_with_fuel(le_value, 9);
        lemma_le_split(b@, i as int);
    }
    lo + 0x1_0000_0000 * hi
}

proof fn lemma_le_split(s: Seq<u8>, i: int)
    ensures
        le_value(s, i, 8) == le_value(s, i, 4) + 0x1_0000_0000 * le_value(s, i + 4, 4),
{
    reveal_with_fuel(le_value, 9);
}

/// The ACPI 1.0 root system description pointer.
#[derive(Clone, Copy, Debug, PartialEq, Eq)]
pub struct RSDP {
    pub signature: u64,
    pub checksum: u8,
    pub oem_id: [u8; 6],
    pub revision: u8,
    pub rsdt: u32,
}

/// The pointer laid out in the 20 bytes of `s` from `i`.
pub open spec fn rsdp_at(s: Seq<u8>, i: int) -> RSDP {
    RSDP {
        signature: le_value(s, i, 8) as u64,
        checksum: s[i + 8],
        oem_id: [s[i + 9], s[i + 10], s[i + 11], s[i + 12], s[i + 13], s[i + 14]],
        revision: s[i + 15],
        rsdt: le_value(s, i + 16, 4) as u32,
    }
}

impl RSDP {
    /// Reads the pointer from the first 20 bytes of `b`.
    pub fn from_bytes(b: &[u8]) -> (r: Self)
        requires
            b@.len() >= RSDP_LEN,
        ensures
            r == rsdp_at(b@, 0),
    {
        RSDP {
            signature: read_u64_le(b, 0),
            checksum: b[8],
            oem_id: [b[9], b[10], b[11], b[12], b[13], b[14]],
            revision: b[15],
            rsdt: read_u32_le(b, 16),
        }
    }
}

/// The header shared by all system description tables.
#[derive(Clone, Copy, Debug, PartialEq, Eq)]
pub struct TableHeader {
    pub signature: u32,
    pub length: u32,
    pub revision: u8,
    pub checksum: u8,
    pub oem_id: [u8; 6],
    pub oem_table_id: [u8; 8],
    pub oem_revision: u32,
    pub creator_id: u32,
    pub creator_revision: u32,
}

/// The header laid out in the 36 bytes of `s` from `i`.
pub open spec fn header_at(s: Seq<u8>, i: int) -> TableHeader {
    TableHeader {
        signature: le_value(s, i, 4) as u32,
        length: le_value(s, i + 4, 4) as u32,
        revision: s[i + 8],
        checksum: s[i + 9],
        oem_id: [s[i + 10], s[i + 11], s[i + 12], s[i + 13], s[i + 14], s[i + 15]],
        oem_table_id: [
            s[i + 16],
            s[i + 17],
            s[i + 18],
            s[i + 19],
            s[i + 20],
            s[i + 21],
            s[i + 22],
            s[i + 23],
        ],
        oem_revision: le_value(s, i + 24, 4) as u32,
        creator_id: le_value(s, i + 28, 4) as u32,
        creator_revision: le_value(s, i + 32, 4) as u32,
    }
}

impl TableHeader {
    /// Reads a header from the first 36 bytes of `b`.
    pub fn from_bytes(b: &[u8]) -> (r: Self)
        requires
            b@.len() >= TABLE_HEADER_LEN,
        ensures
            r == header_at(b@, 0),
    {
        TableHeader {
            signature: read_u32_le(b, 0),
            length: read_u32_le(b, 4),
            revision: b[8],
            checksum: b[9],
            oem_id: [b[10], b[11], b[12], b[13], b[14], b[15]],
            oem_table_id: [b[16], b[17], b[18], b[19], b[20], b[21], b[22], b[23]],
            oem_revision: read_u32_le(b, 24),
            creator_id: read_u32_le(b, 28),
            creator_revision: read_u32_le(b, 32),
        }
    }
}

/// The root system description table: its header and the 32-bit addresses
/// of the other tables.
#[derive(Clone, Debug, PartialEq, Eq)]
pub struct RSDT {
    pub header: TableHeader,
    pub pointer_to_other_sdt: Vec<u32>,
}

/// A table whose kind is known only from its header.
#[derive(Clone, Copy, Debug, PartialEq, Eq)]
pub struct UnknownTable {
    pub header: TableHeader,
}

/// The PCI Express memory-mapped configuration table.
#[derive(Clone, Copy, Debug, PartialEq, Eq)]
pub struct MCFG {
    pub header: TableHeader,
}

/// How many 32-bit table addresses follow the header of a root table of
/// `length` bytes.
pub open spec fn rsdt_entry_count(length: u32) -> int {
    (length - TABLE_HEADER_LEN) / 4
}

impl UnknownTable {
    /// Reads the root table laid out in `b`: its header, then as many 32-bit
    /// addresses as fit in the length the header gives.
    pub fn rsdt(b: &[u8]) -> (r: RSDT)
        requires
            b@.len() >= TABLE_HEADER_LEN,
            header_at(b@, 0).length >= TABLE_HEADER_LEN,
            b@.len() >= header_at(b@, 0).length,
        ensures
            r.header == header_at(b@, 0),
            r.pointer_to_other_sdt@.len() == rsdt_entry_count(r.header.length),
            TABLE_HEADER_LEN + 4 * r.pointer_to_other_sdt@.len() <= r.header.length,
            r.header.length < TABLE_HEADER_LEN + 4 * (r.pointer_to_other_sdt@.len() + 1),
            forall|k: int|
                0 <= k < r.pointer_to_other_sdt@.len() ==> r.pointer_to_other_sdt@[k] == le_value(
                    b@,
                    TABLE_HEADER_LEN + 4 * k,
                    4,
                ),
    {
        let header = TableHeader::from_bytes(b);
        let count = (header.length as usize - TABLE_HEADER_LEN) / 4;
        let mut entries: Vec<u32> = Vec::new();
        let mut k: usize = 0;
        while k < count
            invariant
                k <= count,
                count == rsdt_entry_count(header.length),
                TABLE_HEADER_LEN + 4 * count <= b@.len(),
                entries@.len() == k,
                forall|j: int|
                    0 <= j < k ==> entries@[j] == le_value(b@, TABLE_HEADER_LEN + 4 * j, 4),
            decreases count - k,
        {
            entries.push(read_u32_le(b, TABLE_HEADER_LEN + 4 * k));
            k = k + 1;
        }
        RSDT { header, pointer_to_other_sdt: entries }
    }
}

/// Whether word `i` of `words` is one the search looks at and holds the
/// signature: the search steps two words (16 bytes) at a time.
pub open spec fn signature_at(words: Seq<u64>, i: int) -> bool {
    0 <= i < words.len() && i % 2 == 0 && words[i] == RSDP_HEADER
}

/// Finds the first word at an even index that holds the signature.
pub fn find_signature(words: &[u64]) -> (r: Option<usize>)
    ensures
        r matches Some(i) ==> signature_at(words@, i as int) && forall|j: int|
            0 <= j < i ==> !signature_at(words@, j),
        r is None ==> forall|j: int| 0 <= j < words@.len() ==> !signature_at(words@, j),
{
    let mut i: usize = 0;
    while i < words.len()
        invariant
            i <= words@.len() + 1,
            i % 2 == 0,
            forall|j: int| 0 <= j < i && j < words@.len() ==> !signature_at(words@, j),
        decreases words@.len() - i + 2,
    {
        if words[i] == RSDP_HEADER {
            return Some(i);
        }
        if words.len() - i < 2 {
            return None;
        }
        i = i + 2;
    }
    None
}

/// Where the root pointer was found: the word index inside the EBDA search
/// or inside the BIOS-area search.
#[derive(Clone, Copy, Debug, PartialEq, Eq)]
pub enum RsdpLocation {
    Ebda(usize),
    BiosRo(usize),
}

/// Whether `i` is the first word of a search that holds the signature.
pub open spec fn is_first_signature(words: Seq<u64>, i: int) -> bool {
    signature_at(words, i) && forall|j: int| 0 <= j < i ==> !signature_at(words, j)
}

/// Whether some word of a search holds the signature.
pub open spec fn has_signature(words: Seq<u64>) -> bool {
    exists|i: int| signature_at(words, i)
}

/// Looks for the root pointer first in the EBDA words, then in the BIOS-area
/// words, and reports the first hit.
pub fn locate_rsdp(ebda: &[u64], bios: &[u64]) -> (r: Option<RsdpLocation>)
    ensures
        r matches Some(RsdpLocation::Ebda(i)) ==> is_first_signature(ebda@, i as int),
        r matches Some(RsdpLocation::BiosRo(i)) ==> !has_signature(ebda@) && is_first_signature(
            bios@,
            i as int,
        ),
        r is None <==> !has_signature(ebda@) && !has_signature(bios@),
{
    match find_signature(ebda) {
        Some(i) => Some(RsdpLocation::Ebda(i)),
        None => match find_signature(bios) {
            Some(i) => Some(RsdpLocation::BiosRo(i)),
            None => None,
        },
    }
}

/// The address of the EBDA, given the segment stored in the BIOS data area.
pub fn ebda_address(segment: u16) -> (r: usize)
    ensures
        r == segment * 16,
{
    assert((segment as usize) << 4 == segment * 16) by (bit_vector)
        requires
            segment < 0x10000,
    ;
    (segment as usize) << 4
}

impl RsdpLocation {
    /// The address of the root pointer, given where the EBDA starts.
    pub fn address(self, ebda_base: usize) -> (r: usize)
        requires
            self matches RsdpLocation::Ebda(i) ==> ebda_base + 8 * i <= usize::MAX,
            self matches RsdpLocation::BiosRo(i) ==> BIOS_RO_ADDR + 8 * i <= usize::MAX,
        ensures
            self matches RsdpLocation::Ebda(i) ==> r == ebda_base + 8 * i,
            self matches RsdpLocation::BiosRo(i) ==> r == BIOS_RO_ADDR + 8 * i,
    {
        match self {
            RsdpLocation::Ebda(i) => ebda_base + 8 * i,
            RsdpLocation::BiosRo(i) => BIOS_RO_ADDR + 8 * i,
        }
    }
}

/// The search signature is the text `"RSD PTR "` read little-endian, and
/// the MCFG signature is the text `"MCFG"`.
pub proof fn lemma_signatures_spell_names()
    ensures
        le_value(seq![0x52u8, 0x53, 0x44, 0x20, 0x50, 0x54, 0x52, 0x20], 0, 8) == RSDP_HEADER,
        le_value(seq![0x4du8, 0x43, 0x46, 0x47], 0, 4) == MCFG_SIG,
{
    reveal_with_fuel(le_value, 9);
}

/// A root table of `length` bytes lists as many addresses as there are
/// whole 4-byte slots after its 36-byte header: they fit in the length,
/// and one more would not.
pub proof fn lemma_rsdt_count_fills_length(length: u32)
    requires
        length >= TABLE_HEADER_LEN,
    ensures
        rsdt_entry_count(length) >= 0,
        TABLE_HEADER_LEN + 4 * rsdt_entry_count(length) <= length,
        length < TABLE_HEADER_LEN + 4 * (rsdt_entry_count(length) + 1),
{
}

/// The ACPI 1.0 root pointer layout: the signature in bytes 0..8, the
/// checksum at 8, the OEM id in 9..15, the revision at 15 and the root
/// table address in 16..20, multi-byte fields little-endian.
pub proof fn lemma_rsdp_layout(s: Seq<u8>, i: int)
    ensures
        rsdp_at(s, i).signature == le_value(s, i, 8) as u64,
        rsdp_at(s, i).checksum == s[i + 8],
        forall|k: int| 0 <= k < 6 ==> rsdp_at(s, i).oem_id@[k] == s[i + 9 + k],
        rsdp_at(s, i).revision == s[i + 15],
        rsdp_at(s, i).rsdt == le_value(s, i + 16, 4) as u32,
{
    let r = rsdp_at(s, i);
    assert forall|k: int| 0 <= k < 6 implies r.oem_id@[k] == s[i + 9 + k] by {
        if k == 0 {} else if k == 1 {} else if k == 2 {} else if k == 3 {} else if k == 4 {} else {}
    }
}

/// The system description table header layout: signature in bytes 0..4,
/// length in 4..8, revision at 8, checksum at 9, OEM id in 10..16, OEM
/// table id in 16..24, OEM revision in 24..28, creator id in 28..32 and
/// creator revision in 32..36, multi-byte fields little-endian.
pub proof fn lemma_header_layout(s: Seq<u8>, i: int)
    ensures
        header_at(s, i).signature == le_value(s, i, 4) as u32,
        header_at(s, i).length == le_value(s, i + 4, 4) as u32,
        header_at(s, i).revision == s[i + 8],
        header_at(s, i).checksum == s[i + 9],
        forall|k: int| 0 <= k < 6 ==> header_at(s, i).oem_id@[k] == s[i + 10 + k],
        forall|k: int| 0 <= k < 8 ==> header_at(s, i).oem_table_id@[k] == s[i + 16 + k],
        header_at(s, i).oem_revision == le_value(s, i + 24, 4) as u32,
        header_at(s, i).creator_id == le_value(s, i + 28, 4) as u32,
        header_at(s, i).creator_revision == le_value(s, i + 32, 4) as u32,
{
    let h = header_at(s, i);
    assert forall|k: int| 0 <= k < 6 implies h.oem_id@[k] == s[i + 10 + k] by {
        if k == 0 {} else if k == 1 {} else if k == 2 {} else if k == 3 {} else if k == 4 {} else {}
    }
    assert forall|k: int| 0 <= k < 8 implies h.oem_table_id@[k] == s[i + 16 + k] by {
        if k == 0 {} else if k == 1 {} else if k == 2 {} else if k == 3 {} else if k == 4 {}
        else if k == 5 {} else if k == 6 {} else {}
    }
}

/// A little-endian value of `n` bytes lies in `0 .. 256^n`, and equal
/// values come from equal bytes.
pub proof fn lemma_le_value_bytes(s: Seq<u8>, i: int)
    ensures
        0 <= le_value(s, i, 4) < 0x1_0000_0000,
        le_value(s, i, 4) % 256 == s[i],
        (le_value(s, i, 4) / 256) % 256 == s[i + 1],
        (le_value(s, i, 4) / 65536) % 256 == s[i + 2],
        le_value(s, i, 4) / 16777216 == s[i + 3],
{
    reveal_with_fuel(le_value, 5);
}

} // verus!
