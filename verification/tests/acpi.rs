use kernel::acpi::{
    ebda_address, find_signature, locate_rsdp, read_u32_le, read_u64_le, RsdpLocation, TableHeader,
    UnknownTable, BIOS_RO_ADDR, BIOS_RO_SEARCH_LEN, EBDA_SEARCH_LEN, MCFG_SIG, RSDP, RSDP_HEADER,
};
use kernel::util::{bytes_to_elements, k_bytes};

fn header_bytes(sig: &[u8; 4], length: u32) -> Vec<u8> {
    let mut b = Vec::new();
    b.extend_from_slice(sig);
    b.extend_from_slice(&length.to_le_bytes());
    b.push(1);
    b.push(0xab);
    b.extend_from_slice(b"BOCHS ");
    b.extend_from_slice(b"BXPCRSDT");
    b.extend_from_slice(&1u32.to_le_bytes());
    b.extend_from_slice(&0x4350_5842u32.to_le_bytes());
    b.extend_from_slice(&1u32.to_le_bytes());
    b
}

#[test]
fn signature_constants_spell_names() {
    assert_eq!(RSDP_HEADER, u64::from_le_bytes(*b"RSD PTR "));
    assert_eq!(MCFG_SIG, u32::from_le_bytes(*b"MCFG"));
}

#[test]
fn search_lengths() {
    assert_eq!(EBDA_SEARCH_LEN, bytes_to_elements::<u64>(k_bytes(1)));
    assert_eq!(BIOS_RO_SEARCH_LEN, bytes_to_elements::<u64>(0x100000 - 0xe0000));
}

#[test]
fn little_endian_reads() {
    let b = [0x78, 0x56, 0x34, 0x12, 0xf0, 0xde, 0xbc, 0x9a, 0x00];
    assert_eq!(read_u32_le(&b, 0), 0x1234_5678);
    assert_eq!(read_u32_le(&b, 1), 0xf012_3456);
    assert_eq!(read_u64_le(&b, 0), 0x9abc_def0_1234_5678);
}

#[test]
fn rsdp_from_bytes() {
    let mut b = Vec::new();
    b.extend_from_slice(b"RSD PTR ");
    b.push(0x42);
    b.extend_from_slice(b"BOCHS ");
    b.push(0);
    b.extend_from_slice(&0x07fe_1234u32.to_le_bytes());
    let r = RSDP::from_bytes(&b);
    assert_eq!(r.signature, RSDP_HEADER);
    assert_eq!(r.checksum, 0x42);
    assert_eq!(&r.oem_id, b"BOCHS ");
    assert_eq!(r.revision, 0);
    assert_eq!(r.rsdt, 0x07fe_1234);
}

#[test]
fn header_from_bytes() {
    let b = header_bytes(b"RSDT", 44);
    let h = TableHeader::from_bytes(&b);
    assert_eq!(h.signature, u32::from_le_bytes(*b"RSDT"));
    assert_eq!(h.length, 44);
    assert_eq!(h.revision, 1);
    assert_eq!(h.checksum, 0xab);
    assert_eq!(&h.oem_id, b"BOCHS ");
    assert_eq!(&h.oem_table_id, b"BXPCRSDT");
    assert_eq!(h.oem_revision, 1);
    assert_eq!(h.creator_id, 0x4350_5842);
    assert_eq!(h.creator_revision, 1);
}

#[test]
fn rsdt_lists_table_addresses() {
    let mut b = header_bytes(b"RSDT", 36 + 12 + 3);
    b.extend_from_slice(&0x07fe_1000u32.to_le_bytes());
    b.extend_from_slice(&0x07fe_2000u32.to_le_bytes());
    b.extend_from_slice(&0x07fe_3000u32.to_le_bytes());
    b.extend_from_slice(&[1, 2, 3]);
    let t = UnknownTable::rsdt(&b);
    assert_eq!(t.header.length, 51);
    assert_eq!(t.pointer_to_other_sdt, vec![0x07fe_1000, 0x07fe_2000, 0x07fe_3000]);
}

#[test]
fn rsdt_without_entries() {
    let b = header_bytes(b"RSDT", 36);
    assert!(UnknownTable::rsdt(&b).pointer_to_other_sdt.is_empty());
}

#[test]
fn signature_only_on_even_words() {
    let mut w = vec![0u64; 8];
    w[3] = RSDP_HEADER;
    assert_eq!(find_signature(&w), None);
    w[6] = RSDP_HEADER;
    assert_eq!(find_signature(&w), Some(6));
    w[2] = RSDP_HEADER;
    assert_eq!(find_signature(&w), Some(2));
    let odd = vec![0, 0, 0, 0, RSDP_HEADER];
    assert_eq!(find_signature(&odd), Some(4));
    assert_eq!(find_signature(&[]), None);
}

#[test]
fn ebda_searched_before_bios() {
    let mut ebda = vec![0u64; 4];
    let mut bios = vec![0u64; 4];
    bios[2] = RSDP_HEADER;
    assert_eq!(locate_rsdp(&ebda, &bios), Some(RsdpLocation::BiosRo(2)));
    ebda[0] = RSDP_HEADER;
    assert_eq!(locate_rsdp(&ebda, &bios), Some(RsdpLocation::Ebda(0)));
    assert_eq!(locate_rsdp(&[0, RSDP_HEADER], &[0, 0, 0, RSDP_HEADER]), None);
}

#[test]
fn rsdp_addresses() {
    assert_eq!(ebda_address(0x9fc0), 0x9fc00);
    assert_eq!(RsdpLocation::BiosRo(2).address(0), BIOS_RO_ADDR + 16);
    assert_eq!(RsdpLocation::Ebda(4).address(0x9fc00), 0x9fc20);
}
