use kernel::memory::{
    carve_usable, decode_memory_map, is_map_terminator, plan_high_mem, try_plan_high_mem, EntryPlan,
    HeadCarve, HugeCarve, MemMapEntry, MemMapFlag, Span, TailCarve,
};

fn raw(base: u64, len: u64, flags: u32) -> MemMapEntry<u32> {
    MemMapEntry { base, len, flags, _reserved: 0 }
}

fn entry(base: u64, len: u64, flags: MemMapFlag) -> MemMapEntry<MemMapFlag> {
    MemMapEntry { base, len, flags, _reserved: 0 }
}

#[test]
fn flag_from_known_codes() {
    assert_eq!(MemMapFlag::from(1), MemMapFlag::Usable);
    assert_eq!(MemMapFlag::from(2), MemMapFlag::Reserved);
    assert_eq!(MemMapFlag::from(3), MemMapFlag::ACPI);
    assert_eq!(MemMapFlag::from(4), MemMapFlag::NVS);
    assert_eq!(MemMapFlag::from(5), MemMapFlag::Bad);
}

#[test]
fn flag_from_unknown_codes() {
    assert_eq!(MemMapFlag::from(0), MemMapFlag::Unknown);
    assert_eq!(MemMapFlag::from(6), MemMapFlag::Unknown);
    assert_eq!(MemMapFlag::from(u32::MAX), MemMapFlag::Unknown);
}

#[test]
fn flag_code_round_trip() {
    for code in 0u32..10 {
        let f = MemMapFlag::from(code);
        assert_eq!(MemMapFlag::from(f.code()), f);
        if (1..=5).contains(&code) {
            assert_eq!(f.code(), code);
        } else {
            assert_eq!(f.code(), 0);
        }
    }
}

#[test]
fn terminator_is_max_base() {
    assert!(is_map_terminator(&raw(u64::MAX, 0, 0)));
    assert!(!is_map_terminator(&raw(u64::MAX - 1, 0, 0)));
}

#[test]
fn decode_stops_at_terminator() {
    let map = vec![
        raw(0, 0x9fc00, 1),
        raw(0x9fc00, 0x400, 2),
        raw(0x100000, 0x7ee0000, 1),
        raw(0xfffc0000, 0x40000, 9),
        raw(u64::MAX, 0, 0),
        raw(0x1_0000_0000, 0x1000, 1),
    ];
    let d = decode_memory_map(&map);
    assert_eq!(d.len(), 4);
    assert_eq!(d[0], entry(0, 0x9fc00, MemMapFlag::Usable));
    assert_eq!(d[1].flags, MemMapFlag::Reserved);
    assert_eq!(d[2].len, 0x7ee0000);
    assert_eq!(d[3].flags, MemMapFlag::Unknown);
}

#[test]
fn decode_without_terminator_takes_all() {
    let map = vec![raw(0, 0x1000, 3), raw(0x1000, 0x1000, 4)];
    let d = decode_memory_map(&map);
    assert_eq!(d.len(), 2);
    assert_eq!(d[0].flags, MemMapFlag::ACPI);
    assert_eq!(d[1].flags, MemMapFlag::NVS);
    assert!(decode_memory_map(&[]).is_empty());
}

#[test]
fn small_entry_is_only_4k_pages() {
    let p = carve_usable(0, 0x9fc00).unwrap();
    assert_eq!(p, EntryPlan { huge: None, large_tail: None, large_head: None, small_pages: 159 });
}

#[test]
fn aligned_two_mebibytes() {
    let p = carve_usable(0x100000, 0x200000).unwrap();
    assert_eq!(
        p,
        EntryPlan {
            huge: None,
            large_tail: None,
            large_head: Some(HeadCarve { head: Span { base: 0x100000, len: 0 }, pages: 2, tail: None }),
            small_pages: 0,
        }
    );
}

#[test]
fn unaligned_start_leaves_small_head() {
    let p = carve_usable(0x180000, 0x280000).unwrap();
    assert_eq!(
        p,
        EntryPlan {
            huge: None,
            large_tail: None,
            large_head: Some(HeadCarve { head: Span { base: 0x180000, len: 0x80000 }, pages: 2, tail: None }),
            small_pages: 128,
        }
    );
}

#[test]
fn gibibyte_entry_is_cut_three_ways() {
    let p = carve_usable(0x100000, 0x8000_0000).unwrap();
    assert_eq!(
        p.huge,
        Some(HugeCarve {
            head: Span { base: 0x100000, len: 0x3ff0_0000 },
            pages: 1,
            tail: Span { base: 0x8000_0000, len: 0x8010_0000 },
        })
    );
    assert_eq!(p.large_tail, Some(TailCarve { pages: 2049, tail: Span { base: 0x1_0010_0000, len: 0 } }));
    assert_eq!(p.large_head, Some(HeadCarve { head: Span { base: 0x100000, len: 0 }, pages: 1023, tail: None }));
    assert_eq!(p.small_pages, 0);
}

#[test]
fn unaligned_mid_entry_end_cannot_be_cut() {
    assert_eq!(carve_usable(0x100000, 0x180000), None);
    assert_eq!(carve_usable(0x100000, 0x7ee0000), None);
}

#[test]
fn entry_past_end_of_space_cannot_be_cut() {
    assert_eq!(carve_usable(u64::MAX - 10, 100), None);
}

#[test]
fn map_totals_add_up() {
    let map = vec![
        entry(0, 0x9fc00, MemMapFlag::Usable),
        entry(0x9fc00, 0x400, MemMapFlag::Reserved),
        entry(0x100000, 0x8000_0000, MemMapFlag::Usable),
        entry(0x180000, 0x280000, MemMapFlag::Usable),
    ];
    let plan = plan_high_mem(&map);
    assert_eq!(plan.entries.len(), 4);
    assert_eq!(plan.entries[1], None);
    assert_eq!(plan.entries[0].unwrap().small_pages, 159);
    assert_eq!(plan.counts.small, 159 + 128);
    assert_eq!(plan.counts.large, 2049 + 1023 + 2);
    assert_eq!(plan.counts.huge, 1);
}

#[test]
fn unusable_entries_add_nothing() {
    let map = vec![entry(0x100000, 0x8000_0000, MemMapFlag::Reserved), entry(0, 0x180000, MemMapFlag::Bad)];
    let plan = try_plan_high_mem(&map).unwrap();
    assert_eq!(plan.counts.small, 0);
    assert_eq!(plan.counts.large, 0);
    assert_eq!(plan.counts.huge, 0);
}

#[test]
fn map_with_uncuttable_entry_has_no_plan() {
    let map = vec![entry(0, 0x9fc00, MemMapFlag::Usable), entry(0x100000, 0x7ee0000, MemMapFlag::Usable)];
    assert!(try_plan_high_mem(&map).is_none());
}

#[test]
fn empty_map_plans_nothing() {
    let plan = plan_high_mem(&[]);
    assert!(plan.entries.is_empty());
    assert_eq!(plan.counts.small, 0);
}

#[test]
fn planning_joined_maps_adds_counts() {
    let m1 = vec![entry(0, 0x9fc00, MemMapFlag::Usable), entry(0x180000, 0x280000, MemMapFlag::Usable)];
    let m2 = vec![entry(0x100000, 0x8000_0000, MemMapFlag::Usable), entry(0, 0x1000, MemMapFlag::NVS)];
    let mut joined = m1.clone();
    joined.extend_from_slice(&m2);
    let p1 = plan_high_mem(&m1);
    let p2 = plan_high_mem(&m2);
    let pj = plan_high_mem(&joined);
    assert_eq!(pj.counts.small, p1.counts.small + p2.counts.small);
    assert_eq!(pj.counts.large, p1.counts.large + p2.counts.large);
    assert_eq!(pj.counts.huge, p1.counts.huge + p2.counts.huge);
}

#[test]
fn huge_pages_start_on_gibibyte_boundary() {
    let p = carve_usable(0x1234_5000, 0x1_8000_0000).unwrap();
    let h = p.huge.unwrap();
    assert_eq!((h.head.base + h.head.len) % (1 << 30), 0);
    assert!(h.head.len < 1 << 30);
    assert_eq!(p.large_head.unwrap().tail, None);
    assert!(p.large_head.unwrap().head.len < 1 << 20);
}
