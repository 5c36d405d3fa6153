use memory_pool_system::errors::RES_OK;
use memory_pool_system::fmt::{
    pack_header, scan_outcome, scan_plan, unpack_header, AreaFormat, Content, Header, Region,
};
use memory_pool_system::nanbox::NanBox;

fn header_word(content: Content, class: u16, length: u32) -> u64 {
    pack_header(&Header { content, class, length })
}

#[test]
fn header_pack_exact_value() {
    // content byte 2, class 42 in bits 16..32, length 32 in the high half
    assert_eq!(header_word(Content::Object, 42, 32), 0x0000_0020_002A_0002);
    assert_eq!(header_word(Content::Padding, 0, 8), 0x0000_0008_0000_0000);
    assert_eq!(header_word(Content::Forward, 7, 16), 0x0000_0010_0007_0001);
}

#[test]
fn header_unpack_round_trip() {
    let w = header_word(Content::Object, 1234, 48);
    let h = unpack_header(w);
    assert!(matches!(h.content, Content::Object));
    assert_eq!(h.class, 1234);
    assert_eq!(h.length, 48);
}

fn three_record_region() -> Region {
    // object of 2 fields (24 bytes), padding (8 bytes), forward (16 bytes)
    let words = vec![
        header_word(Content::Object, 5, 24),
        0x18, // field: a low-tagged reference
        0x3FF0_0000_0000_0000, // field: not a reference (nonzero tag)
        header_word(Content::Padding, 0, 8),
        header_word(Content::Forward, 9, 16),
        0x28, // forwarding address
    ];
    Region::from_words(words)
}

#[test]
fn skip_reaches_limit_record_by_record() {
    // applying skip once per record from the start lands exactly on the limit
    let region = three_record_region();
    let limit = region.byte_len();
    let mut base = 0;
    let mut steps = 0;
    while base < limit {
        base = region.skip(base);
        steps += 1;
    }
    assert_eq!(steps, 3);
    assert_eq!(base, limit);
}

#[test]
fn isfwd_reports_only_forward_records() {
    let mut region = three_record_region();
    assert_eq!(region.isfwd(0), None);
    assert_eq!(region.isfwd(24), None);
    assert_eq!(region.isfwd(32), Some(0x28));
    // forwarding the object record stores the new address in its first field
    region.fwd(0, 0x40);
    assert_eq!(region.isfwd(0), Some(0x40));
    let h = region.header_at(0);
    assert!(matches!(h.content, Content::Forward));
    assert_eq!(h.class, 5); // class and length survive forwarding
    assert_eq!(h.length, 24);
}

#[test]
fn pad_overwrites_record() {
    let mut region = three_record_region();
    region.pad(24, 8);
    let h = region.header_at(24);
    assert!(matches!(h.content, Content::Padding));
    assert_eq!(h.length, 8);
    // padding a larger span over the forward record
    region.pad(32, 16);
    let h2 = region.header_at(32);
    assert!(matches!(h2.content, Content::Padding));
    assert_eq!(h2.length, 16);
}

#[test]
fn scan_finds_references_in_object_records_only() {
    let region = three_record_region();
    let fmt = AreaFormat::tagged::<NanBox>();
    assert_eq!(fmt.mask(), 0xFFFF_0000_0000_0000);
    assert_eq!(fmt.pattern(), 0);
    let limit = region.byte_len();
    let refs = fmt.scan(&region, 0, limit);
    // only the object's first field matches; the double does not, and the
    // forward record's field is not scanned at all
    assert_eq!(refs, vec![8]);
}

#[test]
fn scan_plan_lists_object_field_ranges() {
    let region = three_record_region();
    let limit = region.byte_len();
    let plan = scan_plan(&region, 0, limit);
    assert_eq!(plan, vec![(8, 24)]);
}

#[test]
fn matches_is_the_mask_test() {
    let fmt = AreaFormat::tagged::<NanBox>();
    assert!(fmt.matches(0)); // nil matches the pattern; the collector skips it itself
    assert!(fmt.matches(0x18));
    assert!(!fmt.matches(0x3FF0_0000_0000_0000));
    assert!(!fmt.matches(0xFFFF_0000_0000_0008));
}

#[test]
fn walk_survives_forwarding_and_field_stores() {
    // the collector's rewrites never derail the record walk
    let mut region = three_record_region();
    let limit = region.byte_len();
    region.set_field(0, 0, 0x99);
    region.fwd(0, 0x40);
    let mut base = 0;
    let mut steps = 0;
    while base < limit {
        base = region.skip(base);
        steps += 1;
    }
    assert_eq!(steps, 3);
    assert_eq!(base, limit);
}

#[test]
fn empty_region_scans_to_nothing() {
    let region = Region::new();
    assert_eq!(region.byte_len(), 0);
    let fmt = AreaFormat::tagged::<NanBox>();
    assert_eq!(fmt.scan(&region, 0, 0), Vec::<usize>::new());
    assert_eq!(scan_plan(&region, 0, 0), Vec::<(usize, usize)>::new());
}

#[test]
fn scan_aborts_on_first_failure() {
    assert_eq!(scan_outcome(&vec![]), RES_OK);
    assert_eq!(scan_outcome(&vec![RES_OK, RES_OK, RES_OK]), RES_OK);
    // the first non-success outcome is propagated, later ones never ran
    assert_eq!(scan_outcome(&vec![RES_OK, 3, 7]), 3);
    assert_eq!(scan_outcome(&vec![2]), 2);
}

#[test]
fn field_count_follows_header_length() {
    let region = three_record_region();
    assert_eq!(region.field_count_at(0), 2);
    assert_eq!(region.field_count_at(24), 0);
    assert_eq!(region.field_count_at(32), 1);
}
