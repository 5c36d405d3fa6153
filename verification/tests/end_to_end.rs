use memory_pool_system::clamp::Clamp;
use memory_pool_system::fmt::{AreaFormat, Content, Region};
use memory_pool_system::nanbox::NanBox;
use memory_pool_system::root::{alloc_obj, CljType, ObjType, RootTable};
use memory_pool_system::scratch::{ScratchTable, Value};

#[test]
fn end_to_end() {
    // a root table of 4096 slots, zero-initialized
    let mut slot: RootTable = RootTable::new(4096);
    assert_eq!(slot.len(), 4096);
    assert_eq!(slot.read(0), 0);

    // allocate an object of class id 42 with 3 fields into slot 0
    let mut region = Region::new();
    let ty = CljType { id: 42, count: 3 };
    assert_eq!(ty.count(), 3);
    assert_eq!(ty.id(), 42);
    alloc_obj(slot.at_mut(0), &mut region, &ty);
    let addr = slot.read(0);
    assert_eq!(addr, 8); // first-field address of the first record
    assert!(slot.at(0).is_ptr());

    // loading slot 0 yields an object handle whose header reports 3 fields
    let mut scratch = ScratchTable::new(128);
    match slot.at(0).load(&mut scratch) {
        Value::Obj(handle) => {
            let base = (handle.get(&scratch).bits() - 8) as usize;
            let header = region.header_at(base);
            assert!(matches!(header.content, Content::Object));
            assert_eq!(header.class, 42);
            assert_eq!(region.field_count_at(base), 3);
            // fields are header-relative; store a double into field 1
            assert_eq!(region.field_at(base, 1), 0);
            let mut field = NanBox::new();
            field.store_double_bits(3.14f64.to_bits());
            region.set_field(base, 1, field.bits());
            assert_eq!(
                f64::from_bits(NanBox::from_bits(region.field_at(base, 1)).load_double_bits()),
                3.14
            );
            handle.release(&mut scratch);
        },
        _ => panic!("slot 0 must load as an object"),
    }

    // storing nil removes the root's reference
    slot.store_nil_at(0);
    assert_eq!(slot.read(0), 0);
    assert!(slot.at(0).is_nil());

    // a collection under a clamp: one clamp request, a full scan of the
    // region that follows no reference out of it, one release request
    let mut clamp = Clamp::new();
    assert!(clamp.acquire());
    let fmt = AreaFormat::tagged::<NanBox>();
    let limit = region.byte_len();
    let refs = fmt.scan(&region, 0, limit);
    // fields 0 and 2 are nil, which the collector skips itself; field 1
    // holds a double and is no reference
    assert_eq!(refs, vec![8, 24]);
    assert!(clamp.release());
}
