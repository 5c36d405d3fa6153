use memory_pool_system::nanbox::NanBox;
use memory_pool_system::scratch::{ObjRef, ScratchTable, Value};

#[test]
fn scratch_capacity() {
    // allocating up to capacity never fails; one more reports exhaustion
    let mut scratch = ScratchTable::new(4);
    let mut handles: Vec<ObjRef> = Vec::new();
    let from = NanBox::from_ptr_bits(8);
    for k in 0..4usize {
        let r = ObjRef::new(&mut scratch, &from);
        assert_eq!(r.index(), k);
        handles.push(r);
    }
    assert_eq!(scratch.try_alloc(), None);
    for r in handles {
        r.release(&mut scratch);
    }
    assert_eq!(scratch.try_alloc(), Some(0));
}

#[test]
fn scratch_reuse() {
    // alloc, free, alloc returns the same slot index
    let mut scratch = ScratchTable::new(8);
    let from = NanBox::from_ptr_bits(16);
    let first = ObjRef::new(&mut scratch, &from);
    let held = first.index();
    first.release(&mut scratch);
    let second = ObjRef::new(&mut scratch, &from);
    assert_eq!(second.index(), held);
    second.release(&mut scratch);
}

#[test]
fn objref_snapshots_source() {
    let mut scratch = ScratchTable::new(8);
    let mut from = NanBox::new();
    from.store_ptr(&NanBox::from_ptr_bits(128));
    let r = ObjRef::new(&mut scratch, &from);
    assert_eq!(r.get(&scratch).bits(), 128);
    // overwriting the source later does not touch the snapshot
    from.store_nil();
    assert_eq!(r.get(&scratch).bits(), 128);
    r.release(&mut scratch);
}

#[test]
fn load_nil_and_double() {
    let mut scratch = ScratchTable::new(4);
    let cell = NanBox::new();
    match cell.load(&mut scratch) {
        Value::Nil => {},
        _ => panic!("nil cell must load as Nil"),
    }
    let mut dcell = NanBox::new();
    dcell.store_double_bits(2.75f64.to_bits());
    match dcell.load(&mut scratch) {
        Value::Float(bits) => assert_eq!(f64::from_bits(bits), 2.75),
        _ => panic!("double cell must load as Float"),
    }
}

#[test]
fn load_pointer_roots_a_snapshot() {
    let mut scratch = ScratchTable::new(4);
    let cell = NanBox::from_ptr_bits(40);
    match cell.load(&mut scratch) {
        Value::Obj(r) => {
            assert_eq!(r.get(&scratch).bits(), 40);
            r.release(&mut scratch);
        },
        _ => panic!("pointer cell must load as Obj"),
    }
}

#[test]
fn store_value_variants() {
    let mut scratch = ScratchTable::new(4);
    let mut cell = NanBox::new();
    cell.store(&Value::Float(1.5f64.to_bits()), &scratch);
    assert!(cell.is_double());
    let src = NanBox::from_ptr_bits(24);
    let r = ObjRef::new(&mut scratch, &src);
    cell.store(&Value::Obj(r), &scratch);
    assert!(cell.is_ptr());
    assert_eq!(cell.bits(), 24);
    cell.store(&Value::Nil, &scratch);
    assert!(cell.is_nil());
}
