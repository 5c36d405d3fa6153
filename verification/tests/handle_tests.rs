use memory_pool_system::handle::build_handle_table;
use memory_pool_system::handle::FreeRootItemList;

#[test]
fn check_slot_alloc() {
    let mut f: FreeRootItemList = build_handle_table();
    let t = f.alloc_handle(10000);
    assert_eq!(f.content_at(t.index() as usize), Some(10000));
}

#[test]
fn handle_alloc_and_drop() {
    let mut f: FreeRootItemList = build_handle_table();
    let open = f.open_slot();
    let t = f.alloc_handle(10000);
    f.free_handle(t);
    assert_eq!(f.open_slot(), open);
}

#[test]
fn handle_alloc() {
    let mut f: FreeRootItemList = build_handle_table();
    let t = f.alloc_handle(10000);
    assert_eq!(t.index(), 0);
    let t2 = f.alloc_handle(10001);
    assert_eq!(t2.index(), 1);
}

#[test]
fn handle_free_relinks_chain() {
    let mut f: FreeRootItemList = build_handle_table();
    let t = f.alloc_handle(10000);
    let t1 = f.alloc_handle(10001);
    let t2 = f.alloc_handle(10002);
    let _t3 = f.alloc_handle(10004);
    assert_eq!(t.index(), 0);
    let i1 = t1.index();
    let i2 = t2.index();
    f.free_handle(t1);
    f.free_handle(t2);
    // slot released last is the first handed out again
    assert_eq!(f.open_slot(), i2);
    let t4 = f.alloc_handle(10005);
    assert_eq!(t4.index(), i2);
    assert_eq!(f.open_slot(), i1);
}
