use iec61850_mms::mms::client::error::ClientError;
use iec61850_mms::mms::client::invoke_id::InvokeIdAllocator;

#[test]
fn allocate_sequential_ids() {
    let mut alloc = InvokeIdAllocator::new(5);
    let id1 = alloc.allocate().unwrap();
    let id2 = alloc.allocate().unwrap();
    let id3 = alloc.allocate().unwrap();
    assert_eq!(id1, 1);
    assert_eq!(id2, 2);
    assert_eq!(id3, 3);
}

#[test]
fn skip_zero() {
    // starting at 0xFFFF_FFFE, the following identifiers must skip 0
    let mut alloc = InvokeIdAllocator::new(5);
    alloc.next = 0xFFFF_FFFE;
    let id1 = alloc.allocate().unwrap();
    let id2 = alloc.allocate().unwrap();
    // 0xFFFF_FFFE + 1 = 0xFFFF_FFFF
    assert_eq!(id1, 0xFFFF_FFFF);
    // 0xFFFF_FFFF wraps to 0, which is skipped, giving 1
    assert_eq!(id2, 1);
}

#[test]
fn outstanding_limit() {
    let mut alloc = InvokeIdAllocator::new(3);
    alloc.allocate().unwrap();
    alloc.allocate().unwrap();
    alloc.allocate().unwrap();
    let result = alloc.allocate();
    assert!(
        matches!(result, Err(ClientError::OutstandingCallLimit)),
        "expected OutstandingCallLimit"
    );
}

#[test]
fn release_and_reallocate() {
    let mut alloc = InvokeIdAllocator::new(2);
    let id1 = alloc.allocate().unwrap();
    let id2 = alloc.allocate().unwrap();
    assert_eq!(alloc.pending_count(), 2);
    alloc.release(id1);
    assert_eq!(alloc.pending_count(), 1);
    let id3 = alloc.allocate().unwrap();
    assert!(id3 != id2); // a fresh identifier, or one that was released
}

#[test]
fn is_pending_reflects_state() {
    let mut alloc = InvokeIdAllocator::new(5);
    let id = alloc.allocate().unwrap();
    assert!(alloc.is_pending(id));
    alloc.release(id);
    assert!(!alloc.is_pending(id));
}

#[test]
fn clear_releases_all() {
    let mut alloc = InvokeIdAllocator::new(5);
    alloc.allocate().unwrap();
    alloc.allocate().unwrap();
    alloc.clear();
    assert_eq!(alloc.pending_count(), 0);
}

#[test]
fn invoke_id_exhausted_when_all_slots_filled_and_duplicates() {
    // force a collision: with one permit the pending set is full after one allocation
    let mut alloc = InvokeIdAllocator::new(1);
    alloc.allocate().unwrap(); // pending = {1}
                               // so the next call returns OutstandingCallLimit
    let result = alloc.allocate();
    assert!(matches!(result, Err(ClientError::OutstandingCallLimit)));
}
