use cs2::error::MemoryError;
use cs2::handle::CS2Handle;
use cs2::module::{CS2ModuleInfo, Module, ModuleInfo};
use cs2::schema::ObjectView;
use cs2::testing::TestChannel;
use cs2::views::{MemoryHandle, SessionSlot, SNAPSHOT_LIMIT};

fn table() -> CS2ModuleInfo {
    CS2ModuleInfo {
        process_id: 7,
        client: ModuleInfo { base_address: 0x1000, module_size: 0x20000 },
        engine: ModuleInfo { base_address: 0x40000, module_size: 0x100 },
        schemasystem: ModuleInfo { base_address: 0x50000, module_size: 0x10 },
    }
}

fn handle_over(data: Vec<u8>) -> CS2Handle<TestChannel> {
    let channel = TestChannel::new(0x1000, data, table());
    CS2Handle::create(channel).expect("session")
}

#[test]
fn reference_at_threshold_is_snapshot_backed() {
    let mut h = handle_over(vec![0xABu8; SNAPSHOT_LIMIT + 64]);
    match h.reference_memory(0x1000, Some(SNAPSHOT_LIMIT)).unwrap() {
        MemoryHandle::Cached(c) => assert_eq!(c.buffer.len(), SNAPSHOT_LIMIT),
        MemoryHandle::Reference(_) => panic!("a request at the threshold must be a snapshot"),
    }
}

#[test]
fn reference_above_threshold_is_live_backed() {
    let mut h = handle_over(vec![0u8; 8]);
    match h.reference_memory(0x1000, Some(SNAPSHOT_LIMIT + 1)).unwrap() {
        MemoryHandle::Reference(l) => assert_eq!(l.address, 0x1000),
        MemoryHandle::Cached(_) => panic!("a request above the threshold must stay live"),
    }
}

#[test]
fn reference_without_size_is_live_backed() {
    let mut h = handle_over(vec![0u8; 8]);
    match h.reference_memory(0x1004, None).unwrap() {
        MemoryHandle::Reference(l) => assert_eq!(l.address, 0x1004),
        MemoryHandle::Cached(_) => panic!("an unsized request must stay live"),
    }
}

#[test]
fn snapshot_read_is_bounds_checked() {
    let mut h = handle_over(vec![9u8; 16]);
    let view = h.read_memory(&[0x1000], 8).unwrap();
    let snapshot = match view {
        MemoryHandle::Cached(c) => c,
        MemoryHandle::Reference(_) => panic!("read_memory must return a snapshot"),
    };
    let mut buf = vec![0u8; 4];
    snapshot.read_slice(2, &mut buf).unwrap();
    assert_eq!(buf, vec![9, 9, 9, 9]);
    match snapshot.read_slice(6, &mut buf) {
        Err(MemoryError::OutOfBounds { offset, length, size }) => {
            assert_eq!((offset, length, size), (6, 4, 8));
        },
        other => panic!("expected OutOfBounds, got {:?}", other),
    }
}

#[test]
fn torn_down_session_fails_with_handle_dropped() {
    let mut h = handle_over(vec![1u8; 32]);
    let snapshot = h.read_memory(&[0x1000], 8).unwrap();
    let live = h.reference_memory(0x1000, None).unwrap();
    let mut slot = SessionSlot::attach(h);
    let mut buf = vec![0u8; 4];

    // alive: both views serve reads
    assert!(live.read_slice(&mut slot, 0, &mut buf).is_ok());
    assert!(snapshot.read_slice(&mut slot, 0, &mut buf).is_ok());

    slot.tear_down();

    // torn down: anything that needs the session fails cleanly ...
    assert_eq!(live.read_slice(&mut slot, 0, &mut buf), Err(MemoryError::HandleDropped));
    assert!(matches!(
        live.reference_memory(&mut slot, 0x1000, Some(4)),
        Err(MemoryError::HandleDropped)
    ));
    assert!(matches!(
        snapshot.read_memory(&mut slot, 0x1000, 4),
        Err(MemoryError::HandleDropped)
    ));
    // ... while a snapshot still serves its own bytes locally
    assert!(snapshot.read_slice(&mut slot, 0, &mut buf).is_ok());
    assert_eq!(buf, vec![1, 1, 1, 1]);
}

#[test]
fn live_view_rereads_current_bytes() {
    let mut h = handle_over(vec![0x11u8; 16]);
    let live = h.reference_memory(0x1000, None).unwrap();
    let mut slot = SessionSlot::attach(h);
    let mut buf = vec![0u8; 1];
    live.read_slice(&mut slot, 3, &mut buf).unwrap();
    assert_eq!(buf[0], 0x11);
    match slot.handle.as_mut() {
        Some(h) => h.channel.poke(0x1003, 0x77),
        None => unreachable!(),
    }
    live.read_slice(&mut slot, 3, &mut buf).unwrap();
    assert_eq!(buf[0], 0x77);
}

#[test]
fn read_schema_equals_read_for_single_offset() {
    let mut data = vec![0u8; 16];
    data[0..8].copy_from_slice(&0xA1B2_C3D4_E5F6_0718u64.to_le_bytes());
    let mut h = handle_over(data);
    let via_read: u64 = h.read(Module::Absolute, &[0x1000]).unwrap();
    let via_schema: u64 = h.read_schema(&[0x1000]).unwrap();
    assert_eq!(via_read, via_schema);
    assert_eq!(via_schema, 0xA1B2_C3D4_E5F6_0718);
}

#[test]
fn reference_schema_matches_read_schema_when_bytes_are_stable() {
    let mut data = vec![0u8; 48];
    let p1 = 0x1020u64;
    data[0..8].copy_from_slice(&p1.to_le_bytes());
    data[0x24..0x28].copy_from_slice(&0xFEED_BEEFu32.to_le_bytes());
    let mut h = handle_over(data);
    // chain [0x1000, 4]: dereference the pointer at 0x1000, add 4
    let snap: u32 = h.read_schema(&[0x1000, 4]).unwrap();
    let refd: u32 = h.reference_schema(&[0x1000, 4]).unwrap();
    assert_eq!(snap, refd);
    assert_eq!(snap, 0xFEED_BEEF);
}

#[test]
fn live_object_fields_track_remote_changes() {
    let mut data = vec![0u8; 32];
    data[8..12].copy_from_slice(&100u32.to_le_bytes());
    let mut h = handle_over(data);
    // an unsized structure stays live
    let obj: ObjectView = h.reference_schema(&[0x1000]).unwrap();
    let mut slot = SessionSlot::attach(h);
    let before: u32 = obj.field(&mut slot, 8).unwrap();
    assert_eq!(before, 100);
    match slot.handle.as_mut() {
        Some(h) => h.channel.poke(0x1008, 200),
        None => unreachable!(),
    }
    let after: u32 = obj.field(&mut slot, 8).unwrap();
    assert_eq!(after, 200);
    slot.tear_down();
    assert_eq!(obj.field::<u32, _>(&mut slot, 8), Err(MemoryError::HandleDropped));
}

#[test]
fn snapshot_object_fields_keep_captured_bytes() {
    let mut data = vec![0u8; 32];
    data[4..8].copy_from_slice(&11u32.to_le_bytes());
    let mut h = handle_over(data);
    let view = h.read_memory(&[0x1000], 16).unwrap();
    let obj = ObjectView { memory: view, offset: 0 };
    let mut slot = SessionSlot::attach(h);
    let before: u32 = obj.field(&mut slot, 4).unwrap();
    match slot.handle.as_mut() {
        Some(h) => h.channel.poke(0x1004, 0xFF),
        None => unreachable!(),
    }
    let after: u32 = obj.field(&mut slot, 4).unwrap();
    assert_eq!(before, 11);
    assert_eq!(after, 11);
    slot.tear_down();
    // a snapshot-backed field read needs no session at all
    assert_eq!(obj.field::<u32, _>(&mut slot, 4), Ok(11));
}

#[test]
fn read_schema_without_fixed_size_is_a_decode_failure() {
    let mut h = handle_over(vec![0u8; 8]);
    match h.read_schema::<ObjectView>(&[0x1000]) {
        Err(MemoryError::DecodeFailure) => {},
        other => panic!("expected DecodeFailure, got {:?}", other.map(|_| ())),
    }
}
