use cs2::channel::{Channel, Pattern};
use cs2::error::MemoryError;
use cs2::handle::CS2Handle;
use cs2::module::{CS2ModuleInfo, Module, ModuleInfo};
use cs2::testing::TestChannel;

fn table() -> CS2ModuleInfo {
    CS2ModuleInfo {
        process_id: 7,
        client: ModuleInfo { base_address: 0x1000, module_size: 0x40 },
        engine: ModuleInfo { base_address: 0x2000, module_size: 0x100 },
        schemasystem: ModuleInfo { base_address: 0x3000, module_size: 0x10 },
    }
}

fn handle_over(data: Vec<u8>) -> CS2Handle<TestChannel> {
    let channel = TestChannel::new(0x1000, data, table());
    CS2Handle::create(channel).expect("session")
}

#[test]
fn read_string_finds_terminator_in_one_round_trip() {
    let mut data = vec![0x41u8; 32];
    data[0] = b'a';
    data[1] = b'b';
    data[2] = b'c';
    data[3] = 0;
    let mut h = handle_over(data);
    let served_before = h.channel.read_count();
    let s = h.read_string(Module::Client, &[0], None).unwrap();
    assert_eq!(s, "abc");
    // the default 8-byte guess already covers "abc\0": exactly one read
    assert_eq!(h.channel.read_count() - served_before, 1);
}

#[test]
fn read_string_grows_until_the_terminator() {
    let mut data = vec![0u8; 32];
    let text = b"a_longer_name";
    data[..text.len()].copy_from_slice(text);
    let mut h = handle_over(data);
    let served_before = h.channel.read_count();
    let s = h.read_string(Module::Client, &[0], None).unwrap();
    assert_eq!(s, "a_longer_name");
    // 13 bytes + terminator: the 8-byte guess grows once to 16
    assert_eq!(h.channel.read_count() - served_before, 2);
}

#[test]
fn read_string_honours_the_length_hint() {
    let mut data = vec![0x42u8; 32];
    data[20] = 0;
    let mut h = handle_over(data);
    let s = h.read_string(Module::Client, &[0], Some(24)).unwrap();
    assert_eq!(s.len(), 20);
    assert!(s.bytes().all(|b| b == 0x42));
}

#[test]
fn read_string_rejects_invalid_utf8() {
    let mut data = vec![0u8; 16];
    data[0] = 0xFF;
    data[1] = 0xFE;
    data[2] = 0;
    let mut h = handle_over(data);
    match h.read_string(Module::Client, &[0], None) {
        Err(MemoryError::DecodeFailure) => {},
        other => panic!("expected DecodeFailure, got {:?}", other),
    }
}

#[test]
fn read_string_fails_when_memory_ends_before_a_terminator() {
    // 0x40 readable bytes, none of them zero: the growth loop runs off the
    // readable window and surfaces the failed read
    let data = vec![0x41u8; 0x40];
    let mut h = handle_over(data);
    match h.read_string(Module::Client, &[0], None) {
        Err(MemoryError::ChannelFailure { .. }) => {},
        other => panic!("expected ChannelFailure, got {:?}", other),
    }
}

#[test]
fn find_pattern_returns_a_module_relative_offset() {
    let mut data = vec![0u8; 0x40];
    data[0x21] = 0xDE;
    data[0x22] = 0xAD;
    data[0x23] = 0xC0;
    let mut h = handle_over(data);
    let pattern = Pattern::new(vec![0xDE, 0xAD, 0xC0], vec![true, true, true]).unwrap();
    let hit = h.find_pattern(Module::Client, &pattern).unwrap();
    assert_eq!(hit, Some(0x21));
    // base + offset falls inside the module window
    let info = Module::Client.get_base_offset(&h.module_info).unwrap();
    let absolute = info.base_address + hit.unwrap();
    assert!(absolute >= info.base_address);
    assert!(absolute < info.base_address + info.module_size);
}

#[test]
fn find_pattern_reports_the_first_of_two_hits() {
    let mut data = vec![0u8; 0x40];
    data[0x08] = 0xAA;
    data[0x09] = 0x11;
    data[0x0A] = 0xBB;
    data[0x30] = 0xAA;
    data[0x31] = 0x22;
    data[0x32] = 0xBB;
    let mut h = handle_over(data);
    // wildcard in the middle: AA ?? BB
    let pattern = Pattern::new(vec![0xAA, 0, 0xBB], vec![true, false, true]).unwrap();
    assert_eq!(h.find_pattern(Module::Client, &pattern).unwrap(), Some(0x08));
}

#[test]
fn absent_pattern_is_not_an_error() {
    let mut h = handle_over(vec![0u8; 0x40]);
    let pattern = Pattern::new(vec![0xDE, 0xAD], vec![true, true]).unwrap();
    assert_eq!(h.find_pattern(Module::Client, &pattern).unwrap(), None);
    // a window with no readable bytes at all also just misses
    assert_eq!(h.find_pattern(Module::Engine, &pattern).unwrap(), None);
}

#[test]
fn pattern_new_rejects_mismatched_mask() {
    assert!(Pattern::new(vec![1, 2, 3], vec![true, true]).is_none());
    assert!(Pattern::new(vec![], vec![]).is_none());
    assert!(Pattern::new(vec![1], vec![true]).is_some());
}

#[test]
fn channel_read_into_reports_the_failing_range() {
    let mut channel = TestChannel::new(0x1000, vec![0u8; 8], table());
    let mut buf = vec![0u8; 4];
    match channel.read_into(0x1006, &mut buf) {
        Err(MemoryError::ChannelFailure { address, length }) => {
            assert_eq!((address, length), (0x1006, 4));
        },
        other => panic!("expected ChannelFailure, got {:?}", other),
    }
    assert!(channel.read_into(0x1004, &mut buf).is_ok());
}
