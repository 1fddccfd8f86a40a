use cs2::error::MemoryError;
use cs2::handle::CS2Handle;
use cs2::module::{CS2ModuleInfo, Module, ModuleInfo};
use cs2::testing::TestChannel;

fn table() -> CS2ModuleInfo {
    CS2ModuleInfo {
        process_id: 1234,
        client: ModuleInfo { base_address: 0x1000, module_size: 0x100 },
        engine: ModuleInfo { base_address: 0x2000, module_size: 0x100 },
        schemasystem: ModuleInfo { base_address: 0x3000, module_size: 0x10 },
    }
}

fn handle_over(data: Vec<u8>) -> CS2Handle<TestChannel> {
    let channel = TestChannel::new(0x1000, data, table());
    CS2Handle::create(channel).expect("session")
}

#[test]
fn create_requests_protection_and_keeps_table() {
    let h = handle_over(vec![0u8; 16]);
    assert!(h.channel.protected);
    assert_eq!(h.module_info.client.base_address, 0x1000);
    assert_eq!(h.module_info.process_id, 1234);
}

#[test]
fn create_rejects_wrapping_module_table() {
    let mut bad = table();
    bad.engine = ModuleInfo { base_address: u64::MAX, module_size: 2 };
    let channel = TestChannel::new(0x1000, vec![0u8; 4], bad);
    match CS2Handle::create(channel) {
        Err(MemoryError::InvalidModule) => {},
        other => panic!("expected InvalidModule, got {:?}", other.map(|_| ())),
    }
}

#[test]
fn read_little_endian_values() {
    // client+0: 78 56 34 12 ...
    let mut data = vec![0u8; 32];
    data[0] = 0x78;
    data[1] = 0x56;
    data[2] = 0x34;
    data[3] = 0x12;
    data[8] = 0xEF;
    data[9] = 0xCD;
    let mut h = handle_over(data);
    let v32: u32 = h.read(Module::Client, &[0]).unwrap();
    assert_eq!(v32, 0x12345678);
    let v16: u16 = h.read(Module::Client, &[8]).unwrap();
    assert_eq!(v16, 0xCDEF);
    let v8: u8 = h.read(Module::Client, &[3]).unwrap();
    assert_eq!(v8, 0x12);
    let v64: u64 = h.read(Module::Client, &[0]).unwrap();
    assert_eq!(v64, 0x0000_0000_1234_5678);
}

#[test]
fn read_fails_on_dead_page() {
    let mut h = handle_over(vec![0u8; 8]);
    match h.read::<u32>(Module::Engine, &[0]) {
        Err(MemoryError::ChannelFailure { address, length }) => {
            assert_eq!(address, 0x2000);
            assert_eq!(length, 4);
        },
        other => panic!("expected ChannelFailure, got {:?}", other),
    }
}

#[test]
fn read_rejects_empty_offset_chain() {
    let mut h = handle_over(vec![0u8; 8]);
    match h.read::<u32>(Module::Client, &[]) {
        Err(MemoryError::ChannelFailure { length, .. }) => assert_eq!(length, 0),
        other => panic!("expected ChannelFailure, got {:?}", other),
    }
}

#[test]
fn chain_of_three_dereferences_two_pointers() {
    // layout: client+0x10 holds pointer p1 = 0x1020; p1+8 holds p2 = 0x1040;
    // p2+4 holds the value 0x99.
    let mut data = vec![0u8; 0x60];
    let p1 = 0x1020u64;
    let p2 = 0x1040u64;
    data[0x10..0x18].copy_from_slice(&p1.to_le_bytes());
    data[0x28..0x30].copy_from_slice(&p2.to_le_bytes());
    data[0x44] = 0x99;
    let mut h = handle_over(data);
    let v: u8 = h.read(Module::Client, &[0x10, 8, 4]).unwrap();
    assert_eq!(v, 0x99);
    // the channel saw exactly the two pointer dereferences and the final
    // read, at *(base+0x10), *( *(base+0x10)+8 ) and *(*(base+0x10)+8)+4
    let log_len = h.channel.read_count();
    let derefs: Vec<u64> = (0..log_len).map(|i| h.channel.read_at(i)).collect();
    assert_eq!(derefs, vec![0x1010, 0x1028, 0x1044]);
}

#[test]
fn read_vec_and_read_slice_decode_elementwise() {
    let mut data = vec![0u8; 16];
    for i in 0..16 {
        data[i] = i as u8;
    }
    let mut h = handle_over(data);
    let v: Vec<u16> = h.read_vec(Module::Client, &[2], 3).unwrap();
    assert_eq!(v, vec![0x0302, 0x0504, 0x0706]);
    let mut buf: Vec<u32> = vec![0; 2];
    h.read_slice(Module::Client, &[0], &mut buf).unwrap();
    assert_eq!(buf, vec![0x03020100, 0x07060504]);
}

#[test]
fn module_address_translates_only_inside_window() {
    let h = handle_over(vec![0u8; 4]);
    assert_eq!(h.module_address(Module::Client, 0x1010), Some(0x10));
    assert_eq!(h.module_address(Module::Client, 0x0FFF), None);
    assert_eq!(h.module_address(Module::Client, 0x1100), None);
    assert_eq!(h.module_address(Module::Absolute, 0xDEAD), Some(0xDEAD));
}

#[test]
fn memory_address_adds_the_module_base() {
    let h = handle_over(vec![0u8; 4]);
    assert_eq!(h.memory_address(Module::Engine, 0x42), Ok(0x2042));
    assert_eq!(h.memory_address(Module::Absolute, 0x42), Ok(0x42));
}

#[test]
fn get_base_offset_resolves_every_module() {
    let t = table();
    assert_eq!(Module::Client.get_base_offset(&t).unwrap().base_address, 0x1000);
    assert_eq!(Module::Engine.get_base_offset(&t).unwrap().base_address, 0x2000);
    assert_eq!(Module::Schemasystem.get_base_offset(&t).unwrap().module_size, 0x10);
    let a = Module::Absolute.get_base_offset(&t).unwrap();
    assert_eq!(a.base_address, 0);
    assert_eq!(a.module_size, u64::MAX);
}

#[test]
fn protect_process_can_be_reissued() {
    let mut h = handle_over(vec![0u8; 4]);
    h.channel.protected = false;
    h.protect_process().unwrap();
    assert!(h.channel.protected);
}
