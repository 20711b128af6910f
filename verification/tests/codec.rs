use pwservice::codec::{
    deserialize_machine, merge_interface, proto_from_number, proto_to_number, serialize_cpu_load,
    serialize_interface, serialize_machine, serialize_mem_info, serialize_metrics,
    serialize_process,
};
use pwservice::messages::{
    CpuLoad, Machine, MemInfo, Metrics, NetworkInterface, Processes, Rtpproto,
};
use pwservice::wire::{
    put_nested, put_text, put_u32, put_u64, skip_value, take_bytes, take_key, take_text,
    take_varint, WireKind,
};

fn interface() -> NetworkInterface {
    NetworkInterface {
        mac: 1,
        name: "eth0".to_string(),
        proto: Rtpproto::Dhcp,
        ipv4: 1,
        subnet_mask: 24,
        broadcast: 2,
        gateway: 3,
    }
}

fn full_machine() -> Machine {
    Machine {
        boottime: 1731155405,
        bootid: "5be4b9be-6f40-4ba5-ab5d-72cf867cfa0d".to_string(),
        hostname: "raspberrypi".to_string(),
        version: "Linux version 6.6.51+rpt-rpi-v7".to_string(),
        cpu_model_name: "ARMv7 Processor rev 4 (v7l) \u{e9}\u{1f600}".to_string(),
        physical_mem_total_kb: 943032,
        network_interface: Some(NetworkInterface {
            mac: 202481586980485,
            name: "eth0".to_string(),
            proto: Rtpproto::Dhcp,
            ipv4: 3232246377,
            subnet_mask: 24,
            broadcast: 3232246527,
            gateway: 3232246273,
        }),
    }
}

#[test]
fn empty_machine_takes_no_bytes() {
    assert_eq!(serialize_machine(&Machine::default()), Vec::<u8>::new());
    assert_eq!(deserialize_machine(&[]), Ok(Machine::default()));
}

#[test]
fn numbers_are_written_as_variable_length_integers() {
    let mut buf = Vec::new();
    put_u64(&mut buf, 1, 1);
    assert_eq!(buf, vec![8, 1]);
    put_u64(&mut buf, 1, 127);
    put_u64(&mut buf, 1, 128);
    put_u64(&mut buf, 2, 300);
    assert_eq!(buf, vec![8, 1, 8, 127, 8, 128, 1, 16, 172, 2]);

    let mut buf = Vec::new();
    put_u64(&mut buf, 1, u64::MAX);
    assert_eq!(buf, vec![8, 255, 255, 255, 255, 255, 255, 255, 255, 255, 1]);

    let mut buf = Vec::new();
    put_u32(&mut buf, 6, u32::MAX);
    assert_eq!(buf, vec![48, 255, 255, 255, 255, 15]);
}

#[test]
fn zero_and_empty_fields_are_left_out() {
    let mut buf = vec![7];
    put_u64(&mut buf, 1, 0);
    put_u32(&mut buf, 2, 0);
    put_text(&mut buf, 3, &String::new());
    assert_eq!(buf, vec![7]);
}

#[test]
fn keys_of_large_field_numbers() {
    let mut buf = Vec::new();
    put_u32(&mut buf, 16, 1);
    assert_eq!(buf, vec![128, 1, 1]);
    let mut buf = Vec::new();
    put_u32(&mut buf, 0x1FFF_FFFF, 1);
    assert_eq!(buf, vec![248, 255, 255, 255, 15, 1]);
}

#[test]
fn texts_are_written_with_their_length_in_bytes() {
    let mut buf = Vec::new();
    put_text(&mut buf, 3, &"ab".to_string());
    assert_eq!(buf, vec![26, 2, 97, 98]);
    let mut buf = Vec::new();
    put_text(&mut buf, 2, &"\u{e9}".to_string());
    assert_eq!(buf, vec![18, 2, 0xc3, 0xa9]);
    let long = "x".repeat(200);
    let mut buf = Vec::new();
    put_text(&mut buf, 2, &long);
    assert_eq!(buf.len(), 203);
    assert_eq!(&buf[..3], &[18, 200, 1]);
}

#[test]
fn nested_records_are_written_with_their_length() {
    let mut buf = vec![9];
    put_nested(&mut buf, 7, &vec![8, 1]);
    put_nested(&mut buf, 7, &vec![]);
    assert_eq!(buf, vec![9, 58, 2, 8, 1, 58, 0]);
}

#[test]
fn interface_on_the_wire() {
    assert_eq!(
        serialize_interface(&interface()),
        vec![8, 1, 18, 4, 101, 116, 104, 48, 24, 2, 32, 1, 40, 24, 48, 2, 56, 3]
    );
    assert_eq!(serialize_interface(&NetworkInterface::default()), Vec::<u8>::new());
}

#[test]
fn machine_fields_stand_in_the_order_of_their_numbers() {
    let machine = Machine {
        boottime: 1,
        bootid: "b".to_string(),
        hostname: "h".to_string(),
        version: "v".to_string(),
        cpu_model_name: "c".to_string(),
        physical_mem_total_kb: 300,
        network_interface: Some(interface()),
    };
    let mut expected = vec![8, 1, 18, 1, 98, 26, 1, 104, 34, 1, 118, 42, 1, 99, 48, 172, 2, 58, 18];
    expected.extend(serialize_interface(&interface()));
    assert_eq!(serialize_machine(&machine), expected);
}

#[test]
fn an_interface_without_values_still_stands_on_the_wire() {
    let machine =
        Machine { network_interface: Some(NetworkInterface::default()), ..Default::default() };
    assert_eq!(serialize_machine(&machine), vec![58, 0]);
    assert_eq!(deserialize_machine(&[58, 0]), Ok(machine));
}

#[test]
fn machine_round_trip() {
    for machine in [
        Machine::default(),
        full_machine(),
        Machine { network_interface: None, ..full_machine() },
        Machine { boottime: u64::MAX, physical_mem_total_kb: u32::MAX, ..Default::default() },
        Machine {
            network_interface: Some(NetworkInterface {
                mac: u64::MAX,
                proto: Rtpproto::Static,
                gateway: u32::MAX,
                ..Default::default()
            }),
            ..Default::default()
        },
        Machine { hostname: "x".repeat(70000), ..Default::default() },
    ] {
        let bytes = serialize_machine(&machine);
        assert_eq!(deserialize_machine(&bytes), Ok(machine));
    }
}

#[test]
fn protocol_numbers() {
    assert_eq!(proto_to_number(Rtpproto::Unknown), 0);
    assert_eq!(proto_to_number(Rtpproto::Static), 1);
    assert_eq!(proto_to_number(Rtpproto::Dhcp), 2);
    assert_eq!(proto_from_number(0), Rtpproto::Unknown);
    assert_eq!(proto_from_number(1), Rtpproto::Static);
    assert_eq!(proto_from_number(2), Rtpproto::Dhcp);
    assert_eq!(proto_from_number(3), Rtpproto::Unknown);
    assert_eq!(proto_from_number(u32::MAX), Rtpproto::Unknown);
}

#[test]
fn metrics_on_the_wire() {
    let metrics = Metrics {
        processes: 1,
        runnable_processes: 0,
        processes_blocked: 300,
        mem_info: Some(MemInfo {
            mem_total: 2,
            mem_free: 0,
            mem_available: 0,
            swap_total: 0,
            swap_free: 1,
        }),
        cpu_load: vec![
            CpuLoad { user: 3, nice: 0, system: 0, idle: 4, iowait: 0 },
            CpuLoad { user: 0, nice: 0, system: 0, idle: 0, iowait: 0 },
        ],
    };
    assert_eq!(
        serialize_metrics(&metrics),
        vec![8, 1, 24, 172, 2, 34, 4, 8, 2, 40, 1, 42, 4, 8, 3, 32, 4, 42, 0]
    );
    assert_eq!(serialize_metrics(&Metrics::default()), Vec::<u8>::new());
    assert_eq!(
        serialize_mem_info(&MemInfo {
            mem_total: 1,
            mem_free: 2,
            mem_available: 3,
            swap_total: 4,
            swap_free: 5
        }),
        vec![8, 1, 16, 2, 24, 3, 32, 4, 40, 5]
    );
    assert_eq!(
        serialize_cpu_load(&CpuLoad { user: 1, nice: 2, system: 3, idle: 4, iowait: 128 }),
        vec![8, 1, 16, 2, 24, 3, 32, 4, 40, 128, 1]
    );
}

#[test]
fn process_listing_takes_no_bytes() {
    assert_eq!(serialize_process(&Processes::default()), Vec::<u8>::new());
}

#[test]
fn reading_numbers() {
    let bytes: Vec<u8> = vec![172, 2, 7];
    let mut buf: &[u8] = &bytes;
    assert_eq!(take_varint(&mut buf), Ok(300));
    assert_eq!(buf, &[7]);
    assert_eq!(take_varint(&mut buf), Ok(7));
    assert!(buf.is_empty());
    assert!(take_varint(&mut buf).is_err());

    let bytes: Vec<u8> = vec![255, 255, 255, 255, 255, 255, 255, 255, 255, 1];
    let mut buf: &[u8] = &bytes;
    assert_eq!(take_varint(&mut buf), Ok(u64::MAX));
    assert!(buf.is_empty());
}

#[test]
fn a_number_may_be_written_longer_than_needed() {
    let bytes: Vec<u8> = vec![0x81, 0x80, 0x00, 9];
    let mut buf: &[u8] = &bytes;
    assert_eq!(take_varint(&mut buf), Ok(1));
    assert_eq!(buf, &[9]);
}

#[test]
fn numbers_that_cannot_be_read() {
    for bytes in [
        vec![],
        vec![0x80],
        vec![0xff, 0xff],
        vec![255, 255, 255, 255, 255, 255, 255, 255, 255, 2],
        vec![255, 255, 255, 255, 255, 255, 255, 255, 255, 0x80, 1],
        vec![0x80, 0x80, 0x80, 0x80, 0x80, 0x80, 0x80, 0x80, 0x80, 0x80, 0x00],
    ] {
        let mut buf: &[u8] = &bytes;
        let r = take_varint(&mut buf);
        assert!(r.is_err(), "{:?}", bytes);
        assert!(r.unwrap_err().description.contains("invalid varint"));
    }
}

#[test]
fn reading_keys() {
    let cases: Vec<(Vec<u8>, u32, WireKind)> = vec![
        (vec![8], 1, WireKind::Varint),
        (vec![9], 1, WireKind::SixtyFourBit),
        (vec![58], 7, WireKind::LengthDelimited),
        (vec![83], 10, WireKind::StartGroup),
        (vec![84], 10, WireKind::EndGroup),
        (vec![69], 8, WireKind::ThirtyTwoBit),
        (vec![128, 1], 16, WireKind::Varint),
        (vec![248, 255, 255, 255, 15], 0x1FFF_FFFF, WireKind::Varint),
    ];
    for (bytes, tag, kind) in cases {
        let mut buf: &[u8] = &bytes;
        assert_eq!(take_key(&mut buf), Ok((tag, kind)), "{:?}", bytes);
        assert!(buf.is_empty());
    }
}

#[test]
fn keys_that_cannot_be_read() {
    for bytes in [
        vec![],
        vec![0],
        vec![5],
        vec![14],
        vec![15],
        vec![0x80],
        vec![128, 128, 128, 128, 16],
        vec![255, 255, 255, 255, 31],
    ] {
        let mut buf: &[u8] = &bytes;
        assert!(take_key(&mut buf).is_err(), "{:?}", bytes);
    }
}

#[test]
fn reading_texts_and_bytes() {
    let bytes: Vec<u8> = vec![2, 0xc3, 0xa9, 0, 1];
    let mut buf: &[u8] = &bytes;
    assert_eq!(take_text(&mut buf), Ok("\u{e9}".to_string()));
    assert_eq!(take_text(&mut buf), Ok(String::new()));
    assert_eq!(buf, &[1]);
    assert!(take_text(&mut buf).is_err());

    let mut buf: &[u8] = &bytes;
    assert_eq!(take_bytes(&mut buf), Ok(&bytes[1..3]));
    assert_eq!(take_bytes(&mut buf), Ok(&bytes[0..0]));
    assert_eq!(buf, &[1]);
    let r = take_bytes(&mut buf);
    assert_eq!(r.unwrap_err().description, "buffer underflow");

    for bad in [vec![], vec![0x80], vec![2, 0xff, 0xfe], vec![1, 0xc3], vec![3, 0xed, 0xa0, 0x80]] {
        let mut buf: &[u8] = &bad;
        assert!(take_text(&mut buf).is_err(), "{:?}", bad);
    }
}

#[test]
fn skipping_values() {
    let cases: Vec<(WireKind, Vec<u8>, usize)> = vec![
        (WireKind::Varint, vec![172, 2, 7], 1),
        (WireKind::ThirtyTwoBit, vec![1, 2, 3, 4, 7], 1),
        (WireKind::SixtyFourBit, vec![1, 2, 3, 4, 5, 6, 7, 8, 7], 1),
        (WireKind::LengthDelimited, vec![2, 0xff, 0xfe, 7], 1),
        (WireKind::LengthDelimited, vec![0, 7], 1),
        (WireKind::StartGroup, vec![84, 7], 1),
        (WireKind::StartGroup, vec![8, 1, 18, 1, 9, 84, 7], 1),
        (WireKind::StartGroup, vec![91, 8, 1, 92, 84, 7], 1),
    ];
    for (kind, bytes, left) in cases {
        let mut buf: &[u8] = &bytes;
        assert_eq!(skip_value(kind, 10, &mut buf), Ok(()), "{:?} {:?}", kind, bytes);
        assert_eq!(buf.len(), left, "{:?} {:?}", kind, bytes);
    }
}

#[test]
fn values_that_cannot_be_skipped() {
    let cases: Vec<(WireKind, Vec<u8>)> = vec![
        (WireKind::Varint, vec![]),
        (WireKind::Varint, vec![0x80]),
        (WireKind::ThirtyTwoBit, vec![1, 2, 3]),
        (WireKind::SixtyFourBit, vec![1, 2, 3, 4, 5, 6, 7]),
        (WireKind::LengthDelimited, vec![2, 1]),
        (WireKind::LengthDelimited, vec![]),
        (WireKind::EndGroup, vec![]),
        (WireKind::EndGroup, vec![84]),
        (WireKind::StartGroup, vec![]),
        (WireKind::StartGroup, vec![8, 1]),
        (WireKind::StartGroup, vec![92]),
        (WireKind::StartGroup, vec![91, 84]),
    ];
    for (kind, bytes) in cases {
        let mut buf: &[u8] = &bytes;
        assert!(skip_value(kind, 10, &mut buf).is_err(), "{:?} {:?}", kind, bytes);
    }
}

#[test]
fn groups_nested_too_deep_are_not_skipped() {
    let nested = |depth: usize| {
        let mut bytes: Vec<u8> = Vec::new();
        for _ in 0..depth {
            bytes.push(91);
        }
        for _ in 0..depth {
            bytes.push(92);
        }
        bytes.push(84);
        bytes
    };
    let bytes = nested(99);
    let mut buf: &[u8] = &bytes;
    assert_eq!(skip_value(WireKind::StartGroup, 10, &mut buf), Ok(()));
    let bytes = nested(100);
    let mut buf: &[u8] = &bytes;
    assert!(skip_value(WireKind::StartGroup, 10, &mut buf).is_err());
}

#[test]
fn fields_that_a_machine_does_not_have_are_passed_over() {
    let expected = Machine { boottime: 5, ..Default::default() };
    for bytes in [
        vec![120, 9, 8, 5],
        vec![8, 5, 69, 1, 2, 3, 4],
        vec![65, 1, 2, 3, 4, 5, 6, 7, 8, 8, 5],
        vec![74, 2, 0xff, 0xfe, 8, 5],
        vec![8, 5, 83, 84],
        vec![83, 8, 1, 84, 8, 5],
        vec![8, 5, 128, 1, 1],
    ] {
        assert_eq!(deserialize_machine(&bytes), Ok(expected.clone()), "{:?}", bytes);
    }
}

#[test]
fn of_a_field_that_stands_twice_the_last_counts() {
    assert_eq!(
        deserialize_machine(&[8, 1, 26, 1, 97, 8, 2, 26, 1, 98]),
        Ok(Machine { boottime: 2, hostname: "b".to_string(), ..Default::default() })
    );
    assert_eq!(
        deserialize_machine(&[26, 1, 97, 26, 0]),
        Ok(Machine { hostname: String::new(), ..Default::default() })
    );
}

#[test]
fn an_interface_that_stands_twice_is_merged() {
    let expected = Machine {
        network_interface: Some(NetworkInterface { mac: 1, ipv4: 9, ..Default::default() }),
        ..Default::default()
    };
    assert_eq!(deserialize_machine(&[58, 2, 8, 1, 58, 2, 32, 9]), Ok(expected));
}

#[test]
fn numbers_of_32_bits_keep_their_low_bits() {
    assert_eq!(
        deserialize_machine(&[48, 0x85, 0x80, 0x80, 0x80, 0x10]),
        Ok(Machine { physical_mem_total_kb: 5, ..Default::default() })
    );
    assert_eq!(
        merge_interface(&[24, 0x81, 0x80, 0x80, 0x80, 0x10], NetworkInterface::default()),
        Ok(NetworkInterface { proto: Rtpproto::Static, ..Default::default() })
    );
    assert_eq!(
        merge_interface(&[24, 7], interface()),
        Ok(NetworkInterface { proto: Rtpproto::Unknown, ..interface() })
    );
}

#[test]
fn merge_interface_keeps_what_is_not_on_the_wire() {
    assert_eq!(merge_interface(&[], interface()), Ok(interface()));
    assert_eq!(
        merge_interface(&[18, 2, 119, 108, 56, 0], interface()),
        Ok(NetworkInterface { name: "wl".to_string(), gateway: 0, ..interface() })
    );
}

#[test]
fn bytes_that_are_no_machine() {
    for bytes in [
        vec![8],
        vec![8, 0x80],
        vec![0, 1],
        vec![14, 1],
        vec![10, 1, 120],
        vec![18, 5, 97],
        vec![18, 2, 0xff, 0xfe],
        vec![16, 1],
        vec![50, 1, 1],
        vec![56, 1],
        vec![58, 3, 8, 1],
        vec![58, 1, 8],
        vec![58, 2, 18, 5],
        vec![58, 2, 8, 0x80, 1],
        vec![58, 2, 10, 0],
        vec![84],
        vec![83],
        vec![8, 5, 84],
    ] {
        assert!(deserialize_machine(&bytes).is_err(), "{:?}", bytes);
    }
}

#[test]
fn errors_say_what_was_found_wrong() {
    let e = deserialize_machine(&[8]).unwrap_err();
    assert!(e.description.contains("invalid varint"), "{}", e.description);
    let e = deserialize_machine(&[18, 2, 0xff, 0xfe]).unwrap_err();
    assert!(e.description.contains("UTF-8"), "{}", e.description);
    let e = deserialize_machine(&[10, 1, 120]).unwrap_err();
    assert_eq!(e.description, "invalid wire type");
    let e = deserialize_machine(&[58, 3, 8, 1]).unwrap_err();
    assert_eq!(e.description, "buffer underflow");
}
