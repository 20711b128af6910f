use pwservice::codec::{deserialize_machine as decode, serialize_machine as encode};
use pwservice::common::{
    liveliness_selector, machine_selector, presence_line, stringify_duration, stringify_message,
    version_info, MAX_TIMESTAMP,
};
use pwservice::messages::{Machine, NetworkInterface, Rtpproto};

#[test]
fn serialize_machine() {
    let machine = Machine { boottime: 12345678, ..Default::default() };

    let buffer = encode(&machine);

    let expected: Vec<u8> = vec![8, 206, 194, 241, 5];

    assert_eq!(buffer, expected);
}

#[test]
fn deserialize_machine() {
    let buffer: Vec<u8> = vec![8, 206, 194, 241, 5];

    let machine = decode(&buffer);

    let expected = Machine { boottime: 12345678, ..Default::default() };

    assert_eq!(machine.unwrap(), expected);
}

#[test]
fn stringify_ok() {
    let input = Machine {
        boottime: 1731155405,
        bootid: "5be4b9be-6f40-4ba5-ab5d-72cf867cfa0d".to_string(),
        hostname: "raspberrypi".to_string(),
        version: "Linux version 6.6.51+rpt-rpi-v7 (serge@raspberrypi.com) (gcc-12 (Raspbian 12.2.0-14+rpi1) 12.2.0, GNU ld (GNU Binutils for Raspbian) 2.40) #1 SMP Raspbian 1:6.6.51-1+rpt3 (2024-10-08)".to_string(),
        cpu_model_name: "ARMv7 Processor rev 4 (v7l)".to_string(),
        physical_mem_total_kb: 943032,
        network_interface: Some(NetworkInterface {
            mac: 202481586980485,
            name: "eth0".to_string(),
            proto: Rtpproto::Dhcp,
            ipv4: 3232246377,
            subnet_mask: 24,
            broadcast: 3232246527,
            gateway: 3232246273,
        }),
    };

    let expected = vec![
        ("booted", "2024-11-09 12:30:05".to_string()),
        ("hostname", "raspberrypi".to_string()),
        ("kernel", "Linux version 6.6.51+rpt-rpi-v7 (serge@raspberrypi.com) (gcc-12 (Raspbian 12.2.0-14+rpi1) 12.2.0, GNU ld (GNU Binutils for Raspbian) 2.40) #1 SMP Raspbian 1:6.6.51-1+rpt3 (2024-10-08)".to_string()),
        ("CPU", "ARMv7 Processor rev 4 (v7l)".to_string()),
        ("RAM", "943 MB".to_string()),
    ];

    assert_eq!(stringify_message(&input), expected);
}

#[test]
fn stringify_duration_at_epoch() {
    assert_eq!(stringify_duration(0), "1970-01-01 00:00:00");
}

#[test]
fn stringify_duration_at_the_last_date() {
    assert_eq!(stringify_duration(MAX_TIMESTAMP), "+262142-12-31 23:59:59");
}

#[test]
fn stringify_duration_around_the_year_ten_thousand() {
    assert_eq!(stringify_duration(253402300799), "9999-12-31 23:59:59");
    assert_eq!(stringify_duration(253402300800), "+10000-01-01 00:00:00");
}

#[test]
fn stringify_message_of_an_empty_machine() {
    let rows = stringify_message(&Machine::default());
    assert_eq!(rows.len(), 5);
    assert_eq!(rows[0], ("booted", "1970-01-01 00:00:00".to_string()));
    assert_eq!(rows[1], ("hostname", String::new()));
    assert_eq!(rows[4], ("RAM", "0 MB".to_string()));
}

#[test]
fn memory_is_shown_in_whole_thousands() {
    let machine = Machine { physical_mem_total_kb: 999, ..Default::default() };
    assert_eq!(stringify_message(&machine)[4].1, "0 MB");
    let machine = Machine { physical_mem_total_kb: 1000, ..Default::default() };
    assert_eq!(stringify_message(&machine)[4].1, "1 MB");
    let machine = Machine { physical_mem_total_kb: u32::MAX, ..Default::default() };
    assert_eq!(stringify_message(&machine)[4].1, "4294967 MB");
}

#[test]
fn version_info_of_a_release_build() {
    assert_eq!(
        version_info("pwservice", "0.1.0", false, "abc123", "false", "2024-11-09T12:30:05Z"),
        "pwservice v0.1.0 release (Git SHA: abc123, dirty: false, build time: 2024-11-09T12:30:05Z)"
    );
}

#[test]
fn version_info_of_a_debug_build_without_revision() {
    assert_eq!(
        version_info("pwclient", "1.2", true, "", "", ""),
        "pwclient v1.2 debug (Git SHA: , dirty: , build time: )"
    );
}

#[test]
fn selectors_of_a_group() {
    assert_eq!(machine_selector("1"), "pw/1/m/**");
    assert_eq!(liveliness_selector("grp1"), "pw/grp1/l/**");
}

#[test]
fn presence_lines() {
    assert_eq!(presence_line(true, "pw/1/l/42"), "machine online ('pw/1/l/42')");
    assert_eq!(presence_line(false, "pw/1/l/42"), "machine offline ('pw/1/l/42')");
}

#[test]
fn present_machine_takes_the_time_as_written() {
    let machine = Machine {
        boottime: u64::MAX,
        hostname: "h".to_string(),
        version: "v".to_string(),
        cpu_model_name: "c".to_string(),
        physical_mem_total_kb: 2500,
        ..Default::default()
    };
    assert_eq!(
        pwservice::common::present_machine(&machine, "some time".to_string()),
        vec![
            ("booted", "some time".to_string()),
            ("hostname", "h".to_string()),
            ("kernel", "v".to_string()),
            ("CPU", "c".to_string()),
            ("RAM", "2 MB".to_string()),
        ]
    );
}
