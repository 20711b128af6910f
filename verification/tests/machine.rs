use pwservice::messages::{CpuLoad, Machine as Identity, MemInfo, Metrics as Snapshot, NetworkInterface, Rtpproto};
use pwservice::platform::error::MachineError;
use pwservice::platform::machine::{
    load, parse_boottime, parse_cpuinfo, parse_mem_size, parse_network_info, parse_value,
    LinuxMachine, Sources, NO_MAC_COLUMN, NO_MAC_LINE,
};
use pwservice::platform::metrics::{
    parse_cpu_stat_line, parse_cpuload, parse_meminfo, parse_no_of_processes, Metrics,
};
use pwservice::platform::processes::Processes;
use pwservice::platform::Machine;

fn lines(text: &str) -> Vec<String> {
    text.lines().map(|l| l.to_string()).collect()
}

const STAT: &str = "cpu  23192 7901 77014 761012 33503 0 1061 0 0 0
cpu0 3018 1237 11821 91831 4828 0 569 0 0 0
intr 2526273 0 0
ctxt 5040414
btime 1731345124
processes 7247
procs_running 2
procs_blocked 1";

const MEMINFO: &str = "MemTotal:         990180 kB
MemFree:          934760 kB
MemAvailable:     940044 kB
SwapTotal:             0 kB
SwapFree:              7 kB";

const ROUTE: &str = "default via 192.168.42.1 dev eth0 proto dhcp src 192.168.42.105 metric 100\n192.168.42.0/24 dev eth0 proto kernel scope link src 192.168.42.105 metric 100";

const ADDRESS: &str = "2: eth0: <BROADCAST,MULTICAST,UP,LOWER_UP> mtu 1500 qdisc pfifo_fast state UP group default qlen 1000\n    link/ether b8:27:eb:10:c6:85 brd ff:ff:ff:ff:ff:ff\n    inet 192.168.42.105/24 brd 192.168.42.255 scope global dynamic noprefixroute eth0\n       valid_lft 69343sec preferred_lft 69343sec";

fn no_sources() -> Sources {
    Sources {
        stat: None,
        boot_id: None,
        hostname: None,
        version: None,
        cpuinfo: None,
        meminfo: None,
        route: None,
        address: None,
    }
}

fn all_sources() -> Sources {
    Sources {
        stat: Some(lines(STAT)),
        boot_id: Some(lines("5be4b9be-6f40-4ba5-ab5d-72cf867cfa0d\n")),
        hostname: Some(lines("some-name\n")),
        version: Some(lines("Linux version 4.14.44 (jenkins@miro) #1 SMP\n")),
        cpuinfo: Some(lines("processor\t: 0\nmodel name\t: ARMv7 Processor rev 10 (v7l)\n")),
        meminfo: Some(lines(MEMINFO)),
        route: Some(ROUTE.to_string()),
        address: Some(ADDRESS.to_string()),
    }
}

fn eth0() -> NetworkInterface {
    NetworkInterface {
        mac: 202481586980485,
        name: "eth0".to_string(),
        proto: Rtpproto::Dhcp,
        ipv4: 3232246377,
        subnet_mask: 24,
        broadcast: 3232246527,
        gateway: 3232246273,
    }
}

#[test]
fn load_reads_every_source() {
    let expected = Identity {
        boottime: 1731345124,
        bootid: "5be4b9be-6f40-4ba5-ab5d-72cf867cfa0d".to_string(),
        hostname: "some-name".to_string(),
        version: "Linux version 4.14.44 (jenkins@miro) #1 SMP".to_string(),
        cpu_model_name: "ARMv7 Processor rev 10 (v7l)".to_string(),
        physical_mem_total_kb: 990180,
        network_interface: Some(eth0()),
    };
    assert_eq!(load(all_sources()), expected);
}

#[test]
fn load_without_sources_gives_an_empty_identity() {
    assert_eq!(load(no_sources()), Identity::default());
}

#[test]
fn load_leaves_what_a_source_does_not_show() {
    let sources = Sources {
        stat: Some(lines("cpu 1 2 3 4 5\nbtime soon")),
        boot_id: Some(vec![]),
        hostname: Some(lines("one\ntwo")),
        version: None,
        cpuinfo: Some(lines("processor : 0")),
        meminfo: Some(lines("MemTotal: lots")),
        route: Some(ROUTE.to_string()),
        address: None,
    };
    let expected = Identity { hostname: "two".to_string(), ..Default::default() };
    assert_eq!(load(sources), expected);
}

#[test]
fn an_interface_needs_both_tools() {
    let only_route = Sources { route: Some(ROUTE.to_string()), ..no_sources() };
    assert_eq!(load(only_route).network_interface, None);
    let only_address = Sources { address: Some(ADDRESS.to_string()), ..no_sources() };
    assert_eq!(load(only_address).network_interface, None);
    let both = Sources {
        route: Some(String::new()),
        address: Some(String::new()),
        ..no_sources()
    };
    assert_eq!(load(both).network_interface, Some(NetworkInterface::default()));
}

#[test]
fn boottime_is_the_number_after_btime() {
    assert_eq!(parse_boottime(lines(STAT)), Some(1731345124));
    assert_eq!(parse_boottime(lines("btime 5\nbtime 6")), Some(5));
    assert_eq!(parse_boottime(lines("btimes 5")), Some(5));
    assert_eq!(parse_boottime(lines("ctxt 5")), None);
    assert_eq!(parse_boottime(lines("btime")), None);
    assert_eq!(parse_boottime(lines(" btime 5")), None);
    assert_eq!(parse_boottime(lines("btime 18446744073709551616")), None);
    assert_eq!(parse_boottime(vec![]), None);
}

#[test]
fn a_value_is_the_last_line_without_its_key() {
    assert_eq!(parse_value(lines("some-name")), Some("some-name".to_string()));
    assert_eq!(parse_value(lines("a\n  b   c ")), Some("b c".to_string()));
    assert_eq!(parse_value(lines("k: v")), Some("v".to_string()));
    assert_eq!(parse_value(lines("x\n")), Some("x".to_string()));
    assert_eq!(parse_value(lines("x\n\n")), Some(String::new()));
    assert_eq!(parse_value(vec![]), None);
}

#[test]
fn cpuinfo_is_the_first_model_name() {
    assert_eq!(
        parse_cpuinfo(lines("processor : 0\nmodel name\t: A\nmodel name\t: B")),
        Some("A".to_string())
    );
    assert_eq!(parse_cpuinfo(lines("model name")), Some("model name".to_string()));
    assert_eq!(parse_cpuinfo(lines("processor : 0")), None);
    assert_eq!(parse_cpuinfo(vec![]), None);
}

#[test]
fn mem_size_is_the_number_after_mem_total() {
    assert_eq!(parse_mem_size(lines(MEMINFO)), Some(990180));
    assert_eq!(parse_mem_size(lines("MemTotal: 4294967295 kB")), Some(u32::MAX));
    assert_eq!(parse_mem_size(lines("MemTotal: 4294967296 kB")), None);
    assert_eq!(parse_mem_size(lines("MemTotal 12 kB")), None);
    assert_eq!(parse_mem_size(lines("MemTotal:12")), None);
    assert_eq!(parse_mem_size(lines("MemFree: 12 kB")), None);
}

#[test]
fn network_info_of_both_tools() {
    assert_eq!(parse_network_info(ROUTE, ADDRESS), eth0());
}

#[test]
fn network_info_protocols() {
    let route = |proto: &str| format!("default via 10.0.0.1 dev wlan0 proto {} metric 1", proto);
    assert_eq!(parse_network_info(&route("static"), "").proto, Rtpproto::Static);
    assert_eq!(parse_network_info(&route("dhcp"), "").proto, Rtpproto::Dhcp);
    assert_eq!(parse_network_info(&route("kernel"), "").proto, Rtpproto::Unknown);
    assert_eq!(parse_network_info(&route("DHCP"), "").proto, Rtpproto::Unknown);
    let info = parse_network_info(&route("static"), "");
    assert_eq!(
        info,
        NetworkInterface {
            name: "wlan0".to_string(),
            proto: Rtpproto::Static,
            gateway: 0x0a00_0001,
            ..Default::default()
        }
    );
}

#[test]
fn network_info_of_text_that_shows_nothing() {
    assert_eq!(parse_network_info("", ""), NetworkInterface::default());
    assert_eq!(
        parse_network_info("default via 10.0.0.1 dev wlan0", ADDRESS),
        NetworkInterface {
            mac: 202481586980485,
            ipv4: 3232246377,
            subnet_mask: 24,
            broadcast: 3232246527,
            ..Default::default()
        }
    );
}

#[test]
fn a_machine_needs_a_hardware_address() {
    let no_interface = LinuxMachine::new(no_sources());
    let e: MachineError = no_interface.err().unwrap();
    assert_eq!(e.message, "Could not load valid MAC");
    assert_eq!(e.line, NO_MAC_LINE);
    assert_eq!(e.column, NO_MAC_COLUMN);

    let no_mac = Sources {
        route: Some(ROUTE.to_string()),
        address: Some("    inet 192.168.42.105/24 brd 192.168.42.255 scope global eth0".to_string()),
        ..no_sources()
    };
    assert!(LinuxMachine::new(no_mac).is_err());

    let zero_mac = Sources {
        route: Some(ROUTE.to_string()),
        address: Some("    link/ether 00:00:00:00:00:00 brd ff:ff:ff:ff:ff:ff".to_string()),
        ..no_sources()
    };
    assert!(LinuxMachine::new(zero_mac).is_err());
}

#[test]
fn a_machine_gives_its_identity() {
    let machine = LinuxMachine::new(all_sources()).ok().unwrap();
    assert_eq!(machine.mac(), 202481586980485);
    assert_eq!(machine.bootid(), "5be4b9be-6f40-4ba5-ab5d-72cf867cfa0d");
    assert_eq!(machine.identity(), &load(all_sources()));
    assert_eq!(machine.serialize(), pwservice::codec::serialize_machine(&load(all_sources())));
    assert_eq!(
        pwservice::codec::deserialize_machine(&machine.serialize()).ok().unwrap(),
        load(all_sources())
    );
}

#[test]
fn machine_error_text() {
    let e = MachineError { message: "Could not load valid MAC".to_string(), line: 18, column: 110 };
    assert_eq!(e.to_string(), "Could not load valid MAC (18:110");
    let e = MachineError { message: String::new(), line: 0, column: u32::MAX };
    assert_eq!(e.to_string(), " (0:4294967295");
}

#[test]
fn process_counts_need_all_three() {
    assert_eq!(parse_no_of_processes(lines(STAT)), Some(vec![7247, 2, 1]));
    assert_eq!(
        parse_no_of_processes(lines("procs_blocked 1\nprocesses 7\nprocs_running 2")),
        Some(vec![1, 7, 2])
    );
    assert_eq!(parse_no_of_processes(lines("processes 7\nprocs_running 2")), None);
    assert_eq!(
        parse_no_of_processes(lines("processes 7\nprocs_running x\nprocs_blocked 1")),
        None
    );
    assert_eq!(parse_no_of_processes(vec![]), None);
}

#[test]
fn memory_counters_need_all_five() {
    assert_eq!(parse_meminfo(lines(MEMINFO)), Some(vec![990180, 934760, 940044, 0, 7]));
    assert_eq!(parse_meminfo(lines("MemTotal: 1 kB\nMemFree: 2 kB")), None);
    assert_eq!(parse_meminfo(lines("processor : 0")), None);
}

#[test]
fn processor_lines_give_five_counters() {
    assert_eq!(parse_cpu_stat_line("cpu  1 2 3 4 5 6 7"), Some(vec![1, 2, 3, 4, 5]));
    assert_eq!(parse_cpu_stat_line("cpu7 1 2 3 4 5"), Some(vec![1, 2, 3, 4, 5]));
    assert_eq!(
        parse_cpu_stat_line("cpu 18446744073709551615 0 0 0 0"),
        Some(vec![u64::MAX, 0, 0, 0, 0])
    );
    assert_eq!(parse_cpu_stat_line("cpu 1 2 3 4"), None);
    assert_eq!(parse_cpu_stat_line("cpu 1 2 x 4 5"), None);
    assert_eq!(parse_cpu_stat_line(" cpu 1 2 3 4 5"), None);
    assert_eq!(parse_cpu_stat_line("ctxt 1 2 3 4 5"), None);
    assert_eq!(parse_cpu_stat_line("cpu 18446744073709551616 0 0 0 0"), None);
    assert_eq!(parse_cpu_stat_line(""), None);
}

#[test]
fn cpuload_needs_a_processor_line() {
    assert_eq!(
        parse_cpuload(lines(STAT)),
        Some(vec![vec![23192, 7901, 77014, 761012, 33503], vec![3018, 1237, 11821, 91831, 4828]])
    );
    assert_eq!(parse_cpuload(lines("ctxt 1\nbtime 2")), None);
    assert_eq!(parse_cpuload(vec![]), None);
}

#[test]
fn metrics_of_both_sources() {
    let sources = pwservice::platform::metrics::Sources {
        stat: Some(lines(STAT)),
        meminfo: Some(lines(MEMINFO)),
    };
    let expected = Snapshot {
        processes: 7247,
        runnable_processes: 2,
        processes_blocked: 1,
        mem_info: Some(MemInfo {
            mem_total: 990180,
            mem_free: 934760,
            mem_available: 940044,
            swap_total: 0,
            swap_free: 7,
        }),
        cpu_load: vec![
            CpuLoad { user: 23192, nice: 7901, system: 77014, idle: 761012, iowait: 33503 },
            CpuLoad { user: 3018, nice: 1237, system: 11821, idle: 91831, iowait: 4828 },
        ],
    };
    assert_eq!(pwservice::platform::metrics::load(sources), expected);
}

#[test]
fn metrics_leave_what_a_source_does_not_show_in_full() {
    let sources = pwservice::platform::metrics::Sources { stat: None, meminfo: None };
    assert_eq!(pwservice::platform::metrics::load(sources), Snapshot::default());

    let sources = pwservice::platform::metrics::Sources {
        stat: Some(lines("cpu 1 2 3 4 5\nprocesses 7\nprocs_running 2")),
        meminfo: Some(lines("MemTotal: 1 kB")),
    };
    assert_eq!(pwservice::platform::metrics::load(sources), Snapshot::default());
}

#[test]
fn metrics_snapshot_serializes() {
    let sources = pwservice::platform::metrics::Sources {
        stat: Some(lines("processes 7\nprocs_running 2\nprocs_blocked 1")),
        meminfo: None,
    };
    let metrics = Metrics::new(sources).ok().unwrap();
    assert_eq!(metrics.record().processes, 7);
    assert_eq!(metrics.serialize(), vec![8, 7, 16, 2, 24, 1]);
}

#[test]
fn process_listing_is_empty() {
    let processes = Processes::new().ok().unwrap();
    assert_eq!(processes.serialize(), Vec::<u8>::new());
    assert_eq!(pwservice::platform::processes::load(), *processes.record());
}

#[test]
fn ascii_characters_are_numeric_where_they_are_digits() {
    for u in 0..0x80u8 {
        let c = u as char;
        assert_eq!(c.is_numeric(), c.is_ascii_digit(), "{:?}", c);
    }
}
