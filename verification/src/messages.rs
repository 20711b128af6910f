//! The records that an agent publishes: machine identity, metrics and
//! process listing.

use vstd::prelude::*;

verus! {

/// How the primary network interface got its address.
#[derive(Clone, Copy, Debug, PartialEq, Eq, Structural)]
pub enum Rtpproto {
    Unknown,
    Static,
    Dhcp,
}

/// The primary network interface of a machine.
#[derive(Clone, Debug, PartialEq, Eq)]
pub struct NetworkInterface {
    /// Hardware address, 48 bits.
    pub mac: u64,
    pub name: String,
    pub proto: Rtpproto,
    pub ipv4: u32,
    pub subnet_mask: u32,
    pub broadcast: u32,
    pub gateway: u32,
}

/// The identity of a machine, captured once at startup.
#[derive(Clone, Debug, PartialEq, Eq)]
pub struct Machine {
    /// Time of boot, in seconds since the epoch.
    pub boottime: u64,
    /// Identifier of the boot session; changes with every boot.
    pub bootid: String,
    pub hostname: String,
    /// Kernel version text.
    pub version: String,
    pub cpu_model_name: String,
    pub physical_mem_total_kb: u32,
    pub network_interface: Option<NetworkInterface>,
}

/// Memory counters, in kilobytes.
#[derive(Clone, Copy, Debug, PartialEq, Eq, Structural)]
pub struct MemInfo {
    pub mem_total: u32,
    pub mem_free: u32,
    pub mem_available: u32,
    pub swap_total: u32,
    pub swap_free: u32,
}

/// Time counters of one processor, or of all together.
#[derive(Clone, Copy, Debug, PartialEq, Eq, Structural)]
pub struct CpuLoad {
    pub user: u64,
    pub nice: u64,
    pub system: u64,
    pub idle: u64,
    pub iowait: u64,
}

/// A snapshot of system metrics.
#[derive(Clone, Debug, PartialEq, Eq)]
pub struct Metrics {
    pub processes: u32,
    pub runnable_processes: u32,
    pub processes_blocked: u32,
    pub mem_info: Option<MemInfo>,
    pub cpu_load: Vec<CpuLoad>,
}

/// A snapshot of the process listing.
#[derive(Clone, Debug, PartialEq, Eq)]
pub struct Processes {
}

/// What a `NetworkInterface` stands for.
pub struct NetworkInterfaceView {
    pub mac: u64,
    pub name: Seq<char>,
    pub proto: Rtpproto,
    pub ipv4: u32,
    pub subnet_mask: u32,
    pub broadcast: u32,
    pub gateway: u32,
}

/// What a `Machine` stands for.
pub struct MachineView {
    pub boottime: u64,
    pub bootid: Seq<char>,
    pub hostname: Seq<char>,
    pub version: Seq<char>,
    pub cpu_model_name: Seq<char>,
    pub physical_mem_total_kb: u32,
    pub network_interface: Option<NetworkInterfaceView>,
}

/// What a `Metrics` stands for.
pub struct MetricsView {
    pub processes: u32,
    pub runnable_processes: u32,
    pub processes_blocked: u32,
    pub mem_info: Option<MemInfo>,
    pub cpu_load: Seq<CpuLoad>,
}

impl View for NetworkInterface {
    type V = NetworkInterfaceView;

    open spec fn view(&self) -> NetworkInterfaceView {
        NetworkInterfaceView {
            mac: self.mac,
            name: self.name@,
            proto: self.proto,
            ipv4: self.ipv4,
            subnet_mask: self.subnet_mask,
            broadcast: self.broadcast,
            gateway: self.gateway,
        }
    }
}

impl View for Machine {
    type V = MachineView;

    open spec fn view(&self) -> MachineView {
        MachineView {
            boottime: self.boottime,
            bootid: self.bootid@,
            hostname: self.hostname@,
            version: self.version@,
            cpu_model_name: self.cpu_model_name@,
            physical_mem_total_kb: self.physical_mem_total_kb,
            network_interface: match self.network_interface {
                Some(n) => Some(n@),
                None => None,
            },
        }
    }
}

impl View for Metrics {
    type V = MetricsView;

    open spec fn view(&self) -> MetricsView {
        MetricsView {
            processes: self.processes,
            runnable_processes: self.runnable_processes,
            processes_blocked: self.processes_blocked,
            mem_info: self.mem_info,
            cpu_load: self.cpu_load@,
        }
    }
}

impl NetworkInterfaceView {
    /// The interface of which nothing is known.
    pub open spec fn empty() -> NetworkInterfaceView {
        NetworkInterfaceView {
            mac: 0,
            name: Seq::empty(),
            proto: Rtpproto::Unknown,
            ipv4: 0,
            subnet_mask: 0,
            broadcast: 0,
            gateway: 0,
        }
    }
}

impl MachineView {
    /// The machine of which nothing is known.
    pub open spec fn empty() -> MachineView {
        MachineView {
            boottime: 0,
            bootid: Seq::empty(),
            hostname: Seq::empty(),
            version: Seq::empty(),
            cpu_model_name: Seq::empty(),
            physical_mem_total_kb: 0,
            network_interface: None,
        }
    }
}

impl MetricsView {
    /// The snapshot without any reading.
    pub open spec fn empty() -> MetricsView {
        MetricsView {
            processes: 0,
            runnable_processes: 0,
            processes_blocked: 0,
            mem_info: None,
            cpu_load: Seq::empty(),
        }
    }
}

impl Default for NetworkInterface {
    fn default() -> (n: NetworkInterface)
        ensures
            n@ == NetworkInterfaceView::empty(),
    {
        NetworkInterface {
            mac: 0,
            name: String::new(),
            proto: Rtpproto::Unknown,
            ipv4: 0,
            subnet_mask: 0,
            broadcast: 0,
            gateway: 0,
        }
    }
}

impl Default for Machine {
    fn default() -> (m: Machine)
        ensures
            m@ == MachineView::empty(),
    {
        Machine {
            boottime: 0,
            bootid: String::new(),
            hostname: String::new(),
            version: String::new(),
            cpu_model_name: String::new(),
            physical_mem_total_kb: 0,
            network_interface: None,
        }
    }
}

impl Default for Metrics {
    fn default() -> (m: Metrics)
        ensures
            m@ == MetricsView::empty(),
    {
        Metrics {
            processes: 0,
            runnable_processes: 0,
            processes_blocked: 0,
            mem_info: None,
            cpu_load: Vec::new(),
        }
    }
}

impl Default for Processes {
    fn default() -> Processes {
        Processes {  }
    }
}

} // verus!
