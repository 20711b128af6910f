//! The identity of a Linux machine, read from the text of its information
//! sources.

use vstd::prelude::*;
use crate::codec::{machine_wire, serialize_machine};
use crate::messages::{
    Machine as Identity,
    MachineView,
    NetworkInterface,
    NetworkInterfaceView,
    Rtpproto,
};
use crate::number::{
    numeric_prefix,
    parse_number,
    parse_number_no_separator,
    read_decimal,
    second_word_number,
    NumberError,
};
use crate::platform::error::MachineError;
use crate::platform::network::{
    address_info,
    ip_from_string,
    ipv4_value,
    mac_from_string,
    mac_value,
    parse_ip_address_info,
    parse_ip_route_info,
    route_info,
};
use crate::platform::utils::{parse_lines, parse_lines_no_separator, parsed_lines};
use crate::platform::Machine;
use crate::text::{equals_str, texts, to_chars};

verus! {

/// The text of a machine's information sources, each as far as it could be
/// read.
pub struct Sources {
    /// The lines of the kernel's statistics.
    pub stat: Option<Vec<String>>,
    /// The lines of the boot session identifier.
    pub boot_id: Option<Vec<String>>,
    /// The lines of the host name.
    pub hostname: Option<Vec<String>>,
    /// The lines of the kernel version.
    pub version: Option<Vec<String>>,
    /// The lines of the processor description.
    pub cpuinfo: Option<Vec<String>>,
    /// The lines of the memory description.
    pub meminfo: Option<Vec<String>>,
    /// The output of the routing tool.
    pub route: Option<String>,
    /// The output of the address tool for the interface of the default
    /// route.
    pub address: Option<String>,
}

/// The one element that asks for the first line beginning with `key`.
pub open spec fn asking_for(key: &str) -> Seq<(&str, bool)> {
    seq![(key, false)]
}

/// The first line of `ls` that begins with `key`, as `parse_line` turns it
/// out.
pub open spec fn first_line_with(ls: Seq<Seq<char>>, key: &str, drop_key: bool) -> Option<
    Seq<char>,
> {
    let found = parsed_lines(ls, asking_for(key), drop_key, ls.len() as int);
    if found.len() == 0 {
        None
    } else {
        Some(found[0])
    }
}

/// The last line of `ls`, as `parse_line` turns it out without its key.
pub open spec fn last_line(ls: Seq<Seq<char>>) -> Option<Seq<char>> {
    let all = parsed_lines(ls, Seq::empty(), true, ls.len() as int);
    if all.len() == 0 {
        None
    } else {
        Some(all.last())
    }
}

/// The time of boot that the kernel's statistics `ls` show: the number
/// after `btime`.
pub open spec fn boottime_of(ls: Seq<Seq<char>>) -> Option<u64> {
    match first_line_with(ls, "btime", false) {
        Some(line) => match second_word_number(line, u64::MAX as nat) {
            Some(v) => Some(v as u64),
            None => None,
        },
        None => None,
    }
}

/// The size of memory that the memory description `ls` shows: the number
/// after `MemTotal:`.
pub open spec fn mem_size_of(ls: Seq<Seq<char>>) -> Option<u32> {
    match first_line_with(ls, "MemTotal:", true) {
        Some(line) => match read_decimal(numeric_prefix(line), u32::MAX as nat) {
            Ok(v) => Some(v as u32),
            Err(_) => None,
        },
        None => None,
    }
}

/// The protocol that the routing tool's word `word` names.
pub open spec fn proto_of(word: Seq<char>) -> Rtpproto {
    if word == "static"@ {
        Rtpproto::Static
    } else if word == "dhcp"@ {
        Rtpproto::Dhcp
    } else {
        Rtpproto::Unknown
    }
}

/// The interface that the outputs of the routing tool and of the address
/// tool describe.
pub open spec fn network_of(route: Seq<char>, address: Seq<char>) -> NetworkInterfaceView {
    let r = route_info(route);
    let a = address_info(address);
    NetworkInterfaceView {
        mac: mac_value(a[3]),
        name: r[0],
        proto: proto_of(r[1]),
        ipv4: ipv4_value(a[0]),
        subnet_mask: match read_decimal(numeric_prefix(a[1]), u32::MAX as nat) {
            Ok(v) => v as u32,
            Err(_) => 0,
        },
        broadcast: ipv4_value(a[2]),
        gateway: ipv4_value(r[2]),
    }
}

/// `ls` as texts, where there are any.
pub open spec fn lines_of(ls: Option<Vec<String>>) -> Option<Seq<Seq<char>>> {
    match ls {
        Some(v) => Some(texts(v@)),
        None => None,
    }
}

/// The identity that the sources `s` describe. What a source does not
/// show stays zero or empty.
pub open spec fn machine_of(s: Sources) -> MachineView {
    MachineView {
        boottime: match lines_of(s.stat) {
            Some(ls) => boottime_of(ls).unwrap_or(0),
            None => 0,
        },
        bootid: match lines_of(s.boot_id) {
            Some(ls) => last_line(ls).unwrap_or(Seq::empty()),
            None => Seq::empty(),
        },
        hostname: match lines_of(s.hostname) {
            Some(ls) => last_line(ls).unwrap_or(Seq::empty()),
            None => Seq::empty(),
        },
        version: match lines_of(s.version) {
            Some(ls) => last_line(ls).unwrap_or(Seq::empty()),
            None => Seq::empty(),
        },
        cpu_model_name: match lines_of(s.cpuinfo) {
            Some(ls) => first_line_with(ls, "model name", true).unwrap_or(Seq::empty()),
            None => Seq::empty(),
        },
        physical_mem_total_kb: match lines_of(s.meminfo) {
            Some(ls) => mem_size_of(ls).unwrap_or(0),
            None => 0,
        },
        network_interface: match (s.route, s.address) {
            (Some(route), Some(address)) => Some(network_of(route@, address@)),
            _ => None,
        },
    }
}

/// The elements that ask for the first line beginning with `key`.
fn ask_for(key: &'static str) -> (elements: Vec<(&'static str, bool)>)
    ensures
        elements@ == asking_for(key),
{
    let mut elements: Vec<(&'static str, bool)> = Vec::new();
    elements.push((key, false));
    assert(elements@ =~= asking_for(key));
    elements
}

/// Reads the time of boot from the lines of the kernel's statistics.
pub fn parse_boottime(all_lines: Vec<String>) -> (r: Option<u64>)
    ensures
        r == boottime_of(texts(all_lines@)),
{
    let lines = parse_lines_no_separator(all_lines, ask_for("btime"));
    if lines.len() == 0 {
        return None;
    }
    assert(texts(lines@)[0] == lines@[0]@);
    parse_number_no_separator(lines[0].as_str())
}

/// Reads a source that holds one value on a line of its own: gives its
/// last line. This suits the boot session identifier, the host name and
/// the kernel version.
pub fn parse_value(lines: Vec<String>) -> (r: Option<String>)
    ensures
        match r {
            Some(v) => last_line(texts(lines@)) == Some(v@),
            None => last_line(texts(lines@)) is None,
        },
{
    let mut all = parse_lines(lines, Vec::new(), true);
    assert(all@.len() > 0 ==> texts(all@).last() == all@.last()@);
    all.pop()
}

/// Reads the processor's model name from the lines of the processor
/// description.
pub fn parse_cpuinfo(lines: Vec<String>) -> (r: Option<String>)
    ensures
        match r {
            Some(v) => first_line_with(texts(lines@), "model name", true) == Some(v@),
            None => first_line_with(texts(lines@), "model name", true) is None,
        },
{
    let found = parse_lines(lines, ask_for("model name"), true);
    if found.len() == 0 {
        return None;
    }
    assert(texts(found@)[0] == found@[0]@);
    Some(found[0].clone())
}

/// Reads the size of memory from the lines of the memory description.
pub fn parse_mem_size(all_lines: Vec<String>) -> (r: Option<u32>)
    ensures
        r == mem_size_of(texts(all_lines@)),
{
    let lines = parse_lines(all_lines, ask_for("MemTotal:"), true);
    if lines.len() == 0 {
        return None;
    }
    assert(texts(lines@)[0] == lines@[0]@);
    let r: Result<u32, NumberError> = parse_number(lines[0].as_str());
    match r {
        Ok(v) => Some(v),
        Err(_) => None,
    }
}

/// Reads the primary network interface from the outputs of the routing
/// tool and of the address tool.
pub fn parse_network_info(route: &str, address: &str) -> (info: NetworkInterface)
    ensures
        info@ == network_of(route@, address@),
{
    let route_info = parse_ip_route_info(route);
    let address_info = parse_ip_address_info(address);
    proof {
        assert(texts(route_info@)[0] == route_info@[0]@);
        assert(texts(route_info@)[1] == route_info@[1]@);
        assert(texts(route_info@)[2] == route_info@[2]@);
        assert(texts(address_info@)[0] == address_info@[0]@);
        assert(texts(address_info@)[1] == address_info@[1]@);
        assert(texts(address_info@)[2] == address_info@[2]@);
        assert(texts(address_info@)[3] == address_info@[3]@);
    }
    let word = to_chars(route_info[1].as_str());
    let proto = if equals_str(word.as_slice(), "static") {
        Rtpproto::Static
    } else if equals_str(word.as_slice(), "dhcp") {
        Rtpproto::Dhcp
    } else {
        Rtpproto::Unknown
    };
    let mask: Result<u32, NumberError> = parse_number(address_info[1].as_str());
    NetworkInterface {
        mac: mac_from_string(address_info[3].as_str()),
        name: route_info[0].clone(),
        proto,
        ipv4: ip_from_string(address_info[0].as_str()),
        subnet_mask: match mask {
            Ok(v) => v,
            Err(_) => 0,
        },
        broadcast: ip_from_string(address_info[2].as_str()),
        gateway: ip_from_string(route_info[2].as_str()),
    }
}

/// Builds the identity of a machine from its sources. What a source does
/// not show stays zero or empty.
pub fn load(sources: Sources) -> (machine: Identity)
    ensures
        machine@ == machine_of(sources),
{
    let mut machine = Identity::default();
    if let Some(lines) = sources.stat {
        if let Some(value) = parse_boottime(lines) {
            machine.boottime = value;
        }
    }
    if let Some(lines) = sources.boot_id {
        if let Some(value) = parse_value(lines) {
            machine.bootid = value;
        }
    }
    if let Some(lines) = sources.hostname {
        if let Some(value) = parse_value(lines) {
            machine.hostname = value;
        }
    }
    if let Some(lines) = sources.version {
        if let Some(value) = parse_value(lines) {
            machine.version = value;
        }
    }
    if let Some(lines) = sources.cpuinfo {
        if let Some(value) = parse_cpuinfo(lines) {
            machine.cpu_model_name = value;
        }
    }
    if let Some(lines) = sources.meminfo {
        if let Some(value) = parse_mem_size(lines) {
            machine.physical_mem_total_kb = value;
        }
    }
    if let Some(route) = sources.route {
        if let Some(address) = sources.address {
            machine.network_interface = Some(parse_network_info(route.as_str(), address.as_str()));
        }
    }
    machine
}

/// Line of the place code that the error for a missing hardware address
/// carries.
pub const NO_MAC_LINE: u32 = 18;

/// Column of the place code that the error for a missing hardware
/// address carries.
pub const NO_MAC_COLUMN: u32 = 110;

/// The identity of a Linux machine with a usable hardware address.
pub struct LinuxMachine {
    machine_info: Identity,
}

impl LinuxMachine {
    /// Whether `m` has a network interface with a hardware address other
    /// than zero.
    pub open spec fn has_mac(m: MachineView) -> bool {
        m.network_interface matches Some(n) && n.mac != 0
    }

    #[verifier::type_invariant]
    spec fn well_formed(&self) -> bool {
        Self::has_mac(self.machine_info@)
    }

    /// The identity held.
    pub closed spec fn info(&self) -> MachineView {
        self.machine_info@
    }

    /// Builds the identity of the machine from its sources. Fails where
    /// they show no network interface with a hardware address.
    pub fn new(sources: Sources) -> (r: Result<LinuxMachine, MachineError>)
        ensures
            match r {
                Ok(m) => Self::has_mac(machine_of(sources)) && m.info() == machine_of(sources),
                Err(e) => !Self::has_mac(machine_of(sources)) && e.message@
                    == "Could not load valid MAC"@ && e.line == NO_MAC_LINE && e.column
                    == NO_MAC_COLUMN,
            },
    {
        let machine_info = load(sources);
        let usable = match &machine_info.network_interface {
            Some(n) => n.mac != 0,
            None => false,
        };
        if !usable {
            return Err(
                MachineError {
                    message: "Could not load valid MAC".to_owned(),
                    line: NO_MAC_LINE,
                    column: NO_MAC_COLUMN,
                },
            );
        }
        Ok(LinuxMachine { machine_info })
    }

    /// The identity as the bytes that are published.
    pub fn serialize(&self) -> (buf: Vec<u8>)
        ensures
            buf@ == machine_wire(self.info()),
    {
        serialize_machine(&self.machine_info)
    }

    /// The identity held.
    pub fn identity(&self) -> (m: &Identity)
        ensures
            m@ == self.info(),
    {
        &self.machine_info
    }
}

impl Machine for LinuxMachine {
    open spec fn bootid_text(&self) -> Seq<char> {
        self.info().bootid
    }

    open spec fn mac_number(&self) -> u64 {
        self.info().network_interface->0.mac
    }

    fn bootid(&self) -> (id: &str) {
        self.machine_info.bootid.as_str()
    }

    fn mac(&self) -> (mac: u64) {
        proof {
            use_type_invariant(self);
        }
        match &self.machine_info.network_interface {
            Some(n) => n.mac,
            None => 0,
        }
    }
}

} // verus!
