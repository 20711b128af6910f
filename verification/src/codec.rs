//! The published records on the wire.

use vstd::prelude::*;
use vstd::utf8::encode_utf8;
use crate::messages::{
    CpuLoad,
    Machine,
    MachineView,
    MemInfo,
    Metrics,
    MetricsView,
    NetworkInterface,
    NetworkInterfaceView,
    Processes,
    Rtpproto,
};
use crate::wire::{
    bytes_field,
    lemma_bytes_field_reads,
    lemma_number_field_reads,
    lemma_read_varint_bounds,
    lemma_text_field_reads,
    low32,
    nested_value,
    number_if_set,
    number_value,
    put_nested,
    put_text,
    put_u32,
    put_u64,
    read_key,
    skip_value,
    skipped,
    take_key,
    take_nested,
    take_number,
    take_text_value,
    text_if_set,
    text_value,
    WireError,
    WireKind,
};

verus! {

/// The number that stands for a protocol on the wire.
pub open spec fn proto_number(p: Rtpproto) -> u32 {
    match p {
        Rtpproto::Unknown => 0,
        Rtpproto::Static => 1,
        Rtpproto::Dhcp => 2,
    }
}

/// The fields of a network interface, in the order of their numbers.
pub open spec fn interface_wire(n: NetworkInterfaceView) -> Seq<u8> {
    number_if_set(1, n.mac as nat) + text_if_set(2, n.name) + number_if_set(
        3,
        proto_number(n.proto) as nat,
    ) + number_if_set(4, n.ipv4 as nat) + number_if_set(5, n.subnet_mask as nat) + number_if_set(
        6,
        n.broadcast as nat,
    ) + number_if_set(7, n.gateway as nat)
}

/// The field of the network interface of a machine: left out where the
/// machine has none.
pub open spec fn interface_if_set(n: Option<NetworkInterfaceView>) -> Seq<u8> {
    match n {
        Some(n) => bytes_field(7, interface_wire(n)),
        None => Seq::empty(),
    }
}

/// The fields of a machine's identity, in the order of their numbers.
pub open spec fn machine_wire(m: MachineView) -> Seq<u8> {
    number_if_set(1, m.boottime as nat) + text_if_set(2, m.bootid) + text_if_set(3, m.hostname)
        + text_if_set(4, m.version) + text_if_set(5, m.cpu_model_name) + number_if_set(
        6,
        m.physical_mem_total_kb as nat,
    ) + interface_if_set(m.network_interface)
}

/// The fields of the memory counters.
pub open spec fn mem_info_wire(m: MemInfo) -> Seq<u8> {
    number_if_set(1, m.mem_total as nat) + number_if_set(2, m.mem_free as nat) + number_if_set(
        3,
        m.mem_available as nat,
    ) + number_if_set(4, m.swap_total as nat) + number_if_set(5, m.swap_free as nat)
}

/// The fields of the time counters of one processor.
pub open spec fn cpu_load_wire(c: CpuLoad) -> Seq<u8> {
    number_if_set(1, c.user as nat) + number_if_set(2, c.nice as nat) + number_if_set(
        3,
        c.system as nat,
    ) + number_if_set(4, c.idle as nat) + number_if_set(5, c.iowait as nat)
}

/// The fields of the processor loads, one field for each.
pub open spec fn cpu_loads_wire(loads: Seq<CpuLoad>) -> Seq<u8>
    decreases loads.len(),
{
    if loads.len() == 0 {
        Seq::empty()
    } else {
        cpu_loads_wire(loads.drop_last()) + bytes_field(5, cpu_load_wire(loads.last()))
    }
}

/// The fields of a metrics snapshot, in the order of their numbers.
pub open spec fn metrics_wire(m: MetricsView) -> Seq<u8> {
    number_if_set(1, m.processes as nat) + number_if_set(2, m.runnable_processes as nat)
        + number_if_set(3, m.processes_blocked as nat) + (match m.mem_info {
        Some(info) => bytes_field(4, mem_info_wire(info)),
        None => Seq::empty(),
    }) + cpu_loads_wire(m.cpu_load)
}

/// The number that stands for `p` on the wire.
pub fn proto_to_number(p: Rtpproto) -> (n: u32)
    ensures
        n == proto_number(p),
{
    match p {
        Rtpproto::Unknown => 0,
        Rtpproto::Static => 1,
        Rtpproto::Dhcp => 2,
    }
}

/// Writes a network interface as the fields of a record.
pub fn serialize_interface(interface: &NetworkInterface) -> (buf: Vec<u8>)
    ensures
        buf@ == interface_wire(interface@),
{
    let mut buf: Vec<u8> = Vec::new();
    put_u64(&mut buf, 1, interface.mac);
    put_text(&mut buf, 2, &interface.name);
    put_u32(&mut buf, 3, proto_to_number(interface.proto));
    put_u32(&mut buf, 4, interface.ipv4);
    put_u32(&mut buf, 5, interface.subnet_mask);
    put_u32(&mut buf, 6, interface.broadcast);
    put_u32(&mut buf, 7, interface.gateway);
    assert(buf@ == interface_wire(interface@));
    buf
}

/// Writes a machine's identity as the bytes that are published. A field
/// that is zero or empty takes no room.
pub fn serialize_machine(machine: &Machine) -> (buf: Vec<u8>)
    ensures
        buf@ == machine_wire(machine@),
{
    let mut buf: Vec<u8> = Vec::new();
    put_u64(&mut buf, 1, machine.boottime);
    put_text(&mut buf, 2, &machine.bootid);
    put_text(&mut buf, 3, &machine.hostname);
    put_text(&mut buf, 4, &machine.version);
    put_text(&mut buf, 5, &machine.cpu_model_name);
    put_u32(&mut buf, 6, machine.physical_mem_total_kb);
    let ghost before = buf@;
    match &machine.network_interface {
        Some(interface) => {
            let body = serialize_interface(interface);
            put_nested(&mut buf, 7, &body);
        },
        None => {
            assert(buf@ == before + Seq::<u8>::empty());
        },
    }
    assert(buf@ == machine_wire(machine@));
    buf
}

/// Writes memory counters as the fields of a record.
pub fn serialize_mem_info(info: &MemInfo) -> (buf: Vec<u8>)
    ensures
        buf@ == mem_info_wire(*info),
{
    let mut buf: Vec<u8> = Vec::new();
    put_u32(&mut buf, 1, info.mem_total);
    put_u32(&mut buf, 2, info.mem_free);
    put_u32(&mut buf, 3, info.mem_available);
    put_u32(&mut buf, 4, info.swap_total);
    put_u32(&mut buf, 5, info.swap_free);
    assert(buf@ == mem_info_wire(*info));
    buf
}

/// Writes the time counters of one processor as the fields of a record.
pub fn serialize_cpu_load(load: &CpuLoad) -> (buf: Vec<u8>)
    ensures
        buf@ == cpu_load_wire(*load),
{
    let mut buf: Vec<u8> = Vec::new();
    put_u64(&mut buf, 1, load.user);
    put_u64(&mut buf, 2, load.nice);
    put_u64(&mut buf, 3, load.system);
    put_u64(&mut buf, 4, load.idle);
    put_u64(&mut buf, 5, load.iowait);
    assert(buf@ == cpu_load_wire(*load));
    buf
}

/// Writes a metrics snapshot as the bytes that are published.
pub fn serialize_metrics(metrics: &Metrics) -> (buf: Vec<u8>)
    ensures
        buf@ == metrics_wire(metrics@),
{
    let mut buf: Vec<u8> = Vec::new();
    put_u32(&mut buf, 1, metrics.processes);
    put_u32(&mut buf, 2, metrics.runnable_processes);
    put_u32(&mut buf, 3, metrics.processes_blocked);
    let ghost before = buf@;
    match &metrics.mem_info {
        Some(info) => {
            let body = serialize_mem_info(info);
            put_nested(&mut buf, 4, &body);
        },
        None => {
            assert(buf@ == before + Seq::<u8>::empty());
        },
    }
    let ghost head = buf@;
    let mut i: usize = 0;
    assert(metrics.cpu_load@.take(0) == Seq::<CpuLoad>::empty());
    assert(buf@ == head + cpu_loads_wire(metrics.cpu_load@.take(0)));
    while i < metrics.cpu_load.len()
        invariant
            i <= metrics.cpu_load.len(),
            buf@ == head + cpu_loads_wire(metrics.cpu_load@.take(i as int)),
        decreases metrics.cpu_load.len() - i,
    {
        proof {
            assert(metrics.cpu_load@.take(i + 1).drop_last() == metrics.cpu_load@.take(i as int));
            assert(metrics.cpu_load@.take(i + 1).last() == metrics.cpu_load@[i as int]);
        }
        let body = serialize_cpu_load(&metrics.cpu_load[i]);
        put_nested(&mut buf, 5, &body);
        assert(buf@ == head + cpu_loads_wire(metrics.cpu_load@.take(i + 1)));
        i += 1;
    }
    assert(metrics.cpu_load@.take(metrics.cpu_load.len() as int) == metrics.cpu_load@);
    buf
}

/// Writes a process listing as the bytes that are published: none, as it
/// has no fields.
pub fn serialize_process(processes: &Processes) -> (buf: Vec<u8>)
    ensures
        buf@ == Seq::<u8>::empty(),
{
    Vec::new()
}

/// The protocol that the number `n` stands for on the wire. A number
/// that stands for none is taken as unknown.
pub open spec fn proto_from(n: u32) -> Rtpproto {
    if n == 1 {
        Rtpproto::Static
    } else if n == 2 {
        Rtpproto::Dhcp
    } else {
        Rtpproto::Unknown
    }
}

/// The interface `n` with the number `v` in the number field `tag`.
pub open spec fn interface_with_number(n: NetworkInterfaceView, tag: u32, v: nat)
    -> NetworkInterfaceView {
    if tag == 1 {
        NetworkInterfaceView { mac: v as u64, ..n }
    } else if tag == 3 {
        NetworkInterfaceView { proto: proto_from(low32(v)), ..n }
    } else if tag == 4 {
        NetworkInterfaceView { ipv4: low32(v), ..n }
    } else if tag == 5 {
        NetworkInterfaceView { subnet_mask: low32(v), ..n }
    } else if tag == 6 {
        NetworkInterfaceView { broadcast: low32(v), ..n }
    } else {
        NetworkInterfaceView { gateway: low32(v), ..n }
    }
}

/// The identity `m` with the number `v` in the number field `tag`.
pub open spec fn machine_with_number(m: MachineView, tag: u32, v: nat) -> MachineView {
    if tag == 1 {
        MachineView { boottime: v as u64, ..m }
    } else {
        MachineView { physical_mem_total_kb: low32(v), ..m }
    }
}

/// The identity `m` with the text `s` in the text field `tag`.
pub open spec fn machine_with_text(m: MachineView, tag: u32, s: Seq<char>) -> MachineView {
    if tag == 2 {
        MachineView { bootid: s, ..m }
    } else if tag == 3 {
        MachineView { hostname: s, ..m }
    } else if tag == 4 {
        MachineView { version: s, ..m }
    } else {
        MachineView { cpu_model_name: s, ..m }
    }
}

/// What the field that `bytes` begin with makes of the interface `n`, and
/// the number of bytes that the field takes. A field with a number that
/// an interface does not have is passed over.
pub open spec fn interface_step(n: NetworkInterfaceView, bytes: Seq<u8>) -> Option<
    (NetworkInterfaceView, nat),
> {
    match read_key(bytes) {
        None => None,
        Some((tag, kind, k)) => {
            let rest = bytes.skip(k as int);
            if tag == 2 {
                match text_value(kind, rest) {
                    Some((s, j)) => Some((NetworkInterfaceView { name: s, ..n }, k + j)),
                    None => None,
                }
            } else if 1 <= tag <= 7 {
                match number_value(kind, rest) {
                    Some((v, j)) => Some((interface_with_number(n, tag, v), k + j)),
                    None => None,
                }
            } else {
                match skipped(kind, tag, rest) {
                    Some(j) => Some((n, k + j)),
                    None => None,
                }
            }
        },
    }
}

/// What the fields `bytes` make of the interface `n`, read one after the
/// other; none where one of them cannot be read. Of a field that stands
/// twice the last counts.
#[verifier::opaque]
pub open spec fn interface_fields(bytes: Seq<u8>, n: NetworkInterfaceView) -> Option<
    NetworkInterfaceView,
>
    decreases bytes.len(),
{
    if bytes.len() == 0 {
        Some(n)
    } else {
        match interface_step(n, bytes) {
            Some((next, k)) => if 0 < k <= bytes.len() {
                interface_fields(bytes.skip(k as int), next)
            } else {
                None
            },
            None => None,
        }
    }
}

/// What the field that `bytes` begin with makes of the identity `m`, and
/// the number of bytes that the field takes.
pub open spec fn machine_step(m: MachineView, bytes: Seq<u8>) -> Option<(MachineView, nat)> {
    match read_key(bytes) {
        None => None,
        Some((tag, kind, k)) => {
            let rest = bytes.skip(k as int);
            if tag == 1 || tag == 6 {
                match number_value(kind, rest) {
                    Some((v, j)) => Some((machine_with_number(m, tag, v), k + j)),
                    None => None,
                }
            } else if 2 <= tag <= 5 {
                match text_value(kind, rest) {
                    Some((s, j)) => Some((machine_with_text(m, tag, s), k + j)),
                    None => None,
                }
            } else if tag == 7 {
                match nested_value(kind, rest) {
                    Some((body, j)) => match interface_fields(
                        body,
                        match m.network_interface {
                            Some(n) => n,
                            None => NetworkInterfaceView::empty(),
                        },
                    ) {
                        Some(n) => Some((MachineView { network_interface: Some(n), ..m }, k + j)),
                        None => None,
                    },
                    None => None,
                }
            } else {
                match skipped(kind, tag, rest) {
                    Some(j) => Some((m, k + j)),
                    None => None,
                }
            }
        },
    }
}

/// What the fields `bytes` make of the identity `m`, read one after the
/// other; none where one of them cannot be read.
#[verifier::opaque]
pub open spec fn machine_fields(bytes: Seq<u8>, m: MachineView) -> Option<MachineView>
    decreases bytes.len(),
{
    if bytes.len() == 0 {
        Some(m)
    } else {
        match machine_step(m, bytes) {
            Some((next, k)) => if 0 < k <= bytes.len() {
                machine_fields(bytes.skip(k as int), next)
            } else {
                None
            },
            None => None,
        }
    }
}

/// The identity that `bytes` stand for: what their fields make of the
/// identity of which nothing is known.
pub open spec fn decoded_machine(bytes: Seq<u8>) -> Option<MachineView> {
    machine_fields(bytes, MachineView::empty())
}

/// The protocol that the number `n` stands for on the wire.
pub fn proto_from_number(n: u32) -> (p: Rtpproto)
    ensures
        p == proto_from(n),
{
    if n == 1 {
        Rtpproto::Static
    } else if n == 2 {
        Rtpproto::Dhcp
    } else {
        Rtpproto::Unknown
    }
}

/// The low 32 bits of `v`.
fn low_bits(v: u64) -> (r: u32)
    ensures
        r == low32(v as nat),
{
    (v % 0x1_0000_0000) as u32
}

/// Reads the fields of an interface from `bytes` into `interface`.
pub fn merge_interface(bytes: &[u8], interface: NetworkInterface) -> (r: Result<
    NetworkInterface,
    WireError,
>)
    ensures
        match r {
            Ok(n) => interface_fields(bytes@, interface@) == Some(n@),
            Err(_) => interface_fields(bytes@, interface@) is None,
        },
{
    let mut buf: &[u8] = bytes;
    let mut now = interface;
    while buf.len() > 0
        invariant
            interface_fields(bytes@, interface@) == interface_fields(buf@, now@),
        decreases buf.len(),
    {
        let ghost before = buf@;
        let ghost was = now@;
        proof {
            reveal(interface_fields);
            lemma_read_varint_bounds(before, 0);
        }
        let (tag, kind) = match take_key(&mut buf) {
            Ok(key) => key,
            Err(e) => {
                return Err(e);
            },
        };
        let ghost rest = buf@;
        proof {
            lemma_read_varint_bounds(rest, 0);
        }
        if tag == 2 {
            match take_text_value(kind, &mut buf) {
                Ok(s) => {
                    now.name = s;
                },
                Err(e) => {
                    return Err(e);
                },
            }
        } else if 1 <= tag && tag <= 7 {
            let v = match take_number(kind, &mut buf) {
                Ok(v) => v,
                Err(e) => {
                    return Err(e);
                },
            };
            if tag == 1 {
                now.mac = v;
            } else if tag == 3 {
                now.proto = proto_from_number(low_bits(v));
            } else if tag == 4 {
                now.ipv4 = low_bits(v);
            } else if tag == 5 {
                now.subnet_mask = low_bits(v);
            } else if tag == 6 {
                now.broadcast = low_bits(v);
            } else {
                now.gateway = low_bits(v);
            }
        } else {
            match skip_value(kind, tag, &mut buf) {
                Ok(_) => {},
                Err(e) => {
                    return Err(e);
                },
            }
        }
        proof {
            let (next, k) = interface_step(was, before)->0;
            assert(next == now@);
            assert(buf@ == before.skip(k as int));
        }
    }
    proof {
        reveal(interface_fields);
    }
    Ok(now)
}

/// Reads a machine's identity from the bytes that were published. A field
/// that is not there is zero or empty; a field with a number that the
/// identity does not have is passed over.
pub fn deserialize_machine(buf: &[u8]) -> (r: Result<Machine, WireError>)
    ensures
        match r {
            Ok(m) => decoded_machine(buf@) == Some(m@),
            Err(_) => decoded_machine(buf@) is None,
        },
{
    let mut cursor: &[u8] = buf;
    let mut now = Machine::default();
    while cursor.len() > 0
        invariant
            decoded_machine(buf@) == machine_fields(cursor@, now@),
        decreases cursor.len(),
    {
        let ghost before = cursor@;
        let ghost was = now@;
        proof {
            reveal(machine_fields);
            lemma_read_varint_bounds(before, 0);
        }
        let (tag, kind) = match take_key(&mut cursor) {
            Ok(key) => key,
            Err(e) => {
                return Err(e);
            },
        };
        let ghost rest = cursor@;
        proof {
            lemma_read_varint_bounds(rest, 0);
        }
        if tag == 1 || tag == 6 {
            let v = match take_number(kind, &mut cursor) {
                Ok(v) => v,
                Err(e) => {
                    return Err(e);
                },
            };
            if tag == 1 {
                now.boottime = v;
            } else {
                now.physical_mem_total_kb = low_bits(v);
            }
        } else if 2 <= tag && tag <= 5 {
            let s = match take_text_value(kind, &mut cursor) {
                Ok(s) => s,
                Err(e) => {
                    return Err(e);
                },
            };
            if tag == 2 {
                now.bootid = s;
            } else if tag == 3 {
                now.hostname = s;
            } else if tag == 4 {
                now.version = s;
            } else {
                now.cpu_model_name = s;
            }
        } else if tag == 7 {
            let body = match take_nested(kind, &mut cursor) {
                Ok(body) => body,
                Err(e) => {
                    return Err(e);
                },
            };
            let start = match now.network_interface {
                Some(n) => n,
                None => NetworkInterface::default(),
            };
            match merge_interface(body, start) {
                Ok(n) => {
                    now.network_interface = Some(n);
                },
                Err(e) => {
                    return Err(e);
                },
            }
        } else {
            match skip_value(kind, tag, &mut cursor) {
                Ok(_) => {},
                Err(e) => {
                    return Err(e);
                },
            }
        }
        proof {
            let (next, k) = machine_step(was, before)->0;
            assert(next == now@);
            assert(cursor@ == before.skip(k as int));
        }
    }
    proof {
        reveal(machine_fields);
    }
    Ok(now)
}

/// Seven sequences joined from the left are the same joined from the
/// right.
proof fn lemma_concat_7(
    a: Seq<u8>,
    b: Seq<u8>,
    c: Seq<u8>,
    d: Seq<u8>,
    e: Seq<u8>,
    f: Seq<u8>,
    g: Seq<u8>,
)
    ensures
        a + b + c + d + e + f + g == a + (b + (c + (d + (e + (f + g))))),
{
    assert(a + b + c + d + e + f + g =~= a + (b + (c + (d + (e + (f + g))))));
}

/// Whether the text `s` can stand in a field: the number of its bytes in
/// UTF-8 fits 64 bits.
pub open spec fn text_fits(s: Seq<char>) -> bool {
    encode_utf8(s).len() <= u64::MAX
}

/// Whether the interface `n` can stand on the wire.
pub open spec fn interface_fits(n: NetworkInterfaceView) -> bool {
    text_fits(n.name) && interface_wire(n).len() <= u64::MAX
}

/// Whether the identity `m` can stand on the wire: the lengths of its
/// texts and of its interface fit 64 bits.
pub open spec fn machine_fits(m: MachineView) -> bool {
    &&& text_fits(m.bootid)
    &&& text_fits(m.hostname)
    &&& text_fits(m.version)
    &&& text_fits(m.cpu_model_name)
    &&& m.network_interface matches Some(n) ==> interface_fits(n)
}

/// A number field of an interface that was written, or left out for a
/// zero, reads as its number.
proof fn lemma_interface_number(n: NetworkInterfaceView, tag: u32, v: nat, rest: Seq<u8>)
    requires
        tag == 1 || 3 <= tag <= 7,
        v <= u64::MAX,
        v == 0 ==> interface_with_number(n, tag, 0) == n,
    ensures
        interface_fields(number_if_set(tag, v) + rest, n) == interface_fields(
            rest,
            interface_with_number(n, tag, v),
        ),
{
    reveal(interface_fields);
    if v == 0 {
        assert(number_if_set(tag, v) + rest =~= rest);
    } else {
        lemma_number_field_reads(tag, v, rest);
    }
}

/// The name of an interface that was written, or left out for an empty
/// name, reads as it was.
proof fn lemma_interface_name(n: NetworkInterfaceView, s: Seq<char>, rest: Seq<u8>)
    requires
        text_fits(s),
        s.len() == 0 ==> n.name.len() == 0,
    ensures
        interface_fields(text_if_set(2, s) + rest, n) == interface_fields(
            rest,
            NetworkInterfaceView { name: s, ..n },
        ),
{
    reveal(interface_fields);
    if s.len() == 0 {
        assert(text_if_set(2, s) + rest =~= rest);
        assert(n.name =~= s);
        assert(NetworkInterfaceView { name: s, ..n } == n);
    } else {
        lemma_text_field_reads(2, s, rest);
    }
}

/// Reading the fields of an interface that were written gives the
/// interface back.
pub proof fn law_interface_round_trip(n: NetworkInterfaceView)
    requires
        interface_fits(n),
    ensures
        interface_fields(interface_wire(n), NetworkInterfaceView::empty()) == Some(n),
{
    let f1 = number_if_set(1, n.mac as nat);
    let f2 = text_if_set(2, n.name);
    let f3 = number_if_set(3, proto_number(n.proto) as nat);
    let f4 = number_if_set(4, n.ipv4 as nat);
    let f5 = number_if_set(5, n.subnet_mask as nat);
    let f6 = number_if_set(6, n.broadcast as nat);
    let f7 = number_if_set(7, n.gateway as nat);
    let none = Seq::<u8>::empty();
    let s7 = f7;
    let s6 = f6 + s7;
    let s5 = f5 + s6;
    let s4 = f4 + s5;
    let s3 = f3 + s4;
    let s2 = f2 + s3;
    lemma_concat_7(f1, f2, f3, f4, f5, f6, f7);
    let e0 = NetworkInterfaceView::empty();
    let e1 = interface_with_number(e0, 1, n.mac as nat);
    let e2 = NetworkInterfaceView { name: n.name, ..e1 };
    let e3 = interface_with_number(e2, 3, proto_number(n.proto) as nat);
    let e4 = interface_with_number(e3, 4, n.ipv4 as nat);
    let e5 = interface_with_number(e4, 5, n.subnet_mask as nat);
    let e6 = interface_with_number(e5, 6, n.broadcast as nat);
    let e7 = interface_with_number(e6, 7, n.gateway as nat);
    lemma_interface_number(e0, 1, n.mac as nat, s2);
    lemma_interface_name(e1, n.name, s3);
    lemma_interface_number(e2, 3, proto_number(n.proto) as nat, s4);
    lemma_interface_number(e3, 4, n.ipv4 as nat, s5);
    lemma_interface_number(e4, 5, n.subnet_mask as nat, s6);
    lemma_interface_number(e5, 6, n.broadcast as nat, s7);
    lemma_interface_number(e6, 7, n.gateway as nat, none);
    assert(f7 + none =~= f7);
    assert(interface_fields(none, e7) == Some(e7)) by {
        reveal(interface_fields);
    }
    assert(e7 == n);
}

/// The text in the text field `tag` of the identity `m`.
pub open spec fn machine_text(m: MachineView, tag: u32) -> Seq<char> {
    if tag == 2 {
        m.bootid
    } else if tag == 3 {
        m.hostname
    } else if tag == 4 {
        m.version
    } else {
        m.cpu_model_name
    }
}

/// A number field of an identity that was written, or left out for a
/// zero, reads as its number.
proof fn lemma_machine_number(m: MachineView, tag: u32, v: nat, rest: Seq<u8>)
    requires
        tag == 1 || tag == 6,
        v <= u64::MAX,
        v == 0 ==> machine_with_number(m, tag, 0) == m,
    ensures
        machine_fields(number_if_set(tag, v) + rest, m) == machine_fields(
            rest,
            machine_with_number(m, tag, v),
        ),
{
    reveal(machine_fields);
    if v == 0 {
        assert(number_if_set(tag, v) + rest =~= rest);
    } else {
        lemma_number_field_reads(tag, v, rest);
    }
}

/// A text field of an identity that was written, or left out for an empty
/// text, reads as its text.
proof fn lemma_machine_text(m: MachineView, tag: u32, s: Seq<char>, rest: Seq<u8>)
    requires
        2 <= tag <= 5,
        text_fits(s),
        s.len() == 0 ==> machine_text(m, tag).len() == 0,
    ensures
        machine_fields(text_if_set(tag, s) + rest, m) == machine_fields(
            rest,
            machine_with_text(m, tag, s),
        ),
{
    reveal(machine_fields);
    if s.len() == 0 {
        assert(text_if_set(tag, s) + rest =~= rest);
        assert(machine_text(m, tag) =~= s);
        assert(machine_with_text(m, tag, s) == m);
    } else {
        lemma_text_field_reads(tag, s, rest);
    }
}

/// The interface of an identity that was written, or left out where there
/// is none, reads as it was.
proof fn lemma_machine_interface(m: MachineView, n: Option<NetworkInterfaceView>)
    requires
        m.network_interface is None,
        n matches Some(i) ==> interface_fits(i),
    ensures
        machine_fields(interface_if_set(n), m) == Some(MachineView { network_interface: n, ..m }),
{
    reveal(machine_fields);
    match n {
        None => {
            assert(interface_if_set(n).len() == 0);
            assert(MachineView { network_interface: n, ..m } == m);
        },
        Some(i) => {
            let none = Seq::<u8>::empty();
            let bytes = interface_if_set(n);
            lemma_bytes_field_reads(7, interface_wire(i), none);
            law_interface_round_trip(i);
            assert(bytes + none =~= bytes);
            let k = crate::wire::key(7, 2).len();
            let j = crate::wire::varint(interface_wire(i).len()).len() + interface_wire(i).len();
            let next = MachineView { network_interface: Some(i), ..m };
            assert(read_key(bytes) == Some((7u32, WireKind::LengthDelimited, k)));
            assert(nested_value(WireKind::LengthDelimited, bytes.skip(k as int)) == Some(
                (interface_wire(i), j),
            ));
            assert(machine_step(m, bytes) == Some((next, k + j)));
            assert(bytes.skip((k + j) as int) == none);
            assert(machine_fields(none, next) == Some(next));
        },
    }
}

/// Reading the bytes of an identity that was written gives the identity
/// back: nothing of it is lost on the wire.
pub proof fn law_machine_round_trip(m: MachineView)
    requires
        machine_fits(m),
    ensures
        decoded_machine(machine_wire(m)) == Some(m),
{
    let f1 = number_if_set(1, m.boottime as nat);
    let f2 = text_if_set(2, m.bootid);
    let f3 = text_if_set(3, m.hostname);
    let f4 = text_if_set(4, m.version);
    let f5 = text_if_set(5, m.cpu_model_name);
    let f6 = number_if_set(6, m.physical_mem_total_kb as nat);
    let f7 = interface_if_set(m.network_interface);
    let s6 = f6 + f7;
    let s5 = f5 + s6;
    let s4 = f4 + s5;
    let s3 = f3 + s4;
    let s2 = f2 + s3;
    lemma_concat_7(f1, f2, f3, f4, f5, f6, f7);
    let e0 = MachineView::empty();
    let e1 = machine_with_number(e0, 1, m.boottime as nat);
    let e2 = machine_with_text(e1, 2, m.bootid);
    let e3 = machine_with_text(e2, 3, m.hostname);
    let e4 = machine_with_text(e3, 4, m.version);
    let e5 = machine_with_text(e4, 5, m.cpu_model_name);
    let e6 = machine_with_number(e5, 6, m.physical_mem_total_kb as nat);
    lemma_machine_number(e0, 1, m.boottime as nat, s2);
    lemma_machine_text(e1, 2, m.bootid, s3);
    lemma_machine_text(e2, 3, m.hostname, s4);
    lemma_machine_text(e3, 4, m.version, s5);
    lemma_machine_text(e4, 5, m.cpu_model_name, s6);
    lemma_machine_number(e5, 6, m.physical_mem_total_kb as nat, f7);
    lemma_machine_interface(e6, m.network_interface);
    assert(MachineView { network_interface: m.network_interface, ..e6 } == m);
}

} // verus!
