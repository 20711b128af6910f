//! Reading the output of the host's routing and address tools, and the
//! addresses in it.

use vstd::prelude::*;
use crate::number::{
    all_digits,
    decimal_value,
    parse_digits,
    parse_hex,
    read_hex,
    NumberError,
};
use crate::search::{contains, has};
use crate::text::{from_chars, rows, texts, to_chars};
use crate::words::{lines, split, split_lines, split_on, split_words, words};

verus! {

/// `s` without the characters equal to `c`.
pub open spec fn without(s: Seq<char>, c: char) -> Seq<char>
    decreases s.len(),
{
    if s.len() == 0 {
        Seq::empty()
    } else if s.last() == c {
        without(s.drop_last(), c)
    } else {
        without(s.drop_last(), c).push(s.last())
    }
}

/// The hardware address that `s` stands for: its hexadecimal digits, with
/// colons between them or not, as one number; zero where `s` is no such
/// text.
pub open spec fn mac_value(s: Seq<char>) -> u64 {
    match read_hex(without(s, ':')) {
        Some(v) => v,
        None => 0,
    }
}

/// Reads a hardware address such as `b8:27:eb:10:c6:85` as one number.
/// Text that is no such address gives zero.
pub fn mac_from_string(mac_string: &str) -> (mac: u64)
    ensures
        mac == mac_value(mac_string@),
{
    let chars = to_chars(mac_string);
    let mut digits: Vec<char> = Vec::new();
    let mut i: usize = 0;
    while i < chars.len()
        invariant
            i <= chars.len(),
            digits@ == without(chars@.take(i as int), ':'),
        decreases chars.len() - i,
    {
        assert(chars@.take(i + 1).drop_last() == chars@.take(i as int));
        if chars[i] != ':' {
            digits.push(chars[i]);
        }
        i += 1;
    }
    assert(chars@.take(chars.len() as int) == chars@);
    match parse_hex(digits.as_slice()) {
        Some(v) => v,
        None => 0,
    }
}

/// Whether `f` is one part of a dotted address: one to three decimal
/// digits, without a leading zero before another digit, of value 255 at
/// most.
pub open spec fn is_octet(f: Seq<char>) -> bool {
    &&& 1 <= f.len() <= 3
    &&& all_digits(f)
    &&& f.len() > 1 ==> f[0] != '0'
    &&& decimal_value(f) <= 255
}

/// The address that `s` stands for in dotted decimal notation, most
/// significant part first.
pub open spec fn read_ipv4(s: Seq<char>) -> Option<u32> {
    let f = split(s, '.');
    if f.len() == 4 && is_octet(f[0]) && is_octet(f[1]) && is_octet(f[2]) && is_octet(f[3]) {
        Some(
            (decimal_value(f[0]) * 0x100_0000 + decimal_value(f[1]) * 0x1_0000 + decimal_value(f[2])
                * 0x100 + decimal_value(f[3])) as u32,
        )
    } else {
        None
    }
}

/// The address that `s` stands for, or zero where it stands for none.
pub open spec fn ipv4_value(s: Seq<char>) -> u32 {
    match read_ipv4(s) {
        Some(v) => v,
        None => 0,
    }
}

/// Reads one part of a dotted address.
pub fn parse_octet(f: &[char]) -> (r: Option<u32>)
    ensures
        match r {
            Some(v) => is_octet(f@) && v == decimal_value(f@),
            None => !is_octet(f@),
        },
{
    if f.len() < 1 || f.len() > 3 {
        return None;
    }
    if f.len() > 1 && f[0] == '0' {
        return None;
    }
    let r: Result<u32, NumberError> = parse_digits(f);
    match r {
        Ok(v) => if v <= 255 {
            Some(v)
        } else {
            None
        },
        Err(_) => {
            proof {
                if all_digits(f@) {
                    lemma_three_digits_fit(f@);
                }
            }
            None
        },
    }
}

/// Up to three decimal digits stand for a number below a thousand.
pub proof fn lemma_three_digits_fit(f: Seq<char>)
    requires
        f.len() <= 3,
        all_digits(f),
    ensures
        decimal_value(f) <= 999,
{
    reveal_with_fuel(decimal_value, 4);
    if f.len() >= 1 {
        assert(f.drop_last().len() == f.len() - 1);
        assert(crate::number::is_digit(f[f.len() - 1]));
        if f.len() >= 2 {
            assert(f.drop_last().last() == f[f.len() - 2]);
            assert(crate::number::is_digit(f[f.len() - 2]));
            if f.len() >= 3 {
                assert(f.drop_last().drop_last().last() == f[f.len() - 3]);
                assert(crate::number::is_digit(f[f.len() - 3]));
            }
        }
    }
}

/// Reads an address in dotted decimal notation such as `192.168.42.1` as
/// one number, most significant part first. Text that is no such address
/// gives zero.
pub fn ip_from_string(ip_string: &str) -> (ip: u32)
    ensures
        ip == ipv4_value(ip_string@),
{
    let chars = to_chars(ip_string);
    let fields = split_on(chars.as_slice(), '.');
    if fields.len() != 4 {
        return 0;
    }
    assert(rows(fields@)[0] == fields@[0]@);
    assert(rows(fields@)[1] == fields@[1]@);
    assert(rows(fields@)[2] == fields@[2]@);
    assert(rows(fields@)[3] == fields@[3]@);
    match parse_octet(fields[0].as_slice()) {
        None => 0,
        Some(a) => match parse_octet(fields[1].as_slice()) {
            None => 0,
            Some(b) => match parse_octet(fields[2].as_slice()) {
                None => 0,
                Some(c) => match parse_octet(fields[3].as_slice()) {
                    None => 0,
                    Some(d) => a * 0x100_0000 + b * 0x1_0000 + c * 0x100 + d,
                },
            },
        },
    }
}

/// What the output of the routing tool tells about the default route:
/// the interface, the protocol and the gateway, in this order, taken from
/// the fifth, seventh and third word of the output; three empty texts
/// where the output does not name a default route in seven words or more.
pub open spec fn route_info(input: Seq<char>) -> Seq<Seq<char>> {
    let w = words(input);
    if contains(input, "default"@) && w.len() >= 7 {
        seq![w[4], w[6], w[2]]
    } else {
        seq![Seq::empty(), Seq::empty(), Seq::empty()]
    }
}

/// Reads the output of the routing tool, which is expected to begin with
/// the default route. Gives three texts: interface, protocol, gateway.
pub fn parse_ip_route_info(input: &str) -> (output: Vec<String>)
    ensures
        output@.len() == 3,
        texts(output@) == route_info(input@),
{
    let chars = to_chars(input);
    let marker = to_chars("default");
    let mut name: Vec<char> = Vec::new();
    let mut proto: Vec<char> = Vec::new();
    let mut gateway: Vec<char> = Vec::new();
    if has(chars.as_slice(), marker.as_slice()) {
        let w = split_words(chars.as_slice());
        if w.len() >= 7 {
            assert(rows(w@)[4] == w@[4]@);
            assert(rows(w@)[6] == w@[6]@);
            assert(rows(w@)[2] == w@[2]@);
            name = w[4].clone();
            proto = w[6].clone();
            gateway = w[2].clone();
        }
    }
    let mut output: Vec<String> = Vec::new();
    output.push(from_chars(name.as_slice()));
    output.push(from_chars(proto.as_slice()));
    output.push(from_chars(gateway.as_slice()));
    assert(texts(output@) =~= route_info(input@));
    output
}

/// What one line of the address tool's output adds to what is known of an
/// interface. `known` holds address, mask, broadcast address and hardware
/// address. A line with `link/ether` gives the hardware address, as long
/// as no broadcast address is known; otherwise a line with `inet` gives
/// the rest, as long as no address is known.
pub open spec fn address_step(known: Seq<Seq<char>>, line: Seq<char>) -> Seq<Seq<char>> {
    let w = words(line);
    if known[2].len() == 0 && contains(line, "link/ether"@) {
        if w.len() >= 2 {
            known.update(3, w[1])
        } else {
            known
        }
    } else if known[0].len() == 0 && contains(line, "inet"@) {
        if w.len() >= 4 {
            let parts = split(w[1], '/');
            let with_address = if parts.len() == 2 {
                known.update(0, parts[0]).update(1, parts[1])
            } else {
                known
            };
            with_address.update(2, w[3])
        } else {
            known
        }
    } else {
        known
    }
}

/// What the lines `ls` of the address tool's output tell about an
/// interface: address, mask, broadcast address, hardware address.
pub open spec fn address_info_of(ls: Seq<Seq<char>>) -> Seq<Seq<char>>
    decreases ls.len(),
{
    if ls.len() == 0 {
        seq![Seq::empty(), Seq::empty(), Seq::empty(), Seq::empty()]
    } else {
        address_step(address_info_of(ls.drop_last()), ls.last())
    }
}

/// What the address tool's output `input` tells about an interface.
pub open spec fn address_info(input: Seq<char>) -> Seq<Seq<char>> {
    address_info_of(lines(input))
}

/// Reads the output of the address tool for one interface. Gives four
/// texts: address, mask, broadcast address, hardware address; each is
/// empty where the output does not show it.
pub fn parse_ip_address_info(input: &str) -> (output: Vec<String>)
    ensures
        output@.len() == 4,
        texts(output@) == address_info(input@),
{
    let chars = to_chars(input);
    let ls = split_lines(chars.as_slice());
    let ether = to_chars("link/ether");
    let inet = to_chars("inet");
    let mut ip: Vec<char> = Vec::new();
    let mut mask: Vec<char> = Vec::new();
    let mut broadcast: Vec<char> = Vec::new();
    let mut mac: Vec<char> = Vec::new();
    let mut i: usize = 0;
    assert(rows(ls@).take(0) == Seq::<Seq<char>>::empty());
    assert(seq![ip@, mask@, broadcast@, mac@] == address_info_of(rows(ls@).take(0)));
    while i < ls.len()
        invariant
            i <= ls.len(),
            ether@ == "link/ether"@,
            inet@ == "inet"@,
            seq![ip@, mask@, broadcast@, mac@] == address_info_of(rows(ls@).take(i as int)),
        decreases ls.len() - i,
    {
        let ghost known = seq![ip@, mask@, broadcast@, mac@];
        let ghost line = ls@[i as int]@;
        proof {
            assert(rows(ls@).take(i + 1).drop_last() == rows(ls@).take(i as int));
            assert(rows(ls@).take(i + 1).last() == line);
            assert(known[0] == ip@ && known[1] == mask@ && known[2] == broadcast@ && known[3]
                == mac@);
        }
        if broadcast.len() == 0 && has(ls[i].as_slice(), ether.as_slice()) {
            let w = split_words(ls[i].as_slice());
            if w.len() >= 2 {
                assert(rows(w@)[1] == w@[1]@);
                mac = w[1].clone();
                assert(seq![ip@, mask@, broadcast@, mac@] == known.update(3, w@[1]@));
            }
        } else if ip.len() == 0 && has(ls[i].as_slice(), inet.as_slice()) {
            let w = split_words(ls[i].as_slice());
            if w.len() >= 4 {
                assert(rows(w@)[1] == w@[1]@);
                assert(rows(w@)[3] == w@[3]@);
                let parts = split_on(w[1].as_slice(), '/');
                let ghost mut with_address = known;
                if parts.len() == 2 {
                    assert(rows(parts@)[0] == parts@[0]@);
                    assert(rows(parts@)[1] == parts@[1]@);
                    ip = parts[0].clone();
                    mask = parts[1].clone();
                    proof {
                        with_address = known.update(0, parts@[0]@).update(1, parts@[1]@);
                    }
                }
                broadcast = w[3].clone();
                assert(seq![ip@, mask@, broadcast@, mac@] == with_address.update(2, w@[3]@));
            }
        }
        i += 1;
    }
    assert(rows(ls@).take(ls.len() as int) == rows(ls@));
    let mut output: Vec<String> = Vec::new();
    output.push(from_chars(ip.as_slice()));
    output.push(from_chars(mask.as_slice()));
    output.push(from_chars(broadcast.as_slice()));
    output.push(from_chars(mac.as_slice()));
    assert(texts(output@) =~= seq![ip@, mask@, broadcast@, mac@]);
    output
}

} // verus!
