use crate::common::decimal::natural_text;
use crate::common::text::{
    all_digits, chars_of, digit_of, digits_value, is_digit, is_digit_char, is_natural_text,
    lemma_natural_text, lemma_natural_text_of_value,
};
use crate::common::monitorstatus::MonitorStatus;
use crate::proc::cpuinfo::ProcsCpuinfo;
use crate::proc::meminfo::ProcsMeminfo;
use crate::services::registry::Registry;
use vstd::prelude::*;

verus! {

/// An IPv4 address, by its four octets.
#[derive(Debug, Clone, Copy, PartialEq, Eq, Structural)]
pub struct Ipv4 {
    pub first: u8,
    pub second: u8,
    pub third: u8,
    pub fourth: u8,
}

/// An address to listen on: an IPv4 address and a port.
#[derive(Debug, Clone, Copy, PartialEq, Eq, Structural)]
pub struct SocketAddress {
    pub ip: Ipv4,
    pub port: u16,
}

/// The dotted decimal notation of an address: its four octets in decimal notation without
/// leading zeros, with a point between them.
pub open spec fn dotted_quad(ip: Ipv4) -> Seq<char> {
    natural_text(ip.first as nat) + seq!['.'] + natural_text(ip.second as nat) + seq!['.']
        + natural_text(ip.third as nat) + seq!['.'] + natural_text(ip.fourth as nat)
}

/// The address that `text` is the dotted decimal notation of, if it is that of one.
pub open spec fn ipv4_of(text: Seq<char>) -> Option<Ipv4> {
    if exists|ip: Ipv4| text == #[trigger] dotted_quad(ip) {
        Some(choose|ip: Ipv4| text == #[trigger] dotted_quad(ip))
    } else {
        None
    }
}

/// From `start` up to `end` the characters are the notation of `value`, and no digit
/// follows them.
spec fn octet_at(chars: Seq<char>, start: int, value: u8, end: int) -> bool {
    &&& 0 <= start < end <= chars.len()
    &&& chars.subrange(start, end) == natural_text(value as nat)
    &&& (end < chars.len() ==> !is_digit(chars[end]))
}

proof fn lemma_octet_at_unique(chars: Seq<char>, start: int, v1: u8, e1: int, v2: u8, e2: int)
    requires
        octet_at(chars, start, v1, e1),
        octet_at(chars, start, v2, e2),
    ensures
        v1 == v2,
        e1 == e2,
{
    lemma_natural_text(v1 as nat);
    lemma_natural_text(v2 as nat);
    if e1 < e2 {
        assert(chars.subrange(start, e2)[e1 - start] == chars[e1]);
    }
    if e2 < e1 {
        assert(chars.subrange(start, e1)[e2 - start] == chars[e2]);
    }
}

proof fn lemma_dotted_quad_parts(ip: Ipv4)
    ensures
        ({
            let text = dotted_quad(ip);
            let e1 = natural_text(ip.first as nat).len() as int;
            let e2 = e1 + 1 + natural_text(ip.second as nat).len();
            let e3 = e2 + 1 + natural_text(ip.third as nat).len();
            &&& octet_at(text, 0, ip.first, e1)
            &&& text[e1] == '.'
            &&& octet_at(text, e1 + 1, ip.second, e2)
            &&& text[e2] == '.'
            &&& octet_at(text, e2 + 1, ip.third, e3)
            &&& text[e3] == '.'
            &&& octet_at(text, e3 + 1, ip.fourth, text.len() as int)
        }),
{
    let text = dotted_quad(ip);
    let a = natural_text(ip.first as nat);
    let b = natural_text(ip.second as nat);
    let c = natural_text(ip.third as nat);
    let d = natural_text(ip.fourth as nat);
    lemma_natural_text(ip.first as nat);
    lemma_natural_text(ip.second as nat);
    lemma_natural_text(ip.third as nat);
    lemma_natural_text(ip.fourth as nat);
    let e1 = a.len() as int;
    let e2 = e1 + 1 + b.len();
    let e3 = e2 + 1 + c.len();
    assert(text.len() == e3 + 1 + d.len());
    assert(text.subrange(0, e1) =~= a);
    assert(text.subrange(e1 + 1, e2) =~= b);
    assert(text.subrange(e2 + 1, e3) =~= c);
    assert(text.subrange(e3 + 1, text.len() as int) =~= d);
}

/// No two addresses have the same dotted decimal notation.
pub proof fn lemma_dotted_quad_unique(one: Ipv4, other: Ipv4)
    requires
        dotted_quad(one) == dotted_quad(other),
    ensures
        one == other,
{
    let text = dotted_quad(one);
    lemma_dotted_quad_parts(one);
    lemma_dotted_quad_parts(other);
    let a1 = natural_text(one.first as nat).len() as int;
    let a2 = natural_text(other.first as nat).len() as int;
    lemma_octet_at_unique(text, 0, one.first, a1, other.first, a2);
    let b1 = a1 + 1 + natural_text(one.second as nat).len();
    let b2 = a2 + 1 + natural_text(other.second as nat).len();
    lemma_octet_at_unique(text, a1 + 1, one.second, b1, other.second, b2);
    let c1 = b1 + 1 + natural_text(one.third as nat).len();
    let c2 = b2 + 1 + natural_text(other.third as nat).len();
    lemma_octet_at_unique(text, b1 + 1, one.third, c1, other.third, c2);
    lemma_octet_at_unique(
        text,
        c1 + 1,
        one.fourth,
        text.len() as int,
        other.fourth,
        text.len() as int,
    );
}

/// Reading the dotted decimal notation of an address gives the address back.
pub proof fn lemma_dotted_quad_reads_back(ip: Ipv4)
    ensures
        ipv4_of(dotted_quad(ip)) == Some(ip),
{
    let text = dotted_quad(ip);
    let chosen = choose|other: Ipv4| text == #[trigger] dotted_quad(other);
    lemma_dotted_quad_unique(chosen, ip);
}

proof fn lemma_dotted_quad_from_parts(chars: Seq<char>, ip: Ipv4, e1: int, e2: int, e3: int)
    requires
        octet_at(chars, 0, ip.first, e1),
        e1 < chars.len() && chars[e1] == '.',
        octet_at(chars, e1 + 1, ip.second, e2),
        e2 < chars.len() && chars[e2] == '.',
        octet_at(chars, e2 + 1, ip.third, e3),
        e3 < chars.len() && chars[e3] == '.',
        octet_at(chars, e3 + 1, ip.fourth, chars.len() as int),
    ensures
        chars == dotted_quad(ip),
{
    assert(chars =~= chars.subrange(0, e1) + seq!['.'] + chars.subrange(e1 + 1, e2) + seq!['.']
        + chars.subrange(e2 + 1, e3) + seq!['.'] + chars.subrange(e3 + 1, chars.len() as int));
}

fn read_octet(chars: &Vec<char>, start: usize) -> (found: Option<(u8, usize)>)
    requires
        start <= chars.len(),
    ensures
        match found {
            Some((value, end)) => octet_at(chars@, start as int, value, end as int),
            None => forall|value: u8, end: int| !octet_at(chars@, start as int, value, end),
        },
{
    let mut end: usize = start;
    let mut value: u16 = 0;
    while end < chars.len() && end - start < 3 && is_digit_char(chars[end])
        invariant
            start <= end <= chars.len(),
            end - start <= 3,
            all_digits(chars@.subrange(start as int, end as int)),
            value == digits_value(chars@.subrange(start as int, end as int)),
            value < 1000,
            end - start <= 2 ==> value < 100,
            end - start <= 1 ==> value < 10,
            end - start == 0 ==> value == 0,
        decreases chars.len() - end,
    {
        let digit = digit_of(chars[end]);
        proof {
            let before = chars@.subrange(start as int, end as int);
            let after = chars@.subrange(start as int, end + 1);
            assert(after.drop_last() =~= before);
            assert(after.last() == chars@[end as int]);
            assert forall|i: int| 0 <= i < after.len() implies is_digit(#[trigger] after[i]) by {
                if i < before.len() {
                    assert(after[i] == before[i]);
                }
            }
        }
        value = value * 10 + digit as u16;
        end += 1;
    }
    let ghost run = chars@.subrange(start as int, end as int);
    if end == start {
        proof {
            assert forall|v: u8, e: int| !octet_at(chars@, start as int, v, e) by {
                if octet_at(chars@, start as int, v, e) {
                    lemma_natural_text(v as nat);
                    assert(chars@.subrange(start as int, e)[0] == chars@[start as int]);
                }
            }
        }
        return None;
    }
    if end < chars.len() && is_digit_char(chars[end]) {
        proof {
            assert forall|v: u8, e: int| !octet_at(chars@, start as int, v, e) by {
                if octet_at(chars@, start as int, v, e) {
                    lemma_natural_text(v as nat);
                    if e < end {
                        assert(run[e - start] == chars@[e]);
                    }
                }
            }
        }
        return None;
    }
    if end - start > 1 && chars[start] == '0' {
        proof {
            assert forall|v: u8, e: int| !octet_at(chars@, start as int, v, e) by {
                if octet_at(chars@, start as int, v, e) {
                    lemma_natural_text(v as nat);
                    assert(chars@.subrange(start as int, e)[0] == chars@[start as int]);
                    assert(run[1] == chars@[start + 1]);
                }
            }
        }
        return None;
    }
    proof {
        assert(run[0] == chars@[start as int]);
        assert(is_natural_text(run));
        lemma_natural_text_of_value(run);
    }
    if value > 255 {
        proof {
            assert forall|v: u8, e: int| !octet_at(chars@, start as int, v, e) by {
                if octet_at(chars@, start as int, v, e) {
                    lemma_natural_text(v as nat);
                    if e < end {
                        assert(run[e - start] == chars@[e]);
                    }
                    if end < e {
                        assert(chars@.subrange(start as int, e)[end - start] == chars@[end as int]);
                    }
                }
            }
        }
        return None;
    }
    Some((value as u8, end))
}

/// Reads an IPv4 address in dotted decimal notation. The result is the address whose
/// notation `text` is; a text that is the notation of no address gives `None`.
pub fn parse_ipv4(text: &str) -> (address: Option<Ipv4>)
    ensures
        address == ipv4_of(text@),
        match address {
            Some(ip) => text@ == dotted_quad(ip),
            None => forall|ip: Ipv4| text@ != #[trigger] dotted_quad(ip),
        },
{
    let address = read_ipv4(text);
    proof {
        if let Some(ip) = address {
            let chosen = choose|other: Ipv4| text@ == #[trigger] dotted_quad(other);
            lemma_dotted_quad_unique(chosen, ip);
        }
    }
    address
}

fn read_ipv4(text: &str) -> (address: Option<Ipv4>)
    ensures
        match address {
            Some(ip) => text@ == dotted_quad(ip),
            None => forall|ip: Ipv4| text@ != #[trigger] dotted_quad(ip),
        },
{
    let chars = chars_of(text);
    let len = chars.len();
    proof {
        assert forall|ip: Ipv4| text@ == #[trigger] dotted_quad(ip) implies ({
            let e1 = natural_text(ip.first as nat).len() as int;
            let e2 = e1 + 1 + natural_text(ip.second as nat).len();
            let e3 = e2 + 1 + natural_text(ip.third as nat).len();
            &&& octet_at(chars@, 0, ip.first, e1)
            &&& chars@[e1] == '.'
            &&& octet_at(chars@, e1 + 1, ip.second, e2)
            &&& chars@[e2] == '.'
            &&& octet_at(chars@, e2 + 1, ip.third, e3)
            &&& chars@[e3] == '.'
            &&& octet_at(chars@, e3 + 1, ip.fourth, chars@.len() as int)
        }) by {
            lemma_dotted_quad_parts(ip);
        }
    }
    let Some((first, e1)) = read_octet(&chars, 0) else {
        return None;
    };
    proof {
        assert forall|ip: Ipv4| text@ == #[trigger] dotted_quad(ip) implies ip.first == first && e1
            == natural_text(ip.first as nat).len() by {
            lemma_octet_at_unique(
                chars@,
                0,
                first,
                e1 as int,
                ip.first,
                natural_text(ip.first as nat).len() as int,
            );
        }
    }
    if e1 >= len || chars[e1] != '.' {
        return None;
    }
    let Some((second, e2)) = read_octet(&chars, e1 + 1) else {
        return None;
    };
    proof {
        assert forall|ip: Ipv4| text@ == #[trigger] dotted_quad(ip) implies ip.second == second
            && e2 == e1 + 1 + natural_text(ip.second as nat).len() by {
            lemma_octet_at_unique(
                chars@,
                e1 + 1,
                second,
                e2 as int,
                ip.second,
                e1 + 1 + natural_text(ip.second as nat).len(),
            );
        }
    }
    if e2 >= len || chars[e2] != '.' {
        return None;
    }
    let Some((third, e3)) = read_octet(&chars, e2 + 1) else {
        return None;
    };
    proof {
        assert forall|ip: Ipv4| text@ == #[trigger] dotted_quad(ip) implies ip.third == third && e3
            == e2 + 1 + natural_text(ip.third as nat).len() by {
            lemma_octet_at_unique(
                chars@,
                e2 + 1,
                third,
                e3 as int,
                ip.third,
                e2 + 1 + natural_text(ip.third as nat).len(),
            );
        }
    }
    if e3 >= len || chars[e3] != '.' {
        return None;
    }
    let Some((fourth, e4)) = read_octet(&chars, e3 + 1) else {
        return None;
    };
    proof {
        assert forall|ip: Ipv4| text@ == #[trigger] dotted_quad(ip) implies ip.fourth == fourth
            && e4 == chars@.len() by {
            lemma_octet_at_unique(
                chars@,
                e3 + 1,
                fourth,
                e4 as int,
                ip.fourth,
                chars@.len() as int,
            );
        }
    }
    if e4 != len {
        return None;
    }
    let ip = Ipv4 { first, second, third, fourth };
    proof {
        lemma_dotted_quad_from_parts(chars@, ip, e1 as int, e2 as int, e3 as int);
    }
    Some(ip)
}

/// The address on which the status server listens.
#[derive(Debug, PartialEq, Eq)]
pub struct Server {
    /// The address to bind to, in dotted decimal notation.
    pub ip: String,
    /// The port to bind to.
    pub port: u16,
}

impl Server {
    /// A server that is to listen on `ip` and `port`.
    pub fn new(ip: &String, port: u16) -> (server: Server)
        ensures
            server.ip@ == ip@,
            server.port == port,
    {
        Server { ip: ip.clone(), port }
    }

    /// The address to bind to, or `None` if `ip` is not an IPv4 address in dotted decimal
    /// notation, in which case the server is not to be started.
    pub fn socket_address(&self) -> (address: Option<SocketAddress>)
        ensures
            address == match ipv4_of(self.ip@) {
                Some(ip) => Some(SocketAddress { ip, port: self.port }),
                None => None,
            },
            match address {
                Some(address) => self.ip@ == dotted_quad(address.ip) && address.port == self.port,
                None => forall|ip: Ipv4| self.ip@ != #[trigger] dotted_quad(ip),
            },
    {
        match parse_ipv4(self.ip.as_str()) {
            Some(ip) => Some(SocketAddress { ip, port: self.port }),
            None => None,
        }
    }

    /// What the status route answers: a copy of every entry of the registry, in the order
    /// of registration, or nothing if the registry could not be had.
    pub fn status_response(status: Option<&Registry>) -> (entries: Vec<MonitorStatus>)
        ensures
            match status {
                Some(registry) => entries@.len() == registry.entries().len() && forall|i: int|
                    0 <= i < entries@.len() ==> (#[trigger] entries@[i])@ == registry.entries()[i],
                None => entries@.len() == 0,
            },
    {
        match status {
            Some(registry) => registry.snapshot(),
            None => Vec::new(),
        }
    }

    /// What the processor route answers: a copy of the latest readout, or nothing if there
    /// is none or it could not be had.
    pub fn cpuinfo_response(cpuinfo: Option<&Vec<ProcsCpuinfo>>) -> (processors: Vec<ProcsCpuinfo>)
        ensures
            match cpuinfo {
                Some(latest) => processors@.len() == latest@.len() && forall|i: int|
                    0 <= i < processors@.len() ==> (#[trigger] processors@[i])@ == latest@[i]@,
                None => processors@.len() == 0,
            },
    {
        let mut processors: Vec<ProcsCpuinfo> = Vec::new();
        if let Some(latest) = cpuinfo {
            let mut i: usize = 0;
            while i < latest.len()
                invariant
                    i <= latest@.len(),
                    processors@.len() == i,
                    forall|j: int| 0 <= j < i ==> (#[trigger] processors@[j])@ == latest@[j]@,
                decreases latest@.len() - i,
            {
                processors.push(latest[i].clone());
                i += 1;
            }
        }
        processors
    }

    /// What the memory route answers: the latest readout, or one without any value if
    /// there is none or it could not be had.
    pub fn meminfo_response(meminfo: Option<&ProcsMeminfo>) -> (readout: ProcsMeminfo)
        ensures
            readout == match meminfo {
                Some(latest) => *latest,
                None => (ProcsMeminfo {
                    memtotal: None,
                    memfree: None,
                    memavailable: None,
                    swaptotal: None,
                    swapfree: None,
                }),
            },
    {
        match meminfo {
            Some(latest) => *latest,
            None => ProcsMeminfo::new(None, None, None, None, None),
        }
    }
}

} // verus!
