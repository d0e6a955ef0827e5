//! The command line snapshot and the scheduler-address grammar: dotted-quad
//! IPv4 addresses with an optional port, a documented default port for bare
//! addresses, and the unspecified address for the empty string.
use vstd::prelude::*;
use vstd::string::StringExecFns;
use vstd::string::StrSliceExecFns;
use crate::text::all_digits;
use crate::text::dec_val;
use crate::text::find_char;
use crate::text::find_from;
use crate::text::find_in_str;
use crate::text::is_canon_dec;
use crate::text::lemma_find_offset;
use crate::text::parse_dec;
use crate::text::dec_str;
use crate::text::is_digit;
use crate::text::lemma_dec_str;
use crate::text::lemma_find_from;
use crate::text::lemma_find_is;
use crate::text::pow10;
use crate::text::u64_to_string;

verus! {

/// Port used when an address string names a bare IP without a port.
pub const DEFAULT_PORT: u16 = 3000;

/// An IPv4 socket address: four octets and a port.
#[derive(Clone, Copy, PartialEq, Eq, Structural, Debug)]
pub struct SocketAddr {
    pub o1: u8,
    pub o2: u8,
    pub o3: u8,
    pub o4: u8,
    pub port: u16,
}

impl SocketAddr {
    /// The unspecified address with port 0, the meaning of an empty
    /// address string.
    pub open spec fn spec_unspecified() -> SocketAddr {
        SocketAddr { o1: 0, o2: 0, o3: 0, o4: 0, port: 0 }
    }

    /// The unspecified address with port 0.
    pub fn unspecified() -> (r: SocketAddr)
        ensures
            r == SocketAddr::spec_unspecified(),
    {
        SocketAddr { o1: 0, o2: 0, o3: 0, o4: 0, port: 0 }
    }
}

/// A canonical decimal octet: digits without a leading zero, value at most
/// 255, at most three characters.
pub open spec fn is_octet_str(s: Seq<char>) -> bool {
    is_canon_dec(s) && s.len() <= 3 && dec_val(s) <= 255
}

/// A canonical decimal port: digits without a leading zero, value at most
/// 65535, at most five characters.
pub open spec fn is_port_str(s: Seq<char>) -> bool {
    is_canon_dec(s) && s.len() <= 5 && dec_val(s) <= 65535
}

/// The meaning of a dotted-quad IPv4 string: split at the first three dots;
/// each of the four parts must be a canonical octet. A surplus dot lands in
/// the fourth part and fails the digit test, so exactly four parts parse.
pub open spec fn spec_parse_ip(s: Seq<char>) -> Option<(u8, u8, u8, u8)> {
    match find_char(s, '.') {
        None => None,
        Some(i1) => {
            let p1 = s.subrange(0, i1);
            let r1 = s.subrange(i1 + 1, s.len() as int);
            match find_char(r1, '.') {
                None => None,
                Some(i2) => {
                    let p2 = r1.subrange(0, i2);
                    let r2 = r1.subrange(i2 + 1, r1.len() as int);
                    match find_char(r2, '.') {
                        None => None,
                        Some(i3) => {
                            let p3 = r2.subrange(0, i3);
                            let p4 = r2.subrange(i3 + 1, r2.len() as int);
                            if is_octet_str(p1) && is_octet_str(p2) && is_octet_str(p3)
                                && is_octet_str(p4) {
                                Some(
                                    (
                                        dec_val(p1) as u8,
                                        dec_val(p2) as u8,
                                        dec_val(p3) as u8,
                                        dec_val(p4) as u8,
                                    ),
                                )
                            } else {
                                None
                            }
                        },
                    }
                },
            }
        },
    }
}

/// The meaning of an address string: empty means the unspecified address
/// with port 0; a bare IP means that IP with the default port; `ip:port`
/// means exactly that address; anything else is malformed.
pub open spec fn spec_parse_addr(s: Seq<char>) -> Option<SocketAddr> {
    if s.len() == 0 {
        Some(SocketAddr::spec_unspecified())
    } else {
        match find_char(s, ':') {
            None => match spec_parse_ip(s) {
                Some(q) => Some(
                    SocketAddr { o1: q.0, o2: q.1, o3: q.2, o4: q.3, port: DEFAULT_PORT },
                ),
                None => None,
            },
            Some(i) => {
                let ip = s.subrange(0, i);
                let ps = s.subrange(i + 1, s.len() as int);
                match spec_parse_ip(ip) {
                    Some(q) => if is_port_str(ps) {
                        Some(
                            SocketAddr { o1: q.0, o2: q.1, o3: q.2, o4: q.3, port: dec_val(ps) as u16 },
                        )
                    } else {
                        None
                    },
                    None => None,
                }
            },
        }
    }
}

/// Parse one octet out of `s[from..to]`.
fn parse_octet(s: &str, from: usize, to: usize) -> (r: Option<u8>)
    requires
        from <= to <= s@.len(),
    ensures
        ({
            let sub = s@.subrange(from as int, to as int);
            match r {
                Some(v) => is_octet_str(sub) && v == dec_val(sub),
                None => !is_octet_str(sub),
            }
        }),
{
    if to - from > 3 {
        return None;
    }
    match parse_dec(s, from, to) {
        Some(v) => if v <= 255 {
            Some(v as u8)
        } else {
            None
        },
        None => None,
    }
}

/// Parse one port out of `s[from..to]`.
fn parse_port(s: &str, from: usize, to: usize) -> (r: Option<u16>)
    requires
        from <= to <= s@.len(),
    ensures
        ({
            let sub = s@.subrange(from as int, to as int);
            match r {
                Some(v) => is_port_str(sub) && v == dec_val(sub),
                None => !is_port_str(sub),
            }
        }),
{
    if to - from > 5 {
        return None;
    }
    match parse_dec(s, from, to) {
        Some(v) => if v <= 65535 {
            Some(v as u16)
        } else {
            None
        },
        None => None,
    }
}

/// Parse `s[from..to]` as a dotted-quad IPv4 address.
fn parse_ip_range(s: &str, from: usize, to: usize) -> (r: Option<(u8, u8, u8, u8)>)
    requires
        from <= to <= s@.len(),
    ensures
        r == spec_parse_ip(s@.subrange(from as int, to as int)),
{
    let ghost sub = s@.subrange(from as int, to as int);
    proof {
        lemma_find_offset(s@, '.', from as int, to as int);
    }
    let k1 = match find_in_str(s, from, '.') {
        None => {
            return None;
        },
        Some(k) => {
            if k >= to {
                return None;
            }
            k
        },
    };
    let ghost i1 = k1 - from;
    let ghost p1 = sub.subrange(0, i1);
    let ghost r1 = sub.subrange(i1 + 1, sub.len() as int);
    proof {
        assert(find_char(sub, '.') == Some(i1));
        assert(p1 =~= s@.subrange(from as int, k1 as int));
        assert(r1 =~= s@.subrange(k1 + 1, to as int));
        lemma_find_offset(s@, '.', k1 + 1, to as int);
    }
    let o1 = parse_octet(s, from, k1);
    let k2 = match find_in_str(s, k1 + 1, '.') {
        None => {
            return None;
        },
        Some(k) => {
            if k >= to {
                return None;
            }
            k
        },
    };
    let ghost i2 = k2 - (k1 + 1);
    let ghost p2 = r1.subrange(0, i2);
    let ghost r2 = r1.subrange(i2 + 1, r1.len() as int);
    proof {
        assert(find_char(r1, '.') == Some(i2));
        assert(p2 =~= s@.subrange(k1 + 1, k2 as int));
        assert(r2 =~= s@.subrange(k2 + 1, to as int));
        lemma_find_offset(s@, '.', k2 + 1, to as int);
    }
    let o2 = parse_octet(s, k1 + 1, k2);
    let k3 = match find_in_str(s, k2 + 1, '.') {
        None => {
            return None;
        },
        Some(k) => {
            if k >= to {
                return None;
            }
            k
        },
    };
    let ghost i3 = k3 - (k2 + 1);
    let ghost p3 = r2.subrange(0, i3);
    let ghost p4 = r2.subrange(i3 + 1, r2.len() as int);
    proof {
        assert(find_char(r2, '.') == Some(i3));
        assert(p3 =~= s@.subrange(k2 + 1, k3 as int));
        assert(p4 =~= s@.subrange(k3 + 1, to as int));
    }
    let o3 = parse_octet(s, k2 + 1, k3);
    let o4 = parse_octet(s, k3 + 1, to);
    match (o1, o2, o3, o4) {
        (Some(a), Some(b), Some(c), Some(d)) => Some((a, b, c, d)),
        _ => None,
    }
}

/// Parse an address string: `ip:port`, a bare `ip` (default port), or the
/// empty string (unspecified address, port 0). Returns a configuration
/// error exactly on the malformed strings that `spec_parse_addr` rejects,
/// whose message names the offending input.
pub fn parse_ipaddr(s: &str) -> (r: Result<SocketAddr, String>)
    ensures
        match r {
            Ok(a) => spec_parse_addr(s@) == Some(a),
            Err(m) => spec_parse_addr(s@) is None && m@ == "invalid socket address: "@ + s@,
        },
{
    let n = s.unicode_len();
    if n == 0 {
        return Ok(SocketAddr::unspecified());
    }
    proof {
        lemma_find_offset(s@, ':', 0, n as int);
        assert(s@.subrange(0, n as int) =~= s@);
    }
    match find_in_str(s, 0, ':') {
        None => {
            match parse_ip_range(s, 0, n) {
                Some(q) => Ok(
                    SocketAddr { o1: q.0, o2: q.1, o3: q.2, o4: q.3, port: DEFAULT_PORT },
                ),
                None => Err(String::from_str("invalid socket address: ").concat(s)),
            }
        },
        Some(i) => {
            let ghost ip = s@.subrange(0, i as int);
            let ghost ps = s@.subrange(i + 1, n as int);
            let ipr = parse_ip_range(s, 0, i);
            let pr = parse_port(s, i + 1, n);
            match (ipr, pr) {
                (Some(q), Some(p)) => Ok(SocketAddr { o1: q.0, o2: q.1, o3: q.2, o4: q.3, port: p }),
                _ => Err(String::from_str("invalid socket address: ").concat(s)),
            }
        },
    }
}

/// The canonical text of a dotted-quad IPv4 address.
pub open spec fn spec_ip_str(o1: u8, o2: u8, o3: u8, o4: u8) -> Seq<char> {
    dec_str(o1 as nat) + seq!['.'] + (dec_str(o2 as nat) + seq!['.'] + (dec_str(o3 as nat)
        + seq!['.'] + dec_str(o4 as nat)))
}

/// The canonical text of a socket address, `ip:port`.
pub open spec fn spec_addr_str(a: SocketAddr) -> Seq<char> {
    spec_ip_str(a.o1, a.o2, a.o3, a.o4) + seq![':'] + dec_str(a.port as nat)
}

/// Render a socket address as its canonical `ip:port` text.
pub fn addr_string(a: &SocketAddr) -> (r: String)
    ensures
        r@ == spec_addr_str(*a),
{
    proof {
        reveal_strlit(".");
        reveal_strlit(":");
        assert("."@ =~= seq!['.']);
        assert(":"@ =~= seq![':']);
    }
    let mut s = u64_to_string(a.o1 as u64);
    s.append(".");
    s.append(u64_to_string(a.o2 as u64).as_str());
    s.append(".");
    s.append(u64_to_string(a.o3 as u64).as_str());
    s.append(".");
    s.append(u64_to_string(a.o4 as u64).as_str());
    s.append(":");
    s.append(u64_to_string(a.port as u64).as_str());
    proof {
        assert(s@ =~= spec_addr_str(*a));
    }
    s
}

/// If no position holds `c`, there is no first occurrence.
proof fn lemma_find_none(s: Seq<char>, c: char)
    requires
        forall|j: int| 0 <= j < s.len() ==> s[j] != c,
    ensures
        find_char(s, c) is None,
{
    lemma_find_from(s, c, 0);
    match find_char(s, c) {
        Some(k) => {
            assert(s[k] != c);
        },
        None => {},
    }
}

/// Splitting `a + sep + b` at the first `sep` recovers `a` and `b` when `a`
/// itself is free of `sep`.
proof fn lemma_find_concat(a: Seq<char>, b: Seq<char>, sep: char)
    requires
        forall|j: int| 0 <= j < a.len() ==> a[j] != sep,
    ensures
        ({
            let s = a + seq![sep] + b;
            find_char(s, sep) == Some(a.len() as int) && s.subrange(0, a.len() as int) == a
                && s.subrange(a.len() as int + 1, s.len() as int) == b
        }),
{
    let s = a + seq![sep] + b;
    assert(s[a.len() as int] == sep);
    assert(forall|j: int| 0 <= j < a.len() ==> s[j] == a[j]);
    lemma_find_is(s, sep, a.len() as int);
    assert(s.subrange(0, a.len() as int) =~= a);
    assert(s.subrange(a.len() as int + 1, s.len() as int) =~= b);
}

/// Digit characters are neither dots nor colons.
proof fn lemma_digits_no_sep(s: Seq<char>)
    requires
        all_digits(s),
    ensures
        forall|j: int| 0 <= j < s.len() ==> s[j] != '.' && s[j] != ':',
{
    assert forall|j: int| 0 <= j < s.len() implies s[j] != '.' && s[j] != ':' by {
        assert(is_digit(s[j]));
    }
}

/// The canonical numeral of an octet value is a canonical octet string.
proof fn lemma_octet_str(n: u8)
    ensures
        is_octet_str(dec_str(n as nat)),
        dec_val(dec_str(n as nat)) == n,
        all_digits(dec_str(n as nat)),
{
    lemma_dec_str(n as nat);
    assert(pow10(3) == 1000) by {
        reveal_with_fuel(pow10, 4);
    }
}

/// Parsing the canonical text of an IPv4 address yields its four octets.
pub proof fn lemma_parse_ip_round(o1: u8, o2: u8, o3: u8, o4: u8)
    ensures
        spec_parse_ip(spec_ip_str(o1, o2, o3, o4)) == Some((o1, o2, o3, o4)),
{
    let d1 = dec_str(o1 as nat);
    let d2 = dec_str(o2 as nat);
    let d3 = dec_str(o3 as nat);
    let d4 = dec_str(o4 as nat);
    lemma_octet_str(o1);
    lemma_octet_str(o2);
    lemma_octet_str(o3);
    lemma_octet_str(o4);
    lemma_digits_no_sep(d1);
    lemma_digits_no_sep(d2);
    lemma_digits_no_sep(d3);
    let rest2 = d3 + seq!['.'] + d4;
    let rest1 = d2 + seq!['.'] + rest2;
    let s = d1 + seq!['.'] + rest1;
    assert(spec_ip_str(o1, o2, o3, o4) == s);
    lemma_find_concat(d1, rest1, '.');
    lemma_find_concat(d2, rest2, '.');
    lemma_find_concat(d3, d4, '.');
}

/// Every character of the canonical IPv4 text is a digit or a dot, so a
/// colon never occurs in it.
proof fn lemma_ip_str_no_colon(o1: u8, o2: u8, o3: u8, o4: u8)
    ensures
        forall|j: int|
            0 <= j < spec_ip_str(o1, o2, o3, o4).len() ==> spec_ip_str(o1, o2, o3, o4)[j] != ':',
{
    let d1 = dec_str(o1 as nat);
    let d2 = dec_str(o2 as nat);
    let d3 = dec_str(o3 as nat);
    let d4 = dec_str(o4 as nat);
    lemma_octet_str(o1);
    lemma_octet_str(o2);
    lemma_octet_str(o3);
    lemma_octet_str(o4);
    let s = spec_ip_str(o1, o2, o3, o4);
    assert forall|j: int| 0 <= j < s.len() implies s[j] != ':' by {
        let n1 = d1.len() as int;
        let n2 = d2.len() as int;
        let n3 = d3.len() as int;
        if j < n1 {
            assert(s[j] == d1[j]);
            assert(is_digit(d1[j]));
        } else if j == n1 {
            assert(s[j] == '.');
        } else if j < n1 + 1 + n2 {
            assert(s[j] == d2[j - n1 - 1]);
            assert(is_digit(d2[j - n1 - 1]));
        } else if j == n1 + 1 + n2 {
            assert(s[j] == '.');
        } else if j < n1 + 1 + n2 + 1 + n3 {
            assert(s[j] == d3[j - n1 - n2 - 2]);
            assert(is_digit(d3[j - n1 - n2 - 2]));
        } else if j == n1 + 1 + n2 + 1 + n3 {
            assert(s[j] == '.');
        } else {
            assert(s[j] == d4[j - n1 - n2 - n3 - 3]);
            assert(is_digit(d4[j - n1 - n2 - n3 - 3]));
        }
    }
}

/// Rendering an address and parsing the text gives the address back: the
/// grammar is exact on canonical `ip:port` strings.
pub proof fn lemma_addr_round_trip(a: SocketAddr)
    ensures
        spec_parse_addr(spec_addr_str(a)) == Some(a),
{
    let ip = spec_ip_str(a.o1, a.o2, a.o3, a.o4);
    let dp = dec_str(a.port as nat);
    let s = spec_addr_str(a);
    lemma_dec_str(a.port as nat);
    assert(pow10(5) == 100000) by {
        reveal_with_fuel(pow10, 6);
    }
    assert(is_port_str(dp));
    lemma_ip_str_no_colon(a.o1, a.o2, a.o3, a.o4);
    lemma_find_concat(ip, dp, ':');
    assert(s.len() > 0);
    lemma_parse_ip_round(a.o1, a.o2, a.o3, a.o4);
}

/// A canonical bare IPv4 text parses to that address with the default port.
pub proof fn lemma_bare_ip_default_port(o1: u8, o2: u8, o3: u8, o4: u8)
    ensures
        spec_parse_addr(spec_ip_str(o1, o2, o3, o4)) == Some(
            SocketAddr { o1, o2, o3, o4, port: DEFAULT_PORT },
        ),
{
    let s = spec_ip_str(o1, o2, o3, o4);
    lemma_octet_str(o1);
    lemma_ip_str_no_colon(o1, o2, o3, o4);
    lemma_find_none(s, ':');
    assert(s.len() > 0);
    lemma_parse_ip_round(o1, o2, o3, o4);
}

/// The empty address string means the unspecified address with port 0.
pub proof fn lemma_empty_addr_unspecified()
    ensures
        spec_parse_addr(Seq::<char>::empty()) == Some(SocketAddr::spec_unspecified()),
{
}

/// An immutable snapshot of the worker's command line: scheduler address,
/// target language, engine identifier, persistence count, and the literal
/// fuzzer invocation string.
pub struct CommandLine {
    pub address: SocketAddr,
    pub language: String,
    pub engine: String,
    pub persistent: u8,
    pub args: String,
}

} // verus!
