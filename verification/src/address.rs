//! Typed network endpoints: a literal IPv4 socket address or a domain name,
//! each carrying a 16-bit port.
//!
//! Parsing tries the literal socket form first and falls back to splitting
//! the text on its last colon with a valid port on the right; rendering is
//! the exact inverse on parsed values.

use vstd::prelude::*;

use crate::digits::{
    all_digit_chars, append_dec_chars, canonical_digit_chars, dec_chars, dec_val_chars,
    digit_char, is_digit_char, lemma_dec_chars_all_digits, lemma_dec_chars_canonical,
    lemma_dec_chars_val, lemma_dec_val_chars_push, lemma_dec_val_chars_prefix_le,
};

verus! {

/// An IPv4 address as four octets.
#[derive(Clone, Copy, PartialEq, Eq, Structural, Debug)]
pub struct IpAddress {
    pub o1: u8,
    pub o2: u8,
    pub o3: u8,
    pub o4: u8,
}

/// A resolved endpoint: IPv4 address and port.
#[derive(Clone, Copy, PartialEq, Eq, Structural, Debug)]
pub struct SocketAddress {
    pub ip: IpAddress,
    pub port: u16,
}

/// A domain name with a port, e.g. `example.com:8080`.
#[derive(Clone, Debug)]
pub struct DomainName(pub String, pub u16);

/// A network endpoint: either a literal socket address or a domain name.
#[derive(Clone, Debug)]
pub enum Address {
    SocketAddr(SocketAddress),
    DomainName(DomainName),
}

/// Parse failure for `Address::parse`.
#[derive(Clone, Copy, PartialEq, Eq, Structural, Debug)]
pub struct AddressError;

/// Resolution failure: the resolver failed or returned no addresses.
#[derive(Clone, Copy, PartialEq, Eq, Structural, Debug)]
pub struct ResolveError;

/// The mathematical shape of an address: the domain name as a character
/// sequence rather than an owned string.
pub enum AddrShape {
    Sock { ip: IpAddress, port: u16 },
    Domain { name: Seq<char>, port: u16 },
}

impl Address {
    /// The shape of this address.
    pub open spec fn shape(self) -> AddrShape {
        match self {
            Address::SocketAddr(sa) => AddrShape::Sock { ip: sa.ip, port: sa.port },
            Address::DomainName(d) => AddrShape::Domain { name: d.0@, port: d.1 },
        }
    }
}

// ---------------------------------------------------------------------------
// Text grammar
// ---------------------------------------------------------------------------

/// Least index `j >= i` with `s[j] == c`.
pub open spec fn find_char_from(s: Seq<char>, c: char, i: int) -> Option<int>
    decreases s.len() - i,
{
    if i < 0 || i >= s.len() {
        None
    } else if s[i] == c {
        Some(i)
    } else {
        find_char_from(s, c, i + 1)
    }
}

/// Greatest index with a colon.
pub open spec fn find_last_colon(s: Seq<char>) -> Option<int>
    decreases s.len(),
{
    if s.len() == 0 {
        None
    } else if s.last() == ':' {
        Some(s.len() - 1)
    } else {
        find_last_colon(s.drop_last())
    }
}

/// A port text: one or more digits denoting a value up to 65535. Leading
/// zeros are accepted.
pub open spec fn port_of(s: Seq<char>) -> Option<u16> {
    if s.len() >= 1 && all_digit_chars(s) && dec_val_chars(s) <= 65535 {
        Some(dec_val_chars(s) as u16)
    } else {
        None
    }
}

/// An IPv4 octet text: digits without leading zeros denoting a value up
/// to 255.
pub open spec fn octet_of(s: Seq<char>) -> Option<u8> {
    if canonical_digit_chars(s) && dec_val_chars(s) <= 255 {
        Some(dec_val_chars(s) as u8)
    } else {
        None
    }
}

/// A literal IPv4 address text: four octet texts joined by dots.
pub open spec fn ipv4_of(s: Seq<char>) -> Option<IpAddress> {
    match find_char_from(s, '.', 0) {
        None => None,
        Some(p1) => match find_char_from(s, '.', p1 + 1) {
            None => None,
            Some(p2) => match find_char_from(s, '.', p2 + 1) {
                None => None,
                Some(p3) => if find_char_from(s, '.', p3 + 1) is Some {
                    None
                } else {
                    match (
                        octet_of(s.subrange(0, p1)),
                        octet_of(s.subrange(p1 + 1, p2)),
                        octet_of(s.subrange(p2 + 1, p3)),
                        octet_of(s.subrange(p3 + 1, s.len() as int)),
                    ) {
                        (Some(o1), Some(o2), Some(o3), Some(o4)) => Some(
                            IpAddress { o1, o2, o3, o4 },
                        ),
                        _ => None,
                    }
                },
            },
        },
    }
}

/// The address denoted by a text, if any: split at the last colon; the right
/// part must be a port text; the left part decides between the literal
/// socket form and the domain form.
pub open spec fn parse_spec(s: Seq<char>) -> Option<AddrShape> {
    match find_last_colon(s) {
        None => None,
        Some(k) => {
            let left = s.subrange(0, k);
            let right = s.subrange(k + 1, s.len() as int);
            match port_of(right) {
                None => None,
                Some(p) => match ipv4_of(left) {
                    Some(ip) => Some(AddrShape::Sock { ip, port: p }),
                    None => Some(AddrShape::Domain { name: left, port: p }),
                },
            }
        },
    }
}

/// Canonical text of an IPv4 address.
pub open spec fn ipv4_chars(ip: IpAddress) -> Seq<char> {
    dec_chars(ip.o1 as int) + seq!['.'] + dec_chars(ip.o2 as int) + seq!['.'] + dec_chars(
        ip.o3 as int,
    ) + seq!['.'] + dec_chars(ip.o4 as int)
}

/// Canonical text of an address shape.
pub open spec fn text_of(v: AddrShape) -> Seq<char> {
    match v {
        AddrShape::Sock { ip, port } => ipv4_chars(ip) + seq![':'] + dec_chars(port as int),
        AddrShape::Domain { name, port } => name + seq![':'] + dec_chars(port as int),
    }
}

/// The host of an address shape: the IPv4 text for the literal form, the
/// name for the domain form.
pub open spec fn host_of(v: AddrShape) -> Seq<char> {
    match v {
        AddrShape::Sock { ip, .. } => ipv4_chars(ip),
        AddrShape::Domain { name, .. } => name,
    }
}

/// The port of an address shape.
pub open spec fn port_num_of(v: AddrShape) -> u16 {
    match v {
        AddrShape::Sock { port, .. } => port,
        AddrShape::Domain { port, .. } => port,
    }
}

} // verus!

verus! {

// ---------------------------------------------------------------------------
// Executable parsing
// ---------------------------------------------------------------------------

/// Decide whether `c` is a decimal digit.
fn is_digit_exec(c: char) -> (r: bool)
    ensures
        r == is_digit_char(c),
{
    let u = c as u32;
    48 <= u && u <= 57
}

/// Index of the last colon of `s`, scanning from the end.
fn find_last_colon_str(s: &str) -> (r: Option<usize>)
    ensures
        match r {
            Some(k) => find_last_colon(s@) == Some(k as int) && k < s@.len(),
            None => find_last_colon(s@) is None,
        },
{
    let n = s.unicode_len();
    let mut i = n;
    proof {
        assert(s@.take(n as int) =~= s@);
    }
    while i > 0
        invariant
            i <= n,
            n == s@.len(),
            find_last_colon(s@) == find_last_colon(s@.take(i as int)),
        decreases i,
    {
        let c = s.get_char(i - 1);
        if c == ':' {
            proof {
                assert(s@.take(i as int).last() == s@[i - 1]);
                assert(s@ =~= s@.take(n as int));
            }
            return Some(i - 1);
        }
        proof {
            assert(s@.take(i as int).last() == s@[i - 1]);
            assert(s@.take(i as int).drop_last() =~= s@.take(i - 1));
        }
        i = i - 1;
    }
    proof {
        assert(s@.take(0).len() == 0);
    }
    None
}

/// Least index `k >= from` with a dot, or nothing.
fn find_dot_from(s: &str, from: usize) -> (r: Option<usize>)
    requires
        from <= s@.len(),
    ensures
        match r {
            Some(k) => find_char_from(s@, '.', from as int) == Some(k as int) && from <= k
                < s@.len(),
            None => find_char_from(s@, '.', from as int) is None,
        },
{
    let n = s.unicode_len();
    let mut i = from;
    while i < n
        invariant
            from <= i <= n,
            n == s@.len(),
            find_char_from(s@, '.', from as int) == find_char_from(s@, '.', i as int),
        decreases n - i,
    {
        let c = s.get_char(i);
        if c == '.' {
            return Some(i);
        }
        i = i + 1;
    }
    None
}

/// Parse the whole of `s` as a port text.
fn parse_port_str(s: &str) -> (r: Option<u16>)
    ensures
        r == port_of(s@),
{
    let n = s.unicode_len();
    if n == 0 {
        return None;
    }
    let mut v: u32 = 0;
    let mut i: usize = 0;
    while i < n
        invariant
            i <= n,
            n == s@.len(),
            all_digit_chars(s@.take(i as int)),
            v == dec_val_chars(s@.take(i as int)),
            v <= 65535,
        decreases n - i,
    {
        let c = s.get_char(i);
        if !is_digit_exec(c) {
            assert(!all_digit_chars(s@)) by {
                assert(s@[i as int] == c);
            }
            return None;
        }
        let d = c as u32 - 48;
        proof {
            assert(s@.take(i as int).push(c) =~= s@.take(i + 1));
            lemma_dec_val_chars_push(s@.take(i as int), c);
        }
        let w = v * 10 + d;
        if w > 65535 {
            proof {
                if all_digit_chars(s@) {
                    lemma_dec_val_chars_prefix_le(s@, i + 1);
                }
            }
            return None;
        }
        v = w;
        i = i + 1;
    }
    proof {
        assert(s@.take(n as int) =~= s@);
    }
    Some(v as u16)
}

/// Parse the whole of `s` as an IPv4 octet text.
fn parse_octet_str(s: &str) -> (r: Option<u8>)
    ensures
        r == octet_of(s@),
{
    let n = s.unicode_len();
    if n == 0 {
        return None;
    }
    if n > 1 && s.get_char(0) == '0' {
        assert(s@[0] == digit_char(0)) by {
            assert(digit_char(0) as u32 == 48);
            assert('0' as u32 == 48);
        }
        return None;
    }
    let mut v: u32 = 0;
    let mut i: usize = 0;
    while i < n
        invariant
            i <= n,
            n == s@.len(),
            all_digit_chars(s@.take(i as int)),
            v == dec_val_chars(s@.take(i as int)),
            v <= 255,
        decreases n - i,
    {
        let c = s.get_char(i);
        if !is_digit_exec(c) {
            assert(!all_digit_chars(s@)) by {
                assert(s@[i as int] == c);
            }
            return None;
        }
        let d = c as u32 - 48;
        proof {
            assert(s@.take(i as int).push(c) =~= s@.take(i + 1));
            lemma_dec_val_chars_push(s@.take(i as int), c);
        }
        let w = v * 10 + d;
        if w > 255 {
            proof {
                if all_digit_chars(s@) {
                    lemma_dec_val_chars_prefix_le(s@, i + 1);
                }
            }
            return None;
        }
        v = w;
        i = i + 1;
    }
    proof {
        assert(s@.take(n as int) =~= s@);
    }
    Some(v as u8)
}

/// Parse the whole of `s` as a literal IPv4 address text.
pub fn parse_ipv4_str(s: &str) -> (r: Option<IpAddress>)
    ensures
        r == ipv4_of(s@),
{
    let n = s.unicode_len();
    let p1 = match find_dot_from(s, 0) {
        None => {
            return None;
        },
        Some(p) => p,
    };
    let p2 = match find_dot_from(s, p1 + 1) {
        None => {
            return None;
        },
        Some(p) => p,
    };
    let p3 = match find_dot_from(s, p2 + 1) {
        None => {
            return None;
        },
        Some(p) => p,
    };
    if find_dot_from(s, p3 + 1).is_some() {
        return None;
    }
    let o1 = parse_octet_str(s.substring_char(0, p1));
    let o2 = parse_octet_str(s.substring_char(p1 + 1, p2));
    let o3 = parse_octet_str(s.substring_char(p2 + 1, p3));
    let o4 = parse_octet_str(s.substring_char(p3 + 1, n));
    match (o1, o2, o3, o4) {
        (Some(o1), Some(o2), Some(o3), Some(o4)) => Some(IpAddress { o1, o2, o3, o4 }),
        _ => None,
    }
}

impl Address {
    /// Parse an address text: a literal IPv4 socket address if the text has
    /// that form, otherwise the text up to its last colon as a domain name
    /// with the digits after it as the port.
    pub fn parse(s: &str) -> (r: Result<Address, AddressError>)
        ensures
            match parse_spec(s@) {
                Some(v) => r is Ok && r.unwrap().shape() == v,
                None => r is Err,
            },
    {
        let n = s.unicode_len();
        let k = match find_last_colon_str(s) {
            None => {
                return Err(AddressError);
            },
            Some(k) => k,
        };
        let left = s.substring_char(0, k);
        let right = s.substring_char(k + 1, n);
        proof {
            assert(left@ =~= s@.subrange(0, k as int));
            assert(right@ =~= s@.subrange(k + 1, s@.len() as int));
        }
        let p = match parse_port_str(right) {
            None => {
                return Err(AddressError);
            },
            Some(p) => p,
        };
        match parse_ipv4_str(left) {
            Some(ip) => Ok(Address::SocketAddr(SocketAddress { ip, port: p })),
            None => Ok(Address::DomainName(DomainName(left.to_owned(), p))),
        }
    }
}

} // verus!

verus! {

// ---------------------------------------------------------------------------
// Rendering and projections
// ---------------------------------------------------------------------------

/// A one-character string holding a dot.
fn dot_str() -> (r: &'static str)
    ensures
        r@ =~= seq!['.'],
{
    proof {
        reveal_strlit(".");
    }
    "."
}

/// A one-character string holding a colon.
fn colon_str() -> (r: &'static str)
    ensures
        r@ =~= seq![':'],
{
    proof {
        reveal_strlit(":");
    }
    ":"
}

/// Render an IPv4 address in dotted-decimal form.
pub fn ipv4_text(ip: &IpAddress) -> (r: String)
    ensures
        r@ == ipv4_chars(*ip),
{
    let mut out = String::new();
    append_dec_chars(&mut out, ip.o1 as u64);
    out.append(dot_str());
    append_dec_chars(&mut out, ip.o2 as u64);
    out.append(dot_str());
    append_dec_chars(&mut out, ip.o3 as u64);
    out.append(dot_str());
    append_dec_chars(&mut out, ip.o4 as u64);
    proof {
        assert(out@ =~= ipv4_chars(*ip));
    }
    out
}

impl Address {
    /// Render the address as text; the exact inverse of `parse` on values
    /// that `parse` can produce.
    pub fn to_text(&self) -> (r: String)
        ensures
            r@ == text_of(self.shape()),
    {
        let mut out = String::new();
        match self {
            Address::SocketAddr(sa) => {
                let ip = ipv4_text(&sa.ip);
                out.append(ip.as_str());
                out.append(colon_str());
                append_dec_chars(&mut out, sa.port as u64);
                proof {
                    assert(out@ =~= text_of(self.shape()));
                }
            },
            Address::DomainName(d) => {
                out.append(d.0.as_str());
                out.append(colon_str());
                append_dec_chars(&mut out, d.1 as u64);
                proof {
                    assert(out@ =~= text_of(self.shape()));
                }
            },
        }
        out
    }

    /// The host part: the dotted-decimal IP text, or the domain name.
    pub fn host(&self) -> (r: String)
        ensures
            r@ == host_of(self.shape()),
    {
        match self {
            Address::SocketAddr(sa) => ipv4_text(&sa.ip),
            Address::DomainName(d) => d.0.clone(),
        }
    }

    /// The port part.
    pub fn port(&self) -> (r: u16)
        ensures
            r == port_num_of(self.shape()),
    {
        match self {
            Address::SocketAddr(sa) => sa.port,
            Address::DomainName(d) => d.1,
        }
    }

    /// Resolve to concrete endpoints, given the external resolver's answer
    /// for the domain form. A literal socket address is its own single
    /// result and the answer is ignored; a domain name takes the answer,
    /// with a failed lookup or an empty answer both treated as failure.
    pub fn resolve_with(&self, lookup: Option<Vec<IpAddress>>) -> (r: Result<
        Vec<SocketAddress>,
        ResolveError,
    >)
        ensures
            match self.shape() {
                AddrShape::Sock { ip, port } => {
                    &&& r is Ok
                    &&& r.unwrap()@ == seq![SocketAddress { ip, port }]
                },
                AddrShape::Domain { name, port } => match lookup {
                    None => r is Err,
                    Some(ips) => if ips@.len() == 0 {
                        r is Err
                    } else {
                        &&& r is Ok
                        &&& r.unwrap()@.len() == ips@.len()
                        &&& forall|i: int|
                            0 <= i < ips@.len() ==> r.unwrap()@[i] == (SocketAddress {
                                ip: ips@[i],
                                port,
                            })
                    },
                },
            },
    {
        match self {
            Address::SocketAddr(sa) => {
                let mut out: Vec<SocketAddress> = Vec::new();
                out.push(SocketAddress { ip: sa.ip, port: sa.port });
                proof {
                    assert(out@ =~= seq![SocketAddress { ip: sa.ip, port: sa.port }]);
                }
                Ok(out)
            },
            Address::DomainName(d) => match lookup {
                None => Err(ResolveError),
                Some(ips) => {
                    if ips.len() == 0 {
                        return Err(ResolveError);
                    }
                    let mut out: Vec<SocketAddress> = Vec::new();
                    let mut i: usize = 0;
                    while i < ips.len()
                        invariant
                            i <= ips@.len(),
                            out@.len() == i,
                            forall|j: int|
                                0 <= j < i ==> out@[j] == (SocketAddress {
                                    ip: ips@[j],
                                    port: d.1,
                                }),
                        decreases ips@.len() - i,
                    {
                        out.push(SocketAddress { ip: ips[i], port: d.1 });
                        i = i + 1;
                    }
                    Ok(out)
                },
            },
        }
    }
}

} // verus!

verus! {

// ---------------------------------------------------------------------------
// Round trip: parsing the rendered text gives the same address back
// ---------------------------------------------------------------------------

proof fn lemma_find_char_from_at(s: Seq<char>, c: char, i: int, k: int)
    requires
        0 <= i <= k < s.len(),
        s[k] == c,
        forall|j: int| i <= j < k ==> s[j] != c,
    ensures
        find_char_from(s, c, i) == Some(k),
    decreases k - i,
{
    if i < k {
        lemma_find_char_from_at(s, c, i + 1, k);
    }
}

proof fn lemma_find_char_from_none(s: Seq<char>, c: char, i: int)
    requires
        0 <= i,
        forall|j: int| i <= j < s.len() ==> s[j] != c,
    ensures
        find_char_from(s, c, i) is None,
    decreases s.len() - i,
{
    if i < s.len() {
        lemma_find_char_from_none(s, c, i + 1);
    }
}

proof fn lemma_find_last_colon_at(s: Seq<char>, k: int)
    requires
        0 <= k < s.len(),
        s[k] == ':',
        forall|j: int| k < j < s.len() ==> s[j] != ':',
    ensures
        find_last_colon(s) == Some(k),
    decreases s.len(),
{
    if k == s.len() - 1 {
    } else {
        assert(s.last() != ':');
        assert(s.drop_last()[k] == s[k]);
        assert(forall|j: int| k < j < s.drop_last().len() ==> s.drop_last()[j] == s[j]);
        lemma_find_last_colon_at(s.drop_last(), k);
    }
}

/// Every character of a digit string differs from dots and colons.
proof fn lemma_digits_not_punct(s: Seq<char>)
    requires
        all_digit_chars(s),
    ensures
        forall|j: int| 0 <= j < s.len() ==> s[j] != '.',
        forall|j: int| 0 <= j < s.len() ==> s[j] != ':',
{
    assert('.' as u32 == 46);
    assert(':' as u32 == 58);
    assert forall|j: int| 0 <= j < s.len() implies s[j] != '.' && s[j] != ':' by {
        assert(is_digit_char(s[j]));
    }
}

/// The rendered text of an IPv4 address parses back to the same address.
proof fn lemma_ipv4_round_trip(ip: IpAddress)
    ensures
        ipv4_of(ipv4_chars(ip)) == Some(ip),
        forall|j: int| 0 <= j < ipv4_chars(ip).len() ==> ipv4_chars(ip)[j] != ':',
{
    let a = dec_chars(ip.o1 as int);
    let b = dec_chars(ip.o2 as int);
    let c = dec_chars(ip.o3 as int);
    let d = dec_chars(ip.o4 as int);
    let t = ipv4_chars(ip);
    lemma_dec_chars_all_digits(ip.o1 as int);
    lemma_dec_chars_all_digits(ip.o2 as int);
    lemma_dec_chars_all_digits(ip.o3 as int);
    lemma_dec_chars_all_digits(ip.o4 as int);
    lemma_dec_chars_canonical(ip.o1 as int);
    lemma_dec_chars_canonical(ip.o2 as int);
    lemma_dec_chars_canonical(ip.o3 as int);
    lemma_dec_chars_canonical(ip.o4 as int);
    lemma_dec_chars_val(ip.o1 as int);
    lemma_dec_chars_val(ip.o2 as int);
    lemma_dec_chars_val(ip.o3 as int);
    lemma_dec_chars_val(ip.o4 as int);
    lemma_digits_not_punct(a);
    lemma_digits_not_punct(b);
    lemma_digits_not_punct(c);
    lemma_digits_not_punct(d);
    let p1 = a.len() as int;
    let p2 = p1 + 1 + b.len();
    let p3 = p2 + 1 + c.len();
    assert(t.len() == a.len() + b.len() + c.len() + d.len() + 3);
    assert forall|j: int| 0 <= j < a.len() implies t[j] == a[j] by {}
    assert(t[p1] == '.');
    assert forall|j: int| 0 <= j < b.len() implies t[p1 + 1 + j] == b[j] by {}
    assert(t[p2] == '.');
    assert forall|j: int| 0 <= j < c.len() implies t[p2 + 1 + j] == c[j] by {}
    assert(t[p3] == '.');
    assert forall|j: int| 0 <= j < d.len() implies t[p3 + 1 + j] == d[j] by {}
    assert('.' as u32 == 46);
    assert(':' as u32 == 58);
    lemma_find_char_from_at(t, '.', 0, p1);
    lemma_find_char_from_at(t, '.', p1 + 1, p2);
    lemma_find_char_from_at(t, '.', p2 + 1, p3);
    lemma_find_char_from_none(t, '.', p3 + 1);
    assert(t.subrange(0, p1) =~= a);
    assert(t.subrange(p1 + 1, p2) =~= b);
    assert(t.subrange(p2 + 1, p3) =~= c);
    assert(t.subrange(p3 + 1, t.len() as int) =~= d);
    assert(octet_of(a) == Some(ip.o1));
    assert(octet_of(b) == Some(ip.o2));
    assert(octet_of(c) == Some(ip.o3));
    assert(octet_of(d) == Some(ip.o4));
}

/// The rendered port digits parse back to the same port.
proof fn lemma_port_round_trip(p: u16)
    ensures
        port_of(dec_chars(p as int)) == Some(p),
{
    lemma_dec_chars_all_digits(p as int);
    lemma_dec_chars_val(p as int);
}

/// Parsing is left inverse to rendering on every address that parsing can
/// produce: whenever a text parses, rendering the parsed address and parsing
/// again gives the very same address.
pub proof fn lemma_parse_round_trip(s: Seq<char>)
    requires
        parse_spec(s) is Some,
    ensures
        parse_spec(text_of(parse_spec(s).unwrap())) == parse_spec(s),
{
    let k = find_last_colon(s).unwrap();
    let left = s.subrange(0, k);
    let right = s.subrange(k + 1, s.len() as int);
    let p = port_of(right).unwrap();
    lemma_dec_chars_all_digits(p as int);
    lemma_digits_not_punct(dec_chars(p as int));
    lemma_port_round_trip(p);
    match ipv4_of(left) {
        Some(ip) => {
            let t = text_of(AddrShape::Sock { ip, port: p });
            let m = ipv4_chars(ip).len() as int;
            lemma_ipv4_round_trip(ip);
            assert(t[m] == ':');
            assert(forall|j: int| m < j < t.len() ==> t[j] != ':') by {
                assert(forall|j: int|
                    0 <= j < dec_chars(p as int).len() ==> t[m + 1 + j] == dec_chars(
                        p as int,
                    )[j]);
            }
            lemma_find_last_colon_at(t, m);
            assert(t.subrange(0, m) =~= ipv4_chars(ip));
            assert(t.subrange(m + 1, t.len() as int) =~= dec_chars(p as int));
        },
        None => {
            let t = text_of(AddrShape::Domain { name: left, port: p });
            let m = left.len() as int;
            assert(t[m] == ':');
            assert(forall|j: int| m < j < t.len() ==> t[j] != ':') by {
                assert(forall|j: int|
                    0 <= j < dec_chars(p as int).len() ==> t[m + 1 + j] == dec_chars(
                        p as int,
                    )[j]);
            }
            lemma_find_last_colon_at(t, m);
            assert(t.subrange(0, m) =~= left);
            assert(t.subrange(m + 1, t.len() as int) =~= dec_chars(p as int));
        },
    }
}

} // verus!
