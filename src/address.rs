//! Socket addresses in text: IPv4 as `a.b.c.d:port`, read and written by
//! the grammar below, and IPv6 as `[ip]:port` or `[ip%scope]:port`, read
//! and written by `core::net`.

use vstd::prelude::*;

use crate::error::PeerError;

verus! {

/// An IPv4 socket address.
#[derive(Clone, Copy, Debug, PartialEq, Eq, Structural)]
pub struct V4Address {
    pub a: u8,
    pub b: u8,
    pub c: u8,
    pub d: u8,
    pub port: u16,
}

pub open spec fn is_digit(c: char) -> bool {
    '0' <= c && c <= '9'
}

pub open spec fn digit_char(d: nat) -> char {
    seq!['0', '1', '2', '3', '4', '5', '6', '7', '8', '9'][d as int]
}

pub open spec fn digit_value(c: char) -> nat {
    ((c as u32) - ('0' as u32)) as nat
}

/// The decimal digits of `n`, without leading zeros.
pub open spec fn dec(n: nat) -> Seq<char>
    decreases n,
{
    if n < 10 {
        seq![digit_char(n)]
    } else {
        dec(n / 10).push(digit_char(n % 10))
    }
}

/// The number that a string of decimal digits denotes.
pub open spec fn value_of(s: Seq<char>) -> nat
    decreases s.len(),
{
    if s.len() == 0 {
        0
    } else {
        value_of(s.drop_last()) * 10 + digit_value(s.last())
    }
}

/// A digit string in canonical form: non-empty, digits only, no leading zero.
pub open spec fn canonical_digits(s: Seq<char>) -> bool {
    &&& s.len() >= 1
    &&& forall|i: int| 0 <= i < s.len() ==> is_digit(#[trigger] s[i])
    &&& (s[0] == '0' ==> s.len() == 1)
}

/// The text form of an address.
pub open spec fn format_spec(x: V4Address) -> Seq<char> {
    dec(x.a as nat) + seq!['.'] + dec(x.b as nat) + seq!['.'] + dec(x.c as nat) + seq!['.']
        + dec(x.d as nat) + seq![':'] + dec(x.port as nat)
}

/// `s` is the text of some address.
pub open spec fn is_address_text(s: Seq<char>) -> bool {
    exists|x: V4Address| format_spec(x) == s
}

proof fn lemma_digit_char(d: nat)
    requires
        d < 10,
    ensures
        is_digit(digit_char(d)),
        digit_value(digit_char(d)) == d,
        digit_char(d) == '0' <==> d == 0,
{
}

proof fn lemma_digit_value(c: char)
    requires
        is_digit(c),
    ensures
        digit_value(c) < 10,
        digit_char(digit_value(c)) == c,
{
}

/// `dec(n)` is canonical, denotes `n`, and is short for small `n`.
pub proof fn lemma_dec(n: nat)
    ensures
        canonical_digits(dec(n)),
        value_of(dec(n)) == n,
        n < 100 ==> dec(n).len() <= 2,
        n < 1000 ==> dec(n).len() <= 3,
        n < 10000 ==> dec(n).len() <= 4,
        n < 100000 ==> dec(n).len() <= 5,
        n < 10 <==> dec(n).len() == 1,
    decreases n,
{
    if n < 10 {
        lemma_digit_char(n);
        assert(dec(n).drop_last() =~= Seq::<char>::empty());
        assert(value_of(Seq::<char>::empty()) == 0);
        assert(value_of(dec(n)) == value_of(dec(n).drop_last()) * 10 + digit_value(dec(n).last()));
    } else {
        lemma_dec(n / 10);
        lemma_digit_char(n % 10);
        let s = dec(n);
        assert(s.drop_last() =~= dec(n / 10));
        assert forall|i: int| 0 <= i < s.len() implies is_digit(#[trigger] s[i]) by {
            if i < s.len() - 1 {
                assert(s[i] == dec(n / 10)[i]);
            }
        }
        assert(s[0] == dec(n / 10)[0]);
        assert(s.last() == digit_char(n % 10));
        assert(value_of(s) == value_of(dec(n / 10)) * 10 + digit_value(s.last()));
        assert((n / 10) * 10 + n % 10 == n);
    }
}

/// A canonical digit string is the decimal form of its value.
pub proof fn lemma_canonical(s: Seq<char>)
    requires
        canonical_digits(s),
    ensures
        dec(value_of(s)) == s,
        s.len() == 1 <==> value_of(s) < 10,
    decreases s.len(),
{
    let last = s.last();
    assert(is_digit(s[s.len() - 1]));
    lemma_digit_value(last);
    if s.len() == 1 {
        assert(s.drop_last() =~= Seq::<char>::empty());
        assert(dec(value_of(s)) =~= s);
    } else {
        let p = s.drop_last();
        assert(p[0] == s[0]);
        assert forall|i: int| 0 <= i < p.len() implies is_digit(#[trigger] p[i]) by {
            assert(p[i] == s[i]);
        }
        lemma_canonical(p);
        if p.len() == 1 {
            lemma_digit_value(p[0]);
        }
        let v = value_of(s);
        assert(v / 10 == value_of(p));
        assert(v % 10 == digit_value(last));
        assert(dec(v) =~= s);
    }
}

/// Where the numbers and separators of `format_spec(x)` stand.
proof fn lemma_layout(x: V4Address)
    ensures
        ({
            let t = format_spec(x);
            let q1 = dec(x.a as nat).len() as int;
            let q2 = q1 + 1 + dec(x.b as nat).len();
            let q3 = q2 + 1 + dec(x.c as nat).len();
            let q4 = q3 + 1 + dec(x.d as nat).len();
            &&& t.len() == q4 + 1 + dec(x.port as nat).len()
            &&& t[q1] == '.' && t[q2] == '.' && t[q3] == '.' && t[q4] == ':'
            &&& t.subrange(0, q1) == dec(x.a as nat)
            &&& t.subrange(q1 + 1, q2) == dec(x.b as nat)
            &&& t.subrange(q2 + 1, q3) == dec(x.c as nat)
            &&& t.subrange(q3 + 1, q4) == dec(x.d as nat)
            &&& t.subrange(q4 + 1, t.len() as int) == dec(x.port as nat)
            &&& forall|j: int| 0 <= j < q1 ==> is_digit(#[trigger] t[j])
            &&& forall|j: int| q1 < j < q2 ==> is_digit(#[trigger] t[j])
            &&& forall|j: int| q2 < j < q3 ==> is_digit(#[trigger] t[j])
            &&& forall|j: int| q3 < j < q4 ==> is_digit(#[trigger] t[j])
        }),
{
    lemma_dec(x.a as nat);
    lemma_dec(x.b as nat);
    lemma_dec(x.c as nat);
    lemma_dec(x.d as nat);
    lemma_dec(x.port as nat);
    let t = format_spec(x);
    let da = dec(x.a as nat);
    let db = dec(x.b as nat);
    let dc = dec(x.c as nat);
    let dd = dec(x.d as nat);
    let dp = dec(x.port as nat);
    let q1 = da.len() as int;
    let q2 = q1 + 1 + db.len();
    let q3 = q2 + 1 + dc.len();
    let q4 = q3 + 1 + dd.len();
    assert(t.subrange(0, q1) =~= da);
    assert(t.subrange(q1 + 1, q2) =~= db);
    assert(t.subrange(q2 + 1, q3) =~= dc);
    assert(t.subrange(q3 + 1, q4) =~= dd);
    assert(t.subrange(q4 + 1, t.len() as int) =~= dp);
    assert forall|j: int| 0 <= j < q1 implies is_digit(#[trigger] t[j]) by {
        assert(t[j] == da[j]);
    }
    assert forall|j: int| q1 < j < q2 implies is_digit(#[trigger] t[j]) by {
        assert(t[j] == db[j - q1 - 1]);
    }
    assert forall|j: int| q2 < j < q3 implies is_digit(#[trigger] t[j]) by {
        assert(t[j] == dc[j - q2 - 1]);
    }
    assert forall|j: int| q3 < j < q4 implies is_digit(#[trigger] t[j]) by {
        assert(t[j] == dd[j - q3 - 1]);
    }
}

/// The first index at or after `from` that holds `c`, or the length.
fn find_char(s: &str, from: usize, len: usize, c: char) -> (r: usize)
    requires
        len == s@.len(),
    ensures
        r <= len,
        r < len ==> from <= r && s@[r as int] == c,
        forall|j: int| from <= j < r ==> s@[j] != c,
{
    let mut i = from;
    if i > len {
        return len;
    }
    while i < len
        invariant
            from <= i <= len,
            len == s@.len(),
            forall|j: int| from <= j < i ==> s@[j] != c,
        decreases len - i,
    {
        if s.get_char(i) == c {
            return i;
        }
        i = i + 1;
    }
    i
}

/// Reads the canonical decimal number in `s@[lo..hi]`, if it is at most `max`.
fn parse_decimal(s: &str, lo: usize, hi: usize, max: u64) -> (r: Option<u64>)
    requires
        lo <= hi <= s@.len(),
        max < 100000,
    ensures
        match r {
            Some(n) => n <= max && s@.subrange(lo as int, hi as int) == dec(n as nat),
            None => forall|n: nat| n <= max ==> s@.subrange(lo as int, hi as int) != dec(n),
        },
{
    let ghost t = s@.subrange(lo as int, hi as int);
    if hi == lo || hi - lo > 5 {
        proof {
            assert forall|n: nat| n <= max implies t != dec(n) by {
                lemma_dec(n);
            }
        }
        return None;
    }
    let first = s.get_char(lo);
    if first == '0' && hi - lo > 1 {
        proof {
            assert(t[0] == first);
            assert forall|n: nat| n <= max implies t != dec(n) by {
                lemma_dec(n);
            }
        }
        return None;
    }
    let mut v: u64 = 0;
    let mut p: u64 = 1;
    let mut i = lo;
    while i < hi
        invariant
            lo <= i <= hi <= s@.len(),
            hi - lo <= 5,
            t == s@.subrange(lo as int, hi as int),
            forall|j: int| 0 <= j < i - lo ==> is_digit(#[trigger] t[j]),
            v == value_of(t.subrange(0, i - lo)),
            v < p,
            p <= 100000,
            i - lo == 0 ==> p == 1,
            i - lo == 1 ==> p == 10,
            i - lo == 2 ==> p == 100,
            i - lo == 3 ==> p == 1000,
            i - lo == 4 ==> p == 10000,
            i - lo == 5 ==> p == 100000,
        decreases hi - i,
    {
        let ch = s.get_char(i);
        assert(ch == t[i - lo]);
        if !('0' <= ch && ch <= '9') {
            proof {
                assert forall|n: nat| n <= max implies t != dec(n) by {
                    lemma_dec(n);
                    if t == dec(n) {
                        assert(is_digit(t[i - lo]));
                    }
                }
            }
            return None;
        }
        let dv = (ch as u32 - '0' as u32) as u64;
        proof {
            let u = t.subrange(0, i - lo + 1);
            assert(u.drop_last() =~= t.subrange(0, i - lo));
            assert(u.last() == ch);
            assert(v * 10 + dv < p * 10) by (nonlinear_arith)
                requires
                    v < p,
                    dv < 10,
            ;
        }
        v = v * 10 + dv;
        p = p * 10;
        i = i + 1;
    }
    proof {
        assert(t.subrange(0, hi - lo) =~= t);
        assert(t[0] == first);
        lemma_canonical(t);
    }
    if v <= max {
        Some(v)
    } else {
        proof {
            assert forall|n: nat| n <= max implies t != dec(n) by {
                lemma_dec(n);
            }
        }
        None
    }
}

/// The position after `i`, or `n` where `i` is already at the end.
fn after(i: usize, n: usize) -> (r: usize)
    requires
        i <= n,
    ensures
        i < n ==> r == i + 1,
        i == n ==> r == n,
{
    if i < n {
        i + 1
    } else {
        n
    }
}

/// Reads the text of an IPv4 address; fails with `AddressError` exactly on
/// the strings that are not the text of any IPv4 address.
fn parse_v4(s: &str) -> (r: Result<V4Address, PeerError>)
    ensures
        match r {
            Ok(x) => format_spec(x) == s@,
            Err(e) => e == PeerError::AddressError && !is_address_text(s@),
        },
{
    let n = s.unicode_len();
    let i1 = find_char(s, 0, n, '.');
    let i2 = find_char(s, after(i1, n), n, '.');
    let i3 = find_char(s, after(i2, n), n, '.');
    let i4 = find_char(s, after(i3, n), n, ':');
    if i4 < n {
        let a = parse_decimal(s, 0, i1, 255);
        let b = parse_decimal(s, i1 + 1, i2, 255);
        let c = parse_decimal(s, i2 + 1, i3, 255);
        let d = parse_decimal(s, i3 + 1, i4, 255);
        let p = parse_decimal(s, i4 + 1, n, 65535);
        match (a, b, c, d, p) {
            (Some(a), Some(b), Some(c), Some(d), Some(p)) => {
                let x = V4Address { a: a as u8, b: b as u8, c: c as u8, d: d as u8, port: p as u16 };
                proof {
                    let t = s@;
                    assert(t =~= t.subrange(0, i1 as int) + seq!['.'] + t.subrange(i1 + 1, i2 as int)
                        + seq!['.'] + t.subrange(i2 + 1, i3 as int) + seq!['.'] + t.subrange(
                        i3 + 1,
                        i4 as int,
                    ) + seq![':'] + t.subrange(i4 + 1, n as int));
                }
                return Ok(x);
            },
            _ => {
                proof {
                    assert forall|x: V4Address| format_spec(x) != s@ by {
                        if format_spec(x) == s@ {
                            lemma_positions(x, s@, i1 as int, i2 as int, i3 as int, i4 as int);
                        }
                    }
                }
                return Err(PeerError::AddressError);
            },
        }
    }
    proof {
        assert forall|x: V4Address| format_spec(x) != s@ by {
            if format_spec(x) == s@ {
                lemma_positions(x, s@, i1 as int, i2 as int, i3 as int, i4 as int);
            }
        }
    }
    Err(PeerError::AddressError)
}

/// Where the separators of an address text stand, given the first
/// occurrence of each separator after the previous one.
proof fn lemma_positions(x: V4Address, t: Seq<char>, i1: int, i2: int, i3: int, i4: int)
    requires
        t == format_spec(x),
        i1 <= t.len(),
        i1 < t.len() ==> 0 <= i1 && t[i1] == '.',
        forall|j: int| 0 <= j < i1 ==> t[j] != '.',
        i2 <= t.len(),
        i2 < t.len() ==> i1 + 1 <= i2 && t[i2] == '.',
        forall|j: int| i1 + 1 <= j < i2 ==> t[j] != '.',
        i3 <= t.len(),
        i3 < t.len() ==> i2 + 1 <= i3 && t[i3] == '.',
        forall|j: int| i2 + 1 <= j < i3 ==> t[j] != '.',
        i4 <= t.len(),
        i4 < t.len() ==> i3 + 1 <= i4 && t[i4] == ':',
        forall|j: int| i3 + 1 <= j < i4 ==> t[j] != ':',
    ensures
        i1 == dec(x.a as nat).len(),
        i2 == i1 + 1 + dec(x.b as nat).len(),
        i3 == i2 + 1 + dec(x.c as nat).len(),
        i4 == i3 + 1 + dec(x.d as nat).len(),
        i4 < t.len(),
        t.subrange(0, i1) == dec(x.a as nat),
        t.subrange(i1 + 1, i2) == dec(x.b as nat),
        t.subrange(i2 + 1, i3) == dec(x.c as nat),
        t.subrange(i3 + 1, i4) == dec(x.d as nat),
        t.subrange(i4 + 1, t.len() as int) == dec(x.port as nat),
{
    lemma_layout(x);
    let q1 = dec(x.a as nat).len() as int;
    let q2 = q1 + 1 + dec(x.b as nat).len();
    let q3 = q2 + 1 + dec(x.c as nat).len();
    let q4 = q3 + 1 + dec(x.d as nat).len();
    if i1 < q1 {
        assert(is_digit(t[i1]));
    }
    if i1 > q1 {
        assert(t[q1] == '.');
    }
    assert(i1 == q1);
    if i2 < q2 {
        assert(is_digit(t[i2]));
    }
    if i2 > q2 {
        assert(t[q2] == '.');
    }
    assert(i2 == q2);
    if i3 < q3 {
        assert(is_digit(t[i3]));
    }
    if i3 > q3 {
        assert(t[q3] == '.');
    }
    assert(i3 == q3);
    if i4 < q4 {
        assert(is_digit(t[i4]));
    }
    if i4 > q4 {
        assert(t[q4] == ':');
    }
}

/// The decimal digits of `n` as text.
fn format_decimal(n: u64) -> (r: String)
    ensures
        r@ == dec(n as nat),
    decreases n,
{
    let mut r = if n >= 10 {
        format_decimal(n / 10)
    } else {
        String::new()
    };
    let d = n % 10;
    let digit = if d == 0 {
        "0"
    } else if d == 1 {
        "1"
    } else if d == 2 {
        "2"
    } else if d == 3 {
        "3"
    } else if d == 4 {
        "4"
    } else if d == 5 {
        "5"
    } else if d == 6 {
        "6"
    } else if d == 7 {
        "7"
    } else if d == 8 {
        "8"
    } else {
        "9"
    };
    proof {
        reveal_strlit("0");
        reveal_strlit("1");
        reveal_strlit("2");
        reveal_strlit("3");
        reveal_strlit("4");
        reveal_strlit("5");
        reveal_strlit("6");
        reveal_strlit("7");
        reveal_strlit("8");
        reveal_strlit("9");
        assert(digit@ =~= seq![digit_char(d as nat)]);
    }
    r.append(digit);
    proof {
        if n < 10 {
            assert(r@ =~= dec(n as nat));
        } else {
            assert(r@ =~= dec(n as nat));
        }
    }
    r
}

/// The text of an IPv4 address.
fn format_v4(x: &V4Address) -> (r: String)
    ensures
        r@ == format_spec(*x),
{
    let mut r = format_decimal(x.a as u64);
    r.append(".");
    r.append(format_decimal(x.b as u64).as_str());
    r.append(".");
    r.append(format_decimal(x.c as u64).as_str());
    r.append(".");
    r.append(format_decimal(x.d as u64).as_str());
    r.append(":");
    r.append(format_decimal(x.port as u64).as_str());
    proof {
        reveal_strlit(".");
        reveal_strlit(":");
        assert(r@ =~= format_spec(*x));
    }
    r
}

/// Formatting then parsing gives the address back: the text of an address is
/// accepted by the parser, and no two addresses share a text.
pub proof fn lemma_address_round_trip(x: V4Address, y: V4Address)
    ensures
        is_address_text(format_spec(x)),
        format_spec(x) == format_spec(y) ==> x == y,
{
    if format_spec(x) == format_spec(y) {
        let t = format_spec(y);
        lemma_layout(y);
        let q1 = dec(y.a as nat).len() as int;
        let q2 = q1 + 1 + dec(y.b as nat).len();
        let q3 = q2 + 1 + dec(y.c as nat).len();
        let q4 = q3 + 1 + dec(y.d as nat).len();
        lemma_positions(x, t, q1, q2, q3, q4);
        lemma_dec(x.a as nat);
        lemma_dec(y.a as nat);
        lemma_dec(x.b as nat);
        lemma_dec(y.b as nat);
        lemma_dec(x.c as nat);
        lemma_dec(y.c as nat);
        lemma_dec(x.d as nat);
        lemma_dec(y.d as nat);
        lemma_dec(x.port as nat);
        lemma_dec(y.port as nat);
    }
}

/// An IPv6 socket address: the address as a 128-bit number, its scope and
/// the port.
#[derive(Clone, Copy, Debug, PartialEq, Eq, Structural)]
pub struct V6Address {
    pub ip: u128,
    pub scope_id: u32,
    pub port: u16,
}

/// A socket address.
#[derive(Clone, Copy, Debug, PartialEq, Eq, Structural)]
pub enum SocketAddress {
    V4(V4Address),
    V6(V6Address),
}

/// What `core::net::SocketAddrV6`'s `FromStr` reads from a text: address,
/// scope and port, or nothing.
pub uninterp spec fn v6_parse_of(s: Seq<char>) -> Option<(u128, u32, u16)>;

/// What `core::net::SocketAddrV6`'s `Display` writes for an address, scope
/// and port (flow info zero).
pub uninterp spec fn v6_text_of(ip: u128, scope_id: u32, port: u16) -> Seq<char>;

/// Relies on `core::net::SocketAddrV6`'s `FromStr`, which reads
/// `[ip]:port` and `[ip%scope]:port` and nothing else.
#[verifier::external_body]
fn parse_v6(s: &str) -> (r: Option<(u128, u32, u16)>)
    ensures
        r == v6_parse_of(s@),
{
    s.parse::<core::net::SocketAddrV6>().ok().map(|a| (u128::from(*a.ip()), a.scope_id(), a.port()))
}

/// Relies on `core::net::SocketAddrV6`'s `Display`, which writes `[`, the
/// address, `%scope` when the scope is not zero, `]:` and the port; its
/// `FromStr` reads that text back.
#[verifier::external_body]
fn format_v6(ip: u128, scope_id: u32, port: u16) -> (r: String)
    ensures
        r@ == v6_text_of(ip, scope_id, port),
        r@.len() > 0 && r@[0] == '[',
        v6_parse_of(r@) == Some((ip, scope_id, port)),
{
    core::net::SocketAddrV6::new(core::net::Ipv6Addr::from(ip), port, 0, scope_id).to_string()
}

/// The text of an address.
pub open spec fn address_text(x: SocketAddress) -> Seq<char> {
    match x {
        SocketAddress::V4(a) => format_spec(a),
        SocketAddress::V6(a) => v6_text_of(a.ip, a.scope_id, a.port),
    }
}

/// The address that a text denotes: an IPv4 text first, else IPv6.
pub open spec fn parse_spec(s: Seq<char>) -> Option<SocketAddress> {
    if is_address_text(s) {
        Some(SocketAddress::V4(choose|x: V4Address| format_spec(x) == s))
    } else {
        match v6_parse_of(s) {
            Some(t) => Some(SocketAddress::V6(V6Address { ip: t.0, scope_id: t.1, port: t.2 })),
            None => None,
        }
    }
}

/// Parses a socket address; fails with `AddressError` exactly on the texts
/// that are neither an IPv4 nor an IPv6 socket address.
pub fn parse_socket_address(s: &str) -> (r: Result<SocketAddress, PeerError>)
    ensures
        match r {
            Ok(x) => parse_spec(s@) == Some(x),
            Err(e) => e == PeerError::AddressError && parse_spec(s@) is None,
        },
        r matches Ok(SocketAddress::V4(a)) ==> format_spec(a) == s@,
{
    match parse_v4(s) {
        Ok(a) => {
            proof {
                let c = choose|x: V4Address| format_spec(x) == s@;
                lemma_address_round_trip(a, c);
            }
            Ok(SocketAddress::V4(a))
        },
        Err(_) => match parse_v6(s) {
            Some(t) => Ok(SocketAddress::V6(V6Address { ip: t.0, scope_id: t.1, port: t.2 })),
            None => Err(PeerError::AddressError),
        },
    }
}

/// The text of a socket address.
pub fn format_socket_address(x: &SocketAddress) -> (r: String)
    ensures
        r@ == address_text(*x),
        parse_spec(r@) == Some(*x),
{
    match x {
        SocketAddress::V4(a) => {
            let r = format_v4(a);
            proof {
                lemma_v4_text_round_trip(*a);
            }
            r
        },
        SocketAddress::V6(a) => {
            let r = format_v6(a.ip, a.scope_id, a.port);
            proof {
                lemma_bracket_not_v4(r@);
            }
            r
        },
    }
}

/// An IPv4 address's text reads back as that address.
pub proof fn lemma_v4_text_round_trip(x: V4Address)
    ensures
        parse_spec(format_spec(x)) == Some(SocketAddress::V4(x)),
{
    lemma_address_round_trip(x, x);
    let c = choose|y: V4Address| format_spec(y) == format_spec(x);
    lemma_address_round_trip(x, c);
}

/// A text that starts with `[` is no IPv4 text.
proof fn lemma_bracket_not_v4(s: Seq<char>)
    requires
        s.len() > 0 && s[0] == '[',
    ensures
        !is_address_text(s),
{
    assert forall|x: V4Address| format_spec(x) != s by {
        lemma_dec(x.a as nat);
        assert(format_spec(x)[0] == dec(x.a as nat)[0]);
    }
}

/// Formatting a socket address and parsing the text gives the address back.
pub proof fn lemma_text_round_trip(x: SocketAddress, r: Seq<char>)
    requires
        r == address_text(x),
        x matches SocketAddress::V6(a) ==> r.len() > 0 && r[0] == '[' && v6_parse_of(r) == Some(
            (a.ip, a.scope_id, a.port),
        ),
    ensures
        parse_spec(r) == Some(x),
{
    match x {
        SocketAddress::V4(a) => lemma_v4_text_round_trip(a),
        SocketAddress::V6(a) => lemma_bracket_not_v4(r),
    }
}

} // verus!
