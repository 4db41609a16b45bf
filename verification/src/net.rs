//! Addresses and subnets as plain values: dotted-quad IPv4 literals, CIDR
//! subnets with prefix masks, and the allowlist filter over discovered
//! stations.

use vstd::prelude::*;

use crate::publish::{dec_digit_char, dec_seq};

verus! {

/// True for a decimal digit character.
pub open spec fn is_digit_char(c: char) -> bool {
    '0' as u32 <= c as u32 <= '9' as u32
}

/// Numeric value of a decimal digit character.
pub open spec fn digit_value(c: char) -> int {
    c as u32 - '0' as u32
}

/// Reads the octet at the head of `s`: the longest digit run of at most
/// three characters, rejecting leading zeros and values over 255.
/// Returns the octet's value and how many characters it spans.
#[verifier::opaque]
pub open spec fn spec_take_octet(s: Seq<char>) -> Option<(u32, int)> {
    if s.len() >= 1 && is_digit_char(s[0]) {
        if s[0] == '0' {
            Some((0u32, 1int))
        } else if s.len() >= 2 && is_digit_char(s[1]) {
            if s.len() >= 3 && is_digit_char(s[2]) {
                if digit_value(s[0]) * 100 + digit_value(s[1]) * 10 + digit_value(s[2]) <= 255 {
                    Some(
                        (
                            (digit_value(s[0]) * 100 + digit_value(s[1]) * 10 + digit_value(
                                s[2],
                            )) as u32,
                            3int,
                        ),
                    )
                } else {
                    None
                }
            } else {
                Some(((digit_value(s[0]) * 10 + digit_value(s[1])) as u32, 2int))
            }
        } else {
            Some((digit_value(s[0]) as u32, 1int))
        }
    } else {
        None
    }
}

/// Value of a dotted-quad IPv4 literal: four octets joined by dots, nothing
/// before or after, leading zeros rejected. `None` for any other string.
#[verifier::opaque]
pub open spec fn spec_parse_ipv4(s: Seq<char>) -> Option<u32> {
    match spec_take_octet(s) {
        None => None,
        Some((a, i)) => {
            if i < s.len() && s[i] == '.' {
                match spec_take_octet(s.skip(i + 1)) {
                    None => None,
                    Some((b, j0)) => {
                        let j = i + 1 + j0;
                        if j < s.len() && s[j] == '.' {
                            match spec_take_octet(s.skip(j + 1)) {
                                None => None,
                                Some((c, k0)) => {
                                    let k = j + 1 + k0;
                                    if k < s.len() && s[k] == '.' {
                                        match spec_take_octet(s.skip(k + 1)) {
                                            None => None,
                                            Some((d, l0)) => {
                                                if k + 1 + l0 == s.len() {
                                                    Some(ipv4_value(a, b, c, d))
                                                } else {
                                                    None
                                                }
                                            },
                                        }
                                    } else {
                                        None
                                    }
                                },
                            }
                        } else {
                            None
                        }
                    },
                }
            } else {
                None
            }
        },
    }
}

/// The 32-bit value of an address given as four octets.
pub open spec fn ipv4_value(a: u32, b: u32, c: u32, d: u32) -> u32
    recommends
        a <= 255,
        b <= 255,
        c <= 255,
        d <= 255,
{
    (a * 0x1000000 + b * 0x10000 + c * 0x100 + d) as u32
}

/// Reads the octet starting at character `pos` of `s`, as
/// [`spec_take_octet`] describes it on the tail of the view.
fn take_octet(s: &str, pos: usize) -> (r: Option<(u32, usize)>)
    requires
        pos <= s@.len(),
        s@.len() <= usize::MAX,
    ensures
        match r {
            Some((v, n)) => spec_take_octet(s@.skip(pos as int)) == Some((v, n as int)) && pos + n
                <= s@.len() && v <= 255,
            None => spec_take_octet(s@.skip(pos as int)) is None,
        },
{
    proof {
        reveal(spec_take_octet);
    }
    let ghost t = s@.skip(pos as int);
    let len = s.unicode_len();
    if pos >= len {
        return None;
    }
    let c0 = s.get_char(pos);
    assert(t[0] == s@[pos as int]);
    if !(c0 >= '0' && c0 <= '9') {
        return None;
    }
    let d0 = c0 as u32 - '0' as u32;
    if d0 == 0 {
        return Some((0, 1));
    }
    if pos + 1 < len {
        let c1 = s.get_char(pos + 1);
        assert(t[1] == s@[pos as int + 1]);
        if c1 >= '0' && c1 <= '9' {
            let d1 = c1 as u32 - '0' as u32;
            if pos + 2 < len {
                let c2 = s.get_char(pos + 2);
                assert(t[2] == s@[pos as int + 2]);
                if c2 >= '0' && c2 <= '9' {
                    let d2 = c2 as u32 - '0' as u32;
                    let v = d0 * 100 + d1 * 10 + d2;
                    if v <= 255 {
                        return Some((v, 3));
                    } else {
                        return None;
                    }
                }
            }
            return Some((d0 * 10 + d1, 2));
        }
    }
    Some((d0, 1))
}

/// Parses a dotted-quad IPv4 literal; the result is exactly what
/// [`spec_parse_ipv4`] gives on the string's characters.
pub fn parse_ipv4(s: &str) -> (r: Option<u32>)
    ensures
        r == spec_parse_ipv4(s@),
{
    proof {
        reveal(spec_parse_ipv4);
    }
    let len = s.unicode_len();
    proof {
        assert(s@.skip(0) =~= s@);
    }
    let (a, i) = match take_octet(s, 0) {
        Some(p) => p,
        None => {
            return None;
        },
    };
    if !(i < len && s.get_char(i) == '.') {
        return None;
    }
    let (b, j0) = match take_octet(s, i + 1) {
        Some(p) => p,
        None => {
            return None;
        },
    };
    let j = i + 1 + j0;
    if !(j < len && s.get_char(j) == '.') {
        return None;
    }
    let (c, k0) = match take_octet(s, j + 1) {
        Some(p) => p,
        None => {
            return None;
        },
    };
    let k = j + 1 + k0;
    if !(k < len && s.get_char(k) == '.') {
        return None;
    }
    let (d, l0) = match take_octet(s, k + 1) {
        Some(p) => p,
        None => {
            return None;
        },
    };
    if k + 1 + l0 != len {
        return None;
    }
    Some(a * 0x1000000 + b * 0x10000 + c * 0x100 + d)
}

/// The canonical dotted-quad rendering of an address value: each octet in
/// decimal without leading zeros, joined by dots.
pub open spec fn ipv4_render(v: u32) -> Seq<char> {
    dec_seq(((v >> 24) & 0xff) as nat) + "."@ + dec_seq(((v >> 16) & 0xff) as nat) + "."@
        + dec_seq(((v >> 8) & 0xff) as nat) + "."@ + dec_seq((v & 0xff) as nat)
}

/// Digit characters carry their digit: they are digits, worth their value,
/// and only zero renders as `'0'`.
proof fn lemma_digit_char_value(k: nat)
    requires
        k <= 9,
    ensures
        is_digit_char(dec_digit_char(k)),
        digit_value(dec_digit_char(k)) == k,
        k >= 1 ==> dec_digit_char(k) != '0',
{
}

/// The octet at the head of a rendered octet followed by anything that does
/// not read as a further digit is the rendered value itself.
proof fn lemma_take_octet_render(n: nat, tail: Seq<char>)
    requires
        n <= 255,
        tail.len() > 0 ==> !is_digit_char(tail[0]),
    ensures
        spec_take_octet(dec_seq(n) + tail) == Some((n as u32, dec_seq(n).len() as int)),
        1 <= dec_seq(n).len() <= 3,
{
    reveal(spec_take_octet);
    reveal(dec_seq);
    vstd::arithmetic::div_mod::lemma_fundamental_div_mod(n as int, 10);
    let s = dec_seq(n) + tail;
    if n < 10 {
        lemma_digit_char_value(n);
        assert(s[0] == dec_digit_char(n));
        if tail.len() > 0 {
            assert(s[1] == tail[0]);
        }
    } else if n < 100 {
        let d1 = n / 10;
        let d0 = n % 10;
        assert(1 <= d1 <= 9);
        lemma_digit_char_value(d1 as nat);
        lemma_digit_char_value(d0 as nat);
        assert(dec_seq(d1) == seq![dec_digit_char(d1)]);
        assert(dec_seq(n) == dec_seq(d1).push(dec_digit_char(d0)));
        assert(dec_seq(n) =~= seq![dec_digit_char(d1 as nat), dec_digit_char(d0 as nat)]);
        assert(s[0] == dec_digit_char(d1 as nat));
        assert(s[1] == dec_digit_char(d0 as nat));
        if tail.len() > 0 {
            assert(s[2] == tail[0]);
        }
        assert(digit_value(s[0]) * 10 + digit_value(s[1]) == n);
    } else {
        let m = n / 10;
        let d0 = n % 10;
        vstd::arithmetic::div_mod::lemma_fundamental_div_mod(m as int, 10);
        vstd::arithmetic::div_mod::lemma_div_denominator(n as int, 10, 10);
        let d2 = m / 10;
        let d1 = m % 10;
        assert(10 <= m <= 25);
        assert(1 <= d2 <= 2);
        lemma_digit_char_value(d2 as nat);
        lemma_digit_char_value(d1 as nat);
        lemma_digit_char_value(d0 as nat);
        assert(dec_seq(d2) == seq![dec_digit_char(d2)]);
        assert(dec_seq(m) == dec_seq(d2).push(dec_digit_char(d1)));
        assert(dec_seq(n) == dec_seq(m).push(dec_digit_char(d0)));
        assert(dec_seq(m as nat) =~= seq![dec_digit_char(d2 as nat), dec_digit_char(d1 as nat)]);
        assert(dec_seq(n) =~= seq![
            dec_digit_char(d2 as nat),
            dec_digit_char(d1 as nat),
            dec_digit_char(d0 as nat),
        ]);
        assert(s[0] == dec_digit_char(d2 as nat));
        assert(s[1] == dec_digit_char(d1 as nat));
        assert(s[2] == dec_digit_char(d0 as nat));
        assert(digit_value(s[0]) * 100 + digit_value(s[1]) * 10 + digit_value(s[2]) == n);
    }
}

/// Parsing the canonical rendering of any address value gives that value
/// back: the dotted-quad reading and the rendering are mutually inverse on
/// every address.
#[verifier::rlimit(100)]
pub proof fn lemma_parse_of_render(v: u32)
    ensures
        spec_parse_ipv4(ipv4_render(v)) == Some(v),
{
    reveal_strlit(".");
    let a = (v >> 24) & 0xff;
    let b = (v >> 16) & 0xff;
    let c = (v >> 8) & 0xff;
    let d = v & 0xff;
    assert(((v >> 24) & 0xff) <= 255 && ((v >> 16) & 0xff) <= 255 && ((v >> 8) & 0xff) <= 255 && (
    v & 0xff) <= 255) by (bit_vector);
    let sa = dec_seq(a as nat);
    let sb = dec_seq(b as nat);
    let sc = dec_seq(c as nat);
    let sd = dec_seq(d as nat);
    // the rendering, re-bracketed from the right so each octet stands at
    // the head of its own tail
    let tail_c = "."@ + sd;
    let t2 = sc + tail_c;
    let tail_b = "."@ + t2;
    let t1 = sb + tail_b;
    let tail_a = "."@ + t1;
    let t0 = sa + tail_a;
    assert(!is_digit_char('.'));
    lemma_take_octet_render(a as nat, tail_a);
    lemma_take_octet_render(b as nat, tail_b);
    lemma_take_octet_render(c as nat, tail_c);
    lemma_take_octet_render(d as nat, Seq::empty());
    assert(sd + Seq::empty() =~= sd);
    assert(ipv4_render(v) =~= t0);
    let i = sa.len() as int;
    let j = i + 1 + sb.len() as int;
    let k = j + 1 + sc.len() as int;
    assert(t0[i] == '.');
    assert(t0.skip(i + 1) =~= t1);
    assert(t0[j] == t1[sb.len() as int]);
    assert(t1[sb.len() as int] == '.');
    assert(t0.skip(j + 1) =~= t1.skip(sb.len() as int + 1));
    assert(t1.skip(sb.len() as int + 1) =~= t2);
    assert(t0[k] == t2[sc.len() as int]);
    assert(t2[sc.len() as int] == '.');
    assert(t0.skip(k + 1) =~= t2.skip(sc.len() as int + 1));
    assert(t2.skip(sc.len() as int + 1) =~= sd);
    assert(k + 1 + sd.len() == t0.len());
    assert(spec_parse_ipv4(t0) == Some(ipv4_value(a, b, c, d))) by {
        reveal(spec_parse_ipv4);
    }
    assert((((v >> 24) & 0xff) * 0x1000000 + ((v >> 16) & 0xff) * 0x10000 + ((v >> 8) & 0xff)
        * 0x100 + (v & 0xff)) as u32 == v) by (bit_vector);
}

/// An IPv4 subnet in CIDR form: a base address and a prefix length.
#[derive(Clone, Copy, Debug, PartialEq, Eq, Structural)]
pub struct Subnet {
    pub addr: u32,
    pub prefix: u8,
}

impl Subnet {
    /// A prefix length never exceeds the address width.
    pub open spec fn wf(self) -> bool {
        self.prefix <= 32
    }

    /// The network mask: the `prefix` most significant bits set.
    pub open spec fn spec_mask(self) -> u32 {
        !((0xffff_ffffu64 >> self.prefix) as u32)
    }

    /// Membership of an address: equal to the base address on all masked bits.
    pub open spec fn spec_contains(self, ip: u32) -> bool {
        ip & self.spec_mask() == self.addr & self.spec_mask()
    }

    /// Decides whether `ip` lies inside this subnet.
    pub fn contains(&self, ip: u32) -> (r: bool)
        requires
            self.wf(),
        ensures
            r == self.spec_contains(ip),
    {
        let mask = !((0xffff_ffffu64 >> self.prefix) as u32);
        ip & mask == self.addr & mask
    }
}

/// True when some subnet of the sequence contains the address.
pub open spec fn in_any_subnet(ip: u32, subnets: Seq<Subnet>) -> bool {
    exists|i: int| 0 <= i < subnets.len() && subnets[i].spec_contains(ip)
}

/// Decides whether any of the subnets contains `ip`.
pub fn ip_in_any_subnet(ip: u32, subnets: &Vec<Subnet>) -> (r: bool)
    requires
        forall|i: int| 0 <= i < subnets@.len() ==> subnets@[i].wf(),
    ensures
        r == in_any_subnet(ip, subnets@),
{
    let mut i: usize = 0;
    while i < subnets.len()
        invariant
            0 <= i <= subnets@.len(),
            forall|j: int| 0 <= j < subnets@.len() ==> subnets@[j].wf(),
            forall|j: int| 0 <= j < i ==> !subnets@[j].spec_contains(ip),
        decreases subnets@.len() - i,
    {
        if subnets[i].contains(ip) {
            return true;
        }
        i = i + 1;
    }
    false
}

/// Index of the first occurrence of `c` in `s`, if any.
pub open spec fn find_char(s: Seq<char>, c: char) -> Option<int>
    decreases s.len(),
{
    if s.len() == 0 {
        None
    } else if s[0] == c {
        Some(0int)
    } else {
        match find_char(s.drop_first(), c) {
            None => None,
            Some(i) => Some(i + 1),
        }
    }
}

/// What [`find_char`] returns: the first index holding `c`, or `None` when
/// no index does.
pub proof fn lemma_find_char(s: Seq<char>, c: char)
    ensures
        match find_char(s, c) {
            Some(i) => 0 <= i < s.len() && s[i] == c && forall|j: int| 0 <= j < i ==> s[j] != c,
            None => forall|j: int| 0 <= j < s.len() ==> s[j] != c,
        },
    decreases s.len(),
{
    if s.len() > 0 && s[0] != c {
        lemma_find_char(s.drop_first(), c);
        assert(forall|j: int| 0 < j < s.len() ==> s[j] == s.drop_first()[j - 1]);
    }
}

/// Value of a prefix-length field: one or more decimal digits whose value is
/// at most 32. `None` for any other string.
pub open spec fn spec_parse_prefix(s: Seq<char>) -> Option<u8> {
    if s.len() >= 1 && (forall|i: int| 0 <= i < s.len() ==> is_digit_char(s[i])) && dec_value(s)
        <= 32 {
        Some(dec_value(s) as u8)
    } else {
        None
    }
}

/// Numeric value of a digit string, most significant digit first.
pub open spec fn dec_value(s: Seq<char>) -> int
    decreases s.len(),
{
    if s.len() == 0 {
        0
    } else {
        dec_value(s.drop_last()) * 10 + digit_value(s.last())
    }
}

/// Parses a prefix-length field, as [`spec_parse_prefix`] describes it.
fn parse_prefix(s: &str) -> (r: Option<u8>)
    ensures
        r == spec_parse_prefix(s@),
        r matches Some(p) ==> p <= 32,
{
    let len = s.unicode_len();
    if len == 0 {
        return None;
    }
    let mut i: usize = 0;
    // `acc` tracks the digit value so far, capped just above the largest
    // acceptable prefix so it cannot overflow.
    let mut acc: u32 = 0;
    while i < len
        invariant
            0 <= i <= len,
            len == s@.len(),
            forall|j: int| 0 <= j < i ==> is_digit_char(s@[j]),
            dec_value(s@.take(i as int)) <= 32 ==> acc == dec_value(s@.take(i as int)),
            dec_value(s@.take(i as int)) > 32 ==> acc == 33,
            acc <= 33,
        decreases len - i,
    {
        let c = s.get_char(i);
        if !(c >= '0' && c <= '9') {
            return None;
        }
        let d = c as u32 - '0' as u32;
        proof {
            assert(s@.take(i + 1).drop_last() == s@.take(i as int));
            assert(s@.take(i + 1).last() == s@[i as int]);
        }
        if acc > 3 {
            acc = 33;
        } else {
            acc = acc * 10 + d;
            if acc > 32 {
                acc = 33;
            }
        }
        i = i + 1;
    }
    proof {
        assert(s@.take(len as int) == s@);
        if dec_value(s@) > 32 {
        } else {
        }
    }
    if acc <= 32 {
        Some(acc as u8)
    } else {
        proof {
            if dec_value(s@) <= 32 {
                assert(acc == dec_value(s@));
            }
        }
        None
    }
}

/// Reading of one allowlist entry: either a dotted-quad address followed by
/// `/` and a prefix length, or a bare address, which stands for a full-length
/// prefix. A second `/` or any other malformed part rejects the entry.
#[verifier::opaque]
pub open spec fn spec_parse_subnet(s: Seq<char>) -> Option<Subnet> {
    match find_char(s, '/') {
        None => match spec_parse_ipv4(s) {
            Some(a) => Some(Subnet { addr: a, prefix: 32 }),
            None => None,
        },
        Some(i) => {
            if 0 <= i < s.len() {
                let rest = s.skip(i + 1);
                if find_char(rest, '/') is Some {
                    None
                } else {
                    match (spec_parse_ipv4(s.take(i)), spec_parse_prefix(rest)) {
                        (Some(a), Some(p)) => Some(Subnet { addr: a, prefix: p }),
                        _ => None,
                    }
                }
            } else {
                None
            }
        },
    }
}

/// Parses one allowlist entry, as [`spec_parse_subnet`] describes it.
pub fn parse_subnet(s: &str) -> (r: Option<Subnet>)
    ensures
        r == spec_parse_subnet(s@),
        r matches Some(n) ==> n.wf(),
{
    proof {
        reveal(spec_parse_subnet);
    }
    let len = s.unicode_len();
    let mut i: usize = 0;
    while i < len && s.get_char(i) != '/'
        invariant
            0 <= i <= len,
            len == s@.len(),
            forall|j: int| 0 <= j < i ==> s@[j] != '/',
        decreases len - i,
    {
        i = i + 1;
    }
    proof {
        lemma_find_char(s@, '/');
    }
    if i == len {
        // no slash: a bare address
        match parse_ipv4(s) {
            Some(a) => Some(Subnet { addr: a, prefix: 32 }),
            None => None,
        }
    } else {
        let addr_part = s.substring_char(0, i);
        let rest = s.substring_char(i + 1, len);
        proof {
            assert(addr_part@ == s@.take(i as int));
            assert(rest@ == s@.skip(i as int + 1));
            lemma_find_char(rest@, '/');
        }
        let rest_len = rest.unicode_len();
        let mut k: usize = 0;
        while k < rest_len && rest.get_char(k) != '/'
            invariant
                0 <= k <= rest_len,
                rest_len == rest@.len(),
                forall|j: int| 0 <= j < k ==> rest@[j] != '/',
            decreases rest_len - k,
        {
            k = k + 1;
        }
        if k < rest_len {
            // a second slash rejects the entry
            return None;
        }
        match (parse_ipv4(addr_part), parse_prefix(rest)) {
            (Some(a), Some(p)) => Some(Subnet { addr: a, prefix: p }),
            _ => None,
        }
    }
}

/// The whitespace that surrounds an allowlist entry and is ignored.
pub open spec fn is_space_char(c: char) -> bool {
    c == ' ' || c == '\t' || c == '\n' || c == '\r'
}

/// `s` without its leading whitespace.
pub open spec fn trim_start(s: Seq<char>) -> Seq<char>
    decreases s.len(),
{
    if s.len() > 0 && is_space_char(s[0]) {
        trim_start(s.drop_first())
    } else {
        s
    }
}

/// `s` without its trailing whitespace.
pub open spec fn trim_end(s: Seq<char>) -> Seq<char>
    decreases s.len(),
{
    if s.len() > 0 && is_space_char(s.last()) {
        trim_end(s.drop_last())
    } else {
        s
    }
}

/// `s` without leading and trailing whitespace.
pub open spec fn spec_trim(s: Seq<char>) -> Seq<char> {
    trim_end(trim_start(s))
}

/// Leading whitespace can be dropped all at once.
proof fn lemma_trim_start_skip(s: Seq<char>, i: int)
    requires
        0 <= i <= s.len(),
        forall|j: int| 0 <= j < i ==> is_space_char(s[j]),
    ensures
        trim_start(s) == trim_start(s.skip(i)),
    decreases i,
{
    if i > 0 {
        assert(s.drop_first() == s.skip(1));
        assert(forall|j: int| 0 <= j < i - 1 ==> s.skip(1)[j] == s[j + 1]);
        lemma_trim_start_skip(s.skip(1), i - 1);
        assert(s.skip(1).skip(i - 1) =~= s.skip(i));
    } else {
        assert(s.skip(0) == s);
    }
}

/// Trailing whitespace can be dropped all at once.
proof fn lemma_trim_end_take(s: Seq<char>, m: int)
    requires
        0 <= m <= s.len(),
        forall|j: int| m <= j < s.len() ==> is_space_char(s[j]),
    ensures
        trim_end(s) == trim_end(s.take(m)),
    decreases s.len() - m,
{
    if m < s.len() {
        assert(is_space_char(s.last()));
        assert(s.drop_last() == s.take(s.len() - 1));
        lemma_trim_end_take(s.take(s.len() - 1), m);
        assert(s.take(s.len() - 1).take(m) =~= s.take(m));
    } else {
        assert(s.take(m) == s);
    }
}

/// Decides whether a character is ignorable whitespace.
fn is_space(c: char) -> (r: bool)
    ensures
        r == is_space_char(c),
{
    c == ' ' || c == '\t' || c == '\n' || c == '\r'
}

/// Strips leading and trailing whitespace, as [`spec_trim`] describes it.
pub fn trim_str<'a>(s: &'a str) -> (r: &'a str)
    ensures
        r@ == spec_trim(s@),
{
    let len = s.unicode_len();
    let mut b: usize = 0;
    while b < len && is_space(s.get_char(b))
        invariant
            0 <= b <= len,
            len == s@.len(),
            forall|j: int| 0 <= j < b ==> is_space_char(s@[j]),
        decreases len - b,
    {
        b = b + 1;
    }
    let mut e: usize = len;
    while e > b && is_space(s.get_char(e - 1))
        invariant
            b <= e <= len,
            len == s@.len(),
            b <= len,
            forall|j: int| e <= j < len ==> is_space_char(s@[j]),
        decreases e,
    {
        e = e - 1;
    }
    proof {
        lemma_trim_start_skip(s@, b as int);
        assert(trim_start(s@.skip(b as int)) == s@.skip(b as int));
        let t = s@.skip(b as int);
        assert(forall|j: int| e - b <= j < t.len() ==> t[j] == s@[j + b]);
        lemma_trim_end_take(t, e - b);
        assert(t.take(e - b) =~= s@.subrange(b as int, e as int));
        if e > b {
            assert(t.take(e - b).last() == s@[e - 1]);
        }
        assert(trim_end(t.take(e - b)) == t.take(e - b));
    }
    s.substring_char(b, e)
}

/// Reading of a comma-separated allowlist: each part is trimmed and read as
/// a subnet; parts that are not well-formed subnets are ignored.
pub open spec fn spec_parse_subnets(s: Seq<char>) -> Seq<Subnet>
    decreases s.len(),
{
    match find_char(s, ',') {
        None => match spec_parse_subnet(spec_trim(s)) {
            Some(n) => seq![n],
            None => Seq::empty(),
        },
        Some(i) => {
            if 0 <= i < s.len() {
                (match spec_parse_subnet(spec_trim(s.take(i))) {
                    Some(n) => seq![n],
                    None => Seq::empty(),
                }) + spec_parse_subnets(s.skip(i + 1))
            } else {
                Seq::empty()
            }
        },
    }
}

/// Splits the configured allowlist on commas and keeps every entry that
/// reads as a subnet, as [`spec_parse_subnets`] describes it.
#[verifier::rlimit(100)]
pub fn parse_subnets(config: &str) -> (r: Vec<Subnet>)
    ensures
        r@ == spec_parse_subnets(config@),
        forall|i: int| 0 <= i < r@.len() ==> r@[i].wf(),
{
    let len = config.unicode_len();
    let mut out: Vec<Subnet> = Vec::new();
    let mut pos: usize = 0;
    proof {
        assert(config@.skip(0) =~= config@);
    }
    loop
        invariant
            0 <= pos <= len,
            len == config@.len(),
            out@ + spec_parse_subnets(config@.skip(pos as int)) =~= spec_parse_subnets(config@),
            forall|i: int| 0 <= i < out@.len() ==> out@[i].wf(),
        decreases len - pos,
    {
        let ghost tail = config@.skip(pos as int);
        let mut c: usize = pos;
        while c < len && config.get_char(c) != ','
            invariant
                pos <= c <= len,
                len == config@.len(),
                forall|j: int| pos <= j < c ==> config@[j] != ',',
            decreases len - c,
        {
            c = c + 1;
        }
        proof {
            lemma_find_char(tail, ',');
            assert(forall|j: int| 0 <= j < tail.len() ==> tail[j] == config@[pos + j]);
            if c < len {
                assert(tail[c - pos] == ',');
            }
        }
        let part = config.substring_char(pos, c);
        proof {
            assert(part@ =~= tail.take(c - pos));
            if c == len {
                assert(tail.take(c - pos) =~= tail);
            }
        }
        let trimmed = trim_str(part);
        let parsed = parse_subnet(trimmed);
        match parsed {
            Some(n) => out.push(n),
            None => (),
        }
        if c == len {
            proof {
                assert(out@ =~= spec_parse_subnets(config@));
            }
            return out;
        }
        proof {
            assert(tail.skip((c - pos) + 1) =~= config@.skip(c as int + 1));
        }
        pos = c + 1;
    }
}

/// A station as the controller reports it: a hardware address, and an IP
/// only once the station is fully associated.
#[derive(Debug)]
pub struct RawStation {
    pub macaddr: String,
    pub ip: Option<String>,
}

/// Mathematical image of a reported station.
pub ghost struct RawStationModel {
    pub macaddr: Seq<char>,
    pub ip: Option<Seq<char>>,
}

impl View for RawStation {
    type V = RawStationModel;

    open spec fn view(&self) -> RawStationModel {
        RawStationModel {
            macaddr: self.macaddr@,
            ip: match self.ip {
                Some(s) => Some(s@),
                None => None,
            },
        }
    }
}

/// A station admitted to presence accounting: associated, with an address
/// inside the allowlist.
#[derive(Debug)]
pub struct Station {
    pub macaddr: String,
    pub ip: u32,
}

/// Mathematical image of an admitted station.
pub ghost struct StationModel {
    pub macaddr: Seq<char>,
    pub ip: u32,
}

impl View for Station {
    type V = StationModel;

    open spec fn view(&self) -> StationModel {
        StationModel { macaddr: self.macaddr@, ip: self.ip }
    }
}

/// Whether one reported station passes the allowlist filter, and as what:
/// it must carry an IP, the IP must read as a dotted quad, and some allowed
/// subnet must contain it.
pub open spec fn spec_keep_station(r: RawStationModel, subnets: Seq<Subnet>) -> Option<
    StationModel,
> {
    match r.ip {
        None => None,
        Some(ipstr) => match spec_parse_ipv4(ipstr) {
            None => None,
            Some(ip) => {
                if in_any_subnet(ip, subnets) {
                    Some(StationModel { macaddr: r.macaddr, ip })
                } else {
                    None
                }
            },
        },
    }
}

/// The admitted stations, in the controller's order.
pub open spec fn spec_filter_stations(rs: Seq<RawStationModel>, subnets: Seq<Subnet>) -> Seq<
    StationModel,
>
    decreases rs.len(),
{
    if rs.len() == 0 {
        Seq::empty()
    } else {
        spec_filter_stations(rs.drop_last(), subnets) + (match spec_keep_station(
            rs.last(),
            subnets,
        ) {
            Some(st) => seq![st],
            None => Seq::empty(),
        })
    }
}

/// Keeps the stations that carry an IP inside one of the allowed subnets,
/// as [`spec_filter_stations`] describes it; the rest are excluded from
/// presence accounting.
pub fn filter_stations(raw: &Vec<RawStation>, subnets: &Vec<Subnet>) -> (r: Vec<Station>)
    requires
        forall|i: int| 0 <= i < subnets@.len() ==> subnets@[i].wf(),
    ensures
        r@.map_values(|st: Station| st@) == spec_filter_stations(
            raw@.map_values(|rs: RawStation| rs@),
            subnets@,
        ),
{
    let ghost models = raw@.map_values(|rs: RawStation| rs@);
    let mut out: Vec<Station> = Vec::new();
    let mut i: usize = 0;
    proof {
        assert(models.take(0) =~= Seq::empty());
    }
    while i < raw.len()
        invariant
            0 <= i <= raw@.len(),
            models == raw@.map_values(|rs: RawStation| rs@),
            forall|k: int| 0 <= k < subnets@.len() ==> subnets@[k].wf(),
            out@.map_values(|st: Station| st@) =~= spec_filter_stations(
                models.take(i as int),
                subnets@,
            ),
        decreases raw@.len() - i,
    {
        let station = &raw[i];
        let ghost before = out@.map_values(|st: Station| st@);
        match &station.ip {
            Some(ipstr) => {
                match parse_ipv4(ipstr.as_str()) {
                    Some(ip) => {
                        if ip_in_any_subnet(ip, subnets) {
                            out.push(Station { macaddr: station.macaddr.clone(), ip });
                        }
                    },
                    None => (),
                }
            },
            None => (),
        }
        proof {
            assert(models.take(i + 1).drop_last() =~= models.take(i as int));
            assert(models.take(i + 1).last() == models[i as int]);
            assert(models[i as int] == raw@[i as int]@);
            assert(out@.map_values(|st: Station| st@) =~= spec_filter_stations(
                models.take(i + 1),
                subnets@,
            ));
        }
        i = i + 1;
    }
    proof {
        assert(models.take(raw@.len() as int) =~= models);
    }
    out
}

} // verus!
