//! IP addresses and the grammar of their text form.
//!
//! An IPv4 address is its 32 bits, an IPv6 address its 128 bits, most
//! significant first. `ip_of_text` says which texts are IP literals and which
//! address each one denotes; `parse_ip` computes it.

use crate::text::{chars_of, find_char, has_char, slice_chars, split, split_chars, texts};
use vstd::prelude::*;

verus! {

/// An IP address of either family, held as the integer its bytes spell in
/// network order.
#[derive(Clone, Copy, Debug, PartialEq, Eq, Structural)]
pub enum IpAddr {
    V4(u32),
    V6(u128),
}

/// The value of a digit in base 10 or 16; 0 for any other character.
pub open spec fn digit_value(c: char) -> int {
    let u = c as u32 as int;
    if 0x30 <= u <= 0x39 {
        u - 0x30
    } else if 0x61 <= u <= 0x66 {
        u - 0x61 + 10
    } else if 0x41 <= u <= 0x46 {
        u - 0x41 + 10
    } else {
        0
    }
}

/// `0` to `9`.
pub open spec fn is_decimal_digit(c: char) -> bool {
    0x30 <= c as u32 <= 0x39
}

/// `0` to `9`, `a` to `f`, `A` to `F`.
pub open spec fn is_hex_digit(c: char) -> bool {
    let u = c as u32;
    0x30 <= u <= 0x39 || 0x61 <= u <= 0x66 || 0x41 <= u <= 0x46
}

/// The number that the digits of `s` spell in the given radix.
pub open spec fn number(s: Seq<char>, radix: int) -> int
    decreases s.len(),
{
    if s.len() == 0 {
        0
    } else {
        number(s.drop_last(), radix) * radix + digit_value(s.last())
    }
}

/// One part of a dotted IPv4 literal: one to three decimal digits, no leading
/// zero on a longer part, at most 255.
pub open spec fn ipv4_octet(s: Seq<char>) -> Option<u8> {
    if 1 <= s.len() <= 3 && (forall|i: int| 0 <= i < s.len() ==> is_decimal_digit(s[i])) && (s.len()
        > 1 ==> s[0] != '0') && number(s, 10) <= 255 {
        Some(number(s, 10) as u8)
    } else {
        None
    }
}

/// The address that a dotted IPv4 literal denotes: exactly four parts
/// separated by `.`, each an octet.
pub open spec fn ipv4_bits(s: Seq<char>) -> Option<u32> {
    let parts = split(s, '.');
    if parts.len() == 4 && ipv4_octet(parts[0]) is Some && ipv4_octet(parts[1]) is Some
        && ipv4_octet(parts[2]) is Some && ipv4_octet(parts[3]) is Some {
        Some(
            (ipv4_octet(parts[0])->0 * 0x100_0000 + ipv4_octet(parts[1])->0 * 0x1_0000 + ipv4_octet(
                parts[2],
            )->0 * 0x100 + ipv4_octet(parts[3])->0) as u32,
        )
    } else {
        None
    }
}

/// One group of an IPv6 literal: one to four hex digits.
pub open spec fn hex_group(s: Seq<char>) -> Option<u16> {
    if 1 <= s.len() <= 4 && (forall|i: int| 0 <= i < s.len() ==> is_hex_digit(s[i])) {
        Some(number(s, 16) as u16)
    } else {
        None
    }
}

/// The groups that a list of parts denotes, if every part is a hex group.
pub open spec fn hex_groups(parts: Seq<Seq<char>>) -> Option<Seq<u16>> {
    if forall|i: int| 0 <= i < parts.len() ==> hex_group(#[trigger] parts[i]) is Some {
        Some(Seq::new(parts.len(), |i: int| hex_group(parts[i])->0))
    } else {
        None
    }
}

/// The 16-bit groups that a run of an IPv6 literal denotes. The run is empty,
/// or hex groups separated by `:`; where `v4_tail` holds, its last part may be
/// a dotted IPv4 literal instead, which stands for two groups.
pub open spec fn groups(s: Seq<char>, v4_tail: bool) -> Option<Seq<u16>> {
    let parts = split(s, ':');
    if s.len() == 0 {
        Some(Seq::empty())
    } else if v4_tail && has_char(parts.last(), '.') {
        match (hex_groups(parts.drop_last()), ipv4_bits(parts.last())) {
            (Some(g), Some(v4)) => Some(g + seq![(v4 / 0x1_0000) as u16, (v4 % 0x1_0000) as u16]),
            _ => None,
        }
    } else {
        hex_groups(parts)
    }
}

/// The least index at which `::` starts in `s`, or `s.len()` if there is none.
pub open spec fn first_double_colon(s: Seq<char>) -> int
    decreases s.len(),
{
    if s.len() < 2 {
        s.len() as int
    } else if s[0] == ':' && s[1] == ':' {
        0
    } else {
        1 + first_double_colon(s.drop_first())
    }
}

/// The 128 bits that eight groups spell, first group most significant.
pub open spec fn pack_groups(g: Seq<u16>) -> u128
    recommends
        g.len() == 8,
{
    (g[0] * 0x1_0000_0000_0000_0000_0000_0000_0000 + g[1] * 0x1_0000_0000_0000_0000_0000_0000
        + g[2] * 0x1_0000_0000_0000_0000_0000 + g[3] * 0x1_0000_0000_0000_0000 + g[4]
        * 0x1_0000_0000_0000 + g[5] * 0x1_0000_0000 + g[6] * 0x1_0000 + g[7]) as u128
}

/// `n` groups of zero.
pub open spec fn zero_groups(n: int) -> Seq<u16> {
    Seq::new(n as nat, |i: int| 0u16)
}

/// The address that an IPv6 literal denotes. Without `::` the text is eight
/// groups. With `::` the groups before it and after it number at most seven,
/// and `::` stands for the zero groups that are missing. An IPv4 literal may
/// take the place of the last two groups, but not before `::`.
pub open spec fn ipv6_bits(s: Seq<char>) -> Option<u128> {
    let at = first_double_colon(s);
    if 0 <= at < s.len() {
        match (groups(s.take(at), false), groups(s.skip(at + 2), true)) {
            (Some(head), Some(tail)) => if head.len() + tail.len() <= 7 {
                Some(pack_groups(head + zero_groups(8 - head.len() - tail.len()) + tail))
            } else {
                None
            },
            _ => None,
        }
    } else {
        match groups(s, true) {
            Some(all) => if all.len() == 8 {
                Some(pack_groups(all))
            } else {
                None
            },
            None => None,
        }
    }
}

/// The address that an IP literal denotes, if the text is one: a dotted IPv4
/// literal, or else an IPv6 literal.
pub open spec fn ip_of_text(s: Seq<char>) -> Option<IpAddr> {
    match ipv4_bits(s) {
        Some(bits) => Some(IpAddr::V4(bits)),
        None => match ipv6_bits(s) {
            Some(bits) => Some(IpAddr::V6(bits)),
            None => None,
        },
    }
}

/// `first_double_colon` is in range, no `::` starts before it, and one starts
/// at it if it is in bounds.
pub proof fn lemma_first_double_colon(s: Seq<char>)
    ensures
        0 <= first_double_colon(s) <= s.len(),
        forall|j: int|
            0 <= j < first_double_colon(s) && j + 1 < s.len() ==> !(#[trigger] s[j] == ':' && s[j + 1]
                == ':'),
        first_double_colon(s) < s.len() ==> first_double_colon(s) + 1 < s.len() && s[first_double_colon(
            s,
        )] == ':' && s[first_double_colon(s) + 1] == ':',
    decreases s.len(),
{
    if s.len() >= 2 && !(s[0] == ':' && s[1] == ':') {
        let t = s.drop_first();
        lemma_first_double_colon(t);
        assert forall|j: int|
            0 <= j < first_double_colon(s) && j + 1 < s.len() implies !(#[trigger] s[j] == ':' && s[j
            + 1] == ':') by {
            if j > 0 {
                assert(s[j] == t[j - 1]);
                assert(s[j + 1] == t[j]);
            }
        }
        if first_double_colon(s) < s.len() {
            let k = first_double_colon(t);
            assert(s[k + 1] == t[k]);
            assert(s[k + 2] == t[k + 1]);
        }
    }
}

/// The value of `c` as a decimal digit, if it is one.
fn decimal_digit(c: char) -> (r: Option<u32>)
    ensures
        r is Some <==> is_decimal_digit(c),
        r is Some ==> r->0 == digit_value(c),
{
    let u: u32 = c as u32;
    if 0x30 <= u && u <= 0x39 {
        Some(u - 0x30)
    } else {
        None
    }
}

/// The value of `c` as a hex digit, if it is one.
fn hex_digit(c: char) -> (r: Option<u32>)
    ensures
        r is Some <==> is_hex_digit(c),
        r is Some ==> r->0 == digit_value(c),
{
    let u: u32 = c as u32;
    if 0x30 <= u && u <= 0x39 {
        Some(u - 0x30)
    } else if 0x61 <= u && u <= 0x66 {
        Some(u - 0x61 + 10)
    } else if 0x41 <= u && u <= 0x46 {
        Some(u - 0x41 + 10)
    } else {
        None
    }
}

/// Reads one part of a dotted IPv4 literal.
pub fn parse_octet(chars: &Vec<char>) -> (r: Option<u8>)
    ensures
        r == ipv4_octet(chars@),
{
    let n = chars.len();
    if n == 0 || n > 3 {
        return None;
    }
    if n > 1 && chars[0] == '0' {
        return None;
    }
    let mut value: u32 = 0;
    let mut i: usize = 0;
    while i < n
        invariant
            i <= n == chars.len() <= 3,
            forall|j: int| 0 <= j < i ==> is_decimal_digit(chars@[j]),
            value == number(chars@.take(i as int), 10),
            i == 0 ==> value == 0,
            i == 1 ==> value <= 9,
            i == 2 ==> value <= 99,
            i == 3 ==> value <= 999,
        decreases n - i,
    {
        match decimal_digit(chars[i]) {
            None => {
                return None;
            },
            Some(d) => {
                proof {
                    assert(chars@.take(i + 1).drop_last() == chars@.take(i as int));
                }
                value = value * 10 + d;
            },
        }
        i += 1;
    }
    proof {
        assert(chars@.take(n as int) == chars@);
    }
    if value > 255 {
        None
    } else {
        Some(value as u8)
    }
}

/// Reads a dotted IPv4 literal.
pub fn parse_ipv4(chars: &Vec<char>) -> (r: Option<u32>)
    ensures
        r == ipv4_bits(chars@),
{
    let parts = split_chars(chars, '.');
    if parts.len() != 4 {
        return None;
    }
    proof {
        assert(forall|i: int| 0 <= i < 4 ==> texts(parts@)[i] == parts@[i]@);
    }
    let a = parse_octet(&parts[0]);
    let b = parse_octet(&parts[1]);
    let c = parse_octet(&parts[2]);
    let d = parse_octet(&parts[3]);
    match (a, b, c, d) {
        (Some(a), Some(b), Some(c), Some(d)) => {
            let a: u32 = a as u32;
            let b: u32 = b as u32;
            let c: u32 = c as u32;
            let d: u32 = d as u32;
            Some(a * 0x100_0000 + b * 0x1_0000 + c * 0x100 + d)
        },
        _ => None,
    }
}

/// Reads one group of an IPv6 literal.
pub fn parse_hex_group(chars: &Vec<char>) -> (r: Option<u16>)
    ensures
        r == hex_group(chars@),
{
    let n = chars.len();
    if n == 0 || n > 4 {
        return None;
    }
    let mut value: u32 = 0;
    let mut i: usize = 0;
    while i < n
        invariant
            i <= n == chars.len() <= 4,
            forall|j: int| 0 <= j < i ==> is_hex_digit(chars@[j]),
            value == number(chars@.take(i as int), 16),
            i == 0 ==> value == 0,
            i == 1 ==> value <= 0xf,
            i == 2 ==> value <= 0xff,
            i == 3 ==> value <= 0xfff,
            i == 4 ==> value <= 0xffff,
        decreases n - i,
    {
        match hex_digit(chars[i]) {
            None => {
                return None;
            },
            Some(d) => {
                proof {
                    assert(chars@.take(i + 1).drop_last() == chars@.take(i as int));
                }
                value = value * 16 + d;
            },
        }
        i += 1;
    }
    proof {
        assert(chars@.take(n as int) == chars@);
    }
    Some(value as u16)
}

/// Reads a run of an IPv6 literal: the text before or after `::`, or all of
/// a literal without `::`.
pub fn parse_groups(chars: &Vec<char>, v4_tail: bool) -> (r: Option<Vec<u16>>)
    ensures
        r is Some <==> groups(chars@, v4_tail) is Some,
        r is Some ==> r->0@ == groups(chars@, v4_tail)->0,
{
    if chars.len() == 0 {
        return Some(Vec::new());
    }
    let parts = split_chars(chars, ':');
    proof {
        assert(forall|i: int| 0 <= i < parts.len() ==> texts(parts@)[i] == parts@[i]@);
    }
    let n = parts.len();
    let last = &parts[n - 1];
    proof {
        assert(last@.skip(0) == last@);
    }
    let dotted = v4_tail && find_char(last, 0, '.') < last.len();
    let hex_count = if dotted {
        n - 1
    } else {
        n
    };
    let ghost hex_parts = if dotted {
        texts(parts@).drop_last()
    } else {
        texts(parts@)
    };
    proof {
        assert(texts(parts@).last() == last@);
        assert(dotted == (v4_tail && has_char(split(chars@, ':').last(), '.')));
    }
    let mut out: Vec<u16> = Vec::new();
    let mut i: usize = 0;
    while i < hex_count
        invariant
            i <= hex_count <= n == parts.len(),
            hex_parts.len() == hex_count,
            hex_groups(hex_parts) is None ==> groups(chars@, v4_tail) is None,
            forall|j: int| 0 <= j < hex_count ==> hex_parts[j] == parts@[j]@,
            out@.len() == i,
            forall|j: int| 0 <= j < i ==> hex_group(#[trigger] hex_parts[j]) == Some(out@[j]),
        decreases hex_count - i,
    {
        match parse_hex_group(&parts[i]) {
            None => {
                proof {
                    assert(hex_group(hex_parts[i as int]) is None);
                }
                return None;
            },
            Some(g) => {
                out.push(g);
            },
        }
        i += 1;
    }
    proof {
        assert(hex_groups(hex_parts) is Some);
        assert(out@ == hex_groups(hex_parts)->0);
    }
    if dotted {
        match parse_ipv4(last) {
            None => {
                return None;
            },
            Some(bits) => {
                out.push((bits / 0x1_0000) as u16);
                out.push((bits % 0x1_0000) as u16);
            },
        }
    }
    Some(out)
}

/// The position at which the first `::` starts, or `chars.len()` if there is none.
fn find_double_colon(chars: &Vec<char>) -> (at: usize)
    ensures
        at == first_double_colon(chars@),
{
    let n = chars.len();
    let mut i: usize = 0;
    proof {
        assert(chars@.skip(0) == chars@);
    }
    while i < n
        invariant
            i <= n == chars.len(),
            first_double_colon(chars@) == i + first_double_colon(chars@.skip(i as int)),
        decreases n - i,
    {
        let ghost rest = chars@.skip(i as int);
        proof {
            assert(rest.drop_first() == chars@.skip(i + 1));
        }
        if i + 1 < n && chars[i] == ':' && chars[i + 1] == ':' {
            return i;
        }
        if i + 1 >= n {
            return n;
        }
        i += 1;
    }
    n
}

/// The 128 bits that eight groups spell.
fn pack(g: &Vec<u16>) -> (bits: u128)
    requires
        g.len() == 8,
    ensures
        bits == pack_groups(g@),
{
    let g0: u128 = g[0] as u128;
    let g1: u128 = g[1] as u128;
    let g2: u128 = g[2] as u128;
    let g3: u128 = g[3] as u128;
    let g4: u128 = g[4] as u128;
    let g5: u128 = g[5] as u128;
    let g6: u128 = g[6] as u128;
    let g7: u128 = g[7] as u128;
    g0 * 0x1_0000_0000_0000_0000_0000_0000_0000 + g1 * 0x1_0000_0000_0000_0000_0000_0000 + g2
        * 0x1_0000_0000_0000_0000_0000 + g3 * 0x1_0000_0000_0000_0000 + g4 * 0x1_0000_0000_0000 + g5
        * 0x1_0000_0000 + g6 * 0x1_0000 + g7
}

/// Reads an IPv6 literal.
pub fn parse_ipv6(chars: &Vec<char>) -> (r: Option<u128>)
    ensures
        r == ipv6_bits(chars@),
{
    let n = chars.len();
    let at = find_double_colon(chars);
    proof {
        lemma_first_double_colon(chars@);
    }
    if at < n {
        let head_chars = slice_chars(chars, 0, at);
        let tail_chars = slice_chars(chars, at + 2, n);
        proof {
            assert(chars@.take(at as int) == chars@.subrange(0, at as int));
            assert(chars@.skip(at + 2) == chars@.subrange(at + 2, n as int));
        }
        let head = parse_groups(&head_chars, false);
        let tail = parse_groups(&tail_chars, true);
        match (head, tail) {
            (Some(head), Some(tail)) => {
                if head.len() > 7 || tail.len() > 7 || head.len() + tail.len() > 7 {
                    return None;
                }
                let mut all: Vec<u16> = Vec::new();
                let mut i: usize = 0;
                while i < head.len()
                    invariant
                        i <= head.len(),
                        all@ == head@.take(i as int),
                    decreases head.len() - i,
                {
                    all.push(head[i]);
                    i += 1;
                }
                let gap = 8 - head.len() - tail.len();
                let mut k: usize = 0;
                while k < gap
                    invariant
                        k <= gap,
                        gap == 8 - head.len() - tail.len(),
                        all@ == head@ + zero_groups(k as int),
                    decreases gap - k,
                {
                    all.push(0u16);
                    k += 1;
                }
                let mut j: usize = 0;
                while j < tail.len()
                    invariant
                        j <= tail.len(),
                        all@ == head@ + zero_groups(gap as int) + tail@.take(j as int),
                    decreases tail.len() - j,
                {
                    all.push(tail[j]);
                    j += 1;
                }
                proof {
                    assert(tail@.take(tail.len() as int) == tail@);
                }
                Some(pack(&all))
            },
            _ => None,
        }
    } else {
        match parse_groups(chars, true) {
            Some(all) => {
                if all.len() == 8 {
                    Some(pack(&all))
                } else {
                    None
                }
            },
            None => None,
        }
    }
}

/// Reads an IP literal of either family.
pub fn parse_ip(text: &str) -> (r: Option<IpAddr>)
    ensures
        r == ip_of_text(text@),
{
    let chars = chars_of(text);
    match parse_ipv4(&chars) {
        Some(bits) => Some(IpAddr::V4(bits)),
        None => match parse_ipv6(&chars) {
            Some(bits) => Some(IpAddr::V6(bits)),
            None => None,
        },
    }
}

} // verus!
