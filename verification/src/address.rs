//! Internet addresses and their textual form.
//!
//! An IPv4 address is written as four decimal octets joined by dots, none
//! with a superfluous leading zero. An IPv6 address is written as groups of
//! one to four hexadecimal digits joined by colons; one run of zero groups
//! may be abbreviated to `::`, and the last two groups may be written as a
//! dotted IPv4 address.

use vstd::prelude::*;
use vstd::slice::slice_subrange;
use vstd::string::StringSliceAdditionalSpecFns;

verus! {

/// An IPv4 address as its four octets, or an IPv6 address as its eight
/// sixteen-bit groups, most significant first.
#[derive(Clone, Copy, Debug, PartialEq, Eq, Structural)]
pub enum IpAddress {
    V4(u8, u8, u8, u8),
    V6(u16, u16, u16, u16, u16, u16, u16, u16),
}

/// The byte that separates the octets of an IPv4 text.
pub const DOT: u8 = 0x2e;

/// The byte that separates the groups of an IPv6 text.
pub const COLON: u8 = 0x3a;

/// The pieces of `s` between occurrences of `sep`. There is always one more
/// piece than there are separators, so the empty text has one empty piece.
pub open spec fn fields(s: Seq<u8>, sep: u8) -> Seq<Seq<u8>>
    decreases s.len(),
{
    if s.len() == 0 {
        seq![Seq::<u8>::empty()]
    } else {
        let before = fields(s.drop_last(), sep);
        if s.last() == sep {
            before.push(Seq::<u8>::empty())
        } else {
            before.update(before.len() - 1, before.last().push(s.last()))
        }
    }
}

/// Every text has at least one field.
pub proof fn lemma_fields_nonempty(s: Seq<u8>, sep: u8)
    ensures
        fields(s, sep).len() >= 1,
    decreases s.len(),
{
    if s.len() > 0 {
        lemma_fields_nonempty(s.drop_last(), sep);
    }
}

/// Cuts `s` at every `sep` and returns where each field starts and ends.
pub fn split(s: &[u8], sep: u8) -> (r: Vec<(usize, usize)>)
    ensures
        r@.len() == fields(s@, sep).len(),
        forall|k: int|
            0 <= k < r@.len() ==> {
                &&& r@[k].0 <= r@[k].1 <= s@.len()
                &&& fields(s@, sep)[k] == s@.subrange((#[trigger] r@[k]).0 as int, r@[k].1 as int)
            },
{
    let mut done: Vec<(usize, usize)> = Vec::new();
    let mut start: usize = 0;
    let mut pos: usize = 0;
    assert(s@.take(0) =~= Seq::<u8>::empty());
    assert(s@.subrange(0, 0) =~= Seq::<u8>::empty());
    while pos < s.len()
        invariant
            start <= pos <= s@.len(),
            fields(s@.take(pos as int), sep).len() == done@.len() + 1,
            fields(s@.take(pos as int), sep).last() == s@.subrange(start as int, pos as int),
            forall|k: int|
                0 <= k < done@.len() ==> {
                    &&& done@[k].0 <= done@[k].1 <= s@.len()
                    &&& fields(s@.take(pos as int), sep)[k] == s@.subrange(
                        (#[trigger] done@[k]).0 as int,
                        done@[k].1 as int,
                    )
                },
        decreases s@.len() - pos,
    {
        assert(s@.take(pos + 1).drop_last() =~= s@.take(pos as int));
        if s[pos] == sep {
            done.push((start, pos));
            start = pos + 1;
            assert(s@.subrange(start as int, start as int) =~= Seq::<u8>::empty());
        } else {
            assert(s@.subrange(start as int, pos + 1) =~= s@.subrange(
                start as int,
                pos as int,
            ).push(s@[pos as int]));
        }
        pos = pos + 1;
    }
    assert(s@.take(pos as int) =~= s@);
    done.push((start, pos));
    done
}

/// The value of a decimal digit.
pub open spec fn decimal_digit(b: u8) -> Option<int> {
    if 0x30 <= b <= 0x39 {
        Some(b - 0x30)
    } else {
        None
    }
}

/// The value of a hexadecimal digit, in either case.
pub open spec fn hex_digit(b: u8) -> Option<int> {
    if 0x30 <= b <= 0x39 {
        Some(b - 0x30)
    } else if 0x61 <= b <= 0x66 {
        Some(b - 0x61 + 10)
    } else if 0x41 <= b <= 0x46 {
        Some(b - 0x41 + 10)
    } else {
        None
    }
}

/// The number that a run of decimal digits writes.
pub open spec fn decimal_value(s: Seq<u8>) -> int
    decreases s.len(),
{
    if s.len() == 0 {
        0
    } else {
        10 * decimal_value(s.drop_last()) + decimal_digit(s.last()).unwrap()
    }
}

/// The number that a run of hexadecimal digits writes.
pub open spec fn hex_value(s: Seq<u8>) -> int
    decreases s.len(),
{
    if s.len() == 0 {
        0
    } else {
        16 * hex_value(s.drop_last()) + hex_digit(s.last()).unwrap()
    }
}

/// A decimal octet: one to three digits, at most 255, and no leading zero
/// unless it is the single digit `0`.
pub open spec fn octet_of(f: Seq<u8>) -> Option<u8> {
    if 1 <= f.len() <= 3 && (forall|i: int| 0 <= i < f.len() ==> decimal_digit(#[trigger] f[i]) is Some)
        && (f.len() == 1 || f[0] != 0x30) && decimal_value(f) <= 255 {
        Some(decimal_value(f) as u8)
    } else {
        None
    }
}

/// A hexadecimal group: one to four digits.
pub open spec fn group_of(f: Seq<u8>) -> Option<u16> {
    if 1 <= f.len() <= 4 && (forall|i: int| 0 <= i < f.len() ==> hex_digit(#[trigger] f[i]) is Some) {
        Some(hex_value(f) as u16)
    } else {
        None
    }
}

/// The octets that a dotted IPv4 text writes.
pub open spec fn ipv4_of(s: Seq<u8>) -> Option<(u8, u8, u8, u8)> {
    let f = fields(s, DOT);
    if f.len() == 4 && octet_of(f[0]) is Some && octet_of(f[1]) is Some && octet_of(f[2]) is Some
        && octet_of(f[3]) is Some {
        Some(
            (
                octet_of(f[0]).unwrap(),
                octet_of(f[1]).unwrap(),
                octet_of(f[2]).unwrap(),
                octet_of(f[3]).unwrap(),
            ),
        )
    } else {
        None
    }
}

/// The groups that a colon-separated list writes. Every field is a
/// hexadecimal group; where `dotted_tail` is set the last field may instead
/// be a dotted IPv4 text, which stands for two groups.
pub open spec fn groups_of(s: Seq<u8>, dotted_tail: bool) -> Option<Seq<u16>> {
    let f = fields(s, COLON);
    let n = f.len() - 1;
    if forall|i: int| 0 <= i < n ==> group_of(#[trigger] f[i]) is Some {
        let front = Seq::new(n as nat, |i: int| group_of(f[i]).unwrap());
        if group_of(f[n]) is Some {
            Some(front.push(group_of(f[n]).unwrap()))
        } else if dotted_tail && ipv4_of(f[n]) is Some {
            let (a, b, c, d) = ipv4_of(f[n]).unwrap();
            Some(front.push((a * 256 + b) as u16).push((c * 256 + d) as u16))
        } else {
            None
        }
    } else {
        None
    }
}

/// Where the first `::` of `s` starts, or the length of `s` if it has none.
pub open spec fn double_colon(s: Seq<u8>) -> int
    decreases s.len(),
{
    if s.len() < 2 {
        s.len() as int
    } else if s[0] == COLON && s[1] == COLON {
        0
    } else {
        1 + double_colon(s.skip(1))
    }
}

/// The eight groups that an IPv6 text writes. Without `::` the text lists
/// all eight. With `::` the groups before and after it are at most seven
/// together, and zero groups fill the gap.
pub open spec fn ipv6_of(s: Seq<u8>) -> Option<Seq<u16>> {
    let at = double_colon(s);
    if at >= s.len() {
        match groups_of(s, true) {
            Some(g) => if g.len() == 8 {
                Some(g)
            } else {
                None
            },
            None => None,
        }
    } else {
        let head = if at == 0 {
            Some(Seq::<u16>::empty())
        } else {
            groups_of(s.take(at), false)
        };
        let tail = if at + 2 == s.len() {
            Some(Seq::<u16>::empty())
        } else {
            groups_of(s.skip(at + 2), true)
        };
        if head is Some && tail is Some && head.unwrap().len() + tail.unwrap().len() <= 7 {
            let gap = 8 - head.unwrap().len() - tail.unwrap().len();
            Some(head.unwrap() + Seq::new(gap as nat, |i: int| 0u16) + tail.unwrap())
        } else {
            None
        }
    }
}

/// The address that a text writes, if it writes one: an IPv4 address where
/// the text is a dotted quad, else an IPv6 address.
pub open spec fn address_of(s: Seq<u8>) -> Option<IpAddress> {
    match ipv4_of(s) {
        Some((a, b, c, d)) => Some(IpAddress::V4(a, b, c, d)),
        None => match ipv6_of(s) {
            Some(g) => Some(IpAddress::V6(g[0], g[1], g[2], g[3], g[4], g[5], g[6], g[7])),
            None => None,
        },
    }
}

/// Reads a decimal octet.
pub fn parse_octet(f: &[u8]) -> (r: Option<u8>)
    ensures
        r == octet_of(f@),
{
    let n = f.len();
    if n == 0 || n > 3 {
        return None;
    }
    if n > 1 && f[0] == 0x30 {
        return None;
    }
    let mut value: u16 = 0;
    let mut i: usize = 0;
    assert(f@.take(0) =~= Seq::<u8>::empty());
    while i < n
        invariant
            i <= n == f@.len() <= 3,
            forall|j: int| 0 <= j < i ==> decimal_digit(#[trigger] f@[j]) is Some,
            value == decimal_value(f@.take(i as int)),
            i == 0 ==> value == 0,
            i == 1 ==> value <= 9,
            i == 2 ==> value <= 99,
            value <= 999,
        decreases n - i,
    {
        let b = f[i];
        if b < 0x30 || b > 0x39 {
            return None;
        }
        assert(f@.take(i + 1).drop_last() =~= f@.take(i as int));
        value = value * 10 + (b - 0x30) as u16;
        i = i + 1;
    }
    assert(f@.take(n as int) =~= f@);
    if value > 255 {
        None
    } else {
        Some(value as u8)
    }
}

/// Reads a hexadecimal group.
pub fn parse_group(f: &[u8]) -> (r: Option<u16>)
    ensures
        r == group_of(f@),
{
    let n = f.len();
    if n == 0 || n > 4 {
        return None;
    }
    let mut value: u32 = 0;
    let mut i: usize = 0;
    assert(f@.take(0) =~= Seq::<u8>::empty());
    while i < n
        invariant
            i <= n == f@.len() <= 4,
            forall|j: int| 0 <= j < i ==> hex_digit(#[trigger] f@[j]) is Some,
            value == hex_value(f@.take(i as int)),
            i == 0 ==> value == 0,
            i == 1 ==> value <= 0xf,
            i == 2 ==> value <= 0xff,
            i == 3 ==> value <= 0xfff,
            value <= 0xffff,
        decreases n - i,
    {
        let b = f[i];
        let digit: u32 = if 0x30 <= b && b <= 0x39 {
            (b - 0x30) as u32
        } else if 0x61 <= b && b <= 0x66 {
            (b - 0x61) as u32 + 10
        } else if 0x41 <= b && b <= 0x46 {
            (b - 0x41) as u32 + 10
        } else {
            return None;
        };
        assert(f@.take(i + 1).drop_last() =~= f@.take(i as int));
        value = value * 16 + digit;
        i = i + 1;
    }
    assert(f@.take(n as int) =~= f@);
    Some(value as u16)
}

/// Reads a dotted IPv4 text.
pub fn parse_ipv4(s: &[u8]) -> (r: Option<(u8, u8, u8, u8)>)
    ensures
        r == ipv4_of(s@),
{
    let ranges = split(s, DOT);
    if ranges.len() != 4 {
        return None;
    }
    let a = parse_octet(slice_subrange(s, ranges[0].0, ranges[0].1));
    let b = parse_octet(slice_subrange(s, ranges[1].0, ranges[1].1));
    let c = parse_octet(slice_subrange(s, ranges[2].0, ranges[2].1));
    let d = parse_octet(slice_subrange(s, ranges[3].0, ranges[3].1));
    match (a, b, c, d) {
        (Some(a), Some(b), Some(c), Some(d)) => Some((a, b, c, d)),
        _ => None,
    }
}

/// Reads a colon-separated list of groups.
pub fn parse_groups(s: &[u8], dotted_tail: bool) -> (r: Option<Vec<u16>>)
    ensures
        match r {
            Some(groups) => groups_of(s@, dotted_tail) == Some(groups@),
            None => groups_of(s@, dotted_tail) is None,
        },
{
    let ranges = split(s, COLON);
    let ghost f = fields(s@, COLON);
    proof {
        lemma_fields_nonempty(s@, COLON);
    }
    let n = ranges.len() - 1;
    let mut groups: Vec<u16> = Vec::new();
    let mut k: usize = 0;
    while k < n
        invariant
            k <= n == f.len() - 1,
            f == fields(s@, COLON),
            ranges@.len() == f.len(),
            forall|j: int|
                0 <= j < ranges@.len() ==> {
                    &&& ranges@[j].0 <= ranges@[j].1 <= s@.len()
                    &&& f[j] == s@.subrange((#[trigger] ranges@[j]).0 as int, ranges@[j].1 as int)
                },
            groups@.len() == k,
            forall|j: int| 0 <= j < k ==> group_of(#[trigger] f[j]) == Some(groups@[j]),
        decreases n - k,
    {
        match parse_group(slice_subrange(s, ranges[k].0, ranges[k].1)) {
            Some(g) => {
                groups.push(g);
            },
            None => {
                assert(group_of(f[k as int]) is None);
                return None;
            },
        }
        k = k + 1;
    }
    let ghost front = Seq::new(n as nat, |i: int| group_of(f[i]).unwrap());
    assert(groups@ =~= front);
    let last = slice_subrange(s, ranges[n].0, ranges[n].1);
    match parse_group(last) {
        Some(g) => {
            groups.push(g);
            Some(groups)
        },
        None => {
            if !dotted_tail {
                return None;
            }
            match parse_ipv4(last) {
                Some((a, b, c, d)) => {
                    groups.push(a as u16 * 256 + b as u16);
                    groups.push(c as u16 * 256 + d as u16);
                    Some(groups)
                },
                None => None,
            }
        },
    }
}

/// No `::` starts before `at`, and one starts at `at` unless `at` is the
/// length of the text: then `at` is where `double_colon` points.
proof fn lemma_double_colon(s: Seq<u8>, at: int)
    requires
        0 <= at <= s.len(),
        forall|j: int| 0 <= j < at && j + 1 < s.len() ==> !(s[j] == COLON && #[trigger] s[j + 1] == COLON),
        at == s.len() || (at + 1 < s.len() && s[at] == COLON && s[at + 1] == COLON),
    ensures
        double_colon(s) == at,
    decreases at,
{
    if at > 0 && s.len() >= 2 {
        let rest = s.skip(1);
        assert(!(s[0] == COLON && s[0int + 1] == COLON));
        assert forall|j: int| 0 <= j < at - 1 && j + 1 < rest.len() implies !(rest[j] == COLON
            && #[trigger] rest[j + 1] == COLON) by {
            assert(rest[j] == s[j + 1]);
            assert(rest[j + 1] == s[(j + 1) + 1]);
        }
        lemma_double_colon(rest, at - 1);
    }
}

/// Finds the first `::`.
pub fn find_double_colon(s: &[u8]) -> (at: usize)
    ensures
        at == double_colon(s@),
        at == s@.len() || at + 2 <= s@.len(),
{
    let n = s.len();
    let mut i: usize = 0;
    while n - i >= 2
        invariant
            i <= n == s@.len(),
            forall|j: int| 0 <= j < i && j + 1 < s@.len() ==> !(s@[j] == COLON && #[trigger] s@[j + 1] == COLON),
        decreases n - i,
    {
        if s[i] == COLON && s[i + 1] == COLON {
            proof {
                lemma_double_colon(s@, i as int);
            }
            return i;
        }
        i = i + 1;
    }
    proof {
        lemma_double_colon(s@, n as int);
    }
    n
}

/// Reads an IPv6 text.
pub fn parse_ipv6(s: &[u8]) -> (r: Option<Vec<u16>>)
    ensures
        match r {
            Some(groups) => ipv6_of(s@) == Some(groups@),
            None => ipv6_of(s@) is None,
        },
{
    let n = s.len();
    let at = find_double_colon(s);
    if at >= n {
        return match parse_groups(s, true) {
            Some(groups) => if groups.len() == 8 {
                Some(groups)
            } else {
                None
            },
            None => None,
        };
    }
    let mut groups: Vec<u16> = if at == 0 {
        Vec::new()
    } else {
        assert(s@.subrange(0, at as int) =~= s@.take(at as int));
        match parse_groups(slice_subrange(s, 0, at), false) {
            Some(head) => head,
            None => {
                return None;
            },
        }
    };
    let tail: Vec<u16> = if at + 2 == n {
        Vec::new()
    } else {
        assert(s@.subrange(at + 2, n as int) =~= s@.skip(at + 2));
        match parse_groups(slice_subrange(s, at + 2, n), true) {
            Some(tail) => tail,
            None => {
                return None;
            },
        }
    };
    if groups.len() > 7 || tail.len() > 7 - groups.len() {
        return None;
    }
    let ghost head = groups@;
    let gap = 8 - groups.len() - tail.len();
    let mut filled: usize = 0;
    while filled < gap
        invariant
            filled <= gap,
            head.len() + gap + tail@.len() == 8,
            groups@ == head + Seq::new(filled as nat, |i: int| 0u16),
        decreases gap - filled,
    {
        groups.push(0);
        filled = filled + 1;
        assert(groups@ =~= head + Seq::new(filled as nat, |i: int| 0u16));
    }
    let ghost padded = groups@;
    let mut k: usize = 0;
    while k < tail.len()
        invariant
            k <= tail@.len(),
            groups@ == padded + tail@.take(k as int),
        decreases tail@.len() - k,
    {
        groups.push(tail[k]);
        k = k + 1;
        assert(groups@ =~= padded + tail@.take(k as int));
    }
    assert(tail@.take(k as int) =~= tail@);
    Some(groups)
}

/// Every byte of a text that is not a separator stands in one of its fields.
proof fn lemma_fields_cover(s: Seq<u8>, sep: u8, i: int)
    requires
        0 <= i < s.len(),
        s[i] != sep,
    ensures
        exists|k: int, j: int|
            0 <= k < fields(s, sep).len() && 0 <= j < fields(s, sep)[k].len() && #[trigger] fields(
                s,
                sep,
            )[k][j] == s[i],
    decreases s.len(),
{
    let front = s.drop_last();
    let before = fields(front, sep);
    lemma_fields_nonempty(front, sep);
    if i == s.len() - 1 {
        let k = before.len() - 1;
        let j = before.last().len() as int;
        assert(fields(s, sep)[k][j] == s[i]);
    } else {
        lemma_fields_cover(front, sep, i);
        let (k, j) = choose|k: int, j: int|
            0 <= k < before.len() && 0 <= j < before[k].len() && #[trigger] before[k][j]
                == front[i];
        assert(fields(s, sep)[k][j] == s[i]);
    }
}

/// A text without a separator is its own single field.
proof fn lemma_one_field(s: Seq<u8>, sep: u8)
    requires
        forall|i: int| 0 <= i < s.len() ==> s[i] != sep,
    ensures
        fields(s, sep) == seq![s],
    decreases s.len(),
{
    if s.len() == 0 {
        assert(s =~= Seq::<u8>::empty());
    } else {
        lemma_one_field(s.drop_last(), sep);
        assert(s.last() != sep);
        assert(s.drop_last().push(s.last()) =~= s);
        assert(fields(s, sep) =~= seq![s]);
    }
}

/// No text writes both an IPv4 and an IPv6 address, so the family of the
/// address that a text writes does not depend on which is tried first.
pub proof fn law_families_are_disjoint(s: Seq<u8>)
    ensures
        !(ipv4_of(s) is Some && ipv6_of(s) is Some),
{
    if ipv4_of(s) is Some {
        let f = fields(s, DOT);
        assert forall|i: int| 0 <= i < s.len() implies s[i] != COLON by {
            if s[i] != DOT {
                lemma_fields_cover(s, DOT, i);
                let (k, j) = choose|k: int, j: int|
                    0 <= k < f.len() && 0 <= j < f[k].len() && #[trigger] f[k][j] == s[i];
                assert(octet_of(f[k]) is Some);
                assert(decimal_digit(f[k][j]) is Some);
            }
        }
        lemma_double_colon(s, s.len() as int);
        lemma_one_field(s, COLON);
        assert(groups_of(s, true) matches Some(g) ==> g.len() <= 2);
    }
}

impl IpAddress {
    /// Reads an address from the bytes of its text.
    pub fn parse_bytes(text: &[u8]) -> (r: Option<IpAddress>)
        ensures
            r == address_of(text@),
    {
        match parse_ipv4(text) {
            Some((a, b, c, d)) => Some(IpAddress::V4(a, b, c, d)),
            None => match parse_ipv6(text) {
                Some(g) => Some(IpAddress::V6(g[0], g[1], g[2], g[3], g[4], g[5], g[6], g[7])),
                None => None,
            },
        }
    }

    /// Reads an address from its text.
    pub fn parse(text: &str) -> (r: Option<IpAddress>)
        ensures
            r == address_of(text.spec_bytes()),
    {
        IpAddress::parse_bytes(text.as_bytes())
    }
}

} // verus!
