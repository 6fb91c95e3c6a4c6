//! Decimal numbers and addresses as ASCII text.

use vstd::prelude::*;
use vstd::slice::slice_subrange;
use crate::address::{be32, be32_bytes, PeerAddress};

verus! {

/// The ASCII digit for `d`, which is below ten.
pub open spec fn digit(d: nat) -> u8 {
    (48 + d) as u8
}

/// `n` in decimal, without leading zeros.
pub open spec fn decimal(n: nat) -> Seq<u8>
    decreases n,
{
    if n < 10 {
        seq![digit(n)]
    } else {
        decimal(n / 10).push(digit(n % 10))
    }
}

/// An IPv4 address in dotted decimal.
pub open spec fn dotted(ip: u32) -> Seq<u8> {
    decimal(be32_bytes(ip)[0] as nat) + seq![46u8] + decimal(be32_bytes(ip)[1] as nat) + seq![46u8]
        + decimal(be32_bytes(ip)[2] as nat) + seq![46u8] + decimal(be32_bytes(ip)[3] as nat)
}

/// A socket address as `a.b.c.d:port`.
pub open spec fn address_text(address: PeerAddress) -> Seq<u8> {
    dotted(address.ip) + seq![58u8] + decimal(address.port as nat)
}

/// Appends `value` in decimal to `out`.
pub fn push_decimal(out: &mut Vec<u8>, value: u32)
    ensures
        final(out)@ == old(out)@ + decimal(value as nat),
    decreases value,
{
    if value >= 10 {
        push_decimal(out, value / 10);
    }
    out.push(48 + (value % 10) as u8);
    assert(out@ =~= old(out)@ + decimal(value as nat));
}

/// Appends `ip` in dotted decimal to `out`.
pub fn push_dotted(out: &mut Vec<u8>, ip: u32)
    ensures
        final(out)@ == old(out)@ + dotted(ip),
{
    let octets = PeerAddress { ip, port: 0 }.octets();
    push_decimal(out, octets[0] as u32);
    out.push(46);
    push_decimal(out, octets[1] as u32);
    out.push(46);
    push_decimal(out, octets[2] as u32);
    out.push(46);
    push_decimal(out, octets[3] as u32);
    assert(out@ =~= old(out)@ + dotted(ip));
}

/// Appends `address` as `a.b.c.d:port` to `out`.
pub fn push_address(out: &mut Vec<u8>, address: PeerAddress)
    ensures
        final(out)@ == old(out)@ + address_text(address),
{
    push_dotted(out, address.ip);
    out.push(58);
    push_decimal(out, address.port as u32);
    assert(out@ =~= old(out)@ + address_text(address));
}

/// Whether `byte` is an ASCII decimal digit.
pub open spec fn is_digit(byte: u8) -> bool {
    48 <= byte <= 57
}

/// Whether `text` is made of decimal digits only.
pub open spec fn all_digits(text: Seq<u8>) -> bool {
    forall|i: int| 0 <= i < text.len() ==> is_digit(#[trigger] text[i])
}

/// The number that the decimal digits `digits` write.
pub open spec fn digits_value(digits: Seq<u8>) -> nat
    decreases digits.len(),
{
    if digits.len() == 0 {
        0
    } else {
        digits_value(digits.drop_last()) * 10 + (digits.last() - 48) as nat
    }
}

/// `text` without the one plus sign that may lead it.
pub open spec fn without_plus(text: Seq<u8>) -> Seq<u8> {
    if text.len() > 0 && text[0] == 43 {
        text.skip(1)
    } else {
        text
    }
}

/// The number of at most `max` that `text` writes in decimal, if it writes
/// one: at least one digit and nothing but digits. Leading zeros are in
/// order.
pub open spec fn parse_digits_text(text: Seq<u8>, max: nat) -> Option<nat> {
    if text.len() > 0 && all_digits(text) && digits_value(text) <= max {
        Some(digits_value(text))
    } else {
        None
    }
}

/// The 16-bit number that `text` writes in decimal, if it writes one: digits
/// as for `parse_digits_text`, behind an optional plus sign.
pub open spec fn parse_u16_text(text: Seq<u8>) -> Option<u16> {
    match parse_digits_text(without_plus(text), 0xffff) {
        Some(value) => Some(value as u16),
        None => None,
    }
}

/// More digits never write a smaller number.
pub proof fn lemma_digits_value_grows(digits: Seq<u8>, i: int)
    requires
        all_digits(digits),
        0 <= i <= digits.len(),
    ensures
        digits_value(digits.take(i)) <= digits_value(digits),
    decreases digits.len() - i,
{
    if i < digits.len() {
        lemma_digits_value_grows(digits, i + 1);
        assert(digits.take(i + 1).drop_last() =~= digits.take(i));
        assert(is_digit(digits.take(i + 1).last()));
    } else {
        assert(digits.take(i) =~= digits);
    }
}

/// Reads a decimal number of at most `max` from the whole of `text`.
pub fn parse_digits(text: &[u8], max: u32) -> (number: Option<u32>)
    requires
        max <= 0xff_ffff,
    ensures
        match number {
            Some(value) => parse_digits_text(text@, max as nat) == Some(value as nat),
            None => parse_digits_text(text@, max as nat) is None,
        },
{
    if text.len() == 0 {
        return None;
    }
    let mut value: u32 = 0;
    let mut i: usize = 0;
    while i < text.len()
        invariant
            i <= text.len(),
            max <= 0xff_ffff,
            all_digits(text@.take(i as int)),
            value == digits_value(text@.take(i as int)),
            value <= max,
        decreases text.len() - i,
    {
        let byte = text[i];
        if byte < 48 || byte > 57 {
            assert(!is_digit(text@[i as int]));
            return None;
        }
        proof {
            assert(text@.take(i + 1).drop_last() =~= text@.take(i as int));
            assert forall|k: int| 0 <= k < i + 1 implies is_digit(
                #[trigger] text@.take(i + 1)[k],
            ) by {
                if k < i {
                    assert(is_digit(text@.take(i as int)[k]));
                }
            }
        }
        value = value * 10 + (byte - 48) as u32;
        assert(value == digits_value(text@.take(i + 1)));
        if value > max {
            proof {
                if all_digits(text@) {
                    lemma_digits_value_grows(text@, i + 1);
                }
            }
            return None;
        }
        i += 1;
    }
    assert(text@.take(i as int) =~= text@);
    Some(value)
}

/// Reads a decimal 16-bit number from the whole of `text`.
pub fn parse_u16(text: &[u8]) -> (number: Option<u16>)
    ensures
        number == parse_u16_text(text@),
{
    let start: usize = if text.len() > 0 && text[0] == 43 {
        1
    } else {
        0
    };
    let digits = slice_subrange(text, start, text.len());
    assert(digits@ =~= without_plus(text@));
    match parse_digits(digits, 0xffff) {
        Some(value) => Some(value as u16),
        None => None,
    }
}

/// Writing and reading agree: a number written in decimal is digits only,
/// and reading them gives the number back.
pub proof fn lemma_decimal_reads_back(n: nat)
    ensures
        decimal(n).len() >= 1,
        all_digits(decimal(n)),
        digits_value(decimal(n)) == n,
        n <= 0xffff ==> parse_u16_text(decimal(n)) == Some(n as u16),
    decreases n,
{
    if n >= 10 {
        lemma_decimal_reads_back(n / 10);
        assert(decimal(n).drop_last() =~= decimal(n / 10));
        assert forall|i: int| 0 <= i < decimal(n).len() implies is_digit(
            #[trigger] decimal(n)[i],
        ) by {
            if i < decimal(n).len() - 1 {
                assert(decimal(n)[i] == decimal(n / 10)[i]);
            }
        }
    }
    if n < 10 {
        assert(decimal(n).drop_last() =~= Seq::<u8>::empty());
        assert(digits_value(decimal(n).drop_last()) == 0);
    }
    assert(decimal(n).last() == digit(n % 10));
    assert(digits_value(decimal(n)) == digits_value(decimal(n).drop_last()) * 10 + (n % 10));
    assert(is_digit(decimal(n)[0]));
    assert(without_plus(decimal(n)) == decimal(n));
}

/// The pieces of `text` between occurrences of `separator`, in order. There
/// is always at least one piece, and a piece may be empty.
pub open spec fn split(text: Seq<u8>, separator: u8) -> Seq<Seq<u8>>
    decreases text.len(),
{
    if text.len() == 0 {
        seq![Seq::empty()]
    } else {
        let before = split(text.drop_last(), separator);
        if text.last() == separator {
            before.push(Seq::empty())
        } else {
            before.drop_last().push(before.last().push(text.last()))
        }
    }
}

/// The parts of `text` that the index pairs `ranges` bound, in order.
pub open spec fn pieces_of(text: Seq<u8>, ranges: Seq<(usize, usize)>) -> Seq<Seq<u8>> {
    Seq::new(ranges.len(), |k: int| text.subrange(ranges[k].0 as int, ranges[k].1 as int))
}

/// Every pair bounds a part of a text of length `len`.
pub open spec fn ranges_within(ranges: Seq<(usize, usize)>, len: nat) -> bool {
    forall|k: int| 0 <= k < ranges.len() ==> (#[trigger] ranges[k]).0 <= ranges[k].1 <= len
}

/// Where the pieces of `text` between occurrences of `separator` begin and
/// end.
pub fn split_ranges(text: &[u8], separator: u8) -> (ranges: Vec<(usize, usize)>)
    ensures
        ranges_within(ranges@, text@.len()),
        pieces_of(text@, ranges@) == split(text@, separator),
{
    let mut ranges: Vec<(usize, usize)> = Vec::new();
    let mut start: usize = 0;
    let mut i: usize = 0;
    proof {
        assert(text@.take(0) =~= Seq::<u8>::empty());
        assert(split(text@.take(0), separator) =~~= pieces_of(text@, ranges@).push(
            text@.subrange(0, 0),
        ));
    }
    while i < text.len()
        invariant
            start <= i <= text.len(),
            ranges_within(ranges@, text@.len()),
            split(text@.take(i as int), separator) == pieces_of(text@, ranges@).push(
                text@.subrange(start as int, i as int),
            ),
        decreases text.len() - i,
    {
        let ghost done = pieces_of(text@, ranges@);
        let ghost open = text@.subrange(start as int, i as int);
        proof {
            assert(text@.take(i + 1).drop_last() =~= text@.take(i as int));
            assert(done.push(open).drop_last() =~= done);
        }
        if text[i] == separator {
            ranges.push((start, i));
            start = i + 1;
            proof {
                assert(pieces_of(text@, ranges@) =~= done.push(open));
                assert(text@.subrange(start as int, i + 1) =~= Seq::<u8>::empty());
            }
        } else {
            proof {
                assert(text@.subrange(start as int, i + 1) =~= open.push(text@[i as int]));
            }
        }
        i += 1;
    }
    proof {
        assert(text@.take(i as int) =~= text@);
    }
    let ghost done = pieces_of(text@, ranges@);
    ranges.push((start, i));
    assert(pieces_of(text@, ranges@) =~= done.push(text@.subrange(start as int, i as int)));
    ranges
}

/// `pieces` with `separator` between each two.
pub open spec fn join(pieces: Seq<Seq<u8>>, separator: u8) -> Seq<u8>
    decreases pieces.len(),
{
    if pieces.len() == 0 {
        Seq::empty()
    } else if pieces.len() == 1 {
        pieces[0]
    } else {
        join(pieces.drop_last(), separator) + seq![separator] + pieces.last()
    }
}

/// Splitting loses nothing and leaves no separator behind: the pieces of a
/// text, joined by the separator, are the text, and no piece holds the
/// separator.
pub proof fn lemma_split_is_inverse_of_join(text: Seq<u8>, separator: u8)
    ensures
        split(text, separator).len() >= 1,
        join(split(text, separator), separator) == text,
        forall|k: int, i: int|
            0 <= k < split(text, separator).len() && 0 <= i < split(text, separator)[k].len()
                ==> #[trigger] split(text, separator)[k][i] != separator,
    decreases text.len(),
{
    let pieces = split(text, separator);
    if text.len() == 0 {
        assert(join(pieces, separator) =~= text);
    } else {
        let before = split(text.drop_last(), separator);
        lemma_split_is_inverse_of_join(text.drop_last(), separator);
        if text.last() == separator {
            assert(pieces.drop_last() =~= before);
            assert(join(pieces, separator) =~= text.drop_last().push(separator));
        } else {
            let grown = before.last().push(text.last());
            if before.len() == 1 {
                assert(pieces[0] == grown);
                assert(join(pieces, separator) =~= text.drop_last().push(text.last()));
            } else {
                assert(pieces.drop_last() =~= before.drop_last());
                assert(join(pieces, separator) =~= (join(before.drop_last(), separator)
                    + seq![separator] + before.last()).push(text.last()));
            }
            assert forall|k: int, i: int|
                0 <= k < pieces.len() && 0 <= i < pieces[k].len() implies #[trigger] pieces[k][i]
                != separator by {
                if k < pieces.len() - 1 {
                    assert(pieces[k][i] == before[k][i]);
                } else if i < before.last().len() {
                    assert(pieces[k][i] == before[k][i]);
                }
            }
        }
        assert(text.drop_last().push(text.last()) =~= text);
    }
}

/// The octet that `text` writes in an IPv4 address, if it writes one: one to
/// three digits, no zero before another digit, and at most 255.
pub open spec fn parse_octet_text(text: Seq<u8>) -> Option<u8> {
    if text.len() <= 3 && !(text.len() > 1 && text[0] == 48) {
        match parse_digits_text(text, 255) {
            Some(value) => Some(value as u8),
            None => None,
        }
    } else {
        None
    }
}

/// The IPv4 address that `text` writes in dotted decimal, if it writes one:
/// four octets with a dot between each two.
pub open spec fn parse_ipv4_text(text: Seq<u8>) -> Option<u32> {
    let parts = split(text, 46);
    if parts.len() == 4 && parse_octet_text(parts[0]) is Some && parse_octet_text(parts[1]) is Some
        && parse_octet_text(parts[2]) is Some && parse_octet_text(parts[3]) is Some {
        Some(
            be32(
                parse_octet_text(parts[0]).unwrap(),
                parse_octet_text(parts[1]).unwrap(),
                parse_octet_text(parts[2]).unwrap(),
                parse_octet_text(parts[3]).unwrap(),
            ),
        )
    } else {
        None
    }
}

/// The socket address that `text` writes as `a.b.c.d:port`, if it writes
/// one. The port is digits only and at most 65535.
pub open spec fn parse_address_text(text: Seq<u8>) -> Option<PeerAddress> {
    let parts = split(text, 58);
    if parts.len() == 2 && parse_ipv4_text(parts[0]) is Some && parse_digits_text(
        parts[1],
        0xffff,
    ) is Some {
        Some(
            PeerAddress {
                ip: parse_ipv4_text(parts[0]).unwrap(),
                port: parse_digits_text(parts[1], 0xffff).unwrap() as u16,
            },
        )
    } else {
        None
    }
}

/// Reads one octet of a dotted address from the whole of `text`.
pub fn parse_octet(text: &[u8]) -> (octet: Option<u8>)
    ensures
        octet == parse_octet_text(text@),
{
    if text.len() > 3 || (text.len() > 1 && text[0] == 48) {
        return None;
    }
    match parse_digits(text, 255) {
        Some(value) => Some(value as u8),
        None => None,
    }
}

/// Reads an IPv4 address in dotted decimal from the whole of `text`.
pub fn parse_ipv4(text: &[u8]) -> (ip: Option<u32>)
    ensures
        ip == parse_ipv4_text(text@),
{
    let ranges = split_ranges(text, 46);
    if ranges.len() != 4 {
        return None;
    }
    let ghost parts = split(text@, 46);
    let mut octets: [u8; 4] = [0, 0, 0, 0];
    let mut k: usize = 0;
    while k < 4
        invariant
            k <= 4,
            ranges@.len() == 4,
            ranges_within(ranges@, text@.len()),
            parts == pieces_of(text@, ranges@),
            parts == split(text@, 46),
            forall|j: int| 0 <= j < k ==> parse_octet_text(#[trigger] parts[j]) == Some(octets@[j]),
        decreases 4 - k,
    {
        let range = ranges[k];
        let part = slice_subrange(text, range.0, range.1);
        assert(part@ == parts[k as int]);
        match parse_octet(part) {
            Some(octet) => {
                octets[k] = octet;
            },
            None => {
                return None;
            },
        }
        k += 1;
    }
    Some(PeerAddress::from_octets(octets, 0).ip)
}

/// Reads a socket address written as `a.b.c.d:port` from the whole of
/// `text`.
pub fn parse_address(text: &[u8]) -> (address: Option<PeerAddress>)
    ensures
        address == parse_address_text(text@),
{
    let ranges = split_ranges(text, 58);
    if ranges.len() != 2 {
        return None;
    }
    let ghost parts = split(text@, 58);
    let first = ranges[0];
    let second = ranges[1];
    let ip_text = slice_subrange(text, first.0, first.1);
    let port_text = slice_subrange(text, second.0, second.1);
    assert(ip_text@ == parts[0]);
    assert(port_text@ == parts[1]);
    let ip = match parse_ipv4(ip_text) {
        Some(ip) => ip,
        None => {
            return None;
        },
    };
    match parse_digits(port_text, 0xffff) {
        Some(port) => Some(PeerAddress { ip, port: port as u16 }),
        None => None,
    }
}

} // verus!
