//! The settings of the relay.
//!
//! A setting can be given on the command line or in the environment; the
//! command line wins. What is given as text is read here.

use vstd::prelude::*;
use vstd::utf8::*;
use crate::reply::IceServer;
use crate::text::{split, split_on, texts_of};

verus! {

/// The port on which the relay listens where none is given.
pub const DEFAULT_PORT: u16 = 8080;

/// The number that a run of decimal digits stands for; `None` for an
/// empty run and for one that holds anything but the digits `0` to `9`.
pub open spec fn decimal_value(digits: Seq<char>) -> Option<nat>
    decreases digits.len(),
{
    if digits.len() == 0 {
        None
    } else if !('0' <= digits.last() <= '9') {
        None
    } else if digits.len() == 1 {
        Some((digits.last() as u32 - '0' as u32) as nat)
    } else {
        match decimal_value(digits.drop_last()) {
            Some(high) => Some(high * 10 + (digits.last() as u32 - '0' as u32) as nat),
            None => None,
        }
    }
}

/// A text without the `+` that may stand at its front.
pub open spec fn without_sign(text: Seq<char>) -> Seq<char> {
    if text.len() > 0 && text[0] == '+' {
        text.skip(1)
    } else {
        text
    }
}

/// The port that a text names: decimal digits, with a `+` before them at
/// will, that stand for a number up to 65535. Anything else, spaces
/// included, names no port.
pub open spec fn port_value(text: Seq<char>) -> Option<u16> {
    match decimal_value(without_sign(text)) {
        Some(value) => if value <= u16::MAX {
            Some(value as u16)
        } else {
            None
        },
        None => None,
    }
}

/// A run of digits that stands for a number, with digits behind it,
/// stands for at least that number.
proof fn lemma_decimal_value_grows(digits: Seq<char>, count: int)
    requires
        0 < count <= digits.len(),
        decimal_value(digits) is Some,
    ensures
        decimal_value(digits.take(count)) is Some,
        decimal_value(digits.take(count)).unwrap() <= decimal_value(digits).unwrap(),
    decreases digits.len(),
{
    if count < digits.len() {
        assert(digits.drop_last().take(count) =~= digits.take(count));
        lemma_decimal_value_grows(digits.drop_last(), count);
    } else {
        assert(digits.take(count) =~= digits);
    }
}

/// A run of digits with anything else in it stands for no number.
proof fn lemma_decimal_value_needs_digits(digits: Seq<char>, at: int)
    requires
        0 <= at < digits.len(),
        !('0' <= digits[at] <= '9'),
    ensures
        decimal_value(digits) is None,
    decreases digits.len(),
{
    if at < digits.len() - 1 {
        lemma_decimal_value_needs_digits(digits.drop_last(), at);
    }
}

/// A text with a character beyond ASCII names no port.
proof fn lemma_port_is_ascii(text: Seq<char>)
    requires
        !is_ascii_chars(text),
    ensures
        port_value(text) is None,
{
    let at = choose|i: int| 0 <= i < text.len() && !('\0' <= #[trigger] text[i] <= '\u{7f}');
    let digits = without_sign(text);
    if text[0] == '+' {
        assert(digits[at - 1] == text[at]);
        lemma_decimal_value_needs_digits(digits, at - 1);
    } else {
        lemma_decimal_value_needs_digits(digits, at);
    }
}

/// Reads a port from a text.
pub fn parse_port(text: &str) -> (port: Option<u16>)
    ensures
        port == port_value(text@),
{
    if !text.is_ascii() {
        proof {
            lemma_port_is_ascii(text@);
        }
        return None;
    }
    let bytes = text.as_bytes();
    proof {
        is_ascii_chars_encode_utf8(text@);
    }
    let start: usize = if bytes.len() > 0 && bytes[0] == 0x2b {
        1
    } else {
        0
    };
    let ghost digits = without_sign(text@);
    proof {
        assert(digits =~= text@.skip(start as int));
    }
    if start == bytes.len() {
        return None;
    }
    let mut value: u32 = 0;
    let mut i: usize = start;
    while i < bytes.len()
        invariant
            start <= i <= bytes.len(),
            start < bytes.len(),
            bytes@.len() == text@.len(),
            forall|k: int| 0 <= k < text@.len() ==> text@[k] as u8 == #[trigger] bytes@[k],
            is_ascii_chars(text@),
            digits == without_sign(text@),
            digits == text@.skip(start as int),
            value <= u16::MAX,
            i > start ==> decimal_value(digits.take(i - start)) == Some(value as nat),
            i == start ==> value == 0,
        decreases bytes.len() - i,
    {
        let byte = bytes[i];
        proof {
            assert(text@[i as int] as u8 == byte);
            assert(digits[i - start] == text@[i as int]);
        }
        if byte < 0x30 || byte > 0x39 {
            proof {
                lemma_decimal_value_needs_digits(digits, i - start);
            }
            return None;
        }
        let next: u32 = value * 10 + (byte - 0x30) as u32;
        proof {
            let longer = digits.take(i - start + 1);
            assert(longer.drop_last() =~= digits.take(i - start));
            assert(longer.last() == text@[i as int]);
            assert(decimal_value(longer) == Some(next as nat));
        }
        if next > 0xffff {
            proof {
                if decimal_value(digits) is Some {
                    lemma_decimal_value_grows(digits, i - start + 1);
                }
            }
            return None;
        }
        value = next;
        i += 1;
    }
    proof {
        assert(digits.take(bytes@.len() - start) =~= digits);
    }
    Some(value as u16)
}

/// The port on which the relay listens: the one given on the command
/// line; else the one that the environment names, if it names one; else
/// 8080.
pub open spec fn chosen_port(flag: Option<u16>, environment: Option<Seq<char>>) -> u16 {
    match flag {
        Some(port) => port,
        None => match environment {
            Some(text) => match port_value(text) {
                Some(port) => port,
                None => DEFAULT_PORT,
            },
            None => DEFAULT_PORT,
        },
    }
}

/// The characters of a text that may be missing.
pub open spec fn text_of_option(text: Option<&str>) -> Option<Seq<char>> {
    match text {
        Some(text) => Some(text@),
        None => None,
    }
}

/// Settles the port on which the relay listens.
pub fn resolve_port(flag: Option<u16>, environment: Option<&str>) -> (port: u16)
    ensures
        port == chosen_port(flag, text_of_option(environment)),
{
    match flag {
        Some(port) => port,
        None => match environment {
            Some(text) => match parse_port(text) {
                Some(port) => port,
                None => DEFAULT_PORT,
            },
            None => DEFAULT_PORT,
        },
    }
}

/// The single UDP port over which all ICE traffic runs, if there is to be
/// one: the one given on the command line; else the one that the
/// environment names, if it names one.
pub open spec fn chosen_udp_mux_port(flag: Option<u16>, environment: Option<Seq<char>>) -> Option<
    u16,
> {
    match flag {
        Some(port) => Some(port),
        None => match environment {
            Some(text) => port_value(text),
            None => None,
        },
    }
}

/// Settles whether all ICE traffic runs over a single UDP port, and over
/// which.
pub fn resolve_udp_mux_port(flag: Option<u16>, environment: Option<&str>) -> (port: Option<u16>)
    ensures
        port == chosen_udp_mux_port(flag, text_of_option(environment)),
{
    match flag {
        Some(port) => Some(port),
        None => match environment {
            Some(text) => parse_port(text),
            None => None,
        },
    }
}

/// The test that picks the entries of a list that are not empty.
pub open spec fn is_filled() -> spec_fn(Seq<char>) -> bool {
    |entry: Seq<char>| entry.len() > 0
}

/// The addresses that a list names: what stands between its commas,
/// without the entries that are empty.
pub open spec fn listed_addresses(list: Seq<char>) -> Seq<Seq<char>> {
    split_on(list, ","@).filter(is_filled())
}

/// Reads a list of addresses separated by commas.
pub fn parse_address_list<'a>(list: &'a str) -> (addresses: Vec<&'a str>)
    ensures
        texts_of(addresses@) == listed_addresses(list@),
{
    let entries = split(list, ",");
    let ghost all = texts_of(entries@);
    let mut addresses: Vec<&'a str> = Vec::new();
    let mut i: usize = 0;
    proof {
        reveal(Seq::filter);
        assert(all.take(0).filter(is_filled()) =~= Seq::<Seq<char>>::empty());
        assert(texts_of(addresses@) =~= all.take(0).filter(is_filled()));
    }
    while i < entries.len()
        invariant
            i <= entries.len(),
            all == texts_of(entries@),
            texts_of(addresses@) == all.take(i as int).filter(is_filled()),
        decreases entries.len() - i,
    {
        let entry: &'a str = entries[i];
        proof {
            reveal(Seq::filter);
            let kept = all.take(i as int).filter(is_filled());
            assert(all.take(i + 1).drop_last() =~= all.take(i as int));
            assert(all.take(i + 1).last() == entry@);
            assert(all.take(i + 1).filter(is_filled()) == if entry@.len() > 0 {
                kept.push(entry@)
            } else {
                kept
            });
        }
        if entry.as_bytes().len() != 0 {
            proof {
                assert(texts_of(addresses@.push(entry)) =~= texts_of(addresses@).push(
                    entry@,
                ));
            }
            addresses.push(entry);
        }
        i += 1;
    }
    proof {
        assert(all.take(entries@.len() as int) =~= all);
    }
    addresses
}

/// The outer addresses that the relay announces in place of its own: those
/// of the list given on the command line, unless that is missing or empty;
/// else those of the list that the environment holds. No list, and a list
/// that names no address, announce none.
pub open spec fn chosen_nat_addresses(flag: Option<Seq<char>>, environment: Option<Seq<char>>) -> Seq<
    Seq<char>,
> {
    let list = match flag {
        Some(text) => if text.len() > 0 {
            flag
        } else {
            environment
        },
        None => environment,
    };
    match list {
        Some(text) => listed_addresses(text),
        None => Seq::empty(),
    }
}

/// Settles the outer addresses that the relay announces in place of its
/// own.
pub fn resolve_nat_addresses<'a>(flag: Option<&'a str>, environment: Option<&'a str>) -> (addresses:
    Vec<&'a str>)
    ensures
        texts_of(addresses@) == chosen_nat_addresses(
            text_of_option(flag),
            text_of_option(environment),
        ),
{
    let list = match flag {
        Some(text) => if text.as_bytes().len() != 0 {
            flag
        } else {
            environment
        },
        None => environment,
    };
    match list {
        Some(text) => parse_address_list(text),
        None => {
            let none: Vec<&'a str> = Vec::new();
            proof {
                assert(texts_of(none@) =~= Seq::<Seq<char>>::empty());
            }
            none
        },
    }
}

/// The ICE servers that the relay uses and advertises: one STUN server.
pub fn default_ice_servers() -> (servers: Vec<IceServer>)
    ensures
        servers@.len() == 1,
        servers@[0].urls@.len() == 1,
        servers@[0].urls@[0]@ == "stun:stun.l.google.com:19302"@,
{
    let mut urls: Vec<String> = Vec::new();
    urls.push("stun:stun.l.google.com:19302".to_owned());
    let mut servers: Vec<IceServer> = Vec::new();
    servers.push(IceServer { urls });
    servers
}

} // verus!
