//! Addresses in display form: an IPv4 address as four decimal numbers
//! separated by dots.

use crate::event::{octets, u32_to_octets};
use vstd::prelude::*;

verus! {

/// The character of the decimal digit `d`: the digits follow one another
/// from `'0'`, whose code is 48.
pub open spec fn digit(d: int) -> char {
    (48 + d) as char
}

/// The decimal numeral of `n`, without leading zeros.
pub open spec fn decimal(n: nat) -> Seq<char>
    decreases n,
{
    if n < 10 {
        seq![digit(n as int)]
    } else {
        decimal(n / 10).push(digit((n % 10) as int))
    }
}

/// The display form of the IPv4 address `addr`, a number in host order: its
/// four bytes in decimal, most significant first, with dots between them.
pub open spec fn dotted(addr: u32) -> Seq<char> {
    decimal(octets(addr)[0] as nat) + seq!['.'] + decimal(octets(addr)[1] as nat) + seq!['.']
        + decimal(octets(addr)[2] as nat) + seq!['.'] + decimal(octets(addr)[3] as nat)
}

/// `String::push` of the standard library: the text gains `c` at its end.
#[verifier::external_body]
fn push_char(text: &mut String, c: char)
    ensures
        final(text)@ == old(text)@.push(c),
{
    text.push(c)
}

fn digit_char(d: u8) -> (c: char)
    requires
        d < 10,
    ensures
        c == digit(d as int),
{
    (48u8 + d) as char
}

fn push_decimal(text: &mut String, n: u8)
    ensures
        final(text)@ == old(text)@ + decimal(n as nat),
{
    proof {
        reveal_with_fuel(decimal, 3);
    }
    if n >= 100 {
        push_char(text, digit_char(n / 100));
    }
    if n >= 10 {
        push_char(text, digit_char((n / 10) % 10));
    }
    push_char(text, digit_char(n % 10));
    assert(text@ =~= old(text)@ + decimal(n as nat));
}

/// Renders an IPv4 address, a number in host order, in display form.
pub fn ipv4_text(addr: u32) -> (text: String)
    ensures
        text@ == dotted(addr),
{
    let b = u32_to_octets(addr);
    let mut text = String::new();
    push_decimal(&mut text, b[0]);
    push_char(&mut text, '.');
    push_decimal(&mut text, b[1]);
    push_char(&mut text, '.');
    push_decimal(&mut text, b[2]);
    push_char(&mut text, '.');
    push_decimal(&mut text, b[3]);
    assert(text@ =~= dotted(addr));
    text
}

} // verus!
