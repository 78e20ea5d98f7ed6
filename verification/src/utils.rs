//! Text: reading UTF-8 from bytes, and writing numbers and IPv4
//! addresses.

use vstd::prelude::*;
use vstd::string::{StringExecFns, StringSliceAdditionalSpecFns};
use vstd::utf8::valid_utf8;

verus! {

/// Calls `core::str::from_utf8`, which hands the bytes back as a string
/// slice exactly when they are valid UTF-8.
#[verifier::external_body]
pub(crate) fn utf8_str(bytes: &[u8]) -> (s: Option<&str>)
    ensures
        s is Some <==> valid_utf8(bytes@),
        s matches Some(text) ==> text.spec_bytes() == bytes@,
{
    match core::str::from_utf8(bytes) {
        Ok(text) => Some(text),
        Err(_) => None,
    }
}

/// The character of the decimal digit `d`.
pub open spec fn digit_char(d: nat) -> char {
    if d == 0 {
        '0'
    } else if d == 1 {
        '1'
    } else if d == 2 {
        '2'
    } else if d == 3 {
        '3'
    } else if d == 4 {
        '4'
    } else if d == 5 {
        '5'
    } else if d == 6 {
        '6'
    } else if d == 7 {
        '7'
    } else if d == 8 {
        '8'
    } else {
        '9'
    }
}

/// `n` written in decimal, without leading zeros.
pub open spec fn decimal(n: nat) -> Seq<char>
    decreases n,
{
    if n < 10 {
        seq![digit_char(n)]
    } else {
        decimal(n / 10) + seq![digit_char(n % 10)]
    }
}

/// Four numbers written in decimal and joined by dots.
pub open spec fn dotted(a: nat, b: nat, c: nat, d: nat) -> Seq<char> {
    decimal(a) + seq!['.'] + decimal(b) + seq!['.'] + decimal(c) + seq!['.'] + decimal(d)
}

/// The text of the decimal digit `d`.
fn digit_str(d: u32) -> (s: &'static str)
    requires
        d < 10,
    ensures
        s@ == seq![digit_char(d as nat)],
{
    if d == 0 {
        proof { reveal_strlit("0"); }
        "0"
    } else if d == 1 {
        proof { reveal_strlit("1"); }
        "1"
    } else if d == 2 {
        proof { reveal_strlit("2"); }
        "2"
    } else if d == 3 {
        proof { reveal_strlit("3"); }
        "3"
    } else if d == 4 {
        proof { reveal_strlit("4"); }
        "4"
    } else if d == 5 {
        proof { reveal_strlit("5"); }
        "5"
    } else if d == 6 {
        proof { reveal_strlit("6"); }
        "6"
    } else if d == 7 {
        proof { reveal_strlit("7"); }
        "7"
    } else if d == 8 {
        proof { reveal_strlit("8"); }
        "8"
    } else {
        proof { reveal_strlit("9"); }
        "9"
    }
}

/// Appends `n` in decimal to `out`.
pub fn push_decimal(out: &mut String, n: u32)
    ensures
        final(out)@ == old(out)@ + decimal(n as nat),
    decreases n,
{
    if n >= 10 {
        push_decimal(out, n / 10);
    }
    out.append(digit_str(n % 10));
}

/// Appends a dot to `out`.
fn push_dot(out: &mut String)
    ensures
        final(out)@ == old(out)@ + seq!['.'],
{
    proof { reveal_strlit("."); }
    out.append(".");
}

/// The four numbers written in decimal and joined by dots.
pub fn dotted_quad(a: u32, b: u32, c: u32, d: u32) -> (s: String)
    ensures
        s@ == dotted(a as nat, b as nat, c as nat, d as nat),
{
    let mut s = String::new();
    push_decimal(&mut s, a);
    push_dot(&mut s);
    push_decimal(&mut s, b);
    push_dot(&mut s);
    push_decimal(&mut s, c);
    push_dot(&mut s);
    push_decimal(&mut s, d);
    proof {
        assert(s@ =~= dotted(a as nat, b as nat, c as nat, d as nat));
    }
    s
}

/// An address held in network byte order on a little-endian host, written
/// as a dotted quad: its lowest byte, which came first on the wire, first.
pub fn ipv4_addr(addr: u32) -> (s: String)
    ensures
        s@ == dotted(
            (addr % 256) as nat,
            (addr / 256 % 256) as nat,
            (addr / 65536 % 256) as nat,
            (addr / 16777216) as nat,
        ),
{
    dotted_quad(addr % 256, addr / 256 % 256, addr / 65536 % 256, addr / 16777216)
}

/// The number that a run of decimal digit characters spells, each character
/// standing for its code less 48 (the code of '0').
pub open spec fn spelled_number(chars: Seq<char>) -> int
    decreases chars.len(),
{
    if chars.len() == 0 {
        0
    } else {
        spelled_number(chars.drop_last()) * 10 + (chars.last() as int - 48)
    }
}

/// The digit characters are '0' to '9' in order: digit `d` has code 48 + d.
pub proof fn lemma_digit_codes(d: nat)
    requires
        d < 10,
    ensures
        digit_char(d) as int == 48 + d,
{
}

/// `decimal(n)` spells `n` in base 10: it is not empty, every character is
/// a decimal digit ('0' to '9', codes 48 to 57), it starts with '0' only
/// when `n` is 0, and reading its characters back as digits gives `n`.
pub proof fn lemma_decimal_spells(n: nat)
    ensures
        decimal(n).len() > 0,
        forall|i: int| 0 <= i < decimal(n).len() ==> 48 <= #[trigger] (decimal(n)[i] as int) <= 57,
        decimal(n)[0] as int == 48 ==> n == 0,
        spelled_number(decimal(n)) == n,
    decreases n,
{
    lemma_digit_codes(n % 10);
    if n < 10 {
        assert(decimal(n) == seq![digit_char(n)]);
        assert(decimal(n).drop_last() =~= Seq::<char>::empty());
        assert(spelled_number(decimal(n)) == spelled_number(Seq::<char>::empty()) * 10 + (digit_char(n) as int - 48));
    } else {
        let head = decimal(n / 10);
        lemma_decimal_spells(n / 10);
        assert(decimal(n) == head + seq![digit_char(n % 10)]);
        assert(decimal(n).drop_last() =~= head);
        assert(decimal(n)[0] == head[0]);
        assert(decimal(n).last() == digit_char(n % 10));
        assert((n / 10) * 10 + n % 10 == n) by (nonlinear_arith);
        assert(spelled_number(decimal(n)) == spelled_number(head) * 10 + (digit_char(n % 10) as int - 48));
        assert forall|i: int| 0 <= i < decimal(n).len() implies 48 <= #[trigger] (decimal(n)[i] as int) <= 57 by {
            if i < head.len() {
                assert(decimal(n)[i] == head[i]);
            }
        }
    }
}

} // verus!
