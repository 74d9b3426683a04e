//! Decimal and hexadecimal renderings of numbers, for messages.
use vstd::prelude::*;

verus! {

/// The four lowercase hex digits of `v`.
pub open spec fn spec_hex4(v: u16) -> Seq<char> {
    seq![hex_digit((v / 4096) as int), hex_digit(((v / 256) % 16) as int), hex_digit(((v / 16) % 16) as int), hex_digit((v % 16) as int)]
}

/// A lowercase hex digit.
pub open spec fn hex_digit(d: int) -> char {
    if d < 10 {
        ((d + 48) as u8) as char
    } else {
        ((d + 87) as u8) as char
    }
}

pub fn digit_str(d: u16) -> (res: &'static str)
    requires
        d < 16,
    ensures
        res@ == seq![hex_digit(d as int)],
{
    proof {
        reveal_strlit("0");
        reveal_strlit("1");
        reveal_strlit("2");
        reveal_strlit("3");
        reveal_strlit("4");
        reveal_strlit("5");
        reveal_strlit("6");
        reveal_strlit("7");
        reveal_strlit("8");
        reveal_strlit("9");
        reveal_strlit("a");
        reveal_strlit("b");
        reveal_strlit("c");
        reveal_strlit("d");
        reveal_strlit("e");
        reveal_strlit("f");
    }
    match d {
        0 => "0",
        1 => "1",
        2 => "2",
        3 => "3",
        4 => "4",
        5 => "5",
        6 => "6",
        7 => "7",
        8 => "8",
        9 => "9",
        10 => "a",
        11 => "b",
        12 => "c",
        13 => "d",
        14 => "e",
        _ => "f",
    }
}

/// `v` as `{:04x}` prints it.
pub fn hex4(v: u16) -> (res: String)
    ensures
        res@ == spec_hex4(v),
{
    let s = String::from_str(digit_str(v / 4096));
    let s = s.concat(digit_str((v / 256) % 16));
    let s = s.concat(digit_str((v / 16) % 16));
    let s = s.concat(digit_str(v % 16));
    assert(s@ =~= spec_hex4(v));
    s
}

/// The decimal digits of `n`, as `{}` prints it.
pub open spec fn spec_decimal(n: nat) -> Seq<char>
    decreases n,
{
    if n < 10 {
        seq![hex_digit(n as int)]
    } else {
        spec_decimal(n / 10) + seq![hex_digit((n % 10) as int)]
    }
}

/// `n` in decimal, as `{}` prints it.
pub fn decimal(n: u128) -> (res: String)
    ensures
        res@ == spec_decimal(n as nat),
    decreases n,
{
    if n < 10 {
        String::from_str(digit_str(n as u16))
    } else {
        let s = decimal(n / 10);
        s.concat(digit_str((n % 10) as u16))
    }
}

} // verus!
