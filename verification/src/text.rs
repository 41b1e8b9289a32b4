//! Rendering of numbers and error messages as text.

use vstd::prelude::*;

verus! {

/// `String::push_str` appends the characters of its argument (std documentation).
pub assume_specification[ String::push_str ](s: &mut String, string: &str)
    ensures
        final(s)@ == old(s)@ + string@,
;

/// The character of a digit value below 16, as `{:x}` prints it.
pub open spec fn digit_char(d: nat) -> char {
    if d < 10 {
        (('0' as u32) + d) as char
    } else {
        (('a' as u32) + (d - 10)) as char
    }
}

/// Digits of `v` in base `b`, most significant first, without leading zeros.
pub open spec fn digits(v: nat, b: nat) -> Seq<char>
    decreases v,
{
    if b < 2 || v < b {
        seq![digit_char(v)]
    } else {
        proof {
            assert(v / b < v) by (nonlinear_arith)
                requires
                    b >= 2,
                    v >= b,
            ;
        }
        digits(v / b, b).push(digit_char(v % b))
    }
}

/// The text `{:#x}` gives for an unsigned value.
pub open spec fn hex_text_spec(v: nat) -> Seq<char> {
    seq!['0', 'x'] + digits(v, 16)
}

/// The text `{}` gives for an unsigned value.
pub open spec fn dec_text_spec(v: nat) -> Seq<char> {
    digits(v, 10)
}

/// The one-character text of digit `d`.
fn digit_str(d: u64) -> (r: &'static str)
    requires
        d < 16,
    ensures
        r@ == seq![digit_char(d as nat)],
{
    proof {
        reveal_strlit("0");
        reveal_strlit("1");
        reveal_strlit("2");
        reveal_strlit("3");
        reveal_strlit("4");
        reveal_strlit("5");
        reveal_strlit("6");
        reveal_strlit("7");
        reveal_strlit("8");
        reveal_strlit("9");
        reveal_strlit("a");
        reveal_strlit("b");
        reveal_strlit("c");
        reveal_strlit("d");
        reveal_strlit("e");
        reveal_strlit("f");
    }
    match d {
        0 => "0",
        1 => "1",
        2 => "2",
        3 => "3",
        4 => "4",
        5 => "5",
        6 => "6",
        7 => "7",
        8 => "8",
        9 => "9",
        10 => "a",
        11 => "b",
        12 => "c",
        13 => "d",
        14 => "e",
        _ => "f",
    }
}

/// Appends the digits of `v` in base `b`.
fn push_digits(s: &mut String, v: u64, b: u64)
    requires
        2 <= b <= 16,
    ensures
        final(s)@ == old(s)@ + digits(v as nat, b as nat),
    decreases v,
{
    if v < b {
        s.push_str(digit_str(v));
    } else {
        assert(v / b < v) by (nonlinear_arith)
            requires
                b >= 2,
                v >= b,
        ;
        push_digits(s, v / b, b);
        s.push_str(digit_str(v % b));
        assert(digits(v as nat, b as nat) == digits((v / b) as nat, b as nat).push(digit_char((v % b) as nat)));
    }
}

/// `v` as `format!("{:#x}")` renders it: `0x` then the lower-case hexadecimal digits.
pub fn hex_text(v: u64) -> (s: String)
    ensures
        s@ == hex_text_spec(v as nat),
{
    let mut s = String::new();
    proof { reveal_strlit("0x"); }
    s.push_str("0x");
    push_digits(&mut s, v, 16);
    s
}

/// `v` as `format!("{}")` renders it: its decimal digits.
pub fn dec_text(v: u64) -> (s: String)
    ensures
        s@ == dec_text_spec(v as nat),
{
    let mut s = String::new();
    push_digits(&mut s, v, 10);
    assert(s@ =~= dec_text_spec(v as nat));
    s
}

/// Concatenation of two texts.
pub fn concat(a: &str, b: &str) -> (s: String)
    ensures
        s@ == a@ + b@,
{
    let mut s = a.to_owned();
    s.push_str(b);
    s
}

} // verus!
