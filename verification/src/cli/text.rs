//! Text produced from numbers: decimal and hexadecimal renderings, stated as
//! character sequences, the text that spells them, and the labels built
//! around them.
use vstd::prelude::*;

verus! {

/// The ASCII character of decimal digit `d` (`d < 10`).
pub open spec fn digit_char(d: nat) -> char {
    (d + 48) as char
}

/// `n` written in decimal without leading zeros.
pub open spec fn decimal(n: nat) -> Seq<char>
    decreases n,
{
    if n < 10 {
        seq![digit_char(n)]
    } else {
        decimal(n / 10).push(digit_char(n % 10))
    }
}

/// Different numbers are written differently.
pub proof fn lemma_decimal_injective(a: nat, b: nat)
    requires
        a != b,
    ensures
        decimal(a) != decimal(b),
    decreases a + b,
{
    lemma_decimal_len(a);
    lemma_decimal_len(b);
    if a >= 10 && b >= 10 {
        if a % 10 != b % 10 {
            assert(decimal(a).last() != decimal(b).last());
        } else {
            assert(a / 10 != b / 10);
            lemma_decimal_injective(a / 10, b / 10);
            if decimal(a) == decimal(b) {
                assert(decimal(a).drop_last() =~= decimal(a / 10));
                assert(decimal(b).drop_last() =~= decimal(b / 10));
            }
        }
    } else if a < 10 && b < 10 {
        assert(decimal(a)[0] != decimal(b)[0]);
    }
}

/// A decimal rendering has a digit, and two or more from 10 on.
pub proof fn lemma_decimal_len(n: nat)
    ensures
        decimal(n).len() >= 1,
        n >= 10 ==> decimal(n).len() >= 2,
    decreases n,
{
    if n >= 10 {
        lemma_decimal_len(n / 10);
    }
}

/// Upper-case hexadecimal digit of `d` (`d < 16`).
pub open spec fn hex_upper(d: nat) -> char {
    if d < 10 { (d + 48) as char } else { (d + 55) as char }
}

/// Lower-case hexadecimal digit of `d` (`d < 16`).
pub open spec fn hex_lower(d: nat) -> char {
    if d < 10 { (d + 48) as char } else { (d + 87) as char }
}

/// A byte as two upper-case hexadecimal digits.
pub open spec fn byte_hex_upper(b: u8) -> Seq<char> {
    seq![hex_upper(b as nat / 16), hex_upper(b as nat % 16)]
}

/// A byte as two lower-case hexadecimal digits.
pub open spec fn byte_hex_lower(b: u8) -> Seq<char> {
    seq![hex_lower(b as nat / 16), hex_lower(b as nat % 16)]
}

fn decimal_digit(d: u8) -> (r: &'static str)
    requires
        d < 10,
    ensures
        r@ == seq![digit_char(d as nat)],
{
    proof {
        reveal_strlit("0");
        reveal_strlit("1");
        reveal_strlit("2");
        reveal_strlit("3");
        reveal_strlit("4");
        reveal_strlit("5");
        reveal_strlit("6");
        reveal_strlit("7");
        reveal_strlit("8");
        reveal_strlit("9");
    }
    match d {
        0 => "0",
        1 => "1",
        2 => "2",
        3 => "3",
        4 => "4",
        5 => "5",
        6 => "6",
        7 => "7",
        8 => "8",
        _ => "9",
    }
}

fn upper_hex_digit(d: u8) -> (r: &'static str)
    requires
        d < 16,
    ensures
        r@ == seq![hex_upper(d as nat)],
{
    proof {
        reveal_strlit("0");
        reveal_strlit("1");
        reveal_strlit("2");
        reveal_strlit("3");
        reveal_strlit("4");
        reveal_strlit("5");
        reveal_strlit("6");
        reveal_strlit("7");
        reveal_strlit("8");
        reveal_strlit("9");
        reveal_strlit("A");
        reveal_strlit("B");
        reveal_strlit("C");
        reveal_strlit("D");
        reveal_strlit("E");
        reveal_strlit("F");
    }
    match d {
        0 => "0",
        1 => "1",
        2 => "2",
        3 => "3",
        4 => "4",
        5 => "5",
        6 => "6",
        7 => "7",
        8 => "8",
        9 => "9",
        10 => "A",
        11 => "B",
        12 => "C",
        13 => "D",
        14 => "E",
        _ => "F",
    }
}

fn lower_hex_digit(d: u8) -> (r: &'static str)
    requires
        d < 16,
    ensures
        r@ == seq![hex_lower(d as nat)],
{
    proof {
        reveal_strlit("0");
        reveal_strlit("1");
        reveal_strlit("2");
        reveal_strlit("3");
        reveal_strlit("4");
        reveal_strlit("5");
        reveal_strlit("6");
        reveal_strlit("7");
        reveal_strlit("8");
        reveal_strlit("9");
        reveal_strlit("a");
        reveal_strlit("b");
        reveal_strlit("c");
        reveal_strlit("d");
        reveal_strlit("e");
        reveal_strlit("f");
    }
    match d {
        0 => "0",
        1 => "1",
        2 => "2",
        3 => "3",
        4 => "4",
        5 => "5",
        6 => "6",
        7 => "7",
        8 => "8",
        9 => "9",
        10 => "a",
        11 => "b",
        12 => "c",
        13 => "d",
        14 => "e",
        _ => "f",
    }
}

/// `n` in decimal without leading zeros (as std's `Display` writes
/// integers).
fn decimal_text(n: usize) -> (r: String)
    ensures
        r@ == decimal(n as nat),
    decreases n,
{
    if n < 10 {
        String::from_str(decimal_digit(n as u8))
    } else {
        let mut r = decimal_text(n / 10);
        r.append(decimal_digit((n % 10) as u8));
        r
    }
}

/// `b` as two upper-case hexadecimal digits, zero padded.
fn hex_upper_text(b: u8) -> (r: String)
    ensures
        r@ == byte_hex_upper(b),
{
    let mut r = String::from_str(upper_hex_digit(b / 16));
    r.append(upper_hex_digit(b % 16));
    assert(r@ =~= byte_hex_upper(b));
    r
}

/// `b` as two lower-case hexadecimal digits, zero padded.
fn hex_lower_text(b: u8) -> (r: String)
    ensures
        r@ == byte_hex_lower(b),
{
    let mut r = String::from_str(lower_hex_digit(b / 16));
    r.append(lower_hex_digit(b % 16));
    assert(r@ =~= byte_hex_lower(b));
    r
}

/// The prefix, a space, and `n` in decimal ("Fan 2", "Sensor 7").
pub(crate) fn numbered(prefix: &str, n: usize) -> (r: String)
    ensures
        r@ == prefix@ + seq![' '] + decimal(n as nat),
{
    let mut r = String::from_str(prefix);
    r.append(" ");
    let d = decimal_text(n);
    r.append(d.as_str());
    proof {
        reveal_strlit(" ");
    }
    r
}

/// Two bytes in upper-case hexadecimal joined by a dot ("03.1A").
pub(crate) fn hex_pair(hi: u8, lo: u8) -> (r: String)
    ensures
        r@ == byte_hex_upper(hi) + seq!['.'] + byte_hex_upper(lo),
{
    let mut r = hex_upper_text(hi);
    r.append(".");
    let l = hex_upper_text(lo);
    r.append(l.as_str());
    proof {
        reveal_strlit(".");
    }
    r
}

/// "Board ID: " and the byte as a six-character lower-case hexadecimal
/// number with the `0x` prefix ("Board ID: 0x000a").
pub(crate) fn board_id_label(id: u8) -> (r: String)
    ensures
        r@ == seq!['B', 'o', 'a', 'r', 'd', ' ', 'I', 'D', ':', ' ', '0', 'x', '0', '0'] + byte_hex_lower(id),
{
    let mut r = String::from_str("Board ID: 0x00");
    let h = hex_lower_text(id);
    r.append(h.as_str());
    proof {
        reveal_strlit("Board ID: 0x00");
    }
    assert(r@ =~= seq!['B', 'o', 'a', 'r', 'd', ' ', 'I', 'D', ':', ' ', '0', 'x', '0', '0'] + byte_hex_lower(id));
    r
}

} // verus!
