//! Colon-separated hexadecimal text, the format in which link-layer (MAC)
//! addresses are reported.

use vstd::prelude::*;
use vstd::string::StringExecFns;

verus! {

/// The hexadecimal digit for `n`, lowercase or uppercase.
pub open spec fn hex_char(n: u8, upper: bool) -> char {
    if n == 0 {
        '0'
    } else if n == 1 {
        '1'
    } else if n == 2 {
        '2'
    } else if n == 3 {
        '3'
    } else if n == 4 {
        '4'
    } else if n == 5 {
        '5'
    } else if n == 6 {
        '6'
    } else if n == 7 {
        '7'
    } else if n == 8 {
        '8'
    } else if n == 9 {
        '9'
    } else if n == 10 {
        if upper { 'A' } else { 'a' }
    } else if n == 11 {
        if upper { 'B' } else { 'b' }
    } else if n == 12 {
        if upper { 'C' } else { 'c' }
    } else if n == 13 {
        if upper { 'D' } else { 'd' }
    } else if n == 14 {
        if upper { 'E' } else { 'e' }
    } else {
        if upper { 'F' } else { 'f' }
    }
}

/// One byte as two hexadecimal digits.
pub open spec fn byte_hex(b: u8, upper: bool) -> Seq<char> {
    seq![hex_char(b / 16, upper), hex_char(b % 16, upper)]
}

/// A byte sequence as two-digit hexadecimal groups joined by colons;
/// empty input gives empty text.
pub open spec fn hex_colon(bytes: Seq<u8>, upper: bool) -> Seq<char>
    decreases bytes.len(),
{
    if bytes.len() == 0 {
        Seq::empty()
    } else if bytes.len() == 1 {
        byte_hex(bytes[0], upper)
    } else {
        hex_colon(bytes.drop_last(), upper) + seq![':'] + byte_hex(bytes.last(), upper)
    }
}

/// The hexadecimal digit for `n` as text.
fn hex_digit(n: u8, upper: bool) -> (r: &'static str)
    requires
        n < 16,
    ensures
        r@ =~= seq![hex_char(n, upper)],
{
    proof {
        reveal_strlit("0");
        reveal_strlit("1");
        reveal_strlit("2");
        reveal_strlit("3");
        reveal_strlit("4");
        reveal_strlit("5");
        reveal_strlit("6");
        reveal_strlit("7");
        reveal_strlit("8");
        reveal_strlit("9");
        reveal_strlit("a");
        reveal_strlit("b");
        reveal_strlit("c");
        reveal_strlit("d");
        reveal_strlit("e");
        reveal_strlit("f");
        reveal_strlit("A");
        reveal_strlit("B");
        reveal_strlit("C");
        reveal_strlit("D");
        reveal_strlit("E");
        reveal_strlit("F");
    }
    match n {
        0 => "0",
        1 => "1",
        2 => "2",
        3 => "3",
        4 => "4",
        5 => "5",
        6 => "6",
        7 => "7",
        8 => "8",
        9 => "9",
        10 => if upper { "A" } else { "a" },
        11 => if upper { "B" } else { "b" },
        12 => if upper { "C" } else { "c" },
        13 => if upper { "D" } else { "d" },
        14 => if upper { "E" } else { "e" },
        _ => if upper { "F" } else { "f" },
    }
}

/// Formats `bytes` as two-digit hexadecimal groups joined by colons.
pub fn hex_colon_text(bytes: &[u8], upper: bool) -> (r: String)
    ensures
        r@ == hex_colon(bytes@, upper),
{
    let mut s = String::new();
    let mut i: usize = 0;
    while i < bytes.len()
        invariant
            i <= bytes@.len(),
            s@ =~= hex_colon(bytes@.take(i as int), upper),
        decreases bytes@.len() - i,
    {
        if i > 0 {
            s.append(":");
            proof {
                reveal_strlit(":");
            }
        }
        let b = bytes[i];
        s.append(hex_digit(b / 16, upper));
        s.append(hex_digit(b % 16, upper));
        proof {
            let prefix = bytes@.take(i as int);
            let extended = bytes@.take(i + 1);
            assert(extended.drop_last() =~= prefix);
            assert(extended.last() == bytes@[i as int]);
            if i == 0 {
                assert(s@ =~= hex_colon(extended, upper));
            } else {
                assert(s@ =~= hex_colon(extended, upper));
            }
        }
        i += 1;
    }
    proof {
        assert(bytes@.take(bytes@.len() as int) =~= bytes@);
    }
    s
}

} // verus!
