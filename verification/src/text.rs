//! Lower-case hexadecimal text.
use vstd::prelude::*;

verus! {

/// The lower-case hexadecimal digit of a number below 16.
pub open spec fn hex_char(n: nat) -> char {
    if n < 10 {
        (48 + n) as char
    } else {
        (87 + n) as char
    }
}

/// Lower-case hexadecimal text of `bytes`, two digits per byte, high digit first.
pub open spec fn lower_hex(bytes: Seq<u8>) -> Seq<char>
    decreases bytes.len(),
{
    if bytes.len() == 0 {
        Seq::empty()
    } else {
        seq![hex_char(bytes[0] as nat / 16), hex_char(bytes[0] as nat % 16)] + lower_hex(
            bytes.drop_first(),
        )
    }
}

/// The four lower-case hexadecimal digits of `x`, high digit first.
pub open spec fn hex4(x: u16) -> Seq<char> {
    seq![
        hex_char((x as nat / 4096) % 16),
        hex_char((x as nat / 256) % 16),
        hex_char((x as nat / 16) % 16),
        hex_char(x as nat % 16),
    ]
}

/// The text of one hexadecimal digit.
pub fn hex_digit(n: u16) -> (r: &'static str)
    requires
        n < 16,
    ensures
        r@ == seq![hex_char(n as nat)],
{
    proof {
        reveal_strlit("0");
        reveal_strlit("1");
        reveal_strlit("2");
        reveal_strlit("3");
        reveal_strlit("4");
        reveal_strlit("5");
        reveal_strlit("6");
        reveal_strlit("7");
        reveal_strlit("8");
        reveal_strlit("9");
        reveal_strlit("a");
        reveal_strlit("b");
        reveal_strlit("c");
        reveal_strlit("d");
        reveal_strlit("e");
        reveal_strlit("f");
    }
    match n {
        0 => "0",
        1 => "1",
        2 => "2",
        3 => "3",
        4 => "4",
        5 => "5",
        6 => "6",
        7 => "7",
        8 => "8",
        9 => "9",
        10 => "a",
        11 => "b",
        12 => "c",
        13 => "d",
        14 => "e",
        _ => "f",
    }
}

/// `0x` followed by the four lower-case hexadecimal digits of `x`.
pub fn hex4_with_prefix(x: u16) -> (r: String)
    ensures
        r@ == seq!['0', 'x'] + hex4(x),
{
    proof {
        reveal_strlit("0x");
    }
    let mut s = String::from_str("0x");
    s.append(hex_digit((x / 4096) % 16));
    s.append(hex_digit((x / 256) % 16));
    s.append(hex_digit((x / 16) % 16));
    s.append(hex_digit(x % 16));
    assert(s@ =~= seq!['0', 'x'] + hex4(x));
    s
}

} // verus!
