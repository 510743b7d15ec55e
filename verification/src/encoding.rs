//! Lowercase hexadecimal rendering of machine integers and of byte
//! strings.  These are the building blocks of the identifier generator
//! and of the salt encoding.

use vstd::prelude::*;
use vstd::arithmetic::div_mod::lemma_div_decreases;
use vstd::string::StringExecFns;

verus! {

/// The lowercase hexadecimal digit for a value below sixteen.
pub open spec fn hex_char_of(d: int) -> char {
    if d == 0 {
        '0'
    } else if d == 1 {
        '1'
    } else if d == 2 {
        '2'
    } else if d == 3 {
        '3'
    } else if d == 4 {
        '4'
    } else if d == 5 {
        '5'
    } else if d == 6 {
        '6'
    } else if d == 7 {
        '7'
    } else if d == 8 {
        '8'
    } else if d == 9 {
        '9'
    } else if d == 10 {
        'a'
    } else if d == 11 {
        'b'
    } else if d == 12 {
        'c'
    } else if d == 13 {
        'd'
    } else if d == 14 {
        'e'
    } else {
        'f'
    }
}

/// The lowercase hexadecimal rendering of `n`, without leading zeroes;
/// zero renders as a single `'0'`.
pub open spec fn hex_of(n: nat) -> Seq<char>
    decreases n
        via hex_of_decreases
{
    if n < 16 {
        seq![hex_char_of(n as int)]
    } else {
        hex_of(n / 16) + seq![hex_char_of((n % 16) as int)]
    }
}

#[via_fn]
proof fn hex_of_decreases(n: nat) {
    if n >= 16 {
        lemma_div_decreases(n as int, 16);
    }
}

/// The hex encoding of a byte string: two lowercase digits per byte, in
/// byte order; character `2i` is the high digit of byte `i` and character
/// `2i + 1` its low digit.
pub open spec fn hex_bytes(b: Seq<u8>) -> Seq<char> {
    Seq::new(
        2 * b.len(),
        |i: int|
            if i % 2 == 0 {
                hex_char_of(b[i / 2] as int / 16)
            } else {
                hex_char_of(b[i / 2] as int % 16)
            },
    )
}

fn hex_digit_str(d: u8) -> (r: &'static str)
    requires
        d < 16,
    ensures
        r@.len() == 1,
        r@[0] == hex_char_of(d as int),
{
    proof {
        reveal_strlit("0");
        reveal_strlit("1");
        reveal_strlit("2");
        reveal_strlit("3");
        reveal_strlit("4");
        reveal_strlit("5");
        reveal_strlit("6");
        reveal_strlit("7");
        reveal_strlit("8");
        reveal_strlit("9");
        reveal_strlit("a");
        reveal_strlit("b");
        reveal_strlit("c");
        reveal_strlit("d");
        reveal_strlit("e");
        reveal_strlit("f");
    }
    if d == 0 {
        "0"
    } else if d == 1 {
        "1"
    } else if d == 2 {
        "2"
    } else if d == 3 {
        "3"
    } else if d == 4 {
        "4"
    } else if d == 5 {
        "5"
    } else if d == 6 {
        "6"
    } else if d == 7 {
        "7"
    } else if d == 8 {
        "8"
    } else if d == 9 {
        "9"
    } else if d == 10 {
        "a"
    } else if d == 11 {
        "b"
    } else if d == 12 {
        "c"
    } else if d == 13 {
        "d"
    } else if d == 14 {
        "e"
    } else {
        "f"
    }
}

/// Renders `n` in lowercase hexadecimal without leading zeroes,
/// as the `{:x}` format does.
pub fn u128_to_hex(n: u128) -> (r: String)
    ensures
        r@ == hex_of(n as nat),
    decreases n,
{
    let d: u8 = (n % 16) as u8;
    if n < 16 {
        let r = hex_digit_str(d).to_owned();
        proof {
            assert(r@ =~= hex_of(n as nat));
        }
        r
    } else {
        proof {
            lemma_div_decreases(n as int, 16);
        }
        let prefix = u128_to_hex(n / 16);
        let r = prefix.concat(hex_digit_str(d));
        proof {
            assert(r@ =~= hex_of(n as nat));
        }
        r
    }
}

/// Renders a byte string in lowercase hexadecimal, two digits per byte,
/// in byte order.
pub fn bytes_to_hex(bytes: &[u8]) -> (r: String)
    ensures
        r@ == hex_bytes(bytes@),
{
    let n = bytes.len();
    let mut r = String::new();
    proof {
        assert(r@ =~= hex_bytes(bytes@.take(0)));
    }
    let mut i: usize = 0;
    while i < n
        invariant
            i <= n,
            bytes@.len() == n,
            r@ == hex_bytes(bytes@.take(i as int)),
        decreases n - i,
    {
        let b = bytes[i];
        let high = r.concat(hex_digit_str(b / 16));
        r = high.concat(hex_digit_str(b % 16));
        proof {
            assert(r@ =~= hex_bytes(bytes@.take(i + 1)));
        }
        i = i + 1;
    }
    proof {
        assert(bytes@.take(n as int) =~= bytes@);
    }
    r
}

} // verus!
