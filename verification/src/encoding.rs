//! Byte-level encodings used when hashing a block: decimal rendering of
//! integers and lowercase hexadecimal rendering of bytes.

use vstd::prelude::*;

verus! {

/// The ASCII decimal rendering of `n`, most significant digit first, without
/// leading zeros (`0` renders as the single byte `'0'`).
pub open spec fn decimal_digits(n: nat) -> Seq<u8>
    decreases n,
{
    if n < 10 {
        seq![(48 + n) as u8]
    } else {
        decimal_digits(n / 10).push((48 + n % 10) as u8)
    }
}

/// Appends the decimal rendering of `n` to `out`.
pub fn push_decimal(out: &mut Vec<u8>, n: u128)
    ensures
        final(out)@ == old(out)@ + decimal_digits(n as nat),
    decreases n,
{
    if n >= 10 {
        push_decimal(out, n / 10);
    }
    let digit: u8 = (n % 10) as u8;
    out.push(48u8 + digit);
}

/// The lowercase hexadecimal digit for a value below sixteen.
pub open spec fn hex_digit(v: u8) -> char
    recommends
        v < 16,
{
    seq!['0', '1', '2', '3', '4', '5', '6', '7', '8', '9', 'a', 'b', 'c', 'd', 'e', 'f'][v as int]
}

/// The lowercase hexadecimal rendering of `bytes`: two digits per byte, the
/// high half of each byte first.
pub open spec fn hex_lower(bytes: Seq<u8>) -> Seq<char> {
    Seq::new(
        2 * bytes.len(),
        |i: int| hex_digit(if i % 2 == 0 { bytes[i / 2] / 16 } else { bytes[i / 2] % 16 }),
    )
}

/// True when every character of `text` is a lowercase hexadecimal digit.
pub open spec fn is_lower_hex(text: Seq<char>) -> bool {
    forall|i: int|
        0 <= i < text.len() ==> ('0' <= #[trigger] text[i] <= '9' || 'a' <= text[i] <= 'f')
}

/// A hexadecimal rendering is twice as long as its input and holds only
/// lowercase hexadecimal digits.
pub proof fn lemma_hex_lower_shape(bytes: Seq<u8>)
    ensures
        hex_lower(bytes).len() == 2 * bytes.len(),
        is_lower_hex(hex_lower(bytes)),
{
    assert forall|i: int| 0 <= i < hex_lower(bytes).len() implies ('0' <= #[trigger] hex_lower(
        bytes,
    )[i] <= '9' || 'a' <= hex_lower(bytes)[i] <= 'f') by {
        let b = bytes[i / 2];
        let v: u8 = if i % 2 == 0 { b / 16 } else { b % 16 };
        assert(v < 16);
        assert(hex_lower(bytes)[i] == hex_digit(v));
    }
}

fn hex_digit_text(v: u8) -> (text: &'static str)
    requires
        v < 16,
    ensures
        text@ == seq![hex_digit(v)],
{
    proof {
        reveal_strlit("0");
        reveal_strlit("1");
        reveal_strlit("2");
        reveal_strlit("3");
        reveal_strlit("4");
        reveal_strlit("5");
        reveal_strlit("6");
        reveal_strlit("7");
        reveal_strlit("8");
        reveal_strlit("9");
        reveal_strlit("a");
        reveal_strlit("b");
        reveal_strlit("c");
        reveal_strlit("d");
        reveal_strlit("e");
        reveal_strlit("f");
    }
    let text = match v {
        0 => "0",
        1 => "1",
        2 => "2",
        3 => "3",
        4 => "4",
        5 => "5",
        6 => "6",
        7 => "7",
        8 => "8",
        9 => "9",
        10 => "a",
        11 => "b",
        12 => "c",
        13 => "d",
        14 => "e",
        _ => "f",
    };
    assert(text@ =~= seq![hex_digit(v)]);
    text
}

/// Renders `bytes` as lowercase hexadecimal text.
pub fn to_hex_lower(bytes: &[u8]) -> (text: String)
    ensures
        text@ == hex_lower(bytes@),
{
    let mut text = String::new();
    let mut i: usize = 0;
    while i < bytes.len()
        invariant
            i <= bytes.len(),
            text@ == hex_lower(bytes@.take(i as int)),
        decreases bytes.len() - i,
    {
        let b = bytes[i];
        text.append(hex_digit_text(b / 16));
        text.append(hex_digit_text(b % 16));
        i += 1;
        assert(text@ =~= hex_lower(bytes@.take(i as int)));
    }
    assert(bytes@.take(i as int) =~= bytes@);
    text
}

} // verus!
