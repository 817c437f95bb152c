//! Standard-alphabet, padded base64 as a mathematical model, and the proof
//! that decoding undoes encoding.
use vstd::prelude::*;

verus! {

/// The base64 digit for a six-bit value.
pub open spec fn digit(i: int) -> char {
    if i < 26 {
        (65 + i) as u8 as char
    } else if i < 52 {
        (97 + i - 26) as u8 as char
    } else if i < 62 {
        (48 + i - 52) as u8 as char
    } else if i == 62 {
        '+'
    } else {
        '/'
    }
}

/// The six-bit value of a base64 digit.
pub open spec fn digit_value(c: char) -> int {
    let u = c as u32 as int;
    if 65 <= u <= 90 {
        u - 65
    } else if 97 <= u <= 122 {
        u - 97 + 26
    } else if 48 <= u <= 57 {
        u - 48 + 52
    } else if c == '+' {
        62
    } else {
        63
    }
}

/// Base64 encoding with the standard alphabet and `=` padding: every three
/// bytes become four digits, and a final one or two bytes become a padded
/// group of four characters.
pub open spec fn base64_encode(b: Seq<u8>) -> Seq<char>
    decreases b.len(),
{
    if b.len() == 0 {
        seq![]
    } else {
        let x = b[0] as int;
        let y = if b.len() > 1 { b[1] as int } else { 0 };
        let z = if b.len() > 2 { b[2] as int } else { 0 };
        if b.len() == 1 {
            seq![digit(x / 4), digit((x % 4) * 16), '=', '=']
        } else if b.len() == 2 {
            seq![digit(x / 4), digit((x % 4) * 16 + y / 16), digit((y % 16) * 4), '=']
        } else {
            seq![digit(x / 4), digit((x % 4) * 16 + y / 16), digit((y % 16) * 4 + z / 64), digit(z % 64)]
                + base64_encode(b.subrange(3, b.len() as int))
        }
    }
}

/// Decoding of padded base64 text, group by group.
pub open spec fn base64_decode(s: Seq<char>) -> Seq<u8>
    decreases s.len(),
{
    if s.len() < 4 {
        seq![]
    } else {
        let a = digit_value(s[0]);
        let b = digit_value(s[1]);
        let c = digit_value(s[2]);
        let d = digit_value(s[3]);
        let x = (a * 4 + b / 16) as u8;
        let y = ((b % 16) * 16 + c / 4) as u8;
        let z = ((c % 4) * 64 + d) as u8;
        if s[2] == '=' {
            seq![x]
        } else if s[3] == '=' {
            seq![x, y]
        } else {
            seq![x, y, z] + base64_decode(s.subrange(4, s.len() as int))
        }
    }
}

proof fn lemma_digit(i: int)
    requires
        0 <= i < 64,
    ensures
        digit_value(digit(i)) == i,
        digit(i) != '=',
{
    if i < 26 {
        assert(((65 + i) as u8 as char) as u32 == 65 + i);
    } else if i < 52 {
        assert(((97 + i - 26) as u8 as char) as u32 == 97 + i - 26);
    } else if i < 62 {
        assert(((48 + i - 52) as u8 as char) as u32 == 48 + i - 52);
    }
}

/// Decoding the base64 encoding of any byte sequence gives the sequence back.
pub proof fn lemma_base64_round_trip(b: Seq<u8>)
    ensures
        base64_decode(base64_encode(b)) == b,
    decreases b.len(),
{
    if b.len() == 0 {
    } else if b.len() == 1 {
        let b0 = b[0] as int;
        lemma_digit(b0 / 4);
        lemma_digit((b0 % 4) * 16);
        assert(base64_decode(base64_encode(b)) =~= b);
    } else if b.len() == 2 {
        let b0 = b[0] as int;
        let b1 = b[1] as int;
        lemma_digit(b0 / 4);
        lemma_digit((b0 % 4) * 16 + b1 / 16);
        lemma_digit((b1 % 16) * 4);
        assert(base64_decode(base64_encode(b)) =~= b);
    } else {
        let b0 = b[0] as int;
        let b1 = b[1] as int;
        let b2 = b[2] as int;
        let rest = b.subrange(3, b.len() as int);
        lemma_digit(b0 / 4);
        lemma_digit((b0 % 4) * 16 + b1 / 16);
        lemma_digit((b1 % 16) * 4 + b2 / 64);
        lemma_digit(b2 % 64);
        lemma_base64_round_trip(rest);
        let s = base64_encode(b);
        assert(s.subrange(4, s.len() as int) =~= base64_encode(rest));
        assert(b =~= seq![b[0], b[1], b[2]] + rest);
        assert(base64_decode(s) =~= b);
    }
}

} // verus!
