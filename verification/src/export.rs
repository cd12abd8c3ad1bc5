//! Text forms of byte strings for deployment scripts.

use vstd::prelude::*;

verus! {

/// `String::push` appends one character.
pub assume_specification[ String::push ](s: &mut String, c: char)
    ensures
        final(s)@ == old(s)@.push(c),
;

/// The lower-case hexadecimal digit for a number below sixteen.
pub open spec fn hex_digit_spec(n: u8) -> char {
    if n < 10 {
        (0x30 + n) as char
    } else {
        (0x57 + n) as char
    }
}

/// The text of one byte: `0x` and two hexadecimal digits.
pub open spec fn byte_text_spec(b: u8) -> Seq<char> {
    seq!['0', 'x', hex_digit_spec(b / 16), hex_digit_spec(b % 16)]
}

/// The texts of the first `n` bytes, with a comma and a space between each
/// two.
pub open spec fn joined_bytes_spec(bytes: Seq<u8>, n: nat) -> Seq<char>
    decreases n,
{
    if n == 0 {
        Seq::empty()
    } else if n == 1 {
        byte_text_spec(bytes[0])
    } else {
        joined_bytes_spec(bytes, (n - 1) as nat) + seq![',', ' '] + byte_text_spec(bytes[n - 1])
    }
}

/// The Move vector literal of a byte string: `vector[`, the bytes, `]`.
pub open spec fn move_vector_spec(bytes: Seq<u8>) -> Seq<char> {
    seq!['v', 'e', 'c', 't', 'o', 'r', '['] + joined_bytes_spec(bytes, bytes.len()) + seq![']']
}

/// The lower-case hexadecimal digit for a number below sixteen.
fn hex_digit(n: u8) -> (c: char)
    requires
        n < 16,
    ensures
        c == hex_digit_spec(n),
{
    if n < 10 {
        (0x30 + n) as char
    } else {
        (0x57 + n) as char
    }
}

/// Appends the text of one byte.
fn push_byte_text(out: &mut String, b: u8)
    ensures
        final(out)@ == old(out)@ + byte_text_spec(b),
{
    out.push('0');
    out.push('x');
    out.push(hex_digit(b / 16));
    out.push(hex_digit(b % 16));
    assert(out@ =~= old(out)@ + byte_text_spec(b));
}

/// Writes a byte string as a Move vector literal, such as
/// `vector[0x01, 0xff]`.
pub fn format_as_move_vector(bytes: &[u8]) -> (out: String)
    ensures
        out@ == move_vector_spec(bytes@),
{
    let mut out = String::new();
    out.push('v');
    out.push('e');
    out.push('c');
    out.push('t');
    out.push('o');
    out.push('r');
    out.push('[');
    let ghost head = out@;
    assert(head =~= seq!['v', 'e', 'c', 't', 'o', 'r', '[']);
    let mut i: usize = 0;
    while i < bytes.len()
        invariant
            i <= bytes.len(),
            out@ == head + joined_bytes_spec(bytes@, i as nat),
        decreases bytes.len() - i,
    {
        if i > 0 {
            out.push(',');
            out.push(' ');
        }
        push_byte_text(&mut out, bytes[i]);
        i += 1;
        assert(out@ =~= head + joined_bytes_spec(bytes@, i as nat));
    }
    out.push(']');
    out
}

} // verus!
