//! The binary envelope of a signed message: two tag bytes, the length of the
//! message as four bytes, most significant first, and the message itself.

use crate::hexcode::{
    decode, encode, hex_digit, hex_text, lemma_hex_bytes_concat, lemma_hex_text_round_trip,
};
use vstd::prelude::*;
use vstd::string::*;

verus! {

/// The largest message length that the four length bytes can hold.
pub const MAX_MESSAGE_LEN: usize = 0xffff_ffff;

/// The four bytes of a length, most significant first.
pub open spec fn length_bytes(n: int) -> Seq<u8> {
    seq![
        ((n / 0x100_0000) % 0x100) as u8,
        ((n / 0x1_0000) % 0x100) as u8,
        ((n / 0x100) % 0x100) as u8,
        (n % 0x100) as u8,
    ]
}

/// The header of a message of `n` bytes: the tag 0x05, the tag 0x01 and the
/// four bytes of `n`.
pub open spec fn header(n: int) -> Seq<u8> {
    seq![0x05u8, 0x01u8] + length_bytes(n)
}

/// The bytes that are signed for a message: its header and the message.
pub open spec fn envelope(message: Seq<u8>) -> Seq<u8> {
    header(message.len() as int) + message
}

/// The text of one hexadecimal digit.
fn digit_str(n: u32) -> (r: &'static str)
    requires
        n < 16,
    ensures
        r@ == seq![hex_digit(n as int)],
{
    proof {
        reveal_strlit("0");
        reveal_strlit("1");
        reveal_strlit("2");
        reveal_strlit("3");
        reveal_strlit("4");
        reveal_strlit("5");
        reveal_strlit("6");
        reveal_strlit("7");
        reveal_strlit("8");
        reveal_strlit("9");
        reveal_strlit("a");
        reveal_strlit("b");
        reveal_strlit("c");
        reveal_strlit("d");
        reveal_strlit("e");
        reveal_strlit("f");
    }
    let r = if n == 0 {
        "0"
    } else if n == 1 {
        "1"
    } else if n == 2 {
        "2"
    } else if n == 3 {
        "3"
    } else if n == 4 {
        "4"
    } else if n == 5 {
        "5"
    } else if n == 6 {
        "6"
    } else if n == 7 {
        "7"
    } else if n == 8 {
        "8"
    } else if n == 9 {
        "9"
    } else if n == 10 {
        "a"
    } else if n == 11 {
        "b"
    } else if n == 12 {
        "c"
    } else if n == 13 {
        "d"
    } else if n == 14 {
        "e"
    } else {
        "f"
    };
    assert(r@ =~= seq![hex_digit(n as int)]);
    r
}

/// Appends the two digits of a byte to a text.
fn push_byte_digits(text: &mut String, b: u8)
    ensures
        final(text)@ == old(text)@ + hex_text(seq![b]),
{
    let high: u32 = (b / 16) as u32;
    let low: u32 = (b % 16) as u32;
    text.append(digit_str(high));
    text.append(digit_str(low));
    assert(text@ =~= old(text)@ + hex_text(seq![b]));
}

/// Writes the header of a message of `n` bytes as hexadecimal text.
fn header_text(n: u32) -> (text: String)
    ensures
        text@ == hex_text(header(n as int)),
{
    let mut text = String::from_str("0501");
    proof {
        reveal_strlit("0501");
    }
    let b3: u8 = ((n / 0x100_0000) % 0x100) as u8;
    let b2: u8 = ((n / 0x1_0000) % 0x100) as u8;
    let b1: u8 = ((n / 0x100) % 0x100) as u8;
    let b0: u8 = (n % 0x100) as u8;
    push_byte_digits(&mut text, b3);
    push_byte_digits(&mut text, b2);
    push_byte_digits(&mut text, b1);
    push_byte_digits(&mut text, b0);
    proof {
        let h = header(n as int);
        assert(h.len() == 6);
        assert(h[0] == 5u8 && h[1] == 1u8 && h[2] == b3 && h[3] == b2 && h[4] == b1 && h[5] == b0);
        let t = hex_text(h);
        assert(text@.len() == 12);
        assert forall|i: int| 0 <= i < 12 implies text@[i] == t[i] by {
            if i < 4 {
            } else if i < 6 {
                assert(text@[i] == hex_text(seq![b3])[i - 4]);
            } else if i < 8 {
                assert(text@[i] == hex_text(seq![b2])[i - 6]);
            } else if i < 10 {
                assert(text@[i] == hex_text(seq![b1])[i - 8]);
            } else {
                assert(text@[i] == hex_text(seq![b0])[i - 10]);
            }
        }
        assert(text@ =~= t);
    }
    text
}

/// Wraps a message in its envelope. The header and the message are written
/// out as one hexadecimal text, which is then decoded to bytes.
pub fn encode_string(s: &str) -> (bytes: Vec<u8>)
    requires
        s.spec_bytes().len() <= MAX_MESSAGE_LEN,
    ensures
        bytes@ == envelope(s.spec_bytes()),
{
    let message = s.as_bytes();
    let n: usize = message.len();
    let mut text = header_text(n as u32);
    let body = encode(message);
    text.append(body.as_str());
    proof {
        let head = header(n as int);
        lemma_hex_text_round_trip(head);
        lemma_hex_text_round_trip(message@);
        lemma_hex_bytes_concat(hex_text(head), hex_text(message@));
    }
    decode(text.as_str()).unwrap()
}

} // verus!
