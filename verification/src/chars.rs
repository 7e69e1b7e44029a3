//! Decoding a byte source into Unicode scalar values, one per call.
//!
//! The first byte of a character tells how many bytes follow it; each following
//! byte gives its low six bits. Following bytes are not held to the `10xxxxxx`
//! pattern and short values in long forms are accepted, so every well-formed
//! UTF-8 text decodes to its characters, and some ill-formed ones decode too.

use vstd::prelude::*;
use vstd::utf8::*;
use crate::error::DecodeError;

verus! {

/// What stands at the front of a byte sequence.
pub enum Decoded {
    /// No bytes are left.
    End,
    /// A character, and the number of bytes that hold it.
    Char(char, nat),
    /// No character can be read.
    Fault(DecodeError),
}

/// The number of bytes of a character whose first byte is `lead`, and 0 where
/// `lead` begins no character.
pub open spec fn width_of(lead: u8) -> nat {
    if is_leading_byte_width_1(lead) {
        1
    } else if is_leading_byte_width_2(lead) {
        2
    } else if is_leading_byte_width_3(lead) {
        3
    } else if is_leading_byte_width_4(lead) {
        4
    } else {
        0
    }
}

/// The front of `bytes`: its first character, the end, or the reason why no
/// character can be read.
pub open spec fn decode_first(bytes: Seq<u8>) -> Decoded {
    if bytes.len() == 0 {
        Decoded::End
    } else if width_of(bytes[0]) == 0 {
        Decoded::Fault(DecodeError::BadLead)
    } else if bytes.len() < width_of(bytes[0]) {
        Decoded::Fault(DecodeError::Truncated)
    } else if !is_scalar(decode_first_codepoint(bytes)) {
        Decoded::Fault(DecodeError::NotScalar)
    } else {
        Decoded::Char(decode_first_codepoint(bytes) as char, width_of(bytes[0]))
    }
}

/// What a read at the front of `bytes` returns.
pub open spec fn read_of(bytes: Seq<u8>) -> Result<Option<char>, DecodeError> {
    match decode_first(bytes) {
        Decoded::End => Ok(None),
        Decoded::Char(c, _) => Ok(Some(c)),
        Decoded::Fault(e) => Err(e),
    }
}

/// The bytes that are left after a read at the front of `bytes`: a character
/// is passed, the end and a fault are not.
pub open spec fn after_read(bytes: Seq<u8>) -> Seq<u8> {
    match decode_first(bytes) {
        Decoded::Char(_, n) => bytes.skip(n as int),
        _ => bytes,
    }
}

/// The characters that a byte source yields before it ends or breaks off.
pub struct Input {
    /// The characters read, in order.
    pub chars: Seq<char>,
    /// `None` where the source ends after `chars`; else the fault that follows them.
    pub fault: Option<DecodeError>,
}

/// All that reading `bytes` from the front gives.
pub open spec fn decoded(bytes: Seq<u8>) -> Input
    decreases bytes.len(),
{
    match decode_first(bytes) {
        Decoded::End => Input { chars: seq![], fault: None },
        Decoded::Fault(e) => Input { chars: seq![], fault: Some(e) },
        Decoded::Char(c, n) => {
            let rest = decoded(bytes.skip(n as int));
            Input { chars: seq![c] + rest.chars, fault: rest.fault }
        },
    }
}

/// `char::from_u32` of std: the character with the value `n`, where `n` is a
/// Unicode scalar value (at most 0x10FFFF and no surrogate), and `None` otherwise.
#[verifier::external_body]
fn char_from_u32(n: u32) -> (r: Option<char>)
    ensures
        r == (if is_scalar(n) { Some(n as char) } else { None::<char> }),
{
    char::from_u32(n)
}

/// A cursor over a byte source that yields its characters.
#[derive(Debug)]
pub struct CharIter {
    bytes: Vec<u8>,
    pos: usize,
}

impl View for CharIter {
    type V = Seq<u8>;

    /// The bytes not yet read.
    closed spec fn view(&self) -> Seq<u8> {
        self.bytes@.skip(self.pos as int)
    }
}

impl CharIter {
    #[verifier::type_invariant]
    spec fn in_bounds(self) -> bool {
        self.pos <= self.bytes.len()
    }

    /// A cursor at the start of `bytes`.
    pub fn new(bytes: Vec<u8>) -> (r: CharIter)
        ensures
            r@ == bytes@,
    {
        CharIter { bytes, pos: 0 }
    }

    /// The character at the cursor and its width in bytes.
    fn front(&self) -> (r: Result<Option<(char, usize)>, DecodeError>)
        ensures
            match decode_first(self@) {
                Decoded::End => r matches Ok(None),
                Decoded::Char(c, n) => r matches Ok(Some(p)) && p.0 == c && p.1 == n && self.pos
                    + n <= self.bytes.len(),
                Decoded::Fault(e) => r matches Err(f) && f == e,
            },
    {
        proof {
            use_type_invariant(self);
        }
        if self.pos >= self.bytes.len() {
            return Ok(None);
        }
        let left: usize = self.bytes.len() - self.pos;
        let b0: u8 = self.bytes[self.pos];
        let width: usize = if b0 <= 0x7f {
            1
        } else if 0xc0 <= b0 && b0 <= 0xdf {
            2
        } else if 0xe0 <= b0 && b0 <= 0xef {
            3
        } else if 0xf0 <= b0 && b0 <= 0xf7 {
            4
        } else {
            return Err(DecodeError::BadLead);
        };
        if left < width {
            return Err(DecodeError::Truncated);
        }
        let n: u32 = if width == 1 {
            (b0 & 0x7F) as u32
        } else if width == 2 {
            let b1: u8 = self.bytes[self.pos + 1];
            (((b0 & 0x1F) as u32) << 6) | ((b1 & 0x3f) as u32)
        } else if width == 3 {
            let b1: u8 = self.bytes[self.pos + 1];
            let b2: u8 = self.bytes[self.pos + 2];
            (((b0 & 0x0F) as u32) << 12) | (((b1 & 0x3f) as u32) << 6) | ((b2 & 0x3f) as u32)
        } else {
            let b1: u8 = self.bytes[self.pos + 1];
            let b2: u8 = self.bytes[self.pos + 2];
            let b3: u8 = self.bytes[self.pos + 3];
            (((b0 & 0x07) as u32) << 18) | (((b1 & 0x3f) as u32) << 12) | (((b2 & 0x3f) as u32)
                << 6) | ((b3 & 0x3f) as u32)
        };
        match char_from_u32(n) {
            Some(c) => Ok(Some((c, width))),
            None => Err(DecodeError::NotScalar),
        }
    }

    /// The next character, without moving past it.
    pub fn peek(&self) -> (r: Result<Option<char>, DecodeError>)
        ensures
            r == read_of(self@),
    {
        match self.front() {
            Ok(Some((c, _))) => Ok(Some(c)),
            Ok(None) => Ok(None),
            Err(e) => Err(e),
        }
    }

    /// Reads the next character. At the end of the source the result is
    /// `Ok(None)`; where the bytes at the cursor hold no character the result is
    /// the fault, and the cursor stays where it is, so that every later call
    /// fails in the same way.
    pub fn next(&mut self) -> (r: Result<Option<char>, DecodeError>)
        ensures
            r == read_of(old(self)@),
            final(self)@ == after_read(old(self)@),
    {
        match self.front() {
            Ok(Some((c, width))) => {
                proof {
                    use_type_invariant(&*self);
                }
                self.pos = self.pos + width;
                assert(final(self)@ =~= old(self)@.skip(width as int));
                Ok(Some(c))
            },
            Ok(None) => Ok(None),
            Err(e) => Err(e),
        }
    }
}

/// At the front of bytes that begin with a well-formed character, the decoder
/// reads that character.
pub proof fn lemma_first_scalar(bytes: Seq<u8>)
    requires
        valid_first_scalar(bytes),
    ensures
        decode_first(bytes) == Decoded::Char(
            decode_first_scalar(bytes) as char,
            length_of_first_scalar(bytes) as nat,
        ),
{
    let b0 = bytes[0];
    let cp = decode_first_codepoint(bytes);
    if is_leading_byte_width_1(b0) {
        assert((b0 & 0x7F) as u32 <= 0x7F) by (bit_vector);
    } else if is_leading_byte_width_2(b0) {
        let b1 = bytes[1];
        assert((((b0 & 0x1F) as u32) << 6) | ((b1 & 0x3f) as u32) <= 0x7FF) by (bit_vector);
    } else if is_leading_byte_width_3(b0) {
        let b1 = bytes[1];
        let b2 = bytes[2];
        assert((((b0 & 0x0F) as u32) << 12) | (((b1 & 0x3f) as u32) << 6) | ((b2 & 0x3f) as u32)
            <= 0xFFFF) by (bit_vector);
    }
}

/// Well-formed UTF-8 decodes to the characters that it encodes, and the source
/// ends cleanly after them.
pub proof fn lemma_decoded_utf8(bytes: Seq<u8>)
    requires
        valid_utf8(bytes),
    ensures
        decoded(bytes) == (Input { chars: decode_utf8(bytes), fault: None }),
    decreases bytes.len(),
{
    if bytes.len() > 0 {
        lemma_first_scalar(bytes);
        lemma_decoded_utf8(pop_first_scalar(bytes));
    } else {
        assert(decode_utf8(bytes) =~= Seq::<char>::empty());
    }
}

/// The bytes of a text decode to the text.
pub proof fn lemma_decoded_text(chars: Seq<char>)
    ensures
        decoded(encode_utf8(chars)) == (Input { chars, fault: None }),
{
    encode_utf8_valid_utf8(chars);
    encode_utf8_decode_utf8(chars);
    lemma_decoded_utf8(encode_utf8(chars));
}

} // verus!
