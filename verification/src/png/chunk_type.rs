//! Chunk type codes: four ASCII letters whose case carries four flags.
use crate::png::text::{from_utf8, lemma_trimmed_is_identity, trim, trimmed};
use vstd::prelude::*;
use vstd::std_specs::cmp::PartialEqSpecImpl;
use vstd::string::StrSliceExecFns;
use vstd::utf8::{
    encode_utf8, encode_utf8_decode_utf8, encode_utf8_valid_utf8, is_ascii_chars,
    is_ascii_chars_encode_utf8, valid_utf8,
};

verus! {

/// The ways in which a chunk type code can be refused.
#[derive(Debug, Clone, Copy, PartialEq, Eq)]
pub enum ChunkTypeError {
    /// One of the four bytes is not an ASCII letter.
    InvalidCharacter,
    /// The text does not have exactly four characters.
    InvalidLength,
}

/// `b` is one of `A`..=`Z`.
pub open spec fn is_upper(b: u8) -> bool {
    65 <= b <= 90
}

/// `b` is one of `a`..=`z`.
pub open spec fn is_lower(b: u8) -> bool {
    97 <= b <= 122
}

/// `b` is an ASCII letter.
pub open spec fn is_letter(b: u8) -> bool {
    is_upper(b) || is_lower(b)
}

/// `bytes` is a type code: exactly four ASCII letters.
pub open spec fn is_type_code(bytes: Seq<u8>) -> bool {
    &&& bytes.len() == 4
    &&& forall|i: int| 0 <= i < 4 ==> is_letter(#[trigger] bytes[i])
}

/// Bit 5 of `b`, the bit in which an ASCII letter carries its case.
pub open spec fn bit5(b: u8) -> bool {
    b & 0x20 != 0
}

/// For a letter, bit 5 is set exactly when the letter is lower case.
pub proof fn lemma_bit5_is_case(b: u8)
    requires
        is_letter(b),
    ensures
        bit5(b) == is_lower(b),
        !bit5(b) == is_upper(b),
{
    assert((65 <= b <= 90) ==> b & 0x20 == 0) by (bit_vector);
    assert((97 <= b <= 122) ==> b & 0x20 != 0) by (bit_vector);
}

/// `c` is an ASCII letter.
pub open spec fn is_letter_char(c: char) -> bool {
    ('A' <= c <= 'Z') || ('a' <= c <= 'z')
}

/// The type code as text: each byte is the character with that number.
pub open spec fn code_text(code: Seq<u8>) -> Seq<char> {
    Seq::new(code.len(), |i: int| code[i] as char)
}

/// The bytes of a text whose characters are all below 256.
pub open spec fn text_code(text: Seq<char>) -> Seq<u8> {
    Seq::new(text.len(), |i: int| text[i] as u8)
}

/// What [`ChunkType::from_str`] makes of a text: white space around it is
/// dropped, then exactly four characters must be left, each an ASCII letter.
pub open spec fn parse_code(text: Seq<char>) -> Result<Seq<u8>, ChunkTypeError> {
    let t = trimmed(text);
    if t.len() != 4 {
        Err(ChunkTypeError::InvalidLength)
    } else if forall|i: int| 0 <= i < 4 ==> is_letter_char(#[trigger] t[i]) {
        Ok(text_code(t))
    } else {
        Err(ChunkTypeError::InvalidCharacter)
    }
}

/// A type code is valid UTF-8, and the text it encodes is [`code_text`].
pub proof fn lemma_code_is_utf8(code: Seq<u8>)
    requires
        is_type_code(code),
    ensures
        valid_utf8(code),
        encode_utf8(code_text(code)) == code,
        forall|t: Seq<char>| encode_utf8(t) == code ==> t == code_text(code),
{
    let text = code_text(code);
    assert(is_ascii_chars(text)) by {
        assert forall|i: int| 0 <= i < text.len() implies '\0' <= #[trigger] text[i] <= '\u{7f}' by {
            assert(is_letter(code[i]));
        }
    }
    is_ascii_chars_encode_utf8(text);
    assert(encode_utf8(text) =~= code) by {
        assert forall|i: int| 0 <= i < code.len() implies encode_utf8(text)[i] == code[i] by {
            assert(is_letter(code[i]));
            assert(text[i] as u8 == code[i]);
        }
    }
    encode_utf8_valid_utf8(text);
    encode_utf8_decode_utf8(text);
    assert forall|t: Seq<char>| encode_utf8(t) == code implies t == text by {
        encode_utf8_decode_utf8(t);
    }
}

/// Four letters, written as text and read back, give the same type code, and
/// the text of that type code is the text that was read.
pub proof fn lemma_parse_code_of_text(text: Seq<char>)
    requires
        text.len() == 4,
        forall|i: int| 0 <= i < 4 ==> is_letter_char(#[trigger] text[i]),
    ensures
        parse_code(text) == Ok::<Seq<u8>, ChunkTypeError>(text_code(text)),
        is_type_code(text_code(text)),
        code_text(text_code(text)) == text,
{
    assert(is_letter_char(text[0]) && is_letter_char(text[3]));
    assert(text.last() == text[3]);
    lemma_trimmed_is_identity(text);
    let code = text_code(text);
    assert forall|i: int| 0 <= i < 4 implies is_letter(#[trigger] code[i]) by {
        assert(is_letter_char(text[i]));
    }
    assert(code_text(code) =~= text) by {
        assert forall|i: int| 0 <= i < 4 implies code_text(code)[i] == text[i] by {
            assert(is_letter_char(text[i]));
        }
    }
}

/// The text of a type code is read back as that type code.
pub proof fn lemma_parse_code_of_code_text(code: Seq<u8>)
    requires
        is_type_code(code),
    ensures
        parse_code(code_text(code)) == Ok::<Seq<u8>, ChunkTypeError>(code),
{
    let text = code_text(code);
    assert forall|i: int| 0 <= i < 4 implies is_letter_char(#[trigger] text[i]) by {
        assert(is_letter(code[i]));
    }
    lemma_parse_code_of_text(text);
    assert(text_code(text) =~= code) by {
        assert forall|i: int| 0 <= i < 4 implies text_code(text)[i] == code[i] by {
            assert(is_letter(code[i]));
        }
    }
}

fn letter(b: u8) -> (r: bool)
    ensures
        r == is_letter(b),
{
    (65 <= b && b <= 90) || (97 <= b && b <= 122)
}

/// A validated chunk type code.
#[derive(Debug)]
pub struct ChunkType([u8; 4]);

impl View for ChunkType {
    type V = Seq<u8>;

    /// The four bytes of the code.
    closed spec fn view(&self) -> Seq<u8> {
        self.0@
    }
}

impl PartialEq for ChunkType {
    /// Two type codes are equal when their four bytes are.
    fn eq(&self, other: &ChunkType) -> (r: bool) {
        let r = self.0[0] == other.0[0] && self.0[1] == other.0[1] && self.0[2] == other.0[2]
            && self.0[3] == other.0[3];
        proof {
            if r {
                assert(self@ =~= other@);
            }
        }
        r
    }
}

impl PartialEqSpecImpl for ChunkType {
    open spec fn obeys_eq_spec() -> bool {
        true
    }

    open spec fn eq_spec(&self, other: &ChunkType) -> bool {
        self@ == other@
    }
}

impl Eq for ChunkType {

}

impl ChunkType {
    /// Every value of this type holds four ASCII letters.
    #[verifier::type_invariant]
    pub open spec fn letters_only(self) -> bool {
        is_type_code(self@)
    }

    /// Accepts four bytes as a type code if and only if each is an ASCII
    /// letter. The reserved bit is not looked at: see [`ChunkType::is_valid`].
    pub fn try_from(bytes: [u8; 4]) -> (r: Result<ChunkType, ChunkTypeError>)
        ensures
            is_type_code(bytes@) ==> (r matches Ok(t) && t@ == bytes@),
            !is_type_code(bytes@) ==> r == Err::<ChunkType, _>(ChunkTypeError::InvalidCharacter),
    {
        if letter(bytes[0]) && letter(bytes[1]) && letter(bytes[2]) && letter(bytes[3]) {
            Ok(ChunkType(bytes))
        } else {
            Err(ChunkTypeError::InvalidCharacter)
        }
    }

    /// Reads a type code from text: see [`parse_code`].
    pub fn from_str(s: &str) -> (r: Result<ChunkType, ChunkTypeError>)
        ensures
            match parse_code(s@) {
                Ok(code) => r matches Ok(t) && t@ == code,
                Err(e) => r matches Err(x) && x == e,
            },
    {
        let t = trim(s);
        if t.unicode_len() != 4 {
            return Err(ChunkTypeError::InvalidLength);
        }
        if !t.is_ascii() {
            proof {
                let i = choose|i: int| 0 <= i < t@.len() && !('\0' <= #[trigger] t@[i] <= '\u{7f}');
                assert(!is_letter_char(t@[i]));
            }
            return Err(ChunkTypeError::InvalidCharacter);
        }
        let bytes: [u8; 4] = [t.get_ascii(0), t.get_ascii(1), t.get_ascii(2), t.get_ascii(3)];
        proof {
            assert(bytes@ =~= text_code(t@));
            assert forall|i: int| 0 <= i < 4 implies (is_letter(#[trigger] bytes@[i])
                <==> is_letter_char(t@[i])) by {
                assert('\0' <= t@[i] <= '\u{7f}');
            }
            if is_type_code(bytes@) {
                assert forall|i: int| 0 <= i < 4 implies is_letter_char(#[trigger] t@[i]) by {
                    assert(is_letter(bytes@[i]));
                }
            } else {
                let i = choose|i: int| 0 <= i < 4 && !is_letter(#[trigger] bytes@[i]);
                assert(!is_letter_char(t@[i]));
            }
        }
        ChunkType::try_from(bytes)
    }

    /// The type code as text: see [`code_text`].
    pub fn to_string(&self) -> (r: String)
        ensures
            r@ == code_text(self@),
    {
        let code = self.bytes();
        proof {
            lemma_code_is_utf8(code@);
        }
        match from_utf8(code.as_slice()) {
            Ok(text) => text.to_owned(),
            // not taken: four ASCII letters are valid UTF-8
            Err(_) => "Invalid UTF-8".to_owned(),
        }
    }

    /// The raw code.
    pub fn bytes(&self) -> (r: [u8; 4])
        ensures
            r@ == self@,
            is_type_code(self@),
    {
        proof {
            use_type_invariant(self);
        }
        self.0
    }

    /// Whether a decoder must understand the chunk: the first letter is upper case.
    pub fn is_critical(&self) -> (r: bool)
        ensures
            r == !bit5(self@[0]),
            r == is_upper(self@[0]),
    {
        proof {
            use_type_invariant(self);
            lemma_bit5_is_case(self.0@[0]);
        }
        self.0[0] & 0x20 == 0
    }

    /// Whether the type code is registered: the second letter is upper case.
    pub fn is_public(&self) -> (r: bool)
        ensures
            r == !bit5(self@[1]),
            r == is_upper(self@[1]),
    {
        proof {
            use_type_invariant(self);
            lemma_bit5_is_case(self.0@[1]);
        }
        self.0[1] & 0x20 == 0
    }

    /// Whether the type code is a private one: the second letter is lower case.
    pub fn is_private(&self) -> (r: bool)
        ensures
            r == bit5(self@[1]),
            r == is_lower(self@[1]),
    {
        proof {
            use_type_invariant(self);
            lemma_bit5_is_case(self.0@[1]);
        }
        self.0[1] & 0x20 != 0
    }

    /// Whether the reserved bit is clear, as it must be: the third letter is upper case.
    pub fn is_reserved_bit_valid(&self) -> (r: bool)
        ensures
            r == !bit5(self@[2]),
            r == is_upper(self@[2]),
    {
        proof {
            use_type_invariant(self);
            lemma_bit5_is_case(self.0@[2]);
        }
        self.0[2] & 0x20 == 0
    }

    /// Whether an editor that does not know the chunk may copy it: the fourth
    /// letter is lower case.
    pub fn is_safe_to_copy(&self) -> (r: bool)
        ensures
            r == bit5(self@[3]),
            r == is_lower(self@[3]),
    {
        proof {
            use_type_invariant(self);
            lemma_bit5_is_case(self.0@[3]);
        }
        self.0[3] & 0x20 != 0
    }

    /// Whether the type code may stand in a file: the reserved bit is clear.
    /// That every byte is ASCII holds of every value of this type.
    pub fn is_valid(&self) -> (r: bool)
        ensures
            r == (!bit5(self@[2]) && forall|i: int| 0 <= i < 4 ==> (#[trigger] self@[i]) < 128),
            r == is_upper(self@[2]),
    {
        proof {
            use_type_invariant(self);
        }
        self.is_reserved_bit_valid()
    }
}

} // verus!
