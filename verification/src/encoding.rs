//! Base64, in the four forms that clients use.

use vstd::prelude::*;

verus! {

/// A form of base64: with the letters that are safe in an address or the standard ones, and padded
/// to a multiple of four characters or not.
#[derive(Debug, Clone, Copy, PartialEq, Eq, Structural)]
pub enum Base64Form {
    UrlSafeUnpadded,
    UrlSafe,
    StandardUnpadded,
    Standard,
}

impl Base64Form {
    pub open spec fn url_safe(self) -> bool {
        self == Base64Form::UrlSafeUnpadded || self == Base64Form::UrlSafe
    }

    pub open spec fn padded(self) -> bool {
        self == Base64Form::UrlSafe || self == Base64Form::Standard
    }
}

/// The digit for a number below 64.
pub open spec fn base64_digit(value: int, url_safe: bool) -> char {
    if value < 26 {
        (('A' as u32 + value) as u32) as char
    } else if value < 52 {
        (('a' as u32 + value - 26) as u32) as char
    } else if value < 62 {
        (('0' as u32 + value - 52) as u32) as char
    } else if value == 62 {
        if url_safe {
            '-'
        } else {
            '+'
        }
    } else {
        if url_safe {
            '_'
        } else {
            '/'
        }
    }
}

/// The base64 of bytes: four digits for every three bytes, and two or three for those that are left.
pub open spec fn base64_text(bytes: Seq<u8>, form: Base64Form) -> Seq<char>
    decreases bytes.len(),
{
    let safe = form.url_safe();
    if bytes.len() == 0 {
        Seq::empty()
    } else if bytes.len() == 1 {
        seq![
            base64_digit(bytes[0] as int / 4, safe),
            base64_digit(bytes[0] as int % 4 * 16, safe),
        ] + if form.padded() {
            seq!['=', '=']
        } else {
            Seq::empty()
        }
    } else if bytes.len() == 2 {
        seq![
            base64_digit(bytes[0] as int / 4, safe),
            base64_digit(bytes[0] as int % 4 * 16 + bytes[1] as int / 16, safe),
            base64_digit(bytes[1] as int % 16 * 4, safe),
        ] + if form.padded() {
            seq!['=']
        } else {
            Seq::empty()
        }
    } else {
        seq![
            base64_digit(bytes[0] as int / 4, safe),
            base64_digit(bytes[0] as int % 4 * 16 + bytes[1] as int / 16, safe),
            base64_digit(bytes[1] as int % 16 * 4 + bytes[2] as int / 64, safe),
            base64_digit(bytes[2] as int % 64, safe),
        ] + base64_text(bytes.skip(3), form)
    }
}

/// Whether a text is the base64 of bytes in one of the four forms.
pub open spec fn encodes(text: Seq<char>, bytes: Seq<u8>) -> bool {
    exists|form: Base64Form| text == #[trigger] base64_text(bytes, form)
}

/// The bytes that a text is the base64 of, in whichever form; `None` where it is no base64.
pub open spec fn base64_bytes(text: Seq<char>) -> Option<Seq<u8>> {
    if exists|bytes: Seq<u8>| encodes(text, bytes) {
        Some(choose|bytes: Seq<u8>| encodes(text, bytes))
    } else {
        None
    }
}

/// `base64::Engine::decode` of the engine of `base64::engine::general_purpose` that stands for a
/// form: the bytes that the text is the base64 of, and an error where there are none.
///
/// The engines take neither surplus bits in the last digit nor, where padding is to be there,
/// anything but as much as completes the last four characters, nor, where it is not, any.
#[verifier::external_body]
fn decode(text: &str, form: Base64Form) -> (r: Option<Vec<u8>>)
    ensures
        match r {
            Some(bytes) => base64_text(bytes@, form) == text@,
            None => forall|bytes: Seq<u8>| #[trigger] base64_text(bytes, form) != text@,
        },
{
    let engine = match form {
        Base64Form::UrlSafeUnpadded => base64::engine::general_purpose::URL_SAFE_NO_PAD,
        Base64Form::UrlSafe => base64::engine::general_purpose::URL_SAFE,
        Base64Form::StandardUnpadded => base64::engine::general_purpose::STANDARD_NO_PAD,
        Base64Form::Standard => base64::engine::general_purpose::STANDARD,
    };
    base64::Engine::decode(&engine, text).ok()
}

proof fn lemma_digit(x: int, x_safe: bool, y: int, y_safe: bool)
    requires
        0 <= x < 64,
        0 <= y < 64,
    ensures
        base64_digit(x, x_safe) == base64_digit(y, y_safe) ==> x == y,
        base64_digit(x, x_safe) != '=',
{
}

/// The byte at a position; zero past the end.
spec fn byte_at(bytes: Seq<u8>, i: int) -> int {
    if i < bytes.len() {
        bytes[i] as int
    } else {
        0
    }
}

spec fn second_digit(bytes: Seq<u8>) -> int {
    byte_at(bytes, 0) % 4 * 16 + byte_at(bytes, 1) / 16
}

spec fn third_digit(bytes: Seq<u8>) -> int {
    byte_at(bytes, 1) % 16 * 4 + byte_at(bytes, 2) / 64
}

/// How the base64 of at least one byte begins.
proof fn lemma_first_group(bytes: Seq<u8>, form: Base64Form)
    requires
        bytes.len() > 0,
    ensures
        ({
            let text = base64_text(bytes, form);
            let safe = form.url_safe();
            &&& text.len() >= 2
            &&& text[0] == base64_digit(byte_at(bytes, 0) / 4, safe)
            &&& text[1] == base64_digit(second_digit(bytes), safe)
            &&& bytes.len() == 1 ==> text.len() == 2 || (text.len() > 2 && text[2] == '=')
            &&& bytes.len() > 1 ==> text.len() > 2 && text[2] == base64_digit(
                third_digit(bytes),
                safe,
            )
            &&& bytes.len() == 2 ==> text.len() == 3 || (text.len() > 3 && text[3] == '=')
            &&& bytes.len() > 2 ==> text.len() > 3 && text[3] == base64_digit(
                byte_at(bytes, 2) % 64,
                safe,
            )
            &&& bytes.len() > 2 ==> text.skip(4) == base64_text(bytes.skip(3), form)
        }),
{
    let text = base64_text(bytes, form);
    if bytes.len() > 2 {
        assert(text.skip(4) =~= base64_text(bytes.skip(3), form));
    }
}

/// The digits of a group determine its bytes.
proof fn lemma_group(a0: int, a1: int, a2: int, b0: int, b1: int, b2: int)
    requires
        0 <= a0 < 256,
        0 <= a1 < 256,
        0 <= a2 < 256,
        0 <= b0 < 256,
        0 <= b1 < 256,
        0 <= b2 < 256,
        a0 / 4 == b0 / 4,
        a0 % 4 * 16 + a1 / 16 == b0 % 4 * 16 + b1 / 16,
    ensures
        a0 == b0,
        a1 / 16 == b1 / 16,
        a1 % 16 * 4 + a2 / 64 == b1 % 16 * 4 + b2 / 64 ==> a1 == b1 && a2 / 64 == b2 / 64,
{
}

/// A text is the base64 of no more than one sequence of bytes, whatever the forms.
pub proof fn law_base64_is_unambiguous(
    bytes: Seq<u8>,
    form: Base64Form,
    other: Seq<u8>,
    other_form: Base64Form,
)
    requires
        base64_text(bytes, form) == base64_text(other, other_form),
    ensures
        bytes == other,
    decreases bytes.len(),
{
    if bytes.len() == 0 {
        if other.len() > 0 {
            lemma_first_group(other, other_form);
        }
        assert(bytes =~= other);
    } else if other.len() == 0 {
        lemma_first_group(bytes, form);
    } else {
        let p = form.url_safe();
        let q = other_form.url_safe();
        lemma_first_group(bytes, form);
        lemma_first_group(other, other_form);
        lemma_digit(byte_at(bytes, 0) / 4, p, byte_at(other, 0) / 4, q);
        lemma_digit(second_digit(bytes), p, second_digit(other), q);
        lemma_digit(third_digit(bytes), p, third_digit(other), q);
        lemma_digit(third_digit(other), q, third_digit(bytes), p);
        lemma_digit(byte_at(bytes, 2) % 64, p, byte_at(other, 2) % 64, q);
        lemma_digit(byte_at(other, 2) % 64, q, byte_at(bytes, 2) % 64, p);
        lemma_group(
            byte_at(bytes, 0),
            byte_at(bytes, 1),
            byte_at(bytes, 2),
            byte_at(other, 0),
            byte_at(other, 1),
            byte_at(other, 2),
        );
        assert(bytes.len() == 1 <==> other.len() == 1);
        assert(bytes.len() == 2 <==> other.len() == 2);
        if bytes.len() > 2 {
            law_base64_is_unambiguous(bytes.skip(3), form, other.skip(3), other_form);
            assert(bytes.take(3) =~= other.take(3));
            assert(bytes =~= bytes.take(3) + bytes.skip(3));
            assert(other =~= other.take(3) + other.skip(3));
        } else {
            assert(bytes =~= other);
        }
    }
}

/// What is encoded in any of the four forms is decoded to what it was.
pub proof fn law_base64_reads_back(bytes: Seq<u8>, form: Base64Form)
    ensures
        base64_bytes(base64_text(bytes, form)) == Some(bytes),
{
    let text = base64_text(bytes, form);
    assert(encodes(text, bytes));
    let found = choose|found: Seq<u8>| encodes(text, found);
    let found_form = choose|found_form: Base64Form| text == #[trigger] base64_text(
        found,
        found_form,
    );
    law_base64_is_unambiguous(bytes, form, found, found_form);
}

fn decode_in(text: &str, form: Base64Form) -> (r: Option<Vec<u8>>)
    ensures
        match r {
            Some(bytes) => base64_bytes(text@) == Some(bytes@),
            None => forall|bytes: Seq<u8>| #[trigger] base64_text(bytes, form) != text@,
        },
{
    let decoded = decode(text, form);
    proof {
        if decoded is Some {
            law_base64_reads_back(decoded->0@, form);
        }
    }
    decoded
}

/// The bytes that a text is the base64 of, in whichever form; `None` where it is no base64.
pub fn decode_blossom_authorization(encoded: &str) -> (r: Option<Vec<u8>>)
    ensures
        match r {
            Some(bytes) => base64_bytes(encoded@) == Some(bytes@),
            None => base64_bytes(encoded@) is None,
        },
{
    if let Some(bytes) = decode_in(encoded, Base64Form::UrlSafeUnpadded) {
        return Some(bytes);
    }
    if let Some(bytes) = decode_in(encoded, Base64Form::UrlSafe) {
        return Some(bytes);
    }
    if let Some(bytes) = decode_in(encoded, Base64Form::StandardUnpadded) {
        return Some(bytes);
    }
    if let Some(bytes) = decode_in(encoded, Base64Form::Standard) {
        return Some(bytes);
    }
    None
}

} // verus!
