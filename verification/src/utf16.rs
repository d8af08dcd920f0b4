//! Decoding of UTF-16.
use vstd::prelude::*;
use vstd::utf8::is_scalar;

verus! {

/// Whether `unit` is one half of a surrogate pair.
pub open spec fn is_surrogate(unit: u16) -> bool {
    0xD800 <= unit <= 0xDFFF
}

/// Whether `unit` is the first half of a surrogate pair.
pub open spec fn is_leading_surrogate(unit: u16) -> bool {
    0xD800 <= unit <= 0xDBFF
}

/// Whether `unit` is the second half of a surrogate pair.
pub open spec fn is_trailing_surrogate(unit: u16) -> bool {
    0xDC00 <= unit <= 0xDFFF
}

/// The code point that a surrogate pair stands for.
pub open spec fn supplementary(leading: u16, trailing: u16) -> u32 {
    (0x1_0000 + (leading - 0xD800) * 0x400 + (trailing - 0xDC00)) as u32
}

/// The characters that `units` encode. `None` if `units` is malformed: if it
/// holds a surrogate that is not part of a pair.
pub open spec fn decode_utf16(units: Seq<u16>) -> Option<Seq<char>>
    decreases units.len(),
{
    if units.len() == 0 {
        Some(Seq::empty())
    } else if !is_surrogate(units[0]) {
        match decode_utf16(units.skip(1)) {
            Some(rest) => Some(seq![units[0] as char] + rest),
            None => None,
        }
    } else if is_leading_surrogate(units[0]) && units.len() >= 2 && is_trailing_surrogate(
        units[1],
    ) {
        match decode_utf16(units.skip(2)) {
            Some(rest) => Some(seq![supplementary(units[0], units[1]) as char] + rest),
            None => None,
        }
    } else {
        None
    }
}

/// `char::from_u32`: the character with the given code point. There is one
/// exactly if the code point is a Unicode scalar value.
#[verifier::external_body]
fn char_from_u32(code_point: u32) -> (c: Option<char>)
    ensures
        c == if is_scalar(code_point) {
            Some(code_point as char)
        } else {
            None
        },
{
    char::from_u32(code_point)
}

/// `String::push`: appends `c` to the end of `text`.
#[verifier::external_body]
fn push_char(text: &mut String, c: char)
    ensures
        final(text)@ == old(text)@.push(c),
{
    text.push(c)
}

/// Decodes `units`. Malformed input is never repaired: there is no string
/// for it.
pub fn utf16_to_string(units: &[u16]) -> (decoded: Option<String>)
    ensures
        match decoded {
            Some(text) => decode_utf16(units@) == Some(text@),
            None => decode_utf16(units@) is None,
        },
{
    let mut text = String::new();
    let mut i: usize = 0;
    proof {
        assert(units@.skip(0) == units@);
        if decode_utf16(units@) is Some {
            assert(text@ + decode_utf16(units@).unwrap() == decode_utf16(units@).unwrap());
        }
    }
    while i < units.len()
        invariant
            i <= units.len(),
            decode_utf16(units@) == match decode_utf16(units@.skip(i as int)) {
                Some(rest) => Some(text@ + rest),
                None => None,
            },
        decreases units.len() - i,
    {
        let ghost rest = units@.skip(i as int);
        let ghost before = text@;
        let unit: u16 = units[i];
        let code_point: u32;
        let width: usize;
        if unit < 0xD800 || unit > 0xDFFF {
            code_point = unit as u32;
            width = 1;
        } else if unit <= 0xDBFF && i + 1 < units.len() && 0xDC00 <= units[i + 1] && units[i + 1]
            <= 0xDFFF {
            code_point = 0x1_0000 + (unit - 0xD800) as u32 * 0x400 + (units[i + 1] - 0xDC00) as u32;
            width = 2;
        } else {
            return None;
        }
        match char_from_u32(code_point) {
            Some(c) => push_char(&mut text, c),
            None => vstd::pervasive::unreached(),
        }
        proof {
            assert(rest.skip(width as int) == units@.skip(i + width));
            let tail = decode_utf16(rest.skip(width as int));
            if tail is Some {
                assert(before + (seq![code_point as char] + tail.unwrap()) == text@
                    + tail.unwrap());
            }
        }
        i = i + width;
    }
    assert(units@.skip(i as int) == Seq::<u16>::empty());
    Some(text)
}

} // verus!
