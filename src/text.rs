//! Character-level building blocks shared by the normalizer and the reply
//! formatter: whitespace, first-letter upper-casing and string building.

use vstd::prelude::*;

verus! {

/// The characters that carry the Unicode `White_Space` property.
pub open spec fn is_white_space(c: char) -> bool {
    ||| '\u{9}' <= c <= '\u{d}'
    ||| c == ' '
    ||| c == '\u{85}'
    ||| c == '\u{a0}'
    ||| c == '\u{1680}'
    ||| '\u{2000}' <= c <= '\u{200a}'
    ||| c == '\u{2028}'
    ||| c == '\u{2029}'
    ||| c == '\u{202f}'
    ||| c == '\u{205f}'
    ||| c == '\u{3000}'
}

/// `char::is_whitespace` is documented to test the `White_Space` property.
pub assume_specification[ char::is_whitespace ](c: char) -> (r: bool)
    ensures
        r == is_white_space(c),
;

/// `String::push` appends one character.
pub assume_specification[ String::push ](s: &mut String, ch: char)
    ensures
        final(s)@ == old(s)@.push(ch),
;

/// What `char::to_uppercase` yields for a character: its full Unicode
/// upper-case mapping, which may be more than one character.
pub uninterp spec fn upper_of(c: char) -> Seq<char>;

/// The ASCII letters `a` to `z`.
pub open spec fn is_ascii_lower(c: char) -> bool {
    'a' <= c <= 'z'
}

/// Relies on `char::to_uppercase`: the Unicode upper-case mapping of `c`, one
/// or more characters; within ASCII, `a` to `z` map to `A` to `Z` and every
/// other character maps to itself.
#[verifier::external_body]
pub(crate) fn upper(c: char) -> (r: String)
    ensures
        r@ == upper_of(c),
        r@.len() >= 1,
        is_ascii_lower(c) ==> r@ =~= seq![(c as u32 - 32) as char],
        (c as u32) < 128 && !is_ascii_lower(c) ==> r@ =~= seq![c],
{
    c.to_uppercase().collect()
}

} // verus!
