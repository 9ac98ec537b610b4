//! Fixed-width field alignment: right-align a formatted field by prepending
//! spaces, so that every status line keeps a stable column layout.

use vstd::prelude::*;
use vstd::string::StringExecFns;

verus! {

/// A sequence of `n` space characters.
pub open spec fn spaces(n: nat) -> Seq<char> {
    Seq::new(n, |i: int| ' ')
}

/// Right-align `str_to_format` in a field `chars_tot` characters wide by
/// prepending spaces. The field is never truncated, so the caller must pick a
/// width at least as wide as the content. The width counts characters; the
/// content must be ASCII, so that the character count and the byte count of
/// the content agree (every field this library produces is ASCII).
pub fn add_whitespace(str_to_format: String, chars_tot: u64) -> (ret: String)
    requires
        str_to_format@.len() <= chars_tot,
        vstd::utf8::is_ascii_chars(str_to_format@),
    ensures
        ret@ == spaces((chars_tot - str_to_format@.len()) as nat) + str_to_format@,
        ret@.len() == chars_tot,
        ret@.subrange(chars_tot - str_to_format@.len(), chars_tot as int) == str_to_format@,
        forall|i: int| 0 <= i < chars_tot - str_to_format@.len() ==> ret@[i] == ' ',
{
    proof {
        vstd::utf8::is_ascii_chars_encode_utf8(str_to_format@);
    }
    let char_num: u64 = str_to_format.as_str().as_bytes().len() as u64;
    let space_num: u64 = chars_tot - char_num;

    let mut ret_string = String::new();
    let mut i: u64 = 0;
    while i < space_num
        invariant
            i <= space_num,
            ret_string@ == spaces(i as nat),
        decreases space_num - i,
    {
        ret_string.append(" ");
        i = i + 1;
        proof {
            reveal_strlit(" ");
            assert(ret_string@ =~= spaces(i as nat));
        }
    }
    ret_string.append(str_to_format.as_str());
    proof {
        assert(ret_string@.subrange(
            chars_tot - str_to_format@.len(),
            chars_tot as int,
        ) =~= str_to_format@);
    }
    ret_string
}

/// `s` right-aligned in a field of `width` characters when it fits; wider
/// content is kept whole and unpadded — a field is never truncated.
pub open spec fn pad_or_keep(s: Seq<char>, width: nat) -> Seq<char> {
    if s.len() <= width {
        spaces((width - s.len()) as nat) + s
    } else {
        s
    }
}

/// Right-align `s` in a field of `width` characters. Content wider than the
/// field is passed through unpadded rather than truncated: the caller picks
/// widths wide enough for plausible values.
pub fn pad_field(s: String, width: u64) -> (r: String)
    requires
        vstd::utf8::is_ascii_chars(s@),
    ensures
        r@ == pad_or_keep(s@, width as nat),
{
    proof {
        vstd::utf8::is_ascii_chars_encode_utf8(s@);
    }
    let n: u64 = s.as_str().as_bytes().len() as u64;
    if n <= width {
        add_whitespace(s, width)
    } else {
        s
    }
}

} // verus!
