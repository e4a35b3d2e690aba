use vstd::prelude::*;
use crate::text::{chars_of, string_of};

verus! {

/// The ROT13 image of one character: ASCII letters move 13 places round
/// their alphabet, keeping case; every other character is left alone.
pub open spec fn rot13_char_spec(c: char) -> char {
    if 'a' <= c && c <= 'z' {
        ((((c as u32 - 'a' as u32) + 13) % 26) + 'a' as u32) as char
    } else if 'A' <= c && c <= 'Z' {
        ((((c as u32 - 'A' as u32) + 13) % 26) + 'A' as u32) as char
    } else {
        c
    }
}

/// ROT13 applied character by character.
pub open spec fn rot13_spec(s: Seq<char>) -> Seq<char> {
    s.map_values(|c: char| rot13_char_spec(c))
}

/// ROT13 of a single character.
pub fn rot13_char(c: char) -> (r: char)
    ensures
        r == rot13_char_spec(c),
{
    if 'a' <= c && c <= 'z' {
        ((((c as u32 - 'a' as u32) + 13) % 26) + 'a' as u32) as u8 as char
    } else if 'A' <= c && c <= 'Z' {
        ((((c as u32 - 'A' as u32) + 13) % 26) + 'A' as u32) as u8 as char
    } else {
        c
    }
}

/// ROT13 of every character of `s`.
pub fn rot13_chars(s: &Vec<char>) -> (r: Vec<char>)
    ensures
        r@ == rot13_spec(s@),
{
    let mut r: Vec<char> = Vec::new();
    let mut i: usize = 0;
    while i < s.len()
        invariant
            i <= s@.len(),
            r@ == rot13_spec(s@.subrange(0, i as int)),
        decreases s@.len() - i,
    {
        r.push(rot13_char(s[i]));
        i = i + 1;
        assert(r@ =~= rot13_spec(s@.subrange(0, i as int)));
    }
    assert(s@.subrange(0, s@.len() as int) =~= s@);
    r
}

/// Decodes (equivalently, encodes) `s` with ROT13.
pub fn rot13_decode(s: &str) -> (r: String)
    ensures
        r@ == rot13_spec(s@),
{
    let v = chars_of(s);
    let d = rot13_chars(&v);
    string_of(&d)
}

/// ROT13 undoes itself on every character.
pub proof fn lemma_rot13_char_involution(c: char)
    ensures
        rot13_char_spec(rot13_char_spec(c)) == c,
{
}

/// ROT13 applied twice gives back the string it started from.
pub proof fn lemma_rot13_involution(s: Seq<char>)
    ensures
        rot13_spec(rot13_spec(s)) == s,
{
    assert forall|i: int| 0 <= i < s.len() implies rot13_spec(rot13_spec(s))[i] == s[i] by {
        lemma_rot13_char_involution(s[i]);
    }
    assert(rot13_spec(rot13_spec(s)) =~= s);
}

} // verus!
