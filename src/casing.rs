//! Conversions between snake_case and PascalCase identifiers.
use vstd::prelude::*;
use crate::text::{
    chars_of, is_ascii_alnum, is_ascii_upper, lower_char, push_char, to_ascii_lower,
    to_ascii_upper, upper_char,
};

verus! {

/// PascalCase conversion of `s` as a scan from left to right: the output so far,
/// and whether the next kept character starts a new word.
pub open spec fn pascal_scan(s: Seq<char>) -> (Seq<char>, bool)
    decreases s.len(),
{
    if s.len() == 0 {
        (Seq::empty(), true)
    } else {
        let (out, cap) = pascal_scan(s.drop_last());
        let c = s.last();
        if is_ascii_alnum(c) {
            if cap {
                (out.push(to_ascii_upper(c)), false)
            } else {
                (out.push(c), false)
            }
        } else {
            (out, true)
        }
    }
}

/// Non-alphanumeric characters separate words and are dropped; the first
/// character of each word is upper-cased, the others are kept as they are.
pub open spec fn pascal_of(s: Seq<char>) -> Seq<char> {
    pascal_scan(s).0
}

/// snake_case conversion of `s` as a scan from left to right: the output so far,
/// and whether the last input character was an upper-case letter.
pub open spec fn snake_scan(s: Seq<char>) -> (Seq<char>, bool)
    decreases s.len(),
{
    if s.len() == 0 {
        (Seq::empty(), false)
    } else {
        let (out, prev_upper) = snake_scan(s.drop_last());
        let c = s.last();
        if is_ascii_upper(c) {
            let sep = if out.len() > 0 && !prev_upper {
                out.push('_')
            } else {
                out
            };
            (sep.push(to_ascii_lower(c)), true)
        } else {
            (out.push(c), false)
        }
    }
}

/// Each upper-case letter is lower-cased, with an underscore before it where
/// it starts a run of capitals and is not the first character written.
pub open spec fn snake_of(s: Seq<char>) -> Seq<char> {
    snake_scan(s).0
}

pub fn to_pascal_case(input: &str) -> (r: String)
    ensures
        r@ == pascal_of(input@),
{
    let cs = chars_of(input);
    let mut output = String::new();
    let mut capitalize_next = true;
    let mut i: usize = 0;
    while i < cs.len()
        invariant
            cs@ == input@,
            i <= cs@.len(),
            (output@, capitalize_next) == pascal_scan(input@.subrange(0, i as int)),
        decreases cs.len() - i,
    {
        let c = cs[i];
        assert(input@.subrange(0, i + 1).drop_last() =~= input@.subrange(0, i as int));
        if ('a' <= c && c <= 'z') || ('A' <= c && c <= 'Z') || ('0' <= c && c <= '9') {
            if capitalize_next {
                push_char(&mut output, upper_char(c));
                capitalize_next = false;
            } else {
                push_char(&mut output, c);
            }
        } else {
            capitalize_next = true;
        }
        i = i + 1;
    }
    assert(input@.subrange(0, cs.len() as int) =~= input@);
    output
}

pub fn to_snake_case(input: &str) -> (r: String)
    ensures
        r@ == snake_of(input@),
{
    let cs = chars_of(input);
    let mut output = String::new();
    let mut prev_is_uppercase = false;
    let mut i: usize = 0;
    while i < cs.len()
        invariant
            cs@ == input@,
            i <= cs@.len(),
            (output@, prev_is_uppercase) == snake_scan(input@.subrange(0, i as int)),
        decreases cs.len() - i,
    {
        let c = cs[i];
        assert(input@.subrange(0, i + 1).drop_last() =~= input@.subrange(0, i as int));
        if 'A' <= c && c <= 'Z' {
            if output.as_str().unicode_len() > 0 && !prev_is_uppercase {
                push_char(&mut output, '_');
            }
            push_char(&mut output, lower_char(c));
            prev_is_uppercase = true;
        } else {
            push_char(&mut output, c);
            prev_is_uppercase = false;
        }
        i = i + 1;
    }
    assert(input@.subrange(0, cs.len() as int) =~= input@);
    output
}

} // verus!
