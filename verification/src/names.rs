//! Identifier transforms used to derive pipeline identities and generated
//! type names: camel-casing, ASCII lower-casing, entry-point prefix
//! extraction, and dash-to-underscore normalization.

use vstd::prelude::*;

verus! {

/// Whether a character is an ASCII lower-case letter.
pub open spec fn is_low(c: char) -> bool {
    'a' <= c && c <= 'z'
}

/// Whether a character is an ASCII upper-case letter.
pub open spec fn is_up(c: char) -> bool {
    'A' <= c && c <= 'Z'
}

/// The ASCII upper-case counterpart of a character; anything that is not an
/// ASCII lower-case letter is left as it is.
pub open spec fn up_char(c: char) -> char {
    if is_low(c) {
        (((c as u32) - 32) as u8) as char
    } else {
        c
    }
}

/// The ASCII lower-case counterpart of a character; anything that is not an
/// ASCII upper-case letter is left as it is.
pub open spec fn low_char(c: char) -> char {
    if is_up(c) {
        (((c as u32) + 32) as u8) as char
    } else {
        c
    }
}

/// Relies on String::push: the new string is the old one with the character
/// appended.
#[verifier::external_body]
fn push_char(s: &mut String, c: char)
    ensures
        final(s)@ == old(s)@.push(c),
{
    s.push(c);
}

/// ASCII upper-case of one character in executable code.
fn upper_char(c: char) -> (r: char)
    ensures
        r == up_char(c),
{
    if 'a' <= c && c <= 'z' {
        (((c as u32) - 32) as u8) as char
    } else {
        c
    }
}

/// ASCII lower-case of one character in executable code.
fn lower_char(c: char) -> (r: char)
    ensures
        r == low_char(c),
{
    if 'A' <= c && c <= 'Z' {
        (((c as u32) + 32) as u8) as char
    } else {
        c
    }
}

/// Camel-casing of an identifier, reading left to right: an underscore or a
/// dash is dropped and marks a word boundary; the first character of each
/// word is upper-cased; everything else is kept. The flag says whether the
/// next character starts a word.
pub open spec fn camel_rec(s: Seq<char>, boundary: bool) -> Seq<char>
    decreases s.len(),
{
    if s.len() == 0 {
        Seq::empty()
    } else if s[0] == '_' || s[0] == '-' {
        camel_rec(s.skip(1), true)
    } else if boundary {
        seq![up_char(s[0])] + camel_rec(s.skip(1), false)
    } else {
        seq![s[0]] + camel_rec(s.skip(1), false)
    }
}

/// The camel-case form of an identifier.
pub open spec fn camel_of(s: Seq<char>) -> Seq<char> {
    camel_rec(s, true)
}

/// Character-wise ASCII lower-casing.
pub open spec fn lower_of(s: Seq<char>) -> Seq<char> {
    s.map_values(|c: char| low_char(c))
}

/// Character-wise dash-to-underscore replacement.
pub open spec fn undash_of(s: Seq<char>) -> Seq<char> {
    s.map_values(|c: char| if c == '-' { '_' } else { c })
}

/// Converts an identifier such as `simple_shader` to its camel-case form
/// `SimpleShader`: word boundaries at underscores and dashes, which are
/// dropped, with the first letter of each word upper-cased.
pub fn to_camelcase(s: &str) -> (r: String)
    ensures
        r@ == camel_of(s@),
{
    let n = s.unicode_len();
    let mut r = String::new();
    let mut i: usize = 0;
    let mut boundary = true;
    proof {
        assert(s@.skip(0) =~= s@);
        assert(r@ + camel_rec(s@, true) =~= camel_rec(s@, true));
    }
    while i < n
        invariant
            n == s@.len(),
            0 <= i <= n,
            camel_of(s@) == r@ + camel_rec(s@.skip(i as int), boundary),
        decreases n - i,
    {
        let c = s.get_char(i);
        let ghost rest = s@.skip(i as int);
        proof {
            assert(rest[0] == s@[i as int]);
            assert(rest.skip(1) =~= s@.skip(i + 1));
        }
        if c == '_' || c == '-' {
            boundary = true;
        } else if boundary {
            push_char(&mut r, upper_char(c));
            boundary = false;
            proof {
                assert(r@ + camel_rec(s@.skip(i + 1), false) =~= (r@.drop_last() + (seq![
                    up_char(c),
                ] + camel_rec(s@.skip(i + 1), false))));
            }
        } else {
            push_char(&mut r, c);
            proof {
                assert(r@ + camel_rec(s@.skip(i + 1), false) =~= (r@.drop_last() + (seq![c]
                    + camel_rec(s@.skip(i + 1), false))));
            }
        }
        i = i + 1;
    }
    proof {
        assert(s@.skip(n as int) =~= Seq::<char>::empty());
        assert(camel_of(s@) =~= r@);
    }
    r
}

/// Character-wise ASCII lower-casing of an identifier.
pub fn to_lowercase(s: &str) -> (r: String)
    ensures
        r@ == lower_of(s@),
{
    let n = s.unicode_len();
    let mut r = String::new();
    let mut i: usize = 0;
    while i < n
        invariant
            n == s@.len(),
            0 <= i <= n,
            r@ == s@.take(i as int).map_values(|c: char| low_char(c)),
        decreases n - i,
    {
        let c = s.get_char(i);
        push_char(&mut r, lower_char(c));
        proof {
            assert(s@.take(i + 1).map_values(|ch: char| low_char(ch)) =~= s@.take(
                i as int,
            ).map_values(|ch: char| low_char(ch)).push(low_char(s@[i as int])));
        }
        i = i + 1;
    }
    proof {
        assert(s@.take(n as int) =~= s@);
    }
    r
}

/// Character-wise dash-to-underscore replacement, used to derive the name of
/// the compiled bytecode blob from a module name.
pub fn undash(s: &str) -> (r: String)
    ensures
        r@ == undash_of(s@),
{
    let n = s.unicode_len();
    let mut r = String::new();
    let mut i: usize = 0;
    while i < n
        invariant
            n == s@.len(),
            0 <= i <= n,
            r@ == s@.take(i as int).map_values(|c: char| if c == '-' { '_' } else { c }),
        decreases n - i,
    {
        let c = s.get_char(i);
        if c == '-' {
            push_char(&mut r, '_');
        } else {
            push_char(&mut r, c);
        }
        proof {
            assert(s@.take(i + 1).map_values(|ch: char| if ch == '-' { '_' } else { ch }) =~= s@
                .take(i as int).map_values(|ch: char| if ch == '-' { '_' } else { ch }).push(
                if s@[i as int] == '-' { '_' } else { s@[i as int] },
            ));
        }
        i = i + 1;
    }
    proof {
        assert(s@.take(n as int) =~= s@);
    }
    r
}

/// Whether an entry-point name carries the given three-character stage
/// suffix, such as `_fs` or `_vs`.
pub open spec fn has_suffix3(s: Seq<char>, a: char, b: char, c: char) -> bool {
    s.len() >= 3 && s[s.len() - 3] == a && s[s.len() - 2] == b && s[s.len() - 1] == c
}

/// The common pipeline name prefix of an entry point: the name with a
/// trailing `_fs` or `_vs` stage suffix stripped, or the whole name when it
/// carries no such suffix.
pub open spec fn prefix_of(s: Seq<char>) -> Seq<char> {
    if has_suffix3(s, '_', 'f', 's') || has_suffix3(s, '_', 'v', 's') {
        s.take(s.len() - 3)
    } else {
        s
    }
}

/// Strips a trailing `_fs` or `_vs` stage suffix from an entry-point name.
pub fn get_prefix(s: &str) -> (r: String)
    ensures
        r@ == prefix_of(s@),
{
    let n = s.unicode_len();
    if n >= 3 {
        let a = s.get_char(n - 3);
        let b = s.get_char(n - 2);
        let c = s.get_char(n - 1);
        if a == '_' && (b == 'f' || b == 'v') && c == 's' {
            return s.substring_char(0, n - 3).to_owned();
        }
    }
    s.to_owned()
}

} // verus!
