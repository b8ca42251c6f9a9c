//! Names of the proof's elements in the generated verifiers: snake case in
//! Aiken, lower camel case in Plinth.

use vstd::prelude::*;

use crate::extraction::text::{decimal, push_decimal};

verus! {

/// The upper-case form of an ASCII lower-case letter; other characters are
/// kept.
pub open spec fn ascii_upper(c: char) -> char {
    if 'a' <= c <= 'z' {
        ((c as int) - 32) as char
    } else {
        c
    }
}

/// Lower camel case of a snake-case name: underscores are dropped and the
/// character after one is upper-cased.
pub open spec fn snake_to_camel(s: Seq<char>) -> Seq<char>
    decreases s.len(),
{
    if s.len() == 0 {
        Seq::empty()
    } else {
        let c = s.last();
        let head = snake_to_camel(s.drop_last());
        if c == '_' {
            head
        } else if s.len() >= 2 && s[s.len() - 2] == '_' {
            head.push(ascii_upper(c))
        } else {
            head.push(c)
        }
    }
}

/// How a value of the proof is read in Aiken: a field of `p`.
pub open spec fn aiken_access(snake: Seq<char>) -> Seq<char> {
    "p."@ + snake
}

/// How a value of the proof is read in Plinth: a field of `pieces`.
pub open spec fn plinth_access(snake: Seq<char>) -> Seq<char> {
    snake_to_camel(snake) + " pieces"@
}

/// `prefix` followed by the index.
pub open spec fn indexed(prefix: Seq<char>, idx: nat) -> Seq<char> {
    prefix + decimal(idx)
}

/// `prefix`, the index, then `suffix`.
pub open spec fn indexed_mid(prefix: Seq<char>, idx: nat, suffix: Seq<char>) -> Seq<char> {
    prefix + decimal(idx) + suffix
}

/// The ASCII upper case of a character: 'a' to 'z' become 'A' to 'Z',
/// other characters are unchanged.
fn ascii_upper_of(c: char) -> (u: char)
    ensures
        u == ascii_upper(c),
{
    if 'a' <= c && c <= 'z' {
        let b: u8 = (c as u32 - 32) as u8;
        b as char
    } else {
        c
    }
}

/// Lower camel case of a snake-case name.
pub fn snake_to_lower_camel(value: &str) -> (r: String)
    ensures
        r@ == snake_to_camel(value@),
{
    let n = value.unicode_len();
    let mut out = String::new();
    let mut i: usize = 0;
    assert(value@.take(0) =~= Seq::<char>::empty());
    while i < n
        invariant
            i <= n,
            n == value@.len(),
            out@ == snake_to_camel(value@.take(i as int)),
        decreases n - i,
    {
        let c = value.get_char(i);
        let ghost t = value@.take(i + 1);
        assert(t.drop_last() =~= value@.take(i as int));
        assert(t.last() == c);
        if c != '_' {
            let capital = i > 0 && value.get_char(i - 1) == '_';
            if i > 0 {
                assert(t[t.len() - 2] == value@[i - 1]);
            }
            let d = if capital { ascii_upper_of(c) } else { c };
            push_char(&mut out, d);
        }
        i = i + 1;
    }
    assert(value@.take(n as int) =~= value@);
    out
}

/// `String::push`: appends one character.
#[verifier::external_body]
fn push_char(s: &mut String, c: char)
    ensures
        final(s)@ == old(s)@.push(c),
{
    s.push(c)
}

/// Appends `prefix`, the index, then `suffix`.
pub fn indexed_name(prefix: &str, idx: usize, suffix: &str) -> (r: String)
    ensures
        r@ == indexed_mid(prefix@, idx as nat, suffix@),
{
    let mut s = String::from_str(prefix);
    push_decimal(&mut s, idx as u64);
    s.append(suffix);
    s
}

/// `prefix` followed by the index.
pub fn numbered(prefix: &str, idx: usize) -> (r: String)
    ensures
        r@ == indexed(prefix@, idx as nat),
{
    let mut s = String::from_str(prefix);
    push_decimal(&mut s, idx as u64);
    s
}

} // verus!
