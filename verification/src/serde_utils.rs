//! Conversions between `snake_case` and `camelCase` field names.

use vstd::prelude::*;

verus! {

/// The characters that `char::to_uppercase` yields for `c`, in order.
pub uninterp spec fn uppercase_of(c: char) -> Seq<char>;

/// The characters that `char::to_lowercase` yields for `c`, in order.
pub uninterp spec fn lowercase_of(c: char) -> Seq<char>;

/// Whether `char::is_uppercase` holds of `c`.
pub uninterp spec fn is_uppercase_char(c: char) -> bool;

/// Calls `char::to_uppercase` and collects what it yields. Unicode decides
/// the result, which may hold more than one character; the contract only
/// names it.
#[verifier::external_body]
fn char_to_uppercase(c: char) -> (out: Vec<char>)
    ensures
        out@ == uppercase_of(c),
{
    c.to_uppercase().collect()
}

/// Calls `char::to_lowercase` and collects what it yields; the contract only
/// names the result.
#[verifier::external_body]
fn char_to_lowercase(c: char) -> (out: Vec<char>)
    ensures
        out@ == lowercase_of(c),
{
    c.to_lowercase().collect()
}

/// Calls `char::is_uppercase`; the contract only names the result.
#[verifier::external_body]
fn char_is_uppercase(c: char) -> (b: bool)
    ensures
        b == is_uppercase_char(c),
{
    c.is_uppercase()
}

/// What position `i` of a snake-case name contributes to its camel-case
/// form: nothing for an underscore, the upper-case form for a character that
/// directly follows an underscore, the character itself otherwise.
pub open spec fn camel_piece(s: Seq<char>, i: int) -> Seq<char> {
    if s[i] == '_' {
        Seq::empty()
    } else if i > 0 && s[i - 1] == '_' {
        uppercase_of(s[i])
    } else {
        seq![s[i]]
    }
}

/// The camel-case form of the first `n` characters of `s`.
pub open spec fn camel_prefix(s: Seq<char>, n: int) -> Seq<char>
    decreases n,
{
    if n <= 0 {
        Seq::empty()
    } else {
        camel_prefix(s, n - 1) + camel_piece(s, n - 1)
    }
}

/// The camel-case form of a snake-case name.
pub open spec fn snake_to_camel_spec(s: Seq<char>) -> Seq<char> {
    camel_prefix(s, s.len() as int)
}

/// The first character of the lower-case form of `c`, or `c` itself where
/// that form is empty.
pub open spec fn lower_first(c: char) -> char {
    if lowercase_of(c).len() > 0 {
        lowercase_of(c)[0]
    } else {
        c
    }
}

/// What position `i` of a camel-case name contributes to its snake-case
/// form: the lower-cased character, preceded by an underscore where an
/// upper-case character follows one that is not upper-case.
pub open spec fn snake_piece(s: Seq<char>, i: int) -> Seq<char> {
    if is_uppercase_char(s[i]) && i > 0 && !is_uppercase_char(s[i - 1]) {
        seq!['_', lower_first(s[i])]
    } else {
        seq![lower_first(s[i])]
    }
}

/// The snake-case form of the first `n` characters of `s`.
pub open spec fn snake_prefix(s: Seq<char>, n: int) -> Seq<char>
    decreases n,
{
    if n <= 0 {
        Seq::empty()
    } else {
        snake_prefix(s, n - 1) + snake_piece(s, n - 1)
    }
}

/// The snake-case form of a camel-case name.
pub open spec fn camel_to_snake_spec(s: Seq<char>) -> Seq<char> {
    snake_prefix(s, s.len() as int)
}

/// Turns a `snake_case` name into `camelCase`: underscores are dropped and
/// each character that directly follows one is upper-cased.
pub fn snake_to_camel(snake: &str) -> (camel: String)
    ensures
        camel@ == snake_to_camel_spec(snake@),
{
    let mut out = String::new();
    let mut after_underscore = false;
    for c in it: snake.chars()
        invariant
            it.seq() == snake@,
            out@ == camel_prefix(snake@, it.index() as int),
            after_underscore == (it.index() > 0 && snake@[it.index() - 1] == '_'),
    {
        if c == '_' {
            assert(out@ + Seq::<char>::empty() == out@);
        } else if after_underscore {
            let upper = char_to_uppercase(c);
            let ghost before = out@;
            let mut k: usize = 0;
            while k < upper.len()
                invariant
                    k <= upper.len(),
                    out@ == before + upper@.subrange(0, k as int),
                decreases upper.len() - k,
            {
                out.push(upper[k]);
                assert(upper@.subrange(0, k + 1) == upper@.subrange(0, k as int).push(
                    upper@[k as int],
                ));
                k += 1;
            }
            assert(upper@.subrange(0, k as int) == upper@);
        } else {
            out.push(c);
            assert(out@ == camel_prefix(snake@, it.index() as int) + seq![c]);
        }
        after_underscore = c == '_';
    }
    out
}

/// Turns a `camelCase` name into `snake_case`: every character is
/// lower-cased, and an underscore goes before each upper-case character that
/// follows one that is not upper-case.
pub fn camel_to_snake(camel: &str) -> (snake: String)
    ensures
        snake@ == camel_to_snake_spec(camel@),
{
    let mut out = String::new();
    let mut prev_upper = false;
    let mut at_start = true;
    for c in it: camel.chars()
        invariant
            it.seq() == camel@,
            out@ == snake_prefix(camel@, it.index() as int),
            at_start == (it.index() == 0),
            it.index() > 0 ==> prev_upper == is_uppercase_char(camel@[it.index() - 1]),
    {
        let upper = char_is_uppercase(c);
        let ghost before = out@;
        if upper && !at_start && !prev_upper {
            out.push('_');
        }
        let lower = char_to_lowercase(c);
        let first = if lower.len() > 0 {
            lower[0]
        } else {
            c
        };
        out.push(first);
        assert(out@ == before + snake_piece(camel@, it.index() as int));
        prev_upper = upper;
        at_start = false;
    }
    out
}

} // verus!
