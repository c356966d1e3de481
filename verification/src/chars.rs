//! Character classes and runs of characters.
//!
//! Which characters count as white space, letters and numerals is decided by
//! the standard library's Unicode tables. Those tables are not restated here:
//! each gets a name, and the scanner's contracts speak of the names.

use vstd::prelude::*;
use vstd::std_specs::iter::IteratorSpec;

verus! {

/// Whether `char::is_whitespace` holds of `c`.
pub uninterp spec fn unicode_whitespace(c: char) -> bool;

/// Whether `char::is_alphabetic` holds of `c`.
pub uninterp spec fn unicode_alphabetic(c: char) -> bool;

/// Whether `char::is_numeric` holds of `c`.
pub uninterp spec fn unicode_numeric(c: char) -> bool;

/// `char::is_whitespace` is a function of the character alone; its result is
/// taken as given and named `unicode_whitespace`.
pub assume_specification[ char::is_whitespace ](c: char) -> (b: bool)
    ensures
        b == unicode_whitespace(c),
;

/// `char::is_alphabetic` is a function of the character alone; its result is
/// taken as given and named `unicode_alphabetic`.
pub assume_specification[ char::is_alphabetic ](c: char) -> (b: bool)
    ensures
        b == unicode_alphabetic(c),
;

/// `char::is_numeric` is a function of the character alone; its result is
/// taken as given and named `unicode_numeric`.
pub assume_specification[ char::is_numeric ](c: char) -> (b: bool)
    ensures
        b == unicode_numeric(c),
;

/// `char::is_alphanumeric` is documented to hold exactly of the characters
/// of which `is_alphabetic` or `is_numeric` holds.
pub assume_specification[ char::is_alphanumeric ](c: char) -> (b: bool)
    ensures
        b == (unicode_alphabetic(c) || unicode_numeric(c)),
;

/// `String::from_iter` over a slice of characters: the string built holds
/// those characters, in their order, and nothing else.
#[verifier::external_body]
pub(crate) fn string_from_chars(chars: &[char]) -> (s: String)
    ensures
        s@ == chars@,
{
    String::from_iter(chars.iter())
}

/// The characters of `text`, in their order.
pub fn chars_of(text: &str) -> (chars: Vec<char>)
    ensures
        chars@ == text@,
{
    broadcast use vstd::string::group_string_axioms;

    let mut chars: Vec<char> = Vec::new();
    let mut rest = text.chars();
    loop
        invariant
            rest.obeys_prophetic_iter_laws(),
            rest.decrease() is Some,
            chars@ + rest.remaining() == text@,
        ensures
            chars@ == text@,
        decreases rest.decrease()->0,
    {
        let ghost before = rest;
        match rest.next() {
            Some(c) => {
                assert(before.remaining() =~= seq![c] + rest.remaining());
                assert(chars@.push(c) + rest.remaining() =~= chars@ + before.remaining());
                chars.push(c);
            },
            None => {
                assert(chars@ + rest.remaining() =~= chars@);
                break ;
            },
        }
    }
    chars
}

/// The classes of characters that a token's text is a run of.
#[derive(Debug, PartialEq, Eq, Clone, Copy, Structural)]
pub enum CharClass {
    /// A Unicode numeral.
    Numeric,
    /// One of the digits `0` to `9`.
    Digit,
    /// A hyphen, a letter or a numeral: what a name goes on with.
    Word,
    /// Anything but a double quote.
    StringBody,
    /// Anything but a line feed or a carriage return.
    CommentBody,
}

/// Whether `c` belongs to `class`.
pub open spec fn in_class(class: CharClass, c: char) -> bool {
    match class {
        CharClass::Numeric => unicode_numeric(c),
        CharClass::Digit => '0' <= c && c <= '9',
        CharClass::Word => c == '-' || unicode_alphabetic(c) || unicode_numeric(c),
        CharClass::StringBody => c != '"',
        CharClass::CommentBody => c != '\n' && c != '\r',
    }
}

/// Decides `in_class`.
pub fn class_holds(class: CharClass, c: char) -> (b: bool)
    ensures
        b == in_class(class, c),
{
    match class {
        CharClass::Numeric => c.is_numeric(),
        CharClass::Digit => '0' <= c && c <= '9',
        CharClass::Word => c == '-' || c.is_alphanumeric(),
        CharClass::StringBody => c != '"',
        CharClass::CommentBody => c != '\n' && c != '\r',
    }
}

/// Where the longest run of characters of `class` that starts at `from`
/// ends: the first position at or behind `from` that holds a character
/// outside the class, or the length of `src` if there is none.
pub open spec fn run_end(src: Seq<char>, from: int, class: CharClass) -> int
    decreases src.len() - from,
{
    if 0 <= from < src.len() && in_class(class, src[from]) {
        run_end(src, from + 1, class)
    } else {
        from
    }
}

/// A run ends at or behind its start and within the text; every character
/// in it belongs to the class, and the one behind it, if any, does not.
pub proof fn lemma_run_end(src: Seq<char>, from: int, class: CharClass)
    requires
        0 <= from <= src.len(),
    ensures
        from <= run_end(src, from, class) <= src.len(),
        forall|i: int| from <= i < run_end(src, from, class) ==> in_class(class, #[trigger] src[i]),
        run_end(src, from, class) < src.len() ==> !in_class(
            class,
            src[run_end(src, from, class)],
        ),
    decreases src.len() - from,
{
    if from < src.len() && in_class(class, src[from]) {
        lemma_run_end(src, from + 1, class);
    }
}

/// Computes `run_end` on a slice.
pub fn find_run_end(chars: &[char], from: usize, class: CharClass) -> (end: usize)
    requires
        from <= chars@.len(),
    ensures
        end == run_end(chars@, from as int, class),
        from <= end <= chars@.len(),
{
    let mut i: usize = from;
    while i < chars.len() && class_holds(class, chars[i])
        invariant
            from <= i <= chars@.len(),
            run_end(chars@, i as int, class) == run_end(chars@, from as int, class),
        decreases chars@.len() - i,
    {
        i += 1;
    }
    i
}

/// Whether `chars` spells `word`, character for character.
pub fn spells(chars: &[char], word: &str) -> (b: bool)
    ensures
        b == (chars@ == word@),
{
    let n: usize = word.unicode_len();
    if chars.len() != n {
        return false;
    }
    let mut i: usize = 0;
    while i < n
        invariant
            n == chars@.len(),
            n == word@.len(),
            0 <= i <= n,
            forall|k: int| 0 <= k < i ==> chars@[k] == word@[k],
        decreases n - i,
    {
        if chars[i] != word.get_char(i) {
            return false;
        }
        i += 1;
    }
    assert(chars@ =~= word@);
    true
}

} // verus!
