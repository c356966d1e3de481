//! Error messages: each names the line it is about, and a list of them is
//! joined into one text, a message to a line.

use vstd::prelude::*;
use vstd::string::StringExecFns;
use crate::chars::string_from_chars;

verus! {

/// The character that writes the digit `d`.
pub open spec fn digit(d: nat) -> char {
    seq!['0', '1', '2', '3', '4', '5', '6', '7', '8', '9'][d as int]
}

/// The decimal numeral of `n`, without leading zeros.
pub open spec fn decimal(n: nat) -> Seq<char>
    decreases n,
{
    if n < 10 {
        seq![digit(n)]
    } else {
        decimal(n / 10).push(digit(n % 10))
    }
}

/// The message `msg` about line `line`.
pub open spec fn line_message(line: nat, msg: Seq<char>) -> Seq<char> {
    "line "@ + decimal(line) + ": "@ + msg
}

/// The messages, in their order, with a line feed between each two.
pub open spec fn joined(msgs: Seq<Seq<char>>) -> Seq<char>
    decreases msgs.len(),
{
    if msgs.len() == 0 {
        Seq::empty()
    } else if msgs.len() == 1 {
        msgs[0]
    } else {
        joined(msgs.drop_last()) + "\n"@ + msgs.last()
    }
}

/// What a list of strings holds, text for text.
pub open spec fn texts(strings: Seq<String>) -> Seq<Seq<char>> {
    strings.map_values(|s: String| s@)
}

fn digit_char(d: usize) -> (c: char)
    requires
        d < 10,
    ensures
        c == digit(d as nat),
{
    if d == 0 {
        '0'
    } else if d == 1 {
        '1'
    } else if d == 2 {
        '2'
    } else if d == 3 {
        '3'
    } else if d == 4 {
        '4'
    } else if d == 5 {
        '5'
    } else if d == 6 {
        '6'
    } else if d == 7 {
        '7'
    } else if d == 8 {
        '8'
    } else {
        '9'
    }
}

/// Writes the decimal numeral of `n` at the end of `out`.
pub fn push_decimal(n: usize, out: &mut Vec<char>)
    ensures
        final(out)@ == old(out)@ + decimal(n as nat),
    decreases n,
{
    if n >= 10 {
        push_decimal(n / 10, out);
    }
    out.push(digit_char(n % 10));
    proof {
        if n >= 10 {
            assert(final(out)@ =~= old(out)@ + decimal(n as nat));
        } else {
            assert(final(out)@ =~= old(out)@ + decimal(n as nat));
        }
    }
}

/// The message `msg` about line `line`, as `line N: msg`.
pub fn format_line_message(line: usize, msg: &str) -> (text: String)
    ensures
        text@ == line_message(line as nat, msg@),
{
    let mut digits: Vec<char> = Vec::new();
    push_decimal(line, &mut digits);
    let number = string_from_chars(digits.as_slice());
    let mut text = String::from_str("line ");
    text.append(number.as_str());
    text.append(": ");
    text.append(msg);
    assert(digits@ =~= decimal(line as nat));
    text
}

/// The messages joined into one text, with a line feed between each two.
pub fn join_lines(lines: &Vec<String>) -> (text: String)
    ensures
        text@ == joined(texts(lines@)),
{
    let mut text = String::new();
    let mut i: usize = 0;
    while i < lines.len()
        invariant
            0 <= i <= lines@.len(),
            text@ == joined(texts(lines@).take(i as int)),
        decreases lines@.len() - i,
    {
        if i > 0 {
            text.append("\n");
        }
        text.append(lines[i].as_str());
        proof {
            let upto = texts(lines@).take(i + 1);
            assert(upto.drop_last() =~= texts(lines@).take(i as int));
            assert(upto.last() == lines@[i as int]@);
        }
        i += 1;
    }
    assert(texts(lines@).take(i as int) =~= texts(lines@));
    text
}

} // verus!
