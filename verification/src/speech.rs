//! Text on its way to the speech engine, which takes it inside a script as
//! a string in single quotes.

use vstd::prelude::*;

use crate::alignment::joined;
use crate::text::chars_of;

verus! {

/// What stands for one code point inside a string in single quotes: a
/// backslash, a single quote and a line feed are written with a backslash in
/// front, every other code point as it is.
pub open spec fn escaped_char(c: char) -> Seq<char> {
    if c == '\\' {
        seq!['\\', '\\']
    } else if c == '\'' {
        seq!['\\', '\'']
    } else if c == '\n' {
        seq!['\\', 'n']
    } else {
        seq![c]
    }
}

/// The text with each code point replaced by what stands for it.
pub open spec fn escaped(text: Seq<char>) -> Seq<char> {
    joined(text.map_values(|c: char| escaped_char(c)))
}

/// Escaping one code point more appends what stands for it.
pub proof fn lemma_escaped_step(text: Seq<char>, i: int)
    requires
        0 <= i < text.len(),
    ensures
        escaped(text.take(i + 1)) == escaped(text.take(i)) + escaped_char(text[i]),
{
    let longer = text.take(i + 1).map_values(|c: char| escaped_char(c));
    let shorter = text.take(i).map_values(|c: char| escaped_char(c));
    assert(longer.drop_last() =~= shorter);
}

/// Writes `text` so that it can stand inside a string in single quotes.
pub fn escape_for_script(text: &str) -> (out: String)
    ensures
        out@ == escaped(text@),
{
    let chars = chars_of(text);
    let n = chars.len();
    let mut out = String::new();
    let mut i: usize = 0;
    while i < n
        invariant
            n == chars@.len(),
            chars@ == text@,
            i <= n,
            out@ == escaped(text@.take(i as int)),
        decreases n - i,
    {
        let c = chars[i];
        proof {
            lemma_escaped_step(text@, i as int);
        }
        if c == '\\' {
            out.push('\\');
            out.push('\\');
        } else if c == '\'' {
            out.push('\\');
            out.push('\'');
        } else if c == '\n' {
            out.push('\\');
            out.push('n');
        } else {
            out.push(c);
        }
        i += 1;
    }
    assert(text@.take(n as int) =~= text@);
    out
}

} // verus!
