//! Small pieces of the command line's own output.
use vstd::prelude::*;
use vstd::string::StringExecFns;

use crate::text::{chars_of, string_of};

verus! {

/// What `char::is_alphanumeric` reports: Unicode's `Alphabetic` or `Numeric`.
pub uninterp spec fn unicode_alphanumeric(c: char) -> bool;

/// An ASCII letter or digit.
pub open spec fn ascii_alphanumeric(c: char) -> bool {
    ('a' <= c && c <= 'z') || ('A' <= c && c <= 'Z') || ('0' <= c && c <= '9')
}

/// `char::is_alphanumeric`.
///
/// Trusted: the result is `unicode_alphanumeric`; of ASCII, std documents and Unicode
/// assigns `Alphabetic` or `Numeric` to the letters and the digits and to nothing else.
#[verifier::external_body]
fn is_alphanumeric(c: char) -> (r: bool)
    ensures
        r == unicode_alphanumeric(c),
        (c as u32) < 128 ==> (r == ascii_alphanumeric(c)),
{
    c.is_alphanumeric()
}

/// A character the shell takes as part of a word without quoting.
pub open spec fn shell_safe(c: char) -> bool {
    ||| (if (c as u32) < 128 {
        ascii_alphanumeric(c)
    } else {
        unicode_alphanumeric(c)
    })
    ||| c == '-' || c == '_' || c == '.'
}

/// The text with every single quote closed, escaped and reopened: `'` becomes `'\''`.
pub open spec fn quotes_escaped(s: Seq<char>) -> Seq<char>
    decreases s.len(),
{
    if s.len() == 0 {
        Seq::empty()
    } else if s.last() == '\'' {
        quotes_escaped(s.drop_last()) + seq!['\'', '\\', '\'', '\'']
    } else {
        quotes_escaped(s.drop_last()).push(s.last())
    }
}

/// A word as the shell must be given it: as it is when every character is safe, and in
/// single quotes otherwise.
pub open spec fn shell_word_spec(word: Seq<char>) -> Seq<char> {
    if forall|i: int| 0 <= i < word.len() ==> shell_safe(#[trigger] word[i]) {
        word
    } else {
        seq!['\''] + quotes_escaped(word) + seq!['\'']
    }
}

/// Quotes a room name for the "they run" line when the shell would split it.
pub fn shell_word(word: &str) -> (r: String)
    ensures
        r@ == shell_word_spec(word@),
{
    let chars = chars_of(word);
    let mut safe = true;
    let mut i: usize = 0;
    while i < chars.len()
        invariant
            i <= chars@.len(),
            chars@ == word@,
            safe == forall|k: int| 0 <= k < i ==> shell_safe(#[trigger] chars@[k]),
        decreases chars@.len() - i,
    {
        let c = chars[i];
        if !(is_alphanumeric(c) || c == '-' || c == '_' || c == '.') {
            safe = false;
        }
        i = i + 1;
    }
    if safe {
        return word.to_owned();
    }
    let mut out: Vec<char> = Vec::new();
    out.push('\'');
    let mut j: usize = 0;
    while j < chars.len()
        invariant
            j <= chars@.len(),
            out@ == seq!['\''] + quotes_escaped(chars@.take(j as int)),
        decreases chars@.len() - j,
    {
        let c = chars[j];
        assert(chars@.take(j + 1).drop_last() =~= chars@.take(j as int));
        if c == '\'' {
            out.push('\'');
            out.push('\\');
            out.push('\'');
            out.push('\'');
        } else {
            out.push(c);
        }
        j = j + 1;
        assert(out@ =~= seq!['\''] + quotes_escaped(chars@.take(j as int)));
    }
    assert(chars@.take(j as int) =~= chars@);
    out.push('\'');
    string_of(out.as_slice())
}

/// The name to go by: the one given on the command line, else the login name the
/// system reports (`USER`), else "guest".
pub fn nickname(explicit: Option<String>, user: Option<String>) -> (r: String)
    ensures
        r@ == (match (explicit, user) {
            (Some(name), _) => name@,
            (None, Some(login)) => login@,
            (None, None) => "guest"@,
        }),
{
    match explicit {
        Some(name) => name,
        None => match user {
            Some(login) => login,
            None => String::from_str("guest"),
        },
    }
}

} // verus!
