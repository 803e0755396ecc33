//! Escaping of text for Typst: for prose in a markup body, for a
//! string-literal argument of a function call, and for raw code.

use std::borrow::Cow;
use vstd::prelude::*;
use crate::text::{lemma_take_step, push_char, strings_view};

verus! {

/// The places in which text can stand, each with its own characters to
/// escape.
#[derive(Clone, Copy, Debug, PartialEq, Eq, Structural)]
pub enum Place {
    /// A markup body: `*`, `_`, `<` and `>` are escaped.
    Prose,
    /// A string literal: `"` is escaped.
    Literal,
    /// Raw code: `\`, `"` and `` ` `` are escaped.
    Code,
}

/// Whether `c` gets a backslash in front of it in the given place.
pub open spec fn is_special(place: Place, c: char) -> bool {
    match place {
        Place::Prose => c == '*' || c == '_' || c == '<' || c == '>',
        Place::Literal => c == '"',
        Place::Code => c == '\\' || c == '"' || c == '`',
    }
}

/// Whether `c`, as the first character of prose, would start a heading, a
/// list item or an enumeration.
pub open spec fn is_line_sigil(c: char) -> bool {
    c == '=' || c == '-' || c == '+'
}

/// `s` with a backslash in front of each character that is special in the
/// given place.
pub open spec fn escaped(s: Seq<char>, place: Place) -> Seq<char>
    decreases s.len(),
{
    if s.len() == 0 {
        s
    } else if is_special(place, s.last()) {
        escaped(s.drop_last(), place).push('\\').push(s.last())
    } else {
        escaped(s.drop_last(), place).push(s.last())
    }
}

/// Whether some character of `s` is special in the given place.
pub open spec fn has_special(s: Seq<char>, place: Place) -> bool {
    exists|i: int| 0 <= i < s.len() && is_special(place, #[trigger] s[i])
}

/// Whether prose escaping changes `s`.
pub open spec fn needs_prose_escape(s: Seq<char>) -> bool {
    has_special(s, Place::Prose) || (s.len() > 0 && is_line_sigil(s[0]))
}

/// Prose escaping: a backslash before `*`, `_`, `<` and `>` wherever they
/// stand, and one more at the very front where the text starts with `=`,
/// `-` or `+`.
pub open spec fn escaped_prose(s: Seq<char>) -> Seq<char> {
    if s.len() > 0 && is_line_sigil(s[0]) {
        seq!['\\'] + escaped(s, Place::Prose)
    } else {
        escaped(s, Place::Prose)
    }
}

/// `s` without its line endings: without every line feed, and without a
/// carriage return that stands directly before one.
pub open spec fn without_line_endings(s: Seq<char>) -> Seq<char>
    decreases s.len(),
{
    if s.len() == 0 {
        s
    } else if s.last() == '\n' {
        if s.len() > 1 && s[s.len() - 2] == '\r' {
            without_line_endings(s.take(s.len() - 2))
        } else {
            without_line_endings(s.drop_last())
        }
    } else {
        without_line_endings(s.drop_last()).push(s.last())
    }
}

/// The first `n` of `lines`, each escaped as code, one after the other.
pub open spec fn escaped_lines(lines: Seq<Seq<char>>, n: nat) -> Seq<char>
    decreases n,
{
    if n == 0 || n > lines.len() {
        Seq::empty()
    } else {
        escaped_lines(lines, (n - 1) as nat) + escaped(lines[n - 1], Place::Code)
    }
}

/// Text without a special character is its own escaped form.
pub proof fn lemma_escaped_plain(s: Seq<char>, place: Place)
    requires
        !has_special(s, place),
    ensures
        escaped(s, place) == s,
    decreases s.len(),
{
    if s.len() > 0 {
        assert(!is_special(place, s[s.len() - 1]));
        assert forall|i: int| 0 <= i < s.drop_last().len() implies !is_special(
            place,
            #[trigger] s.drop_last()[i],
        ) by {
            assert(s.drop_last()[i] == s[i]);
        }
        lemma_escaped_plain(s.drop_last(), place);
        assert(s.drop_last().push(s.last()) =~= s);
    }
}

/// Prose escaping leaves a text unchanged that holds none of `*`, `_`, `<`
/// and `>` and does not start with `=`, `-` or `+`.
pub proof fn lemma_prose_escape_absent(s: Seq<char>)
    requires
        forall|i: int| 0 <= i < s.len() ==> s[i] != '*' && s[i] != '_' && s[i] != '<' && s[i] != '>',
        s.len() > 0 ==> s[0] != '=' && s[0] != '-' && s[0] != '+',
    ensures
        escaped_prose(s) == s,
{
    lemma_escaped_plain(s, Place::Prose);
}

fn special(place: Place, c: char) -> (yes: bool)
    ensures
        yes == is_special(place, c),
{
    match place {
        Place::Prose => c == '*' || c == '_' || c == '<' || c == '>',
        Place::Literal => c == '"',
        Place::Code => c == '\\' || c == '"' || c == '`',
    }
}

fn contains_special(s: &str, place: Place) -> (yes: bool)
    ensures
        yes == has_special(s@, place),
{
    let mut found = false;
    for c in iter: s.chars()
        invariant
            iter.seq() == s@,
            found == has_special(s@.take(iter.index()), place),
    {
        proof {
            lemma_take_step(s@, iter.index());
            let next = s@.take(iter.index() + 1);
            if has_special(s@.take(iter.index()), place) {
                let k = choose|k: int|
                    0 <= k < s@.take(iter.index()).len() && is_special(
                        place,
                        #[trigger] s@.take(iter.index())[k],
                    );
                assert(next[k] == s@.take(iter.index())[k]);
            }
            if is_special(place, c) {
                assert(next[iter.index()] == c);
            }
            if has_special(next, place) && !is_special(place, c) {
                let k = choose|k: int| 0 <= k < next.len() && is_special(place, #[trigger] next[k]);
                assert(s@.take(iter.index())[k] == next[k]);
            }
        }
        if special(place, c) {
            found = true;
        }
    }
    proof {
        assert(s@.take(s@.len() as int) =~= s@);
    }
    found
}

/// Appends `s` to `out` with a backslash in front of each character that is
/// special in the given place.
pub fn push_escaped(out: &mut String, s: &str, place: Place)
    ensures
        final(out)@ == old(out)@ + escaped(s@, place),
{
    assert(out@ =~= old(out)@ + escaped(s@.take(0), place));
    for c in iter: s.chars()
        invariant
            iter.seq() == s@,
            out@ == old(out)@ + escaped(s@.take(iter.index()), place),
    {
        proof {
            lemma_take_step(s@, iter.index());
        }
        if special(place, c) {
            push_char(out, '\\');
        }
        push_char(out, c);
        assert(out@ =~= old(out)@ + escaped(s@.take(iter.index() + 1), place));
    }
    proof {
        assert(s@.take(s@.len() as int) =~= s@);
    }
}

/// Escapes text for a string-literal argument: a backslash goes before
/// each double quote. A text without one is handed back as it came.
pub fn escape_quotes<'a>(html: &'a str) -> (out: Cow<'a, str>)
    ensures
        out@ == escaped(html@, Place::Literal),
        !has_special(html@, Place::Literal) ==> (out matches Cow::Borrowed(same) && same@ == html@),
{
    if !contains_special(html, Place::Literal) {
        proof {
            lemma_escaped_plain(html@, Place::Literal);
        }
        return Cow::Borrowed(html);
    }
    let mut out = String::new();
    push_escaped(&mut out, html, Place::Literal);
    assert(out@ =~= escaped(html@, Place::Literal));
    Cow::Owned(out)
}

/// Escapes text for a markup body: a backslash goes before `*`, `_`, `<`
/// and `>` wherever they stand, and before `=`, `-` or `+` at the very
/// front. A text that needs none is handed back as it came.
pub fn escape_html<'a>(html: &'a str) -> (out: Cow<'a, str>)
    ensures
        out@ == escaped_prose(html@),
        !needs_prose_escape(html@) ==> (out matches Cow::Borrowed(same) && same@ == html@),
{
    let first_is_sigil = match html.chars().next() {
        Some(c) => c == '=' || c == '-' || c == '+',
        None => false,
    };
    if !first_is_sigil && !contains_special(html, Place::Prose) {
        proof {
            lemma_escaped_plain(html@, Place::Prose);
        }
        return Cow::Borrowed(html);
    }
    let mut out = String::new();
    if first_is_sigil {
        push_char(&mut out, '\\');
    }
    push_escaped(&mut out, html, Place::Prose);
    assert(out@ =~= escaped_prose(html@));
    Cow::Owned(out)
}

/// Escapes raw text for a Typst string: a backslash goes before each
/// backslash, double quote and backtick.
pub fn escape_content(content: &str) -> (out: String)
    ensures
        out@ == escaped(content@, Place::Code),
{
    let mut out = String::new();
    push_escaped(&mut out, content, Place::Code);
    assert(out@ =~= escaped(content@, Place::Code));
    out
}

/// `s` without its line endings.
pub fn strip_line_endings(s: &str) -> (out: String)
    ensures
        out@ == without_line_endings(s@),
{
    let mut out = String::new();
    // A carriage return is held back until the next character shows whether
    // a line feed follows it.
    let mut held = false;
    let ghost mut kept: Seq<char> = Seq::empty();
    assert(s@.take(0) =~= Seq::<char>::empty());
    for c in iter: s.chars()
        invariant
            iter.seq() == s@,
            held ==> iter.index() > 0 && s@[iter.index() - 1] == '\r',
            held ==> kept == s@.take(iter.index() - 1),
            !held ==> kept == s@.take(iter.index()),
            !held && iter.index() > 0 ==> s@[iter.index() - 1] != '\r',
            out@ == without_line_endings(kept),
    {
        let ghost i = iter.index();
        let ghost next = s@.take(i + 1);
        proof {
            lemma_take_step(s@, i);
            if i > 0 {
                lemma_take_step(s@, i - 1);
                assert(next.take(next.len() - 2) =~= s@.take(i - 1));
                assert(next[next.len() - 2] == s@[i - 1]);
            }
        }
        if c == '\n' {
            // The line ending goes, with the carriage return before it.
            held = false;
            proof {
                assert(without_line_endings(next) == out@);
                kept = next;
            }
        } else {
            if held {
                push_char(&mut out, '\r');
                assert(out@ == without_line_endings(s@.take(i)));
            }
            if c == '\r' {
                held = true;
                proof {
                    kept = s@.take(i);
                }
            } else {
                push_char(&mut out, c);
                held = false;
                proof {
                    kept = next;
                }
            }
        }
    }
    proof {
        if s@.len() > 0 {
            lemma_take_step(s@, s@.len() as int - 1);
        }
        assert(s@.take(s@.len() as int) =~= s@);
    }
    if held {
        push_char(&mut out, '\r');
    }
    out
}

/// Escapes code line by line: every line of `code` escaped as raw text,
/// the line endings left out.
pub fn escape_code(code: &String) -> (out: String)
    ensures
        out@ == escaped(without_line_endings(code@), Place::Code),
{
    let stripped = strip_line_endings(code.as_str());
    escape_content(stripped.as_str())
}

/// Escapes each string of `code` as raw text and puts them in a row.
pub fn escape_vec_code(code: &Vec<String>) -> (out: String)
    ensures
        out@ == escaped_lines(strings_view(code@), code.len() as nat),
{
    let mut out = String::new();
    let mut i: usize = 0;
    assert(out@ =~= escaped_lines(strings_view(code@), 0));
    while i < code.len()
        invariant
            i <= code.len(),
            out@ == escaped_lines(strings_view(code@), i as nat),
        decreases code.len() - i,
    {
        push_escaped(&mut out, code[i].as_str(), Place::Code);
        i += 1;
    }
    out
}

} // verus!
