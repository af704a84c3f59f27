//! Text helpers for the emitters: rendering a string as a quoted literal
//! with the usual escapes for quotes, backslashes and control whitespace.

use vstd::prelude::*;

verus! {

/// What one character contributes to a quoted string literal.
pub open spec fn esc_char_spec(c: char) -> Seq<char> {
    if c == '"' {
        "\\\""@
    } else if c == '\\' {
        "\\\\"@
    } else if c == '\n' {
        "\\n"@
    } else if c == '\r' {
        "\\r"@
    } else if c == '\t' {
        "\\t"@
    } else {
        seq![c]
    }
}

pub open spec fn escape_spec(s: Seq<char>) -> Seq<char>
    decreases s.len(),
{
    if s.len() == 0 {
        Seq::empty()
    } else {
        escape_spec(s.drop_last()) + esc_char_spec(s.last())
    }
}

/// A quoted string literal: the escaped text between double quotes.
pub open spec fn quote_spec(s: Seq<char>) -> Seq<char> {
    "\""@ + escape_spec(s) + "\""@
}

/// Relies on String::push: appends one character to the string.
#[verifier::external_body]
pub(crate) fn push_char(s: &mut String, c: char)
    ensures
        final(s)@ == old(s)@.push(c),
{
    s.push(c);
}

/// Escapes quotes, backslashes and control whitespace.
#[verifier::loop_isolation(false)]
pub fn escape(s: &str) -> (r: String)
    ensures
        r@ == escape_spec(s@),
{
    let n = s.unicode_len();
    let mut r = String::new();
    let mut i: usize = 0;
    while i < n
        invariant
            i <= n,
            n == s@.len(),
            r@ == escape_spec(s@.take(i as int)),
        decreases n - i,
    {
        let c = s.get_char(i);
        if c == '"' {
            r.append("\\\"");
        } else if c == '\\' {
            r.append("\\\\");
        } else if c == '\n' {
            r.append("\\n");
        } else if c == '\r' {
            r.append("\\r");
        } else if c == '\t' {
            r.append("\\t");
        } else {
            push_char(&mut r, c);
        }
        proof {
            assert(s@.take(i + 1).drop_last() =~= s@.take(i as int));
            assert(s@.take(i + 1).last() == s@[i as int]);
            assert(r@ =~= escape_spec(s@.take(i + 1)));
        }
        i = i + 1;
    }
    proof {
        assert(s@.take(s@.len() as int) =~= s@);
    }
    r
}

/// Renders a string as a quoted literal.
pub fn quote(s: &str) -> (r: String)
    ensures
        r@ == quote_spec(s@),
{
    let mut r = String::from_str("\"");
    let e = escape(s);
    r.append(e.as_str());
    r.append("\"");
    proof {
        assert(r@ =~= quote_spec(s@));
    }
    r
}

} // verus!
