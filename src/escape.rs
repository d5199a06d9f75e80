//! Escaping of TEXT values: backslash, comma, semicolon and newline are
//! written with a leading backslash, and read back by the inverse.

use vstd::prelude::*;
use crate::strings::char_vec;

verus! {

/// The characters that a single character of a TEXT value becomes.
pub open spec fn escape_char(c: char) -> Seq<char> {
    if c == '\\' {
        seq!['\\', '\\']
    } else if c == ',' {
        seq!['\\', ',']
    } else if c == ';' {
        seq!['\\', ';']
    } else if c == '\n' {
        seq!['\\', 'n']
    } else {
        seq![c]
    }
}

/// The escaped form of a TEXT value.
pub open spec fn escaped(s: Seq<char>) -> Seq<char>
    decreases s.len(),
{
    if s.len() == 0 {
        Seq::empty()
    } else {
        escape_char(s[0]) + escaped(s.skip(1))
    }
}

/// Whether `\` followed by `c` is an escape sequence.
pub open spec fn is_escape_code(c: char) -> bool {
    c == '\\' || c == ',' || c == ';' || c == 'n' || c == 'N'
}

/// The character that the escape sequence `\c` stands for.
pub open spec fn unescape_code(c: char) -> char {
    if c == 'n' || c == 'N' {
        '\n'
    } else {
        c
    }
}

/// The logical value of escaped TEXT: each escape sequence becomes the
/// character it stands for; any other backslash is kept as it stands.
pub open spec fn unescaped(s: Seq<char>) -> Seq<char>
    decreases s.len(),
{
    if s.len() == 0 {
        Seq::empty()
    } else if s.len() >= 2 && s[0] == '\\' && is_escape_code(s[1]) {
        seq![unescape_code(s[1])] + unescaped(s.skip(2))
    } else {
        seq![s[0]] + unescaped(s.skip(1))
    }
}

/// Escapes a TEXT value for output.
pub(crate) fn escape_chars(input: &str) -> (r: String)
    ensures
        r@ == escaped(input@),
{
    let chars = char_vec(input);
    let mut out = String::new();
    let mut i: usize = 0;
    proof {
        assert(chars@.skip(0) =~= chars@);
        assert(out@ + escaped(input@) =~= escaped(input@));
    }
    while i < chars.len()
        invariant
            0 <= i <= chars@.len(),
            chars@ == input@,
            out@ + escaped(chars@.skip(i as int)) == escaped(input@),
        decreases chars@.len() - i,
    {
        let c = chars[i];
        proof {
            assert(chars@.skip(i as int).skip(1) =~= chars@.skip(i + 1));
        }
        if c == '\\' || c == ',' || c == ';' {
            out.push('\\');
            out.push(c);
        } else if c == '\n' {
            out.push('\\');
            out.push('n');
        } else {
            out.push(c);
        }
        proof {
            assert(out@ + escaped(chars@.skip(i + 1)) =~= escaped(input@));
        }
        i = i + 1;
    }
    proof {
        assert(chars@.skip(i as int) =~= Seq::<char>::empty());
    }
    out
}

/// Reads escaped TEXT back into its logical value.
pub fn unescape_text(input: &str) -> (r: String)
    ensures
        r@ == unescaped(input@),
{
    let chars = char_vec(input);
    let n = chars.len();
    let mut out = String::new();
    let mut i: usize = 0;
    proof {
        assert(chars@.skip(0) =~= chars@);
        assert(out@ + unescaped(input@) =~= unescaped(input@));
    }
    while i < n
        invariant
            0 <= i <= n,
            n == chars@.len(),
            chars@ == input@,
            out@ + unescaped(chars@.skip(i as int)) == unescaped(input@),
        decreases n - i,
    {
        let c = chars[i];
        if c == '\\' && i + 1 < n && (chars[i + 1] == '\\' || chars[i + 1] == ','
            || chars[i + 1] == ';' || chars[i + 1] == 'n' || chars[i + 1] == 'N') {
            let d = chars[i + 1];
            proof {
                assert(chars@.skip(i as int).skip(2) =~= chars@.skip(i + 2));
            }
            if d == 'n' || d == 'N' {
                out.push('\n');
            } else {
                out.push(d);
            }
            proof {
                assert(out@ + unescaped(chars@.skip(i + 2)) =~= unescaped(input@));
            }
            i = i + 2;
        } else {
            proof {
                assert(chars@.skip(i as int).skip(1) =~= chars@.skip(i + 1));
            }
            out.push(c);
            proof {
                assert(out@ + unescaped(chars@.skip(i + 1)) =~= unescaped(input@));
            }
            i = i + 1;
        }
    }
    proof {
        assert(chars@.skip(i as int) =~= Seq::<char>::empty());
    }
    out
}

/// Escaping then unescaping a TEXT value gives the value back.
pub proof fn lemma_unescape_escape(v: Seq<char>)
    ensures
        unescaped(escaped(v)) == v,
    decreases v.len(),
{
    if v.len() == 0 {
        assert(escaped(v) =~= Seq::<char>::empty());
    } else {
        let rest = escaped(v.skip(1));
        lemma_unescape_escape(v.skip(1));
        let e = escape_char(v[0]) + rest;
        assert(escaped(v) == e);
        if escape_char(v[0]).len() == 2 {
            assert(e.skip(2) =~= rest);
            assert(e[0] == '\\');
            assert(is_escape_code(e[1]));
        } else {
            assert(e.skip(1) =~= rest);
        }
        assert(v =~= seq![v[0]] + v.skip(1));
    }
}

} // verus!
