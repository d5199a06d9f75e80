//! The grammar of content lines: a property key, then parameters
//! (`;key`, `;key=value` or `;key="value"`), then `:` and the raw value.

use vstd::prelude::*;
use crate::escape::{lemma_unescape_escape, unescaped};
use crate::fold::{is_logical_line, lemma_unfold_folded_with_crlf, lf, normalize, unfolded};
use crate::escape::unescape_text;
use crate::properties::{
    content_line, insert_keyed, serialized, keys_unique, lemma_key_index_absent, param_text,
    params_text, quoted, resolved_type, value_text, Parameter as PropertyParameter, Parameters,
    Property, PropertyView,
};
use crate::strings::{char_vec, push_range};
use crate::value_types::ValueType;

verus! {

/// The classes of characters that the grammar scans over.
#[derive(Copy, Clone, Debug, PartialEq, Eq, Structural)]
pub enum CharClass {
    /// Space and horizontal tab.
    Space,
    /// Characters of a parameter key: letters and digits, and `-`.
    ParamKey,
    /// Characters of a property key: letters and digits, `,`, `/`, `_` and `-`.
    PropertyKey,
    /// Characters of an unquoted parameter value: all but `;` and `:`.
    Plain,
    /// Characters inside a quoted parameter value: all but `"`.
    Quoted,
    /// Decimal digits.
    Digit,
    /// Everything but LF.
    InLine,
}

pub open spec fn is_ascii_alnum(c: char) -> bool {
    ('a' <= c && c <= 'z') || ('A' <= c && c <= 'Z') || ('0' <= c && c <= '9')
}

/// What `char::is_alphanumeric` says of a character.
pub uninterp spec fn unicode_alphanumeric(c: char) -> bool;

/// Relies on `char::is_alphanumeric`: whether the character is alphabetic
/// or numeric in Unicode, which depends on the character alone.
pub assume_specification[ char::is_alphanumeric ](c: char) -> (r: bool)
    ensures
        r == unicode_alphanumeric(c),
;

/// A letter or digit of a key: among ASCII characters the letters and
/// digits; beyond ASCII whatever Unicode counts as alphabetic or numeric.
pub open spec fn is_key_alnum(c: char) -> bool {
    if (c as u32) < 128 {
        is_ascii_alnum(c)
    } else {
        unicode_alphanumeric(c)
    }
}

/// Whether `c` belongs to `class`.
pub open spec fn in_class(c: char, class: CharClass) -> bool {
    match class {
        CharClass::Space => c == ' ' || c == '\t',
        CharClass::ParamKey => is_key_alnum(c) || c == '-',
        CharClass::PropertyKey => is_key_alnum(c) || c == ',' || c == '/' || c == '_' || c == '-',
        CharClass::Plain => c != ';' && c != ':',
        CharClass::Quoted => c != '"',
        CharClass::Digit => '0' <= c && c <= '9',
        CharClass::InLine => c != '\n',
    }
}

/// The first position from `i` on whose character is not in `class`, or
/// the end of `s`.
pub open spec fn scan(s: Seq<char>, i: int, class: CharClass) -> int
    decreases s.len() - i,
{
    if i < 0 || i >= s.len() || !in_class(s[i], class) {
        i
    } else {
        scan(s, i + 1, class)
    }
}

/// Why a content line or a parameter does not parse.
#[derive(Copy, Clone, Debug, PartialEq, Eq, Structural)]
pub enum ParseErrorKind {
    /// A parameter does not start with `;`.
    ExpectedSemicolon,
    /// A key is empty.
    EmptyKey,
    /// A quoted parameter value has no closing quote.
    UnclosedQuote,
    /// The property key is `BEGIN` or `END`, which mark components.
    ReservedKey,
    /// The parameters are not followed by `:`.
    ExpectedColon,
}

/// A grammar error: what went wrong, at which character position, and the
/// input from that position on.
#[derive(Clone, Debug, PartialEq, Eq)]
pub struct ParseError {
    pub kind: ParseErrorKind,
    pub position: usize,
    pub fragment: String,
}

fn error_at(chars: &Vec<char>, kind: ParseErrorKind, position: usize) -> (r: ParseError)
    requires
        position <= chars@.len(),
    ensures
        r.kind == kind,
        r.position == position,
        r.fragment@ == chars@.skip(position as int),
{
    let fragment = text_range(chars, position, chars.len());
    proof {
        assert(fragment@ =~= chars@.skip(position as int));
    }
    ParseError { kind, position, fragment }
}

/// A parsed parameter: its key, and its value unless it has none or an
/// empty one.
#[derive(Clone, Debug, PartialEq, Eq)]
pub struct Parameter {
    pub key: String,
    pub val: Option<String>,
}

/// What a parsed parameter holds.
pub open spec fn param_view(p: Parameter) -> (Seq<char>, Option<Seq<char>>) {
    (p.key@, match p.val {
        Some(v) => Some(v@),
        None => None,
    })
}

/// `None` for an empty value.
pub open spec fn non_empty(v: Seq<char>) -> Option<Seq<char>> {
    if v.len() == 0 {
        None
    } else {
        Some(v)
    }
}

/// The parameter that starts at position `i` of `s`, with the position
/// after it; or the error.
pub open spec fn parse_param(s: Seq<char>, i: int) -> Result<((Seq<char>, Option<Seq<char>>), int), (ParseErrorKind, int)> {
    if i < 0 || i >= s.len() || s[i] != ';' {
        Err((ParseErrorKind::ExpectedSemicolon, i))
    } else {
        let a = scan(s, i + 1, CharClass::Space);
        let b = scan(s, a, CharClass::ParamKey);
        let c = scan(s, b, CharClass::Space);
        let key = s.subrange(a, b);
        if b == a {
            Err((ParseErrorKind::EmptyKey, a))
        } else if c < s.len() && s[c] == '=' {
            let d = c + 1;
            if d < s.len() && s[d] == '"' {
                let e = scan(s, d + 1, CharClass::Quoted);
                if e >= s.len() {
                    Err((ParseErrorKind::UnclosedQuote, d))
                } else {
                    Ok(((key, non_empty(s.subrange(d + 1, e))), e + 1))
                }
            } else {
                let e = scan(s, d, CharClass::Plain);
                Ok(((key, non_empty(s.subrange(d, e))), e))
            }
        } else {
            Ok(((key, None), c))
        }
    }
}

/// The parameters that follow one another from position `i` of `s`: as
/// many as parse, up to the first that does not.
pub open spec fn parse_params(s: Seq<char>, i: int) -> (Seq<(Seq<char>, Option<Seq<char>>)>, int)
    decreases s.len() - i,
{
    match parse_param(s, i) {
        Ok((p, j)) => if i < j && j <= s.len() {
            let rest = parse_params(s, j);
            (seq![p] + rest.0, rest.1)
        } else {
            (seq![p], j)
        },
        Err(_) => (Seq::empty(), i),
    }
}

fn class_has(c: char, class: CharClass) -> (r: bool)
    ensures
        r == in_class(c, class),
{
    let alnum = if (c as u32) < 128 {
        ('a' <= c && c <= 'z') || ('A' <= c && c <= 'Z') || ('0' <= c && c <= '9')
    } else {
        c.is_alphanumeric()
    };
    match class {
        CharClass::Space => c == ' ' || c == '\t',
        CharClass::ParamKey => alnum || c == '-',
        CharClass::PropertyKey => alnum || c == ',' || c == '/' || c == '_' || c == '-',
        CharClass::Plain => c != ';' && c != ':',
        CharClass::Quoted => c != '"',
        CharClass::Digit => '0' <= c && c <= '9',
        CharClass::InLine => c != '\n',
    }
}

pub(crate) proof fn lemma_scan_bounds(s: Seq<char>, i: int, class: CharClass)
    requires
        0 <= i <= s.len(),
    ensures
        i <= scan(s, i, class) <= s.len(),
        forall|j: int| i <= j < scan(s, i, class) ==> in_class(#[trigger] s[j], class),
        scan(s, i, class) < s.len() ==> !in_class(s[scan(s, i, class)], class),
    decreases s.len() - i,
{
    if i < s.len() && in_class(s[i], class) {
        lemma_scan_bounds(s, i + 1, class);
    }
}

pub(crate) fn scan_class(chars: &Vec<char>, i: usize, class: CharClass) -> (r: usize)
    requires
        i <= chars@.len(),
    ensures
        r == scan(chars@, i as int, class),
        i <= r <= chars@.len(),
{
    let mut j: usize = i;
    while j < chars.len() && class_has(chars[j], class)
        invariant
            i <= j <= chars@.len(),
            scan(chars@, i as int, class) == scan(chars@, j as int, class),
        decreases chars@.len() - j,
    {
        j = j + 1;
    }
    proof {
        lemma_scan_bounds(chars@, i as int, class);
    }
    j
}

fn text_range(chars: &Vec<char>, from: usize, to: usize) -> (r: String)
    requires
        from <= to <= chars@.len(),
    ensures
        r@ == chars@.subrange(from as int, to as int),
{
    let mut s = String::new();
    push_range(&mut s, chars, from, to);
    proof {
        assert(s@ =~= chars@.subrange(from as int, to as int));
    }
    s
}

fn non_empty_text(chars: &Vec<char>, from: usize, to: usize) -> (r: Option<String>)
    requires
        from <= to <= chars@.len(),
    ensures
        match r {
            Some(v) => non_empty(chars@.subrange(from as int, to as int)) == Some(v@),
            None => non_empty(chars@.subrange(from as int, to as int)) is None,
        },
{
    if from == to {
        None
    } else {
        Some(text_range(chars, from, to))
    }
}

/// Parses the parameter at position `i` of `chars`.
fn parameter_at(chars: &Vec<char>, i: usize) -> (r: Result<(Parameter, usize), ParseError>)
    requires
        i <= chars@.len(),
    ensures
        match r {
            Ok((p, j)) => parse_param(chars@, i as int) == Ok::<_, (ParseErrorKind, int)>((param_view(p), j as int)),
            Err(e) => parse_param(chars@, i as int) == Err::<((Seq<char>, Option<Seq<char>>), int), _>((e.kind, e.position as int))
                && e.fragment@ == chars@.skip(e.position as int),
        },
        r matches Ok((_, j)) ==> i < j <= chars@.len(),
{
    let n = chars.len();
    if i >= n || chars[i] != ';' {
        return Err(error_at(chars, ParseErrorKind::ExpectedSemicolon, i));
    }
    let a = scan_class(chars, i + 1, CharClass::Space);
    let b = scan_class(chars, a, CharClass::ParamKey);
    let c = scan_class(chars, b, CharClass::Space);
    if b == a {
        return Err(error_at(chars, ParseErrorKind::EmptyKey, a));
    }
    let key = text_range(chars, a, b);
    if c < n && chars[c] == '=' {
        let d = c + 1;
        if d < n && chars[d] == '"' {
            let e = scan_class(chars, d + 1, CharClass::Quoted);
            if e >= n {
                return Err(error_at(chars, ParseErrorKind::UnclosedQuote, d));
            }
            let val = non_empty_text(chars, d + 1, e);
            Ok((Parameter { key, val }, e + 1))
        } else {
            let e = scan_class(chars, d, CharClass::Plain);
            let val = non_empty_text(chars, d, e);
            Ok((Parameter { key, val }, e))
        }
    } else {
        Ok((Parameter { key, val: None }, c))
    }
}

/// Parses one parameter from the start of `input`: `;`, spaces, a key, and
/// optionally `=` and a value, quoted or running to the next `;` or `:`.
/// Returns the rest of the input and the parameter.
pub fn parameter(input: &str) -> (r: Result<(String, Parameter), ParseError>)
    ensures
        match r {
            Ok((rest, p)) => exists|j: int|
                parse_param(input@, 0) == Ok::<_, (ParseErrorKind, int)>((param_view(p), j))
                && rest@ == input@.skip(j),
            Err(e) => parse_param(input@, 0) == Err::<((Seq<char>, Option<Seq<char>>), int), _>((e.kind, e.position as int))
                && e.fragment@ == input@.skip(e.position as int),
        },
{
    let chars = char_vec(input);
    match parameter_at(&chars, 0) {
        Ok((p, j)) => {
            let rest = text_range(&chars, j, chars.len());
            proof {
                assert(rest@ =~= input@.skip(j as int));
            }
            Ok((rest, p))
        },
        Err(e) => Err(e),
    }
}

fn parameters_at(chars: &Vec<char>, i: usize) -> (r: (Vec<Parameter>, usize))
    requires
        i <= chars@.len(),
    ensures
        r.0@.map_values(|p: Parameter| param_view(p)) == parse_params(chars@, i as int).0,
        r.1 == parse_params(chars@, i as int).1,
        i <= r.1 <= chars@.len(),
{
    let mut out: Vec<Parameter> = Vec::new();
    let mut pos: usize = i;
    proof {
        assert(out@.map_values(|p: Parameter| param_view(p)) + parse_params(chars@, i as int).0
            =~= parse_params(chars@, i as int).0);
    }
    loop
        invariant
            i <= pos <= chars@.len(),
            out@.map_values(|p: Parameter| param_view(p)) + parse_params(chars@, pos as int).0
                == parse_params(chars@, i as int).0,
            parse_params(chars@, pos as int).1 == parse_params(chars@, i as int).1,
        decreases chars@.len() - pos,
    {
        match parameter_at(chars, pos) {
            Ok((p, j)) => {
                let ghost before = out@.map_values(|p: Parameter| param_view(p));
                out.push(p);
                proof {
                    assert(out@.map_values(|p: Parameter| param_view(p)) =~= before.push(param_view(p)));
                    let rest = parse_params(chars@, j as int);
                    assert(parse_params(chars@, pos as int).0 =~= seq![param_view(p)] + rest.0);
                    assert(out@.map_values(|p: Parameter| param_view(p)) + rest.0
                        =~= before + parse_params(chars@, pos as int).0);
                }
                pos = j;
            },
            Err(_) => {
                proof {
                    assert(out@.map_values(|p: Parameter| param_view(p)) + parse_params(chars@, pos as int).0
                        =~= out@.map_values(|p: Parameter| param_view(p)));
                }
                return (out, pos);
            },
        }
    }
}

/// Parses zero or more parameters from the start of `input`, up to the first
/// that does not parse. Returns the rest of the input and the parameters.
pub fn parameters(input: &str) -> (r: (String, Vec<Parameter>))
    ensures
        r.1@.map_values(|p: Parameter| param_view(p)) == parse_params(input@, 0).0,
        r.0@ == input@.skip(parse_params(input@, 0).1),
{
    let chars = char_vec(input);
    let (ps, j) = parameters_at(&chars, 0);
    let rest = text_range(&chars, j, chars.len());
    proof {
        assert(rest@ =~= input@.skip(j as int));
    }
    (rest, ps)
}

impl Parameter {
    /// A parsed parameter from its key and optional value.
    pub fn new_ref(key: &str, val: Option<&str>) -> (r: Parameter)
        ensures
            r.key@ == key@,
            match val {
                Some(v) => r.val matches Some(x) && x@ == v@,
                None => r.val is None,
            },
    {
        Parameter {
            key: key.to_owned(),
            val: match val {
                Some(v) => Some(v.to_owned()),
                None => None,
            },
        }
    }

    /// The stored form of this parameter; a missing value becomes empty.
    pub fn to_parameter(&self) -> (r: PropertyParameter)
        ensures
            r@ == stored_param(param_view(*self)),
    {
        proof {
            reveal_strlit("");
            assert(""@ =~= Seq::<char>::empty());
        }
        match &self.val {
            Some(v) => PropertyParameter::new(self.key.as_str(), v.as_str()),
            None => PropertyParameter::new(self.key.as_str(), ""),
        }
    }
}

/// The stored form of a parsed parameter.
pub open spec fn stored_param(p: (Seq<char>, Option<Seq<char>>)) -> (Seq<char>, Seq<char>) {
    (p.0, match p.1 {
        Some(v) => v,
        None => Seq::empty(),
    })
}

/// Returns `None` for an empty string.
pub fn remove_empty_string_parsed(input: Option<String>) -> (r: Option<String>)
    ensures
        match input {
            Some(s) => if s@.len() == 0 { r is None } else { r == Some(s) },
            None => r is None,
        },
{
    match input {
        Some(s) => if s.as_str().is_empty() {
            None
        } else {
            Some(s)
        },
        None => None,
    }
}

/// The non-empty lines of `s` from position `i` on, split at LF.
pub open spec fn lines_from(s: Seq<char>, i: int) -> Seq<Seq<char>>
    decreases s.len() - i,
{
    if i < 0 || i >= s.len() {
        Seq::empty()
    } else {
        let j = scan(s, i, CharClass::InLine);
        let here = if j > i && j <= s.len() {
            seq![s.subrange(i, j)]
        } else {
            Seq::empty()
        };
        if j < i || j >= s.len() {
            here
        } else {
            here + lines_from(s, j + 1)
        }
    }
}

/// The logical content lines of a text: line endings brought to LF, folds
/// joined, then split at LF, with empty lines left out.
pub fn content_lines(input: &str) -> (r: Vec<String>)
    ensures
        r@.map_values(|l: String| l@) == lines_from(unfolded(input@), 0),
{
    let text = normalize(input);
    let chars = char_vec(text.as_str());
    let n = chars.len();
    let mut out: Vec<String> = Vec::new();
    let mut i: usize = 0;
    proof {
        assert(out@.map_values(|l: String| l@) + lines_from(chars@, 0) =~= lines_from(chars@, 0));
    }
    while i < n
        invariant
            i <= n,
            n == chars@.len(),
            out@.map_values(|l: String| l@) + lines_from(chars@, i as int) == lines_from(chars@, 0),
        decreases n - i,
    {
        let j = scan_class(&chars, i, CharClass::InLine);
        let ghost before = out@.map_values(|l: String| l@);
        if j > i {
            let line = text_range(&chars, i, j);
            out.push(line);
            proof {
                assert(out@.map_values(|l: String| l@) =~= before.push(chars@.subrange(i as int, j as int)));
            }
        }
        proof {
            if j < n {
                assert(out@.map_values(|l: String| l@) + lines_from(chars@, j + 1) =~= before + lines_from(chars@, i as int));
            } else {
                assert(out@.map_values(|l: String| l@) + lines_from(chars@, n as int) =~= before + lines_from(chars@, i as int));
            }
        }
        if j < n {
            i = j + 1;
        } else {
            i = n;
        }
    }
    proof {
        assert(lines_from(chars@, i as int) == Seq::<Seq<char>>::empty());
        assert(out@.map_values(|l: String| l@) =~= lines_from(chars@, 0));
    }
    out
}
pub fn remove_empty_string(input: Option<&str>) -> (r: Option<&str>)
    ensures
        match input {
            Some(s) => if s@.len() == 0 { r is None } else { r == Some(s) },
            None => r is None,
        },
{
    match input {
        Some(s) => if s.is_empty() {
            None
        } else {
            Some(s)
        },
        None => None,
    }
}

/// `BEGIN` and `END`, which mark components rather than properties.
pub open spec fn is_reserved_key(k: Seq<char>) -> bool {
    k == seq!['B', 'E', 'G', 'I', 'N'] || k == seq!['E', 'N', 'D']
}

/// The property key at the start of `s`, with the position after it; or
/// the error.
pub open spec fn parse_key(s: Seq<char>) -> Result<(Seq<char>, int), (ParseErrorKind, int)> {
    let b = scan(s, 0, CharClass::PropertyKey);
    if b == 0 {
        Err((ParseErrorKind::EmptyKey, 0))
    } else if is_reserved_key(s.take(b)) {
        Err((ParseErrorKind::ReservedKey, 0))
    } else {
        Ok((s.take(b), b))
    }
}

/// A content line split into its key, its parameters and its raw value; or
/// the error.
pub open spec fn parse_line(s: Seq<char>) -> Result<(Seq<char>, Seq<(Seq<char>, Option<Seq<char>>)>, Seq<char>), (ParseErrorKind, int)> {
    match parse_key(s) {
        Err(e) => Err(e),
        Ok((key, b)) => {
            let (ps, c) = parse_params(s, b);
            if c < s.len() && s[c] == ':' {
                Ok((key, ps, s.skip(c + 1)))
            } else {
                Err((ParseErrorKind::ExpectedColon, c))
            }
        },
    }
}

/// Parsed parameters entered one after another into `acc`.
pub open spec fn insert_all(acc: Seq<(Seq<char>, Seq<char>)>, ps: Seq<(Seq<char>, Option<Seq<char>>)>) -> Seq<(Seq<char>, Seq<char>)>
    decreases ps.len(),
{
    if ps.len() == 0 {
        acc
    } else {
        insert_all(insert_keyed(acc, stored_param(ps[0])), ps.skip(1))
    }
}

/// The property that a parsed line stands for: parameters entered in order
/// (a later one with the same key wins), and the raw value unescaped where
/// the value type is TEXT.
pub open spec fn built_property(key: Seq<char>, ps: Seq<(Seq<char>, Option<Seq<char>>)>, raw: Seq<char>) -> PropertyView {
    let params = insert_all(Seq::empty(), ps);
    let value = if resolved_type(PropertyView { key, value: raw, params }) == Some(ValueType::Text) {
        unescaped(raw)
    } else {
        raw
    };
    PropertyView { key, value, params }
}

/// The property key at the start of `input`. Returns the rest of the input
/// and the key.
pub fn property_key(input: &str) -> (r: Result<(String, String), ParseError>)
    ensures
        match r {
            Ok((rest, key)) => parse_key(input@) matches Ok((k, b)) && key@ == k && rest@ == input@.skip(b),
            Err(e) => parse_key(input@) == Err::<(Seq<char>, int), _>((e.kind, e.position as int))
                && e.fragment@ == input@.skip(e.position as int),
        },
{
    let chars = char_vec(input);
    match key_at_start(&chars) {
        Ok((key, b)) => {
            let rest = text_range(&chars, b, chars.len());
            proof {
                assert(rest@ =~= input@.skip(b as int));
            }
            Ok((rest, key))
        },
        Err(e) => Err(e),
    }
}

fn key_at_start(chars: &Vec<char>) -> (r: Result<(String, usize), ParseError>)
    ensures
        match r {
            Ok((key, b)) => parse_key(chars@) == Ok::<_, (ParseErrorKind, int)>((key@, b as int)) && b <= chars@.len(),
            Err(e) => parse_key(chars@) == Err::<(Seq<char>, int), _>((e.kind, e.position as int))
                && e.fragment@ == chars@.skip(e.position as int),
        },
{
    let b = scan_class(chars, 0, CharClass::PropertyKey);
    if b == 0 {
        return Err(error_at(chars, ParseErrorKind::EmptyKey, 0));
    }
    let key = text_range(chars, 0, b);
    proof {
        assert(chars@.subrange(0, b as int) =~= chars@.take(b as int));
    }
    let reserved = (b == 5 && chars[0] == 'B' && chars[1] == 'E' && chars[2] == 'G' && chars[3] == 'I'
        && chars[4] == 'N') || (b == 3 && chars[0] == 'E' && chars[1] == 'N' && chars[2] == 'D');
    proof {
        let k = chars@.take(b as int);
        if is_reserved_key(k) {
            if k == seq!['B', 'E', 'G', 'I', 'N'] {
                assert(k.len() == 5 && k[0] == 'B' && k[1] == 'E' && k[2] == 'G' && k[3] == 'I' && k[4] == 'N');
            } else {
                assert(k.len() == 3 && k[0] == 'E' && k[1] == 'N' && k[2] == 'D');
            }
        }
        if reserved {
            if b == 5 {
                assert(k =~= seq!['B', 'E', 'G', 'I', 'N']);
            } else {
                assert(k =~= seq!['E', 'N', 'D']);
            }
        }
    }
    if reserved {
        return Err(error_at(chars, ParseErrorKind::ReservedKey, 0));
    }
    Ok((key, b))
}

/// Parses a content line (already unfolded, without its line ending) into
/// a property: key, parameters, `:`, and the value, unescaped where the
/// value type is TEXT. Keys that RFC 5545 does not know are kept as they
/// stand.
pub fn parse_property(line: &str) -> (r: Result<Property, ParseError>)
    ensures
        match r {
            Ok(p) => parse_line(line@) matches Ok((k, ps, raw)) && p@ == built_property(k, ps, raw),
            Err(e) => parse_line(line@) == Err::<(Seq<char>, Seq<(Seq<char>, Option<Seq<char>>)>, Seq<char>), _>((e.kind, e.position as int))
                && e.fragment@ == line@.skip(e.position as int),
        },
{
    let chars = char_vec(line);
    let (key, b) = match key_at_start(&chars) {
        Ok(kb) => kb,
        Err(e) => {
            return Err(e);
        },
    };
    let (ps, c) = parameters_at(&chars, b);
    if !(c < chars.len() && chars[c] == ':') {
        return Err(error_at(&chars, ParseErrorKind::ExpectedColon, c));
    }
    let raw = text_range(&chars, c + 1, chars.len());
    proof {
        assert(raw@ =~= line@.skip(c + 1));
    }
    let ghost pv = ps@.map_values(|p: Parameter| param_view(p));
    let mut params = Parameters::new();
    let mut i: usize = 0;
    proof {
        assert(pv.skip(0) =~= pv);
    }
    while i < ps.len()
        invariant
            0 <= i <= ps@.len(),
            pv == ps@.map_values(|p: Parameter| param_view(p)),
            insert_all(params@, pv.skip(i as int)) == insert_all(Seq::empty(), pv),
        decreases ps@.len() - i,
    {
        let p = ps[i].to_parameter();
        proof {
            assert(pv.skip(i as int).skip(1) =~= pv.skip(i + 1));
            assert(pv.skip(i as int)[0] == param_view(ps@[i as int]));
        }
        params.insert(p);
        i = i + 1;
    }
    proof {
        assert(pv.skip(i as int) =~= Seq::<(Seq<char>, Option<Seq<char>>)>::empty());
    }
    let probe = Property::from_parts(key, raw, params);
    if let Some(ValueType::Text) = probe.value_type() {
        let (key, raw, params) = probe.into_parts();
        let value = unescape_text(raw.as_str());
        Ok(Property::from_parts(key, value, params))
    } else {
        Ok(probe)
    }
}

/// A property key that the grammar reads back: letters, digits, `,`, `/`,
/// `_` and `-`, at least one, and not `BEGIN` or `END`.
pub open spec fn readable_property_key(k: Seq<char>) -> bool {
    &&& k.len() > 0
    &&& forall|m: int| 0 <= m < k.len() ==> in_class(#[trigger] k[m], CharClass::PropertyKey)
    &&& !is_reserved_key(k)
}

/// A parameter that the grammar reads back: a key of letters, digits and
/// `-`, at least one; and a value without double quotes where it is
/// written quoted, else one that does not start with a double quote.
pub open spec fn readable_param(e: (Seq<char>, Seq<char>)) -> bool {
    &&& e.0.len() > 0
    &&& forall|m: int| 0 <= m < e.0.len() ==> in_class(#[trigger] e.0[m], CharClass::ParamKey)
    &&& if e.1.contains(':') || e.1.contains(';') {
        !e.1.contains('"')
    } else {
        e.1.len() == 0 || e.1[0] != '"'
    }
}

/// A property that the grammar reads back from its content line.
pub open spec fn readable_property(p: PropertyView) -> bool {
    &&& readable_property_key(p.key)
    &&& forall|i: int| 0 <= i < p.params.len() ==> readable_param(#[trigger] p.params[i])
    &&& keys_unique(p.params)
}

/// Stored parameters as the grammar reports them: an empty value as none.
pub open spec fn as_parsed(ps: Seq<(Seq<char>, Seq<char>)>) -> Seq<(Seq<char>, Option<Seq<char>>)> {
    ps.map_values(|e: (Seq<char>, Seq<char>)| (e.0, non_empty(e.1)))
}

proof fn lemma_scan_run(s: Seq<char>, i: int, j: int, class: CharClass)
    requires
        0 <= i <= j <= s.len(),
        forall|m: int| i <= m < j ==> in_class(#[trigger] s[m], class),
        j < s.len() ==> !in_class(s[j], class),
    ensures
        scan(s, i, class) == j,
    decreases j - i,
{
    if i < j {
        lemma_scan_run(s, i + 1, j, class);
    }
}

proof fn lemma_params_text_front(ps: Seq<(Seq<char>, Seq<char>)>)
    requires
        ps.len() > 0,
    ensures
        params_text(ps) == param_text(ps[0]) + params_text(ps.skip(1)),
    decreases ps.len(),
{
    if ps.len() == 1 {
        assert(ps.drop_last() =~= Seq::<(Seq<char>, Seq<char>)>::empty());
        assert(ps.skip(1) =~= Seq::<(Seq<char>, Seq<char>)>::empty());
        assert(params_text(ps) =~= param_text(ps[0]) + params_text(ps.skip(1)));
    } else {
        lemma_params_text_front(ps.drop_last());
        assert(ps.drop_last().skip(1) =~= ps.skip(1).drop_last());
        assert(ps.skip(1).last() == ps.last());
        assert(params_text(ps) =~= param_text(ps[0]) + params_text(ps.skip(1)));
    }
}

proof fn lemma_params_text_starts(ps: Seq<(Seq<char>, Seq<char>)>)
    requires
        ps.len() > 0,
    ensures
        params_text(ps).len() > 0,
        params_text(ps)[0] == ';',
{
    lemma_params_text_front(ps);
}

/// The parameter whose text stands at position `i` of `s` parses back.
proof fn lemma_parse_one_param(s: Seq<char>, i: int, e: (Seq<char>, Seq<char>))
    requires
        readable_param(e),
        0 <= i,
        i + param_text(e).len() < s.len(),
        forall|m: int| 0 <= m < param_text(e).len() ==> s[i + m] == #[trigger] param_text(e)[m],
        s[i + param_text(e).len()] == ';' || s[i + param_text(e).len()] == ':',
    ensures
        parse_param(s, i) == Ok::<_, (ParseErrorKind, int)>(((e.0, non_empty(e.1)), i + param_text(e).len())),
{
    let k = e.0;
    let v = e.1;
    let t = param_text(e);
    let end = i + t.len();
    assert(t[0] == ';');
    assert(s[i] == ';');
    assert(t[1] == k[0]);
    assert(s[i + 1] == k[0]);
    assert(in_class(k[0], CharClass::ParamKey));
    lemma_scan_run(s, i + 1, i + 1, CharClass::Space);
    let b = i + 1 + k.len();
    assert forall|m: int| i + 1 <= m < b implies in_class(#[trigger] s[m], CharClass::ParamKey) by {
        assert(t[m - i] == k[m - i - 1]);
        assert(s[m] == t[m - i]);
    }
    assert(t[1 + k.len() as int] == '=');
    assert(s[b] == '=');
    lemma_scan_run(s, i + 1, b, CharClass::ParamKey);
    lemma_scan_run(s, b, b, CharClass::Space);
    assert(s.subrange(i + 1, b) =~= k) by {
        assert forall|m: int| 0 <= m < k.len() implies s.subrange(i + 1, b)[m] == k[m] by {
            assert(t[1 + m] == k[m]);
            assert(s[i + 1 + m] == t[1 + m]);
        }
    }
    let d = b + 1;
    let q = quoted(v);
    assert forall|m: int| 0 <= m < q.len() implies s[d + m] == #[trigger] q[m] by {
        assert(t[2 + k.len() + m] == q[m]);
        assert(s[i + 2 + k.len() + m] == t[2 + k.len() + m]);
    }
    assert(end == d + q.len());
    if v.contains(':') || v.contains(';') {
        assert(q[0] == '"');
        assert(s[d] == '"');
        let e_end = d + 1 + v.len();
        assert forall|m: int| d + 1 <= m < e_end implies in_class(#[trigger] s[m], CharClass::Quoted) by {
            assert(q[m - d] == v[m - d - 1]);
            assert(s[m] == q[m - d]);
            if s[m] == '"' {
                assert(v.contains('"'));
            }
        }
        assert(q[1 + v.len() as int] == '"');
        assert(s[e_end] == '"');
        lemma_scan_run(s, d + 1, e_end, CharClass::Quoted);
        assert(s.subrange(d + 1, e_end) =~= v) by {
            assert forall|m: int| 0 <= m < v.len() implies s.subrange(d + 1, e_end)[m] == v[m] by {
                assert(q[1 + m] == v[m]);
                assert(s[d + 1 + m] == q[1 + m]);
            }
        }
    } else {
        assert(q == v);
        if v.len() > 0 {
            assert(s[d] == v[0]);
        }
        assert forall|m: int| d <= m < end implies in_class(#[trigger] s[m], CharClass::Plain) by {
            assert(s[m] == v[m - d]);
            if s[m] == ';' {
                assert(v.contains(';'));
            }
            if s[m] == ':' {
                assert(v.contains(':'));
            }
        }
        lemma_scan_run(s, d, end, CharClass::Plain);
        assert(s.subrange(d, end) =~= v) by {
            assert forall|m: int| 0 <= m < v.len() implies s.subrange(d, end)[m] == v[m] by {
                assert(s[d + m] == v[m]);
            }
        }
    }
}

/// The parameters whose text stands at position `i` of `s`, followed by
/// `:`, parse back, and parsing stops at the `:`.
proof fn lemma_parse_params_text(s: Seq<char>, i: int, ps: Seq<(Seq<char>, Seq<char>)>)
    requires
        forall|j: int| 0 <= j < ps.len() ==> readable_param(#[trigger] ps[j]),
        0 <= i,
        i + params_text(ps).len() < s.len(),
        forall|m: int| 0 <= m < params_text(ps).len() ==> s[i + m] == #[trigger] params_text(ps)[m],
        s[i + params_text(ps).len()] == ':',
    ensures
        parse_params(s, i) == (as_parsed(ps), i + params_text(ps).len()),
    decreases ps.len(),
{
    if ps.len() == 0 {
        assert(params_text(ps).len() == 0);
        assert(as_parsed(ps) =~= Seq::<(Seq<char>, Option<Seq<char>>)>::empty());
    } else {
        lemma_params_text_front(ps);
        let e = ps[0];
        let rest = ps.skip(1);
        let t = param_text(e);
        let rt = params_text(rest);
        assert(readable_param(e));
        assert forall|m: int| 0 <= m < t.len() implies s[i + m] == #[trigger] t[m] by {
            assert(params_text(ps)[m] == t[m]);
        }
        let j = i + t.len();
        assert forall|m: int| 0 <= m < rt.len() implies s[j + m] == #[trigger] rt[m] by {
            assert(params_text(ps)[t.len() + m] == rt[m]);
        }
        if rest.len() > 0 {
            lemma_params_text_starts(rest);
            assert(s[j] == ';');
        } else {
            assert(rt.len() == 0);
        }
        lemma_parse_one_param(s, i, e);
        assert forall|q: int| 0 <= q < rest.len() implies readable_param(#[trigger] rest[q]) by {
            assert(rest[q] == ps[q + 1]);
        }
        lemma_parse_params_text(s, j, rest);
        assert(as_parsed(ps) =~= seq![(e.0, non_empty(e.1))] + as_parsed(rest));
    }
}

proof fn lemma_insert_all_fresh(acc: Seq<(Seq<char>, Seq<char>)>, ps: Seq<(Seq<char>, Seq<char>)>)
    requires
        keys_unique(acc + ps),
    ensures
        insert_all(acc, as_parsed(ps)) == acc + ps,
    decreases ps.len(),
{
    if ps.len() == 0 {
        assert(as_parsed(ps) =~= Seq::<(Seq<char>, Option<Seq<char>>)>::empty());
        assert(acc + ps =~= acc);
    } else {
        let e = ps[0];
        assert(as_parsed(ps)[0] == (e.0, non_empty(e.1)));
        assert(stored_param((e.0, non_empty(e.1))) == e) by {
            if e.1.len() == 0 {
                assert(e.1 =~= Seq::<char>::empty());
            }
        }
        assert forall|j: int| 0 <= j < acc.len() implies acc[j].0 != e.0 by {
            assert((acc + ps)[j] == acc[j]);
            assert((acc + ps)[acc.len() as int] == e);
        }
        lemma_key_index_absent(acc, e.0);
        assert(insert_keyed(acc, e) == acc.push(e));
        assert(as_parsed(ps).skip(1) =~= as_parsed(ps.skip(1)));
        assert(acc.push(e) + ps.skip(1) =~= acc + ps);
        lemma_insert_all_fresh(acc.push(e), ps.skip(1));
    }
}

/// Property round trip: the content line of a property whose key and
/// parameters the grammar can read parses back to the same key, the same
/// logical value (a TEXT value is escaped on the way out and unescaped on
/// the way in; any other is left as it stands), and the same parameters.
pub proof fn lemma_property_round_trip(p: PropertyView)
    requires
        readable_property(p),
    ensures
        parse_line(content_line(p)) matches Ok((k, ps, raw)) && built_property(k, ps, raw) == p,
{
    let s = content_line(p);
    let key = p.key;
    let pt = params_text(p.params);
    let vt = value_text(p);
    assert(s == key + pt + seq![':'] + vt);
    let kl = key.len() as int;
    let c = kl + pt.len();
    assert(s[c] == ':');
    if p.params.len() > 0 {
        lemma_params_text_starts(p.params);
        assert(s[kl] == ';');
    } else {
        assert(s[kl] == ':');
    }
    assert forall|m: int| 0 <= m < kl implies in_class(#[trigger] s[m], CharClass::PropertyKey) by {
        assert(s[m] == key[m]);
    }
    lemma_scan_run(s, 0, kl, CharClass::PropertyKey);
    assert(s.take(kl) =~= key);
    assert(parse_key(s) == Ok::<_, (ParseErrorKind, int)>((key, kl)));
    assert forall|m: int| 0 <= m < pt.len() implies s[kl + m] == #[trigger] pt[m] by {}
    lemma_parse_params_text(s, kl, p.params);
    assert(s.skip(c + 1) =~= vt);
    let parsed = as_parsed(p.params);
    assert(parse_line(s) == Ok::<_, (ParseErrorKind, int)>((key, parsed, vt)));
    assert(Seq::<(Seq<char>, Seq<char>)>::empty() + p.params =~= p.params);
    lemma_insert_all_fresh(Seq::empty(), p.params);
    let b = built_property(key, parsed, vt);
    assert(b.params == p.params);
    if resolved_type(p) == Some(ValueType::Text) {
        lemma_unescape_escape(p.value);
    }
    assert(b == p);
}

/// Serialising a readable property whose content line has no line break,
/// then unfolding, gives its content line and LF; and that line parses back
/// to the property.
pub proof fn lemma_serialized_round_trip(p: PropertyView)
    requires
        readable_property(p),
        is_logical_line(content_line(p)),
    ensures
        unfolded(serialized(p)) == content_line(p) + lf(),
        parse_line(content_line(p)) matches Ok((k, ps, raw)) && built_property(k, ps, raw) == p,
{
    lemma_unfold_folded_with_crlf(content_line(p));
    lemma_property_round_trip(p);
}

/// A value whose type is not TEXT is written raw: unfolded, the output is
/// the key, the parameters, `:` and the value exactly as stored, then LF;
/// and where the grammar can read the key and parameters, parsing gives
/// the value back unchanged.
pub proof fn lemma_raw_value_identity(p: PropertyView)
    requires
        resolved_type(p) != Some(ValueType::Text),
        is_logical_line(content_line(p)),
    ensures
        unfolded(serialized(p)) == p.key + params_text(p.params) + seq![':'] + p.value + lf(),
        readable_property(p) ==> (parse_line(content_line(p)) matches Ok((k, ps, raw)) && raw == p.value
            && built_property(k, ps, raw).value == p.value),
{
    lemma_unfold_folded_with_crlf(content_line(p));
    if readable_property(p) {
        lemma_property_round_trip(p);
        let s = content_line(p);
        let c = p.key.len() as int + params_text(p.params).len() as int;
        assert(s.skip(c + 1) =~= p.value);
    }
}

} // verus!
