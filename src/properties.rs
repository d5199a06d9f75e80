//! Properties and their parameters: the key, the logical (unescaped)
//! value, and the parameters keyed uniquely in the order they were first
//! given; and how a property is written out as a folded content line.

use vstd::prelude::*;
use crate::escape::escaped;
use crate::fold::{crlf, fold_line, folded};
use crate::strings::{char_vec, str_eq};
use crate::value_types::{type_for_key, type_from_name, value_type_name, ValueType};

verus! {

/// `i` is the first position of `s` whose key is `k`.
pub open spec fn is_first_key<V>(s: Seq<(Seq<char>, V)>, k: Seq<char>, i: int) -> bool {
    &&& 0 <= i < s.len()
    &&& s[i].0 == k
    &&& forall|j: int| 0 <= j < i ==> s[j].0 != k
}

/// The first position of `s` whose key is `k`, or -1 where there is none.
pub open spec fn key_index<V>(s: Seq<(Seq<char>, V)>, k: Seq<char>) -> int {
    if exists|i: int| is_first_key(s, k, i) {
        choose|i: int| is_first_key(s, k, i)
    } else {
        -1
    }
}

/// No key occurs twice in `s`.
pub open spec fn keys_unique<V>(s: Seq<(Seq<char>, V)>) -> bool {
    forall|i: int, j: int| 0 <= i < s.len() && 0 <= j < s.len() && i != j ==> s[i].0 != s[j].0
}

pub proof fn lemma_key_index_found<V>(s: Seq<(Seq<char>, V)>, k: Seq<char>, i: int)
    requires
        is_first_key(s, k, i),
    ensures
        key_index(s, k) == i,
{
    let c = choose|c: int| is_first_key(s, k, c);
    if c < i {
        assert(s[c].0 != k);
    } else if c > i {
        assert(s[i].0 != k);
    }
}

pub proof fn lemma_key_index_absent<V>(s: Seq<(Seq<char>, V)>, k: Seq<char>)
    requires
        forall|j: int| 0 <= j < s.len() ==> s[j].0 != k,
    ensures
        key_index(s, k) == -1,
{
}

proof fn lemma_first_key_exists<V>(s: Seq<(Seq<char>, V)>, k: Seq<char>, j: int)
    requires
        0 <= j < s.len(),
        s[j].0 == k,
    ensures
        key_index(s, k) >= 0,
    decreases j,
{
    if forall|q: int| 0 <= q < j ==> s[q].0 != k {
        assert(is_first_key(s, k, j));
    } else {
        let q = choose|q: int| 0 <= q < j && s[q].0 == k;
        lemma_first_key_exists(s, k, q);
    }
}

pub proof fn lemma_key_index_bounds<V>(s: Seq<(Seq<char>, V)>, k: Seq<char>)
    ensures
        key_index(s, k) >= 0 ==> is_first_key(s, k, key_index(s, k)),
        key_index(s, k) < 0 ==> forall|j: int| 0 <= j < s.len() ==> s[j].0 != k,
{
    if key_index(s, k) < 0 {
        assert forall|j: int| 0 <= j < s.len() implies s[j].0 != k by {
            if s[j].0 == k {
                lemma_first_key_exists(s, k, j);
            }
        }
    }
}

/// Where the keys of `s` are unique, `k` stands at `key_index(s, k)` and
/// nowhere else.
pub proof fn lemma_key_index_unique<V>(s: Seq<(Seq<char>, V)>, k: Seq<char>, i: int)
    requires
        keys_unique(s),
        0 <= i < s.len(),
        s[i].0 == k,
    ensures
        key_index(s, k) == i,
{
    lemma_key_index_found(s, k, i);
}

/// `e` entered under its key: it takes the place of the first entry with
/// that key, or goes last where there is none.
pub open spec fn insert_keyed<V>(s: Seq<(Seq<char>, V)>, e: (Seq<char>, V)) -> Seq<(Seq<char>, V)> {
    let i = key_index(s, e.0);
    if i >= 0 {
        s.update(i, e)
    } else {
        s.push(e)
    }
}

/// Entering under a key keeps the keys unique.
pub proof fn lemma_insert_keeps_keys_unique<V>(s: Seq<(Seq<char>, V)>, e: (Seq<char>, V))
    requires
        keys_unique(s),
    ensures
        keys_unique(insert_keyed(s, e)),
{
    lemma_key_index_bounds(s, e.0);
}

/// A key and a value that modify a property.
#[derive(Debug)]
pub struct Parameter {
    key: String,
    val: String,
}

impl View for Parameter {
    type V = (Seq<char>, Seq<char>);

    closed spec fn view(&self) -> (Seq<char>, Seq<char>) {
        (self.key@, self.val@)
    }
}

impl Clone for Parameter {
    fn clone(&self) -> (r: Parameter)
        ensures
            r@ == self@,
    {
        Parameter { key: self.key.clone(), val: self.val.clone() }
    }
}

impl Parameter {
    /// Creates a new `Parameter`.
    pub fn new(key: &str, val: &str) -> (r: Parameter)
        ensures
            r@ == (key@, val@),
    {
        Parameter { key: key.to_owned(), val: val.to_owned() }
    }

    /// The `VALUE` parameter that states value type `t`.
    pub fn of_value_type(t: ValueType) -> (r: Parameter)
        ensures
            r@ == (value_key(), value_type_name(t)),
    {
        proof {
            reveal_strlit("VALUE");
            assert("VALUE"@ =~= value_key());
        }
        Parameter::new("VALUE", t.as_str())
    }

    /// The key.
    pub fn key(&self) -> (r: &str)
        ensures
            r@ == self@.0,
    {
        self.key.as_str()
    }

    /// The value.
    pub fn value(&self) -> (r: &str)
        ensures
            r@ == self@.1,
    {
        self.val.as_str()
    }
}

/// The parameters of a property: at most one per key, in the order in
/// which their keys were first given.
#[derive(Debug)]
pub struct Parameters {
    entries: Vec<Parameter>,
}

/// The parameters of a property, by key.
pub type EntryParameters = Parameters;

impl View for Parameters {
    type V = Seq<(Seq<char>, Seq<char>)>;

    closed spec fn view(&self) -> Seq<(Seq<char>, Seq<char>)> {
        self.entries@.map_values(|p: Parameter| p@)
    }
}

impl Clone for Parameters {
    fn clone(&self) -> (r: Parameters)
        ensures
            r@ == self@,
    {
        let mut entries: Vec<Parameter> = Vec::new();
        let mut i: usize = 0;
        while i < self.entries.len()
            invariant
                0 <= i <= self.entries@.len(),
                entries@.map_values(|p: Parameter| p@) == self@.take(i as int),
            decreases self.entries@.len() - i,
        {
            let ghost before = entries@.map_values(|p: Parameter| p@);
            let c = self.entries[i].clone();
            entries.push(c);
            proof {
                assert(entries@.map_values(|p: Parameter| p@) =~= before.push(c@));
                assert(self@.take(i + 1) =~= self@.take(i as int).push(self@[i as int]));
            }
            i = i + 1;
        }
        proof {
            assert(self@.take(i as int) =~= self@);
        }
        Parameters { entries }
    }
}

impl Parameters {
    /// No parameters.
    pub fn new() -> (r: Parameters)
        ensures
            r@ == Seq::<(Seq<char>, Seq<char>)>::empty(),
    {
        let r = Parameters { entries: Vec::new() };
        proof {
            assert(r@ =~= Seq::<(Seq<char>, Seq<char>)>::empty());
        }
        r
    }

    /// The number of parameters.
    pub fn len(&self) -> (r: usize)
        ensures
            r == self@.len(),
    {
        self.entries.len()
    }

    /// Whether there are no parameters.
    pub fn is_empty(&self) -> (r: bool)
        ensures
            r == (self@.len() == 0),
    {
        self.entries.len() == 0
    }

    /// The parameter at position `i`, in storage order.
    pub fn at(&self, i: usize) -> (r: &Parameter)
        requires
            i < self@.len(),
        ensures
            r@ == self@[i as int],
    {
        &self.entries[i]
    }

    fn position(&self, key: &str) -> (r: Option<usize>)
        ensures
            match r {
                Some(i) => i == key_index(self@, key@) && i < self@.len(),
                None => key_index(self@, key@) == -1,
            },
    {
        let mut i: usize = 0;
        while i < self.entries.len()
            invariant
                0 <= i <= self.entries@.len(),
                self@.len() == self.entries@.len(),
                forall|j: int| 0 <= j < i ==> self@[j].0 != key@,
            decreases self.entries@.len() - i,
        {
            if str_eq(self.entries[i].key(), key) {
                proof {
                    lemma_key_index_found(self@, key@, i as int);
                }
                return Some(i);
            }
            i = i + 1;
        }
        proof {
            lemma_key_index_absent(self@, key@);
        }
        None
    }

    /// The parameter with key `key`, if there is one.
    pub fn get(&self, key: &str) -> (r: Option<&Parameter>)
        ensures
            match r {
                Some(p) => key_index(self@, key@) >= 0 && p@ == self@[key_index(self@, key@)],
                None => key_index(self@, key@) < 0,
            },
    {
        match self.position(key) {
            Some(i) => Some(&self.entries[i]),
            None => None,
        }
    }

    /// Whether a parameter with key `key` is present.
    pub fn contains_key(&self, key: &str) -> (r: bool)
        ensures
            r == (key_index(self@, key@) >= 0),
    {
        self.position(key).is_some()
    }

    /// Enters `p` under its key: it replaces the parameter with that key,
    /// or comes last where there is none.
    pub fn insert(&mut self, p: Parameter)
        ensures
            final(self)@ == insert_keyed(old(self)@, p@),
    {
        match self.position(p.key()) {
            Some(i) => {
                self.entries.set(i, p);
                proof {
                    assert(self@ =~= insert_keyed(old(self)@, p@));
                }
            },
            None => {
                self.entries.push(p);
                proof {
                    assert(self@ =~= insert_keyed(old(self)@, p@));
                }
            },
        }
    }
}

/// What a property holds: its key, its logical value, and its parameters.
pub struct PropertyView {
    pub key: Seq<char>,
    pub value: Seq<char>,
    pub params: Seq<(Seq<char>, Seq<char>)>,
}

/// A key, a value and parameters: one content line of a component.
#[derive(Debug)]
pub struct Property {
    key: String,
    val: String,
    params: Parameters,
}

impl View for Property {
    type V = PropertyView;

    closed spec fn view(&self) -> PropertyView {
        PropertyView { key: self.key@, value: self.val@, params: self.params@ }
    }
}

/// A property with no parameters.
pub open spec fn plain_property(key: Seq<char>, value: Seq<char>) -> PropertyView {
    PropertyView { key, value, params: Seq::empty() }
}

/// The name of the parameter that states a value type.
pub open spec fn value_key() -> Seq<char> {
    seq!['V', 'A', 'L', 'U', 'E']
}

/// The value type of a property: the one that its `VALUE` parameter names,
/// where that parameter is present and names one; else the default for its
/// key; else none.
pub open spec fn resolved_type(p: PropertyView) -> Option<ValueType> {
    let i = key_index(p.params, value_key());
    if i >= 0 && type_from_name(p.params[i].1) is Some {
        type_from_name(p.params[i].1)
    } else {
        type_for_key(p.key)
    }
}

/// A parameter value as written: in double quotes where it holds `:` or `;`.
pub open spec fn quoted(v: Seq<char>) -> Seq<char> {
    if v.contains(':') || v.contains(';') {
        seq!['"'] + v + seq!['"']
    } else {
        v
    }
}

/// One parameter as written: `;key=value`.
pub open spec fn param_text(p: (Seq<char>, Seq<char>)) -> Seq<char> {
    seq![';'] + p.0 + seq!['='] + quoted(p.1)
}

/// The parameters as written, in storage order.
pub open spec fn params_text(ps: Seq<(Seq<char>, Seq<char>)>) -> Seq<char>
    decreases ps.len(),
{
    if ps.len() == 0 {
        Seq::empty()
    } else {
        params_text(ps.drop_last()) + param_text(ps.last())
    }
}

/// The value as written: escaped where the value type is TEXT.
pub open spec fn value_text(p: PropertyView) -> Seq<char> {
    if resolved_type(p) == Some(ValueType::Text) {
        escaped(p.value)
    } else {
        p.value
    }
}

/// The logical content line of a property, before folding.
pub open spec fn content_line(p: PropertyView) -> Seq<char> {
    p.key + params_text(p.params) + seq![':'] + value_text(p)
}

/// A property as written out: its content line folded, then CRLF.
pub open spec fn serialized(p: PropertyView) -> Seq<char> {
    folded(content_line(p)) + crlf()
}

impl Clone for Property {
    fn clone(&self) -> (r: Property)
        ensures
            r@ == self@,
    {
        Property { key: self.key.clone(), val: self.val.clone(), params: self.params.clone() }
    }
}

impl Property {
    /// A property with no parameters.
    pub fn new(key: &str, val: &str) -> (r: Property)
        ensures
            r@ == plain_property(key@, val@),
    {
        let r = Property { key: key.to_owned(), val: val.to_owned(), params: Parameters::new() };
        proof {
            assert(r@.params =~= plain_property(key@, val@).params);
        }
        r
    }

    /// A property from its parts.
    pub(crate) fn from_parts(key: String, val: String, params: Parameters) -> (r: Property)
        ensures
            r@ == (PropertyView { key: key@, value: val@, params: params@ }),
    {
        Property { key, val, params }
    }

    /// The parts of a property.
    pub(crate) fn into_parts(self) -> (r: (String, String, Parameters))
        ensures
            self@ == (PropertyView { key: r.0@, value: r.1@, params: r.2@ }),
    {
        (self.key, self.val, self.params)
    }

    /// A property with no parameters, from owned strings.
    pub fn new_pre_alloc(key: String, val: String) -> (r: Property)
        ensures
            r@ == plain_property(key@, val@),
    {
        let ghost (k, v) = (key@, val@);
        let r = Property { key, val, params: Parameters::new() };
        proof {
            assert(r@.params =~= plain_property(k, v).params);
        }
        r
    }

    /// The key.
    pub fn key(&self) -> (r: &str)
        ensures
            r@ == self@.key,
    {
        self.key.as_str()
    }

    /// The logical value.
    pub fn value(&self) -> (r: &str)
        ensures
            r@ == self@.value,
    {
        self.val.as_str()
    }

    /// The parameters.
    pub fn params(&self) -> (r: &EntryParameters)
        ensures
            r@ == self@.params,
    {
        &self.params
    }

    /// The value type: the one that the `VALUE` parameter names, else the
    /// default for the key.
    pub fn value_type(&self) -> (r: Option<ValueType>)
        ensures
            r == resolved_type(self@),
    {
        proof {
            reveal_strlit("VALUE");
            assert("VALUE"@ =~= value_key());
        }
        let named = match self.params.get("VALUE") {
            Some(p) => ValueType::from_str(p.value()),
            None => None,
        };
        match named {
            Some(t) => Some(t),
            None => ValueType::by_name(self.key()),
        }
    }

    /// Properties from key/value pairs, in order.
    pub fn from_array<const N: usize>(array: [(&str, &str); N]) -> (r: Vec<Property>)
        ensures
            r@.len() == N,
            forall|i: int| 0 <= i < N ==> (#[trigger] r@[i])@ == plain_property(array@[i].0@, array@[i].1@),
    {
        let mut out: Vec<Property> = Vec::new();
        let mut i: usize = 0;
        while i < N
            invariant
                0 <= i <= N,
                array@.len() == N,
                out@.len() == i,
                forall|j: int| 0 <= j < i ==> (#[trigger] out@[j])@ == plain_property(array@[j].0@, array@[j].1@),
            decreases N - i,
        {
            let (k, v) = array[i];
            out.push(Property::new(k, v));
            i = i + 1;
        }
        out
    }

    /// The value, converted by `converter`.
    pub fn get_value_as<F, T>(&self, converter: F) -> (r: Option<T>)
        where
            F: Fn(&str) -> Option<T>,
        requires
            forall|s: &str| s@ == self@.value ==> converter.requires((s,)),
        ensures
            exists|s: &str| s@ == self@.value && converter.ensures((s,), r),
    {
        let v = self.val.as_str();
        let r = converter(v);
        proof {
            assert(v@ == self@.value && converter.ensures((v,), r));
        }
        r
    }

    /// The value of the parameter `key`, converted by `converter`; `None`
    /// where there is no such parameter.
    pub fn get_param_as<F, T>(&self, key: &str, converter: F) -> (r: Option<T>)
        where
            F: Fn(&str) -> Option<T>,
        requires
            forall|s: &str| converter.requires((s,)),
        ensures
            key_index(self@.params, key@) < 0 ==> r is None,
            key_index(self@.params, key@) >= 0 ==> exists|s: &str|
                s@ == self@.params[key_index(self@.params, key@)].1 && converter.ensures((s,), r),
    {
        match self.params.get(key) {
            Some(param) => {
                let v = param.value();
                let r = converter(v);
                proof {
                    assert(v@ == self@.params[key_index(self@.params, key@)].1 && converter.ensures((v,), r));
                }
                r
            },
            None => None,
        }
    }

    /// Enters a parameter; one with the same key is replaced.
    pub fn append_parameter(&mut self, parameter: Parameter) -> (r: &mut Self)
        ensures
            r@.key == old(self)@.key,
            r@.value == old(self)@.value,
            r@.params == insert_keyed(old(self)@.params, parameter@),
            *final(self) == *final(r),
    {
        self.params.insert(parameter);
        self
    }

    /// Creates and enters a parameter; one with the same key is replaced.
    pub fn add_parameter(&mut self, key: &str, val: &str) -> (r: &mut Self)
        ensures
            r@.key == old(self)@.key,
            r@.value == old(self)@.value,
            r@.params == insert_keyed(old(self)@.params, (key@, val@)),
            *final(self) == *final(r),
    {
        self.params.insert(Parameter::new(key, val));
        self
    }

    /// Ends a chain of builder calls: hands out the property built so far
    /// and leaves an empty one in its place.
    pub fn done(&mut self) -> (r: Property)
        ensures
            r@ == old(self)@,
            final(self)@.key.len() == 0,
            final(self)@.value.len() == 0,
            final(self)@.params.len() == 0,
    {
        let mut r = Property::new("", "");
        proof {
            reveal_strlit("");
        }
        core::mem::swap(self, &mut r);
        r
    }

    /// Escapes a TEXT value: backslash, comma, semicolon and newline get a
    /// leading backslash (newline is written `\n`).
    pub fn escape_text(input: &str) -> (r: String)
        ensures
            r@ == escaped(input@),
    {
        crate::escape::escape_chars(input)
    }

    /// A parameter value as written: quoted where it holds `:` or `;`.
    pub fn quote_if_contains_colon(input: &str) -> (r: String)
        ensures
            r@ == quoted(input@),
    {
        let chars = char_vec(input);
        let mut special = false;
        let mut i: usize = 0;
        while i < chars.len()
            invariant
                chars@ == input@,
                0 <= i <= chars@.len(),
                special == (exists|j: int| 0 <= j < i && (chars@[j] == ':' || chars@[j] == ';')),
            decreases chars@.len() - i,
        {
            if chars[i] == ':' || chars[i] == ';' {
                special = true;
            }
            i = i + 1;
        }
        proof {
            if special {
                let j = choose|j: int| 0 <= j < i && (chars@[j] == ':' || chars@[j] == ';');
                if chars@[j] == ':' {
                    assert(input@.contains(':'));
                } else {
                    assert(input@.contains(';'));
                }
            }
        }
        if special {
            let mut quoted_text = String::new();
            quoted_text.push('"');
            quoted_text.push_str(input);
            quoted_text.push('"');
            proof {
                assert(quoted_text@ =~= seq!['"'] + input@ + seq!['"']);
            }
            quoted_text
        } else {
            input.to_owned()
        }
    }

    /// The logical content line, before folding.
    fn content_line(&self) -> (r: String)
        ensures
            r@ == content_line(self@),
    {
        let mut line = String::new();
        line.push_str(self.key.as_str());
        let n = self.params.len();
        let mut i: usize = 0;
        proof {
            assert(self@.params.take(0) =~= Seq::<(Seq<char>, Seq<char>)>::empty());
            assert(line@ =~= self@.key + params_text(self@.params.take(0)));
        }
        while i < n
            invariant
                n == self@.params.len(),
                0 <= i <= n,
                line@ == self@.key + params_text(self@.params.take(i as int)),
            decreases n - i,
        {
            let p = self.params.at(i);
            line.push(';');
            line.push_str(p.key());
            line.push('=');
            let v = Property::quote_if_contains_colon(p.value());
            line.push_str(v.as_str());
            proof {
                assert(self@.params.take(i + 1).drop_last() =~= self@.params.take(i as int));
                assert(line@ =~= self@.key + params_text(self@.params.take(i + 1)));
            }
            i = i + 1;
        }
        proof {
            assert(self@.params.take(n as int) =~= self@.params);
        }
        line.push(':');
        match self.value_type() {
            Some(ValueType::Text) => {
                let e = Property::escape_text(self.val.as_str());
                line.push_str(e.as_str());
            },
            _ => {
                line.push_str(self.val.as_str());
            },
        }
        proof {
            assert(line@ =~= content_line(self@));
        }
        line
    }

    /// Writes this property to `out`: the content line folded, then CRLF.
    pub fn fmt_write(&self, out: &mut String)
        ensures
            final(out)@ == old(out)@ + serialized(self@),
    {
        let line = self.content_line();
        let f = fold_line(line.as_str());
        out.push_str(f.as_str());
        out.push('\r');
        out.push('\n');
        proof {
            assert(out@ =~= old(out)@ + serialized(self@));
        }
    }

    /// This property as written out.
    pub fn try_into(self) -> (r: Result<String, ()>)
        ensures
            r matches Ok(s) && s@ == serialized(self@),
    {
        let mut s = String::new();
        self.fmt_write(&mut s);
        proof {
            assert(s@ =~= serialized(self@));
        }
        Ok(s)
    }
}

/// Value-type inference: without a `VALUE` parameter a property has the
/// default type of its key (`DTSTART` is a date-time, an unknown key has
/// none, so its value is not escaped); with `VALUE=DATE` it is a date.
pub proof fn lemma_value_type_inference(p: PropertyView)
    ensures
        key_index(p.params, value_key()) < 0 ==> resolved_type(p) == type_for_key(p.key),
        key_index(p.params, value_key()) < 0 && p.key == "DTSTART"@ ==> resolved_type(p) == Some(ValueType::DateTime),
        key_index(p.params, value_key()) < 0 && type_for_key(p.key) is None ==> resolved_type(p) is None && value_text(p) == p.value,
        key_index(p.params, value_key()) >= 0 && p.params[key_index(p.params, value_key())].1 == "DATE"@
            ==> resolved_type(p) == Some(ValueType::Date),
{
    reveal_strlit("ATTACH");
    reveal_strlit("TZURL");
    reveal_strlit("URL");
    reveal_strlit("CALSCALE");
    reveal_strlit("METHOD");
    reveal_strlit("PRODID");
    reveal_strlit("VERSION");
    reveal_strlit("CATEGORIES");
    reveal_strlit("CLASS");
    reveal_strlit("COMMENT");
    reveal_strlit("DESCRIPTION");
    reveal_strlit("LOCATION");
    reveal_strlit("RESOURCES");
    reveal_strlit("STATUS");
    reveal_strlit("SUMMARY");
    reveal_strlit("TRANSP");
    reveal_strlit("TZID");
    reveal_strlit("TZNAME");
    reveal_strlit("CONTACT");
    reveal_strlit("RELATED-TO");
    reveal_strlit("UID");
    reveal_strlit("ACTION");
    reveal_strlit("REQUEST-STATUS");
    reveal_strlit("GEO");
    reveal_strlit("PERCENT-COMPLETE");
    reveal_strlit("PRIORITY");
    reveal_strlit("REPEAT");
    reveal_strlit("SEQUENCE");
    reveal_strlit("COMPLETED");
    reveal_strlit("DTEND");
    reveal_strlit("DUE");
    reveal_strlit("DTSTART");
    reveal_strlit("BINARY");
    reveal_strlit("BOOLEAN");
    reveal_strlit("CAL-ADDRESS");
    reveal_strlit("DATE");
    assert("ATTACH"@.len() != "DTSTART"@.len());
    assert("TZURL"@.len() != "DTSTART"@.len());
    assert("URL"@.len() != "DTSTART"@.len());
    assert("CALSCALE"@.len() != "DTSTART"@.len());
    assert("METHOD"@.len() != "DTSTART"@.len());
    assert("PRODID"@.len() != "DTSTART"@.len());
    assert("VERSION"@[0] != "DTSTART"@[0]);
    assert("CATEGORIES"@.len() != "DTSTART"@.len());
    assert("CLASS"@.len() != "DTSTART"@.len());
    assert("COMMENT"@[0] != "DTSTART"@[0]);
    assert("DESCRIPTION"@.len() != "DTSTART"@.len());
    assert("LOCATION"@.len() != "DTSTART"@.len());
    assert("RESOURCES"@.len() != "DTSTART"@.len());
    assert("STATUS"@.len() != "DTSTART"@.len());
    assert("SUMMARY"@[0] != "DTSTART"@[0]);
    assert("TRANSP"@.len() != "DTSTART"@.len());
    assert("TZID"@.len() != "DTSTART"@.len());
    assert("TZNAME"@.len() != "DTSTART"@.len());
    assert("CONTACT"@[0] != "DTSTART"@[0]);
    assert("RELATED-TO"@.len() != "DTSTART"@.len());
    assert("UID"@.len() != "DTSTART"@.len());
    assert("ACTION"@.len() != "DTSTART"@.len());
    assert("REQUEST-STATUS"@.len() != "DTSTART"@.len());
    assert("GEO"@.len() != "DTSTART"@.len());
    assert("PERCENT-COMPLETE"@.len() != "DTSTART"@.len());
    assert("PRIORITY"@.len() != "DTSTART"@.len());
    assert("REPEAT"@.len() != "DTSTART"@.len());
    assert("SEQUENCE"@.len() != "DTSTART"@.len());
    assert("COMPLETED"@.len() != "DTSTART"@.len());
    assert("DTEND"@.len() != "DTSTART"@.len());
    assert("DUE"@.len() != "DTSTART"@.len());
    assert("BINARY"@.len() != "DATE"@.len());
    assert("BOOLEAN"@.len() != "DATE"@.len());
    assert("CAL-ADDRESS"@.len() != "DATE"@.len());
}

} // verus!
