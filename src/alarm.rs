//! Alarms (`VALARM`): what an alarm does, when it triggers, and how often
//! it repeats.

use vstd::prelude::*;
use vstd::math::abs;
use crate::components::{first_value, opt_text};
use crate::date_time::{
    chosen_date_time, date_time_text, fields_of, local_format, parsed_date_time, utc_format,
    valid_date_time, CalendarDateTime, DatePerhapsTime,
};
use crate::numbers::{decimal, decimal_string, digits_in, digits_value, parse_u64, unsigned_value};
use crate::parser::{lemma_scan_bounds, scan, scan_class, CharClass};
use crate::properties::{
    insert_keyed, key_index, plain_property, value_key, Parameter, Property, PropertyView,
};
use crate::store::{first_occurrence, store_append, store_set, PropertyStore, StoreView};
use crate::strings::{char_vec, str_eq};

verus! {

/// The largest number of seconds that a duration may span either way.
pub const MAX_DURATION_SECONDS: i64 = 9_223_372_036_854_775;

/// A span of whole seconds in ISO 8601 form: `P0D` for none, else
/// `PT<n>S`, with a leading `-` where it is negative.
pub open spec fn duration_text(seconds: int) -> Seq<char> {
    let sign = if seconds < 0 {
        seq!['-']
    } else {
        Seq::empty()
    };
    if seconds == 0 {
        seq!['P', '0', 'D']
    } else {
        sign + seq!['P', 'T'] + decimal(abs(seconds) as nat) + seq!['S']
    }
}

/// Relies on chrono's `TimeDelta::seconds` and its `Display`: for whole
/// seconds it writes `P0D`, or `-` where negative, then `PT`, the number of
/// seconds and `S`. `TimeDelta::seconds` panics beyond
/// `MAX_DURATION_SECONDS` either way, which `requires` leaves out.
#[verifier::external_body]
fn format_duration(seconds: i64) -> (r: String)
    requires
        -MAX_DURATION_SECONDS <= seconds <= MAX_DURATION_SECONDS,
    ensures
        r@ == duration_text(seconds as int),
{
    chrono::TimeDelta::seconds(seconds).to_string()
}

/// The order in which the parts of a duration may come (weeks, days, then
/// after `T` hours, minutes, seconds); 0 for a character that names none.
pub open spec fn unit_rank(c: char) -> int {
    if c == 'W' {
        1
    } else if c == 'D' {
        2
    } else if c == 'H' {
        3
    } else if c == 'M' {
        4
    } else if c == 'S' {
        5
    } else {
        0
    }
}

/// The seconds in one of a unit of rank `r`.
pub open spec fn rank_seconds(r: int) -> int {
    if r == 1 {
        604800
    } else if r == 2 {
        86400
    } else if r == 3 {
        3600
    } else if r == 4 {
        60
    } else {
        1
    }
}

/// The seconds that the parts of a duration from position `i` add up to:
/// each part is digits and a unit, units in rank order, weeks and days
/// before `T`, hours, minutes and seconds after it, with at least one part
/// in all and at least one after a `T`. `last` is the rank of the part
/// before; `in_time` says a `T` was read; `timed` that a part followed it.
pub open spec fn duration_parts(s: Seq<char>, i: int, last: int, in_time: bool, timed: bool) -> Option<int>
    decreases s.len() - i,
{
    if i < 0 || i >= s.len() {
        if last > 0 && (!in_time || timed) {
            Some(0)
        } else {
            None
        }
    } else if s[i] == 'T' {
        if in_time {
            None
        } else {
            duration_parts(s, i + 1, last, true, false)
        }
    } else {
        let j = scan(s, i, CharClass::Digit);
        if j <= i || j >= s.len() {
            None
        } else {
            let r = unit_rank(s[j]);
            if r == 0 || r <= last || in_time != (r >= 3) {
                None
            } else {
                match duration_parts(s, j + 1, r, in_time, in_time) {
                    Some(v) => Some(digits_value(s.subrange(i, j)) * rank_seconds(r) + v),
                    None => None,
                }
            }
        }
    }
}

/// The seconds that an RFC 5545 duration stands for: an optional sign,
/// `P`, then its parts (`P15DT5H0M20S`, `-PT15M`, `P7W`).
pub open spec fn duration_value(s: Seq<char>) -> Option<int> {
    let signed = s.len() > 0 && (s[0] == '-' || s[0] == '+');
    let i: int = if signed {
        1
    } else {
        0
    };
    if i < s.len() && s[i] == 'P' {
        match duration_parts(s, i + 1, 0, false, false) {
            Some(v) => Some(if s[0] == '-' {
                -v
            } else {
                v
            }),
            None => None,
        }
    } else {
        None
    }
}

proof fn lemma_duration_parts_non_negative(s: Seq<char>, i: int, last: int, in_time: bool, timed: bool)
    ensures
        duration_parts(s, i, last, in_time, timed) matches Some(v) ==> v >= 0,
    decreases s.len() - i,
{
    if 0 <= i < s.len() {
        if s[i] == 'T' {
            if !in_time {
                lemma_duration_parts_non_negative(s, i + 1, last, true, false);
            }
        } else {
            let j = scan(s, i, CharClass::Digit);
            if j > i && j < s.len() {
                let r = unit_rank(s[j]);
                lemma_duration_parts_non_negative(s, j + 1, r, in_time, in_time);
                if let Some(v) = duration_parts(s, j + 1, r, in_time, in_time) {
                    assert(digits_value(s.subrange(i, j)) * rank_seconds(r) >= 0) by (nonlinear_arith)
                        requires
                            rank_seconds(r) >= 1,
                    ;
                }
            }
        }
    }
}

/// A span of time, in whole seconds.
#[derive(Copy, Clone, Debug, PartialEq, Eq, Structural)]
pub struct Duration {
    pub seconds: i64,
}

impl Duration {
    /// The number of seconds.
    pub open spec fn spec_seconds(self) -> int {
        self.seconds as int
    }

    /// A duration that fits the bound.
    pub open spec fn in_range(self) -> bool {
        -MAX_DURATION_SECONDS <= self.seconds <= MAX_DURATION_SECONDS
    }

    /// A duration of `s` seconds.
    pub fn seconds(s: i64) -> (r: Duration)
        requires
            -MAX_DURATION_SECONDS <= s <= MAX_DURATION_SECONDS,
        ensures
            r.spec_seconds() == s,
            r.in_range(),
    {
        Duration { seconds: s }
    }

    /// A duration of `m` minutes.
    pub fn minutes(m: i64) -> (r: Duration)
        requires
            -MAX_DURATION_SECONDS <= m * 60 <= MAX_DURATION_SECONDS,
        ensures
            r.spec_seconds() == m * 60,
            r.in_range(),
    {
        Duration { seconds: m * 60 }
    }

    /// A duration of `w` weeks.
    pub fn weeks(w: i64) -> (r: Duration)
        requires
            -MAX_DURATION_SECONDS <= w * 604800 <= MAX_DURATION_SECONDS,
        ensures
            r.spec_seconds() == w * 604800,
            r.in_range(),
    {
        Duration { seconds: w * 604800 }
    }

    /// The number of seconds.
    pub fn num_seconds(&self) -> (r: i64)
        ensures
            r == self.spec_seconds(),
    {
        self.seconds
    }

    /// The duration as written.
    pub fn to_text(&self) -> (r: String)
        requires
            self.in_range(),
        ensures
            r@ == duration_text(self.spec_seconds()),
    {
        format_duration(self.seconds)
    }
}

/// Reads an RFC 5545 duration (`-PT15M`, `P1D`, `PT900S`, `P2W`): an
/// optional sign, `P`, and its parts. `None` where the text is not a
/// duration or the span exceeds `MAX_DURATION_SECONDS`.
pub fn parse_duration(s: &str) -> (r: Option<Duration>)
    ensures
        match r {
            Some(d) => duration_value(s@) == Some(d.spec_seconds()) && d.in_range(),
            None => duration_value(s@) matches Some(v) ==> abs(v) > MAX_DURATION_SECONDS,
        },
{
    let chars = char_vec(s);
    let n = chars.len();
    let negative = n > 0 && chars[0] == '-';
    let mut i: usize = if n > 0 && (chars[0] == '-' || chars[0] == '+') { 1 } else { 0 };
    if !(i < n && chars[i] == 'P') {
        return None;
    }
    i = i + 1;
    let ghost start = i as int;
    let mut acc: i64 = 0;
    let mut last: usize = 0;
    let mut in_time = false;
    let mut timed = false;
    proof {
        assert(duration_value(s@) == (match duration_parts(chars@, start, 0, false, false) {
            Some(v) => Some(if negative { -v } else { v }),
            None => None::<int>,
        }));
    }
    loop
        invariant
            duration_value(s@) == (match duration_parts(chars@, start, 0, false, false) {
                Some(v) => Some(if negative { -v } else { v }),
                None => None::<int>,
            }),
            chars@ == s@,
            n == chars@.len(),
            start <= i <= n,
            0 <= acc <= MAX_DURATION_SECONDS,
            last <= 5,
            duration_parts(chars@, start, 0, false, false) == (match duration_parts(chars@, i as int, last as int, in_time, timed) {
                Some(v) => Some(acc + v),
                None => None::<int>,
            }),
        decreases n - i,
    {
        proof {
            lemma_duration_parts_non_negative(chars@, i as int, last as int, in_time, timed);
        }
        if i >= n {
            if last > 0 && (!in_time || timed) {
                let total = if negative { -acc } else { acc };
                return Some(Duration { seconds: total });
            }
            return None;
        }
        if chars[i] == 'T' {
            if in_time {
                return None;
            }
            in_time = true;
            timed = false;
            i = i + 1;
        } else {
            let j = scan_class(&chars, i, CharClass::Digit);
            if j <= i || j >= n {
                return None;
            }
            proof {
                lemma_scan_bounds(chars@, i as int, CharClass::Digit);
            }
            let u = chars[j];
            let r: usize = if u == 'W' {
                1
            } else if u == 'D' {
                2
            } else if u == 'H' {
                3
            } else if u == 'M' {
                4
            } else if u == 'S' {
                5
            } else {
                0
            };
            if r == 0 || r <= last || in_time != (r >= 3) {
                return None;
            }
            let unit: u64 = if r == 1 {
                604800
            } else if r == 2 {
                86400
            } else if r == 3 {
                3600
            } else if r == 4 {
                60
            } else {
                1
            };
            let ghost digits = chars@.subrange(i as int, j as int);
            proof {
                lemma_duration_parts_non_negative(chars@, j + 1, r as int, in_time, in_time);
            }
            let count = match digits_in(&chars, i, j) {
                Some(c) => c,
                None => {
                    proof {
                        assert(digits_value(digits) * rank_seconds(r as int) >= digits_value(digits)) by (nonlinear_arith)
                            requires
                                rank_seconds(r as int) >= 1,
                                digits_value(digits) >= 0,
                        ;
                    }
                    return None;
                },
            };
            if count > (MAX_DURATION_SECONDS as u64) / unit {
                proof {
                    assert(count * unit > MAX_DURATION_SECONDS) by (nonlinear_arith)
                        requires
                            count > (MAX_DURATION_SECONDS as u64) / unit,
                            unit >= 1,
                    ;
                }
                return None;
            }
            let part: i64 = (count * unit) as i64;
            proof {
                assert(count * unit <= MAX_DURATION_SECONDS) by (nonlinear_arith)
                    requires
                        count <= (MAX_DURATION_SECONDS as u64) / unit,
                        unit >= 1,
                ;
            }
            if part > MAX_DURATION_SECONDS - acc {
                return None;
            }
            acc = acc + part;
            last = r;
            timed = in_time;
            i = j + 1;
        }
    }
}

/// What an alarm does when it triggers.
#[derive(Clone, Debug, PartialEq, Eq)]
pub enum Action {
    /// Plays a sound.
    Audio,
    /// Sends an email.
    Email,
    /// Shows a message.
    Display,
    /// Any other action, by name.
    Other(String),
}

/// `a` is the action that text `s` names: one of the three by its name,
/// else `Other` holding the text.
pub open spec fn action_named(a: Action, s: Seq<char>) -> bool {
    if s == "AUDIO"@ {
        a == Action::Audio
    } else if s == "EMAIL"@ {
        a == Action::Email
    } else if s == "DISPLAY"@ {
        a == Action::Display
    } else {
        a matches Action::Other(o) && o@ == s
    }
}

/// The text of an action.
pub open spec fn action_text(a: Action) -> Seq<char> {
    match a {
        Action::Audio => "AUDIO"@,
        Action::Email => "EMAIL"@,
        Action::Display => "DISPLAY"@,
        Action::Other(s) => s@,
    }
}

impl Action {
    /// The action that `s` names; a name that is not one of the three is
    /// kept as it stands.
    pub fn from_str(s: &str) -> (r: Action)
        ensures
            (s@ == "AUDIO"@) ==> r == Action::Audio,
            (s@ == "EMAIL"@) ==> r == Action::Email,
            (s@ == "DISPLAY"@) ==> r == Action::Display,
            (s@ != "AUDIO"@ && s@ != "EMAIL"@ && s@ != "DISPLAY"@) ==> (r matches Action::Other(o) && o@ == s@),
            action_named(r, s@),
    {
        proof {
            reveal_strlit("AUDIO");
            reveal_strlit("EMAIL");
            reveal_strlit("DISPLAY");
            assert("AUDIO"@[0] != "EMAIL"@[0]);
            assert("AUDIO"@.len() != "DISPLAY"@.len());
            assert("EMAIL"@.len() != "DISPLAY"@.len());
        }
        if str_eq(s, "AUDIO") {
            Action::Audio
        } else if str_eq(s, "EMAIL") {
            Action::Email
        } else if str_eq(s, "DISPLAY") {
            Action::Display
        } else {
            Action::Other(s.to_owned())
        }
    }

    /// The text of this action.
    pub fn to_string(&self) -> (r: String)
        ensures
            r@ == action_text(*self),
    {
        match self {
            Action::Audio => "AUDIO".to_owned(),
            Action::Email => "EMAIL".to_owned(),
            Action::Display => "DISPLAY".to_owned(),
            Action::Other(other) => other.as_str().to_owned(),
        }
    }

    /// The `ACTION` property with this action.
    pub fn to_property(&self) -> (r: Property)
        ensures
            r@ == plain_property("ACTION"@, action_text(*self)),
    {
        let text = self.to_string();
        Property::new("ACTION", text.as_str())
    }
}

/// How many times an alarm repeats after it first triggers.
#[derive(Copy, Clone, Debug, Default, PartialEq, Eq)]
pub struct Repeat(u32);

impl Repeat {
    /// The count.
    pub closed spec fn spec_count(self) -> nat {
        self.0 as nat
    }

    /// A repeat count.
    pub fn new(count: u32) -> (r: Repeat)
        ensures
            r.spec_count() == count,
    {
        Repeat(count)
    }

    /// The `REPEAT` property with this count.
    pub fn to_property(self) -> (r: Property)
        ensures
            r@ == plain_property("REPEAT"@, decimal(self.spec_count())),
    {
        let text = decimal_string(self.0 as u64);
        Property::new_pre_alloc("REPEAT".to_owned(), text)
    }
}

impl From<u32> for Repeat {
    fn from(count: u32) -> (r: Repeat) {
        Repeat(count)
    }
}

impl vstd::std_specs::convert::FromSpecImpl<u32> for Repeat {
    open spec fn obeys_from_spec() -> bool {
        true
    }

    closed spec fn from_spec(count: u32) -> Repeat {
        Repeat(count)
    }
}

impl From<Repeat> for Property {
    fn from(r: Repeat) -> (p: Property) {
        r.to_property()
    }
}

// What `from` returns is stated on `Repeat::to_property`, which it calls;
// nothing is claimed here.
impl vstd::std_specs::convert::FromSpecImpl<Repeat> for Property {
    open spec fn obeys_from_spec() -> bool {
        false
    }

    open spec fn from_spec(r: Repeat) -> Property {
        vstd::pervasive::arbitrary()
    }
}

/// Which end of the component an alarm's duration counts from.
#[derive(Copy, Clone, Debug, PartialEq, Eq, Structural)]
pub enum Related {
    /// The start of the component.
    Start,
    /// The end of the component.
    End,
}

/// The text of a `RELATED` value.
pub open spec fn related_text(r: Related) -> Seq<char> {
    match r {
        Related::Start => "START"@,
        Related::End => "END"@,
    }
}

impl Related {
    /// The value that `s` names, if any.
    pub fn from_str(s: &str) -> (r: Option<Related>)
        ensures
            r == (if s@ == "START"@ {
                Some(Related::Start)
            } else if s@ == "END"@ {
                Some(Related::End)
            } else {
                None
            }),
    {
        if str_eq(s, "START") {
            Some(Related::Start)
        } else if str_eq(s, "END") {
            Some(Related::End)
        } else {
            None
        }
    }

    /// The `RELATED` parameter with this value.
    pub fn to_parameter(self) -> (r: Parameter)
        ensures
            r@ == ("RELATED"@, related_text(self)),
    {
        match self {
            Related::Start => Parameter::new("RELATED", "START"),
            Related::End => Parameter::new("RELATED", "END"),
        }
    }
}

/// When an alarm triggers: a duration from the start or end of its
/// component, or a fixed date-time.
#[derive(Copy, Clone, Debug, PartialEq, Eq, Structural)]
pub enum Trigger {
    /// A duration, counted from the start or the end.
    Duration(Duration, Option<Related>),
    /// A fixed date-time.
    DateTime(CalendarDateTime),
}

/// A trigger that can be written.
pub open spec fn valid_trigger(t: Trigger) -> bool {
    match t {
        Trigger::Duration(d, _) => d.in_range(),
        Trigger::DateTime(dt) => valid_date_time(fields_of(dt)),
    }
}

/// The `TRIGGER` property of a trigger.
pub open spec fn trigger_property(t: Trigger) -> PropertyView {
    match t {
        Trigger::Duration(d, None) => plain_property("TRIGGER"@, duration_text(d.spec_seconds())),
        Trigger::Duration(d, Some(rel)) => PropertyView {
            key: "TRIGGER"@,
            value: duration_text(d.spec_seconds()),
            params: seq![("RELATED"@, related_text(rel))],
        },
        Trigger::DateTime(dt) => PropertyView {
            key: "TRIGGER"@,
            value: date_time_text(dt),
            params: seq![(value_key(), "DATE-TIME"@)],
        },
    }
}

/// The value of parameter `key` of `p`, if present.
pub open spec fn param_value(p: PropertyView, key: Seq<char>) -> Option<Seq<char>> {
    let i = key_index(p.params, key);
    if i >= 0 {
        Some(p.params[i].1)
    } else {
        None
    }
}

/// The value that a `RELATED` text names, if any.
pub open spec fn related_from(s: Seq<char>) -> Option<Related> {
    if s == "START"@ {
        Some(Related::Start)
    } else if s == "END"@ {
        Some(Related::End)
    } else {
        None
    }
}

/// The trigger that a `TRIGGER` property states: a date-time where its
/// `VALUE` is `DATE-TIME`; a duration (with `RELATED` where that names a
/// side) where `VALUE` is `DURATION` or absent.
pub open spec fn trigger_of(p: PropertyView) -> Result<Trigger, ()> {
    let related = match param_value(p, "RELATED"@) {
        Some(v) => related_from(v),
        None => None,
    };
    if p.key != "TRIGGER"@ {
        Err(())
    } else if param_value(p, value_key()) == Some("DATE-TIME"@) {
        match chosen_date_time(parsed_date_time(p.value, local_format()), parsed_date_time(p.value, utc_format())) {
            Some(dt) => Ok(Trigger::DateTime(dt)),
            None => Err(()),
        }
    } else if param_value(p, value_key()) is None || param_value(p, value_key()) == Some("DURATION"@) {
        match duration_value(p.value) {
            Some(v) => if abs(v) <= MAX_DURATION_SECONDS {
                Ok(Trigger::Duration(Duration { seconds: v as i64 }, related))
            } else {
                Err(())
            },
            None => Err(()),
        }
    } else {
        Err(())
    }
}

impl Trigger {
    /// Reads a `TRIGGER` property back.
    pub fn try_from(prop: &Property) -> (r: Result<Trigger, ()>)
        ensures
            r == trigger_of(prop@),
    {
        proof {
            reveal_strlit("VALUE");
            assert("VALUE"@ =~= value_key());
        }
        if !str_eq(prop.key(), "TRIGGER") {
            return Err(());
        }
        let value_type = match prop.params().get("VALUE") {
            Some(p) => Some(p.value()),
            None => None,
        };
        let related = match prop.params().get("RELATED") {
            Some(p) => Related::from_str(p.value()),
            None => None,
        };
        let is_date_time = match value_type {
            Some(v) => str_eq(v, "DATE-TIME"),
            None => false,
        };
        let is_duration = match value_type {
            Some(v) => str_eq(v, "DURATION"),
            None => true,
        };
        if is_date_time {
            match CalendarDateTime::from_str(prop.value()) {
                Some(dt) => Ok(Trigger::DateTime(dt)),
                None => Err(()),
            }
        } else if is_duration {
            match parse_duration(prop.value()) {
                Some(d) => Ok(Trigger::Duration(d, related)),
                None => Err(()),
            }
        } else {
            Err(())
        }
    }

    /// Where the duration counts from, for a duration.
    pub fn related(&self) -> (r: Option<Related>)
        ensures
            r == (match *self {
                Trigger::Duration(_, rel) => rel,
                Trigger::DateTime(_) => None,
            }),
    {
        match self {
            Trigger::Duration(_, related) => *related,
            Trigger::DateTime(_) => None,
        }
    }

    /// The duration, for a duration.
    pub fn as_duration(&self) -> (r: Option<&Duration>)
        ensures
            match *self {
                Trigger::Duration(d, _) => r == Some(&d),
                Trigger::DateTime(_) => r is None,
            },
    {
        match self {
            Trigger::Duration(duration, _) => Some(duration),
            Trigger::DateTime(_) => None,
        }
    }

    /// The date-time, for a fixed date-time.
    pub fn as_date_time(&self) -> (r: Option<&CalendarDateTime>)
        ensures
            match *self {
                Trigger::Duration(_, _) => r is None,
                Trigger::DateTime(dt) => r == Some(&dt),
            },
    {
        match self {
            Trigger::Duration(_, _) => None,
            Trigger::DateTime(dt) => Some(dt),
        }
    }

    /// The `TRIGGER` property: the duration (with `RELATED` where given),
    /// or the date-time marked `VALUE=DATE-TIME`.
    pub fn to_property(self) -> (r: Property)
        requires
            valid_trigger(self),
        ensures
            r@ == trigger_property(self),
    {
        proof {
            reveal_strlit("VALUE");
            assert("VALUE"@ =~= value_key());
        }
        match self {
            Trigger::Duration(d, None) => Property::new("TRIGGER", d.to_text().as_str()),
            Trigger::Duration(d, Some(related)) => {
                let mut p = Property::new("TRIGGER", d.to_text().as_str());
                p.append_parameter(related.to_parameter());
                proof {
                    let e = ("RELATED"@, related_text(related));
                    assert(insert_keyed(Seq::<(Seq<char>, Seq<char>)>::empty(), e) =~= seq![e]);
                    assert(p@.params =~= seq![e]);
                }
                p
            },
            Trigger::DateTime(dt) => {
                let mut p = DatePerhapsTime::DateTime(dt).to_property("TRIGGER");
                p.add_parameter("VALUE", "DATE-TIME");
                proof {
                    let e = (value_key(), "DATE-TIME"@);
                    assert(insert_keyed(Seq::<(Seq<char>, Seq<char>)>::empty(), e) =~= seq![e]);
                    assert(p@.params =~= seq![e]);
                }
                p
            },
        }
    }
}

/// A `VALARM` component.
#[derive(Clone, Debug)]
pub struct Alarm {
    inner: PropertyStore,
}

impl View for Alarm {
    type V = StoreView;

    closed spec fn view(&self) -> StoreView {
        self.inner@
    }
}

impl Alarm {
    /// An alarm without properties; the public constructors always give an
    /// action and a trigger.
    fn default() -> (r: Alarm)
        ensures
            r@ == StoreView::empty(),
    {
        Alarm { inner: PropertyStore::new() }
    }

    /// An alarm that plays a sound.
    pub fn audio(trigger: Trigger) -> (r: Alarm)
        requires
            valid_trigger(trigger),
        ensures
            r@ == store_append(
                store_append(StoreView::empty(), plain_property("ACTION"@, "AUDIO"@)),
                trigger_property(trigger),
            ),
    {
        let mut a = Alarm::default();
        a.inner.append(Action::Audio.to_property());
        a.inner.append(trigger.to_property());
        a
    }

    /// An alarm that shows a message.
    pub fn display(description: &str, trigger: Trigger) -> (r: Alarm)
        requires
            valid_trigger(trigger),
        ensures
            r@ == store_set(
                store_append(
                    store_append(StoreView::empty(), plain_property("ACTION"@, "DISPLAY"@)),
                    trigger_property(trigger),
                ),
                plain_property("DESCRIPTION"@, description@),
            ),
    {
        let mut a = Alarm::default();
        a.inner.append(Action::Display.to_property());
        a.inner.append(trigger.to_property());
        a.inner.set(Property::new("DESCRIPTION", description));
        a
    }

    /// An alarm that sends an email.
    pub fn email(description: &str, trigger: Trigger, summary: &str) -> (r: Alarm)
        requires
            valid_trigger(trigger),
        ensures
            r@ == store_set(
                store_set(
                    store_append(
                        store_append(StoreView::empty(), plain_property("ACTION"@, "EMAIL"@)),
                        trigger_property(trigger),
                    ),
                    plain_property("DESCRIPTION"@, description@),
                ),
                plain_property("SUMMARY"@, summary@),
            ),
    {
        let mut a = Alarm::default();
        a.inner.append(Action::Email.to_property());
        a.inner.append(trigger.to_property());
        a.inner.set(Property::new("DESCRIPTION", description));
        a.inner.set(Property::new("SUMMARY", summary));
        a
    }

    /// Adds the `DURATION` and `REPEAT` properties, which go together.
    pub fn duration_and_repeat(&mut self, duration: Duration, repeat_count: u32) -> (r: &mut Self)
        requires
            duration.in_range(),
        ensures
            r@ == store_append(
                store_append(old(self)@, plain_property("DURATION"@, duration_text(duration.spec_seconds()))),
                plain_property("REPEAT"@, decimal(repeat_count as nat)),
            ),
            *final(self) == *final(r),
    {
        let text = duration.to_text();
        self.inner.append(Property::new("DURATION", text.as_str()));
        self.inner.append(Repeat::new(repeat_count).to_property());
        self
    }

    /// The action of the first `ACTION` property, if any.
    pub fn get_action(&self) -> (r: Option<Action>)
        ensures
            match first_value(self@, "ACTION"@) {
                Some(v) => r matches Some(a) && action_named(a, v),
                None => r is None,
            },
    {
        match self.inner.value_of("ACTION") {
            Some(v) => {
                let a = Action::from_str(v);
                proof {
                    reveal_strlit("AUDIO");
                    reveal_strlit("EMAIL");
                    reveal_strlit("DISPLAY");
                }
                Some(a)
            },
            None => None,
        }
    }

    /// The trigger of the first `TRIGGER` property, where it reads as one.
    pub fn get_trigger(&self) -> (r: Option<Trigger>)
        ensures
            r == (match first_occurrence(self@, "TRIGGER"@) {
                Some(p) => match trigger_of(p) {
                    Ok(t) => Some(t),
                    Err(_) => None,
                },
                None => None,
            }),
    {
        match self.inner.get("TRIGGER") {
            Some(prop) => match Trigger::try_from(prop) {
                Ok(t) => Some(t),
                Err(_) => None,
            },
            None => None,
        }
    }

    /// The value of the `DESCRIPTION` property, if any.
    pub fn get_description(&self) -> (r: Option<&str>)
        ensures
            opt_text(r) == first_value(self@, "DESCRIPTION"@),
    {
        self.inner.value_of("DESCRIPTION")
    }

    /// The value of the `SUMMARY` property, if any.
    pub fn get_summary(&self) -> (r: Option<&str>)
        ensures
            opt_text(r) == first_value(self@, "SUMMARY"@),
    {
        self.inner.value_of("SUMMARY")
    }

    /// The repeat count; 0 where there is no `REPEAT` property or its value
    /// is not a number that fits.
    pub fn get_repeat(&self) -> (r: usize)
        ensures
            r == (match first_value(self@, "REPEAT"@) {
                Some(v) => match unsigned_value(v) {
                    Some(n) => if n <= usize::MAX { n as usize } else { 0 },
                    None => 0,
                },
                None => 0,
            }),
    {
        match self.inner.value_of("REPEAT") {
            Some(v) => match parse_u64(v) {
                Some(n) => if n <= usize::MAX as u64 {
                    n as usize
                } else {
                    0
                },
                None => 0,
            },
            None => 0,
        }
    }

    /// Ends a chain of builder calls: hands out what was built and leaves
    /// an empty alarm in its place.
    pub fn done(&mut self) -> (r: Alarm)
        ensures
            r@ == old(self)@,
            final(self)@ == StoreView::empty(),
    {
        Alarm { inner: self.inner.done() }
    }
}

} // verus!
