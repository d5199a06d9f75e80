//! The value types of RFC 5545: which one a property has decides how its
//! value is escaped.

use vstd::prelude::*;
use crate::strings::str_eq;

verus! {

/// The value types that a property's value may have.
#[derive(Copy, Clone, Debug, PartialEq, Eq, Structural)]
pub enum ValueType {
    /// Inline binary data.
    Binary,
    /// TRUE or FALSE.
    Boolean,
    /// A calendar user's address.
    CalAddress,
    /// A calendar date.
    Date,
    /// A date with a time of day.
    DateTime,
    /// A length of time.
    Duration,
    /// A real number.
    Float,
    /// A signed integer.
    Integer,
    /// A span of time.
    Period,
    /// A recurrence rule.
    Recur,
    /// Human-readable text, escaped on output.
    Text,
    /// A time of day.
    Time,
    /// A uniform resource identifier.
    Uri,
    /// An offset from UTC.
    UtcOffset,
}

/// The name of a value type, as it stands in a `VALUE` parameter.
pub open spec fn value_type_name(t: ValueType) -> Seq<char> {
    match t {
        ValueType::Binary => "BINARY"@,
        ValueType::Boolean => "BOOLEAN"@,
        ValueType::CalAddress => "CAL-ADDRESS"@,
        ValueType::Date => "DATE"@,
        ValueType::DateTime => "DATE-TIME"@,
        ValueType::Duration => "DURATION"@,
        ValueType::Float => "FLOAT"@,
        ValueType::Integer => "INTEGER"@,
        ValueType::Period => "PERIOD"@,
        ValueType::Recur => "RECUR"@,
        ValueType::Text => "TEXT"@,
        ValueType::Time => "TIME"@,
        ValueType::Uri => "URI"@,
        ValueType::UtcOffset => "UTC-OFFSET"@,
    }
}

/// The value type that a `VALUE` parameter names, if it names one.
pub open spec fn type_from_name(s: Seq<char>) -> Option<ValueType> {
    if s == "BINARY"@ {
        Some(ValueType::Binary)
    } else if s == "BOOLEAN"@ {
        Some(ValueType::Boolean)
    } else if s == "CAL-ADDRESS"@ {
        Some(ValueType::CalAddress)
    } else if s == "DATE"@ {
        Some(ValueType::Date)
    } else if s == "DATE-TIME"@ {
        Some(ValueType::DateTime)
    } else if s == "DURATION"@ {
        Some(ValueType::Duration)
    } else if s == "FLOAT"@ {
        Some(ValueType::Float)
    } else if s == "INTEGER"@ {
        Some(ValueType::Integer)
    } else if s == "PERIOD"@ {
        Some(ValueType::Period)
    } else if s == "RECUR"@ {
        Some(ValueType::Recur)
    } else if s == "TEXT"@ {
        Some(ValueType::Text)
    } else if s == "TIME"@ {
        Some(ValueType::Time)
    } else if s == "URI"@ {
        Some(ValueType::Uri)
    } else if s == "UTC-OFFSET"@ {
        Some(ValueType::UtcOffset)
    } else {
        None
    }
}

/// The value type that RFC 5545 gives a property by default, by its key.
pub open spec fn type_for_key(k: Seq<char>) -> Option<ValueType> {
    if k == "ATTACH"@ || k == "TZURL"@ || k == "URL"@ {
        Some(ValueType::Uri)
    } else if k == "CALSCALE"@ || k == "METHOD"@ || k == "PRODID"@ || k == "VERSION"@ || k == "CATEGORIES"@ || k == "CLASS"@ || k == "COMMENT"@ || k == "DESCRIPTION"@ || k == "LOCATION"@ || k == "RESOURCES"@ || k == "STATUS"@ || k == "SUMMARY"@ || k == "TRANSP"@ || k == "TZID"@ || k == "TZNAME"@ || k == "CONTACT"@ || k == "RELATED-TO"@ || k == "UID"@ || k == "ACTION"@ || k == "REQUEST-STATUS"@ {
        Some(ValueType::Text)
    } else if k == "GEO"@ {
        Some(ValueType::Float)
    } else if k == "PERCENT-COMPLETE"@ || k == "PRIORITY"@ || k == "REPEAT"@ || k == "SEQUENCE"@ {
        Some(ValueType::Integer)
    } else if k == "COMPLETED"@ || k == "DTEND"@ || k == "DUE"@ || k == "DTSTART"@ || k == "RECURRENCE-ID"@ || k == "EXDATE"@ || k == "RDATE"@ || k == "CREATED"@ || k == "DTSTAMP"@ || k == "LAST-MODIFIED"@ {
        Some(ValueType::DateTime)
    } else if k == "DURATION"@ || k == "TRIGGER"@ {
        Some(ValueType::Duration)
    } else if k == "FREEBUSY"@ {
        Some(ValueType::Period)
    } else if k == "TZOFFSETFROM"@ || k == "TZOFFSETTO"@ {
        Some(ValueType::UtcOffset)
    } else if k == "ATTENDEE"@ || k == "ORGANIZER"@ {
        Some(ValueType::CalAddress)
    } else if k == "RRULE"@ {
        Some(ValueType::Recur)
    } else {
        None
    }
}

impl ValueType {
    /// The value type that `s` names (`TEXT`, `DATE-TIME`, ...), if any.
    pub fn from_str(s: &str) -> (r: Option<ValueType>)
        ensures
            r == type_from_name(s@),
    {
        if str_eq(s, "BINARY") {
            Some(ValueType::Binary)
        } else if str_eq(s, "BOOLEAN") {
            Some(ValueType::Boolean)
        } else if str_eq(s, "CAL-ADDRESS") {
            Some(ValueType::CalAddress)
        } else if str_eq(s, "DATE") {
            Some(ValueType::Date)
        } else if str_eq(s, "DATE-TIME") {
            Some(ValueType::DateTime)
        } else if str_eq(s, "DURATION") {
            Some(ValueType::Duration)
        } else if str_eq(s, "FLOAT") {
            Some(ValueType::Float)
        } else if str_eq(s, "INTEGER") {
            Some(ValueType::Integer)
        } else if str_eq(s, "PERIOD") {
            Some(ValueType::Period)
        } else if str_eq(s, "RECUR") {
            Some(ValueType::Recur)
        } else if str_eq(s, "TEXT") {
            Some(ValueType::Text)
        } else if str_eq(s, "TIME") {
            Some(ValueType::Time)
        } else if str_eq(s, "URI") {
            Some(ValueType::Uri)
        } else if str_eq(s, "UTC-OFFSET") {
            Some(ValueType::UtcOffset)
        } else {
            None
        }
    }

    /// The value type that a property with key `name` has when no `VALUE`
    /// parameter says otherwise.
    pub fn by_name(name: &str) -> (r: Option<ValueType>)
        ensures
            r == type_for_key(name@),
    {
        if str_eq(name, "ATTACH") || str_eq(name, "TZURL") || str_eq(name, "URL") {
            Some(ValueType::Uri)
        } else if str_eq(name, "CALSCALE") || str_eq(name, "METHOD") || str_eq(name, "PRODID") || str_eq(name, "VERSION") || str_eq(name, "CATEGORIES") || str_eq(name, "CLASS") || str_eq(name, "COMMENT") || str_eq(name, "DESCRIPTION") || str_eq(name, "LOCATION") || str_eq(name, "RESOURCES") || str_eq(name, "STATUS") || str_eq(name, "SUMMARY") || str_eq(name, "TRANSP") || str_eq(name, "TZID") || str_eq(name, "TZNAME") || str_eq(name, "CONTACT") || str_eq(name, "RELATED-TO") || str_eq(name, "UID") || str_eq(name, "ACTION") || str_eq(name, "REQUEST-STATUS") {
            Some(ValueType::Text)
        } else if str_eq(name, "GEO") {
            Some(ValueType::Float)
        } else if str_eq(name, "PERCENT-COMPLETE") || str_eq(name, "PRIORITY") || str_eq(name, "REPEAT") || str_eq(name, "SEQUENCE") {
            Some(ValueType::Integer)
        } else if str_eq(name, "COMPLETED") || str_eq(name, "DTEND") || str_eq(name, "DUE") || str_eq(name, "DTSTART") || str_eq(name, "RECURRENCE-ID") || str_eq(name, "EXDATE") || str_eq(name, "RDATE") || str_eq(name, "CREATED") || str_eq(name, "DTSTAMP") || str_eq(name, "LAST-MODIFIED") {
            Some(ValueType::DateTime)
        } else if str_eq(name, "DURATION") || str_eq(name, "TRIGGER") {
            Some(ValueType::Duration)
        } else if str_eq(name, "FREEBUSY") {
            Some(ValueType::Period)
        } else if str_eq(name, "TZOFFSETFROM") || str_eq(name, "TZOFFSETTO") {
            Some(ValueType::UtcOffset)
        } else if str_eq(name, "ATTENDEE") || str_eq(name, "ORGANIZER") {
            Some(ValueType::CalAddress)
        } else if str_eq(name, "RRULE") {
            Some(ValueType::Recur)
        } else {
            None
        }
    }

    /// The name of this value type.
    pub fn as_str(&self) -> (r: &'static str)
        ensures
            r@ == value_type_name(*self),
    {
        match self {
            ValueType::Binary => "BINARY",
            ValueType::Boolean => "BOOLEAN",
            ValueType::CalAddress => "CAL-ADDRESS",
            ValueType::Date => "DATE",
            ValueType::DateTime => "DATE-TIME",
            ValueType::Duration => "DURATION",
            ValueType::Float => "FLOAT",
            ValueType::Integer => "INTEGER",
            ValueType::Period => "PERIOD",
            ValueType::Recur => "RECUR",
            ValueType::Text => "TEXT",
            ValueType::Time => "TIME",
            ValueType::Uri => "URI",
            ValueType::UtcOffset => "UTC-OFFSET",
        }
    }
}

} // verus!
