//! The enumerated values of the `CLASS` and `STATUS` properties.

use vstd::prelude::*;
use crate::properties::{plain_property, Property};
use crate::strings::str_eq;

verus! {

/// The values of the access classification of a component.
#[derive(Copy, Clone, Debug, PartialEq, Eq, Structural)]
pub enum Class {
    /// Visible to all.
    Public,
    /// Visible to the owner only.
    Private,
    /// Visible to those allowed.
    Confidential,
}

/// The text of a access classification value.
pub open spec fn class_name(v: Class) -> Seq<char> {
    match v {
        Class::Public => "PUBLIC"@,
        Class::Private => "PRIVATE"@,
        Class::Confidential => "CONFIDENTIAL"@,
    }
}

/// The value that a text names, if any.
pub open spec fn class_from(s: Seq<char>) -> Option<Class> {
    if s == "PUBLIC"@ {
        Some(Class::Public)
    } else if s == "PRIVATE"@ {
        Some(Class::Private)
    } else if s == "CONFIDENTIAL"@ {
        Some(Class::Confidential)
    } else {
        None
    }
}

impl Class {
    /// The value that `s` names, if any.
    pub fn from_str(s: &str) -> (r: Option<Class>)
        ensures
            r == class_from(s@),
    {
        if str_eq(s, "PUBLIC") {
            Some(Class::Public)
        } else if str_eq(s, "PRIVATE") {
            Some(Class::Private)
        } else if str_eq(s, "CONFIDENTIAL") {
            Some(Class::Confidential)
        } else {
            None
        }
    }

    /// The text of this value.
    pub fn as_str(&self) -> (r: &'static str)
        ensures
            r@ == class_name(*self),
    {
        match self {
            Class::Public => "PUBLIC",
            Class::Private => "PRIVATE",
            Class::Confidential => "CONFIDENTIAL",
        }
    }

    /// The `CLASS` property with this value.
    pub fn to_property(self) -> (r: Property)
        ensures
            r@ == plain_property("CLASS"@, class_name(self)),
    {
        Property::new("CLASS", self.as_str())
    }
}

/// The values of the status of an event.
#[derive(Copy, Clone, Debug, PartialEq, Eq, Structural)]
pub enum EventStatus {
    /// Not yet definite.
    Tentative,
    /// Definite.
    Confirmed,
    /// Called off.
    Cancelled,
}

/// The text of a status value.
pub open spec fn event_status_name(v: EventStatus) -> Seq<char> {
    match v {
        EventStatus::Tentative => "TENTATIVE"@,
        EventStatus::Confirmed => "CONFIRMED"@,
        EventStatus::Cancelled => "CANCELLED"@,
    }
}

/// The value that a text names, if any.
pub open spec fn event_status_from(s: Seq<char>) -> Option<EventStatus> {
    if s == "TENTATIVE"@ {
        Some(EventStatus::Tentative)
    } else if s == "CONFIRMED"@ {
        Some(EventStatus::Confirmed)
    } else if s == "CANCELLED"@ {
        Some(EventStatus::Cancelled)
    } else {
        None
    }
}

impl EventStatus {
    /// The value that `s` names, if any.
    pub fn from_str(s: &str) -> (r: Option<EventStatus>)
        ensures
            r == event_status_from(s@),
    {
        if str_eq(s, "TENTATIVE") {
            Some(EventStatus::Tentative)
        } else if str_eq(s, "CONFIRMED") {
            Some(EventStatus::Confirmed)
        } else if str_eq(s, "CANCELLED") {
            Some(EventStatus::Cancelled)
        } else {
            None
        }
    }

    /// The text of this value.
    pub fn as_str(&self) -> (r: &'static str)
        ensures
            r@ == event_status_name(*self),
    {
        match self {
            EventStatus::Tentative => "TENTATIVE",
            EventStatus::Confirmed => "CONFIRMED",
            EventStatus::Cancelled => "CANCELLED",
        }
    }

    /// The `STATUS` property with this value.
    pub fn to_property(self) -> (r: Property)
        ensures
            r@ == plain_property("STATUS"@, event_status_name(self)),
    {
        Property::new("STATUS", self.as_str())
    }
}

/// The values of the status of a to-do.
#[derive(Copy, Clone, Debug, PartialEq, Eq, Structural)]
pub enum TodoStatus {
    /// Not yet started.
    NeedsAction,
    /// Done.
    Completed,
    /// Under way.
    InProcess,
    /// Called off.
    Cancelled,
}

/// The text of a status value.
pub open spec fn todo_status_name(v: TodoStatus) -> Seq<char> {
    match v {
        TodoStatus::NeedsAction => "NEEDS-ACTION"@,
        TodoStatus::Completed => "COMPLETED"@,
        TodoStatus::InProcess => "IN-PROCESS"@,
        TodoStatus::Cancelled => "CANCELLED"@,
    }
}

/// The value that a text names, if any.
pub open spec fn todo_status_from(s: Seq<char>) -> Option<TodoStatus> {
    if s == "NEEDS-ACTION"@ {
        Some(TodoStatus::NeedsAction)
    } else if s == "COMPLETED"@ {
        Some(TodoStatus::Completed)
    } else if s == "IN-PROCESS"@ {
        Some(TodoStatus::InProcess)
    } else if s == "CANCELLED"@ {
        Some(TodoStatus::Cancelled)
    } else {
        None
    }
}

impl TodoStatus {
    /// The value that `s` names, if any.
    pub fn from_str(s: &str) -> (r: Option<TodoStatus>)
        ensures
            r == todo_status_from(s@),
    {
        if str_eq(s, "NEEDS-ACTION") {
            Some(TodoStatus::NeedsAction)
        } else if str_eq(s, "COMPLETED") {
            Some(TodoStatus::Completed)
        } else if str_eq(s, "IN-PROCESS") {
            Some(TodoStatus::InProcess)
        } else if str_eq(s, "CANCELLED") {
            Some(TodoStatus::Cancelled)
        } else {
            None
        }
    }

    /// The text of this value.
    pub fn as_str(&self) -> (r: &'static str)
        ensures
            r@ == todo_status_name(*self),
    {
        match self {
            TodoStatus::NeedsAction => "NEEDS-ACTION",
            TodoStatus::Completed => "COMPLETED",
            TodoStatus::InProcess => "IN-PROCESS",
            TodoStatus::Cancelled => "CANCELLED",
        }
    }

    /// The `STATUS` property with this value.
    pub fn to_property(self) -> (r: Property)
        ensures
            r@ == plain_property("STATUS"@, todo_status_name(self)),
    {
        Property::new("STATUS", self.as_str())
    }
}

} // verus!
