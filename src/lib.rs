//! Building, parsing and serialising calendaring data in the iCalendar
//! text format: folding of content lines, the grammar of keys and
//! parameters, value escaping, and the per-component property store.

mod strings;
pub mod numbers;
pub mod escape;
pub mod fold;
pub mod value_types;
pub mod properties;
pub mod parser;
pub mod store;
pub mod date_time;
pub mod status;
pub mod components;
pub mod alarm;
pub mod calendar;

pub use alarm::{Alarm, Related, Repeat, Trigger};
pub use calendar::Calendar;
pub use components::{CalendarComponent, Event, Location, Participant, Resource, Todo, Venue};
pub use date_time::{CalendarDate, CalendarDateTime, DatePerhapsTime, LocalDateTime};
pub use escape::unescape_text;
pub use fold::{fold_line, normalize};
pub use properties::{EntryParameters, Parameter, Parameters, Property};
pub use status::{Class, EventStatus, TodoStatus};
pub use store::PropertyStore;
pub use value_types::ValueType;
