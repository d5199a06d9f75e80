//! Components: events, to-dos, venues, participants, locations and
//! resources. Each is a thin builder over a property store: setting a
//! property replaces every occurrence of its key, appending adds one,
//! removing drops them all.

use vstd::prelude::*;
use crate::date_time::{
    date_of_property, date_property, format_utc_date_time, local_text, parse_utc_date_time,
    parsed_date_time, utc_format, valid_date_perhaps_time, valid_date_time, DatePerhapsTime,
    LocalDateTime,
};
use crate::fold::crlf;
use crate::numbers::{decimal, decimal_string, parse_u64, unsigned_value};
use crate::properties::{insert_keyed, plain_property, Property, PropertyView};
use crate::status::{event_status_from, event_status_name, todo_status_from, todo_status_name, EventStatus, TodoStatus};
use crate::store::{first_occurrence, occurrences, store_append, store_remove, store_set, store_text, PropertyStore, StoreView};

verus! {

/// The value of the first occurrence of `key`, if any.
pub open spec fn first_value(gs: StoreView, key: Seq<char>) -> Option<Seq<char>> {
    match first_occurrence(gs, key) {
        Some(p) => Some(p.value),
        None => None,
    }
}

/// The text of an optional string slice.
pub open spec fn opt_text(r: Option<&str>) -> Option<Seq<char>> {
    match r {
        Some(v) => Some(v@),
        None => None,
    }
}

/// A component as written: `BEGIN:` and its name, its properties, then
/// `END:` and its name, each marker line ending in CRLF.
pub open spec fn component_text(name: Seq<char>, gs: StoreView) -> Seq<char> {
    "BEGIN:"@ + name + crlf() + store_text(gs) + "END:"@ + name + crlf()
}

/// Key/value pairs entered one after another as parameters into `acc`.
pub open spec fn insert_pairs(acc: Seq<(Seq<char>, Seq<char>)>, ps: Seq<(&str, &str)>) -> Seq<(Seq<char>, Seq<char>)>
    decreases ps.len(),
{
    if ps.len() == 0 {
        acc
    } else {
        insert_pairs(insert_keyed(acc, (ps[0].0@, ps[0].1@)), ps.skip(1))
    }
}

/// The property with this key and value, and these parameters entered in
/// order.
pub open spec fn property_with(key: Seq<char>, value: Seq<char>, params: Seq<(&str, &str)>) -> PropertyView {
    PropertyView { key, value, params: insert_pairs(Seq::empty(), params) }
}

fn write_component(name: &str, store: &PropertyStore, out: &mut String)
    ensures
        final(out)@ == old(out)@ + component_text(name@, store@),
{
    out.push_str("BEGIN:");
    out.push_str(name);
    out.push('\r');
    out.push('\n');
    store.fmt_write(out);
    out.push_str("END:");
    out.push_str(name);
    out.push('\r');
    out.push('\n');
    proof {
        assert(out@ =~= old(out)@ + component_text(name@, store@));
    }
}

/// A property with parameters, given as key/value pairs entered in order.
pub fn property_with_params(key: &str, value: &str, params: &[(&str, &str)]) -> (r: Property)
    ensures
        r@ == property_with(key@, value@, params@),
{
    let mut prop = Property::new(key, value);
    let mut i: usize = 0;
    proof {
        assert(params@.skip(0) =~= params@);
    }
    while i < params.len()
        invariant
            0 <= i <= params@.len(),
            prop@.key == key@,
            prop@.value == value@,
            insert_pairs(prop@.params, params@.skip(i as int)) == insert_pairs(Seq::empty(), params@),
        decreases params@.len() - i,
    {
        let (k, v) = params[i];
        proof {
            assert(params@.skip(i as int).skip(1) =~= params@.skip(i + 1));
        }
        prop.add_parameter(k, v);
        i = i + 1;
    }
    proof {
        assert(params@.skip(i as int) =~= Seq::<(&str, &str)>::empty());
    }
    prop
}

/// A `VEVENT` component.
#[derive(Clone, Debug)]
pub struct Event {
    inner: PropertyStore,
}

impl View for Event {
    type V = StoreView;

    closed spec fn view(&self) -> StoreView {
        self.inner@
    }
}

impl Event {
    /// An empty event.
    pub fn new() -> (r: Event)
        ensures
            r@ == StoreView::empty(),
    {
        Event { inner: PropertyStore::new() }
    }

    /// An event with a `UID`.
    pub fn with_uid(uid: &str) -> (r: Event)
        ensures
            r@ == store_set(StoreView::empty(), plain_property("UID"@, uid@)),
    {
        let mut c = Event::new();
        c.inner.set(Property::new("UID", uid));
        c
    }

    /// Ends a chain of builder calls: hands out what was built and leaves
    /// an empty event in its place.
    pub fn done(&mut self) -> (r: Event)
        ensures
            r@ == old(self)@,
            final(self)@ == StoreView::empty(),
    {
        Event { inner: self.inner.done() }
    }

    /// Makes a property with this key and value the only occurrence of the
    /// key.
    pub fn add_property(&mut self, key: &str, val: &str) -> (r: &mut Self)
        ensures
            r@ == store_set(old(self)@, plain_property(key@, val@)),
            *final(self) == *final(r),
    {
        self.inner.set(Property::new(key, val));
        self
    }

    /// Adds a property after the occurrences of its key.
    pub fn append_property(&mut self, property: Property) -> (r: &mut Self)
        ensures
            r@ == store_append(old(self)@, property@),
            *final(self) == *final(r),
    {
        self.inner.append(property);
        self
    }

    /// Removes every occurrence of `key`.
    pub fn remove_property(&mut self, key: &str) -> (r: &mut Self)
        ensures
            r@ == store_remove(old(self)@, key@),
            occurrences(r@, key@).len() == 0,
            forall|other: Seq<char>| other != key@ ==> #[trigger] occurrences(r@, other) == occurrences(old(self)@, other),
            *final(self) == *final(r),
    {
        self.inner.remove(key);
        self
    }

    /// The value of the first occurrence of `key`, if any.
    pub fn property_value(&self, key: &str) -> (r: Option<&str>)
        ensures
            opt_text(r) == first_value(self@, key@),
    {
        self.inner.value_of(key)
    }

    /// The stored properties.
    pub fn properties(&self) -> (r: &PropertyStore)
        ensures
            r@ == self@,
    {
        &self.inner
    }

    /// Every occurrence of `key`, in the order added.
    pub fn multi_properties(&self, key: &str) -> (r: Vec<&Property>)
        ensures
            r@.map_values(|p: &Property| p@) == occurrences(self@, key@),
    {
        self.inner.get_all(key)
    }

    /// Writes this event to `out`.
    pub fn fmt_write(&self, out: &mut String)
        ensures
            final(out)@ == old(out)@ + component_text("VEVENT"@, self@),
    {
        write_component("VEVENT", &self.inner, out);
    }

    /// This event as written out.
    pub fn to_string(&self) -> (r: String)
        ensures
            r@ == component_text("VEVENT"@, self@),
    {
        let mut s = String::new();
        write_component("VEVENT", &self.inner, &mut s);
        proof {
            assert(s@ =~= component_text("VEVENT"@, self@));
        }
        s
    }

    /// Sets the `UID` property.
    pub fn uid(&mut self, value: &str) -> (r: &mut Self)
        ensures
            r@ == store_set(old(self)@, plain_property("UID"@, value@)),
            *final(self) == *final(r),
    {
        self.inner.set(Property::new("UID", value));
        self
    }

    /// The value of the `UID` property, if set.
    pub fn get_uid(&self) -> (r: Option<&str>)
        ensures
            opt_text(r) == first_value(self@, "UID"@),
    {
        self.inner.value_of("UID")
    }

    /// Sets the `SUMMARY` property.
    pub fn summary(&mut self, value: &str) -> (r: &mut Self)
        ensures
            r@ == store_set(old(self)@, plain_property("SUMMARY"@, value@)),
            *final(self) == *final(r),
    {
        self.inner.set(Property::new("SUMMARY", value));
        self
    }

    /// The value of the `SUMMARY` property, if set.
    pub fn get_summary(&self) -> (r: Option<&str>)
        ensures
            opt_text(r) == first_value(self@, "SUMMARY"@),
    {
        self.inner.value_of("SUMMARY")
    }

    /// Sets the `DESCRIPTION` property.
    pub fn description(&mut self, value: &str) -> (r: &mut Self)
        ensures
            r@ == store_set(old(self)@, plain_property("DESCRIPTION"@, value@)),
            *final(self) == *final(r),
    {
        self.inner.set(Property::new("DESCRIPTION", value));
        self
    }

    /// The value of the `DESCRIPTION` property, if set.
    pub fn get_description(&self) -> (r: Option<&str>)
        ensures
            opt_text(r) == first_value(self@, "DESCRIPTION"@),
    {
        self.inner.value_of("DESCRIPTION")
    }


    /// Adds a `STATUS` property.
    pub fn status(&mut self, status: EventStatus) -> (r: &mut Self)
        ensures
            r@ == store_append(old(self)@, plain_property("STATUS"@, event_status_name(status))),
            *final(self) == *final(r),
    {
        self.inner.append(status.to_property());
        self
    }

    /// The status that the first `STATUS` property names, if any.
    pub fn get_status(&self) -> (r: Option<EventStatus>)
        ensures
            r == (match first_value(self@, "STATUS"@) {
                Some(v) => event_status_from(v),
                None => None,
            }),
    {
        match self.inner.value_of("STATUS") {
            Some(v) => EventStatus::from_str(v),
            None => None,
        }
    }


    /// Removes every `STATUS` property.
    pub fn remove_status(&mut self) -> (r: &mut Self)
        ensures
            r@ == store_remove(old(self)@, "STATUS"@),
            occurrences(r@, "STATUS"@).len() == 0,
            forall|other: Seq<char>| other != "STATUS"@ ==> #[trigger] occurrences(r@, other) == occurrences(old(self)@, other),
            *final(self) == *final(r),
    {
        self.inner.remove("STATUS");
        self
    }

}

/// A `VTODO` component.
#[derive(Clone, Debug)]
pub struct Todo {
    inner: PropertyStore,
}

impl View for Todo {
    type V = StoreView;

    closed spec fn view(&self) -> StoreView {
        self.inner@
    }
}

impl Todo {
    /// An empty todo.
    pub fn new() -> (r: Todo)
        ensures
            r@ == StoreView::empty(),
    {
        Todo { inner: PropertyStore::new() }
    }

    /// A todo with a `UID`.
    pub fn with_uid(uid: &str) -> (r: Todo)
        ensures
            r@ == store_set(StoreView::empty(), plain_property("UID"@, uid@)),
    {
        let mut c = Todo::new();
        c.inner.set(Property::new("UID", uid));
        c
    }

    /// Ends a chain of builder calls: hands out what was built and leaves
    /// an empty todo in its place.
    pub fn done(&mut self) -> (r: Todo)
        ensures
            r@ == old(self)@,
            final(self)@ == StoreView::empty(),
    {
        Todo { inner: self.inner.done() }
    }

    /// Makes a property with this key and value the only occurrence of the
    /// key.
    pub fn add_property(&mut self, key: &str, val: &str) -> (r: &mut Self)
        ensures
            r@ == store_set(old(self)@, plain_property(key@, val@)),
            *final(self) == *final(r),
    {
        self.inner.set(Property::new(key, val));
        self
    }

    /// Adds a property after the occurrences of its key.
    pub fn append_property(&mut self, property: Property) -> (r: &mut Self)
        ensures
            r@ == store_append(old(self)@, property@),
            *final(self) == *final(r),
    {
        self.inner.append(property);
        self
    }

    /// Removes every occurrence of `key`.
    pub fn remove_property(&mut self, key: &str) -> (r: &mut Self)
        ensures
            r@ == store_remove(old(self)@, key@),
            occurrences(r@, key@).len() == 0,
            forall|other: Seq<char>| other != key@ ==> #[trigger] occurrences(r@, other) == occurrences(old(self)@, other),
            *final(self) == *final(r),
    {
        self.inner.remove(key);
        self
    }

    /// The value of the first occurrence of `key`, if any.
    pub fn property_value(&self, key: &str) -> (r: Option<&str>)
        ensures
            opt_text(r) == first_value(self@, key@),
    {
        self.inner.value_of(key)
    }

    /// The stored properties.
    pub fn properties(&self) -> (r: &PropertyStore)
        ensures
            r@ == self@,
    {
        &self.inner
    }

    /// Every occurrence of `key`, in the order added.
    pub fn multi_properties(&self, key: &str) -> (r: Vec<&Property>)
        ensures
            r@.map_values(|p: &Property| p@) == occurrences(self@, key@),
    {
        self.inner.get_all(key)
    }

    /// Writes this todo to `out`.
    pub fn fmt_write(&self, out: &mut String)
        ensures
            final(out)@ == old(out)@ + component_text("VTODO"@, self@),
    {
        write_component("VTODO", &self.inner, out);
    }

    /// This todo as written out.
    pub fn to_string(&self) -> (r: String)
        ensures
            r@ == component_text("VTODO"@, self@),
    {
        let mut s = String::new();
        write_component("VTODO", &self.inner, &mut s);
        proof {
            assert(s@ =~= component_text("VTODO"@, self@));
        }
        s
    }

    /// Sets the `UID` property.
    pub fn uid(&mut self, value: &str) -> (r: &mut Self)
        ensures
            r@ == store_set(old(self)@, plain_property("UID"@, value@)),
            *final(self) == *final(r),
    {
        self.inner.set(Property::new("UID", value));
        self
    }

    /// The value of the `UID` property, if set.
    pub fn get_uid(&self) -> (r: Option<&str>)
        ensures
            opt_text(r) == first_value(self@, "UID"@),
    {
        self.inner.value_of("UID")
    }

    /// Sets the `SUMMARY` property.
    pub fn summary(&mut self, value: &str) -> (r: &mut Self)
        ensures
            r@ == store_set(old(self)@, plain_property("SUMMARY"@, value@)),
            *final(self) == *final(r),
    {
        self.inner.set(Property::new("SUMMARY", value));
        self
    }

    /// The value of the `SUMMARY` property, if set.
    pub fn get_summary(&self) -> (r: Option<&str>)
        ensures
            opt_text(r) == first_value(self@, "SUMMARY"@),
    {
        self.inner.value_of("SUMMARY")
    }

    /// Sets the `DESCRIPTION` property.
    pub fn description(&mut self, value: &str) -> (r: &mut Self)
        ensures
            r@ == store_set(old(self)@, plain_property("DESCRIPTION"@, value@)),
            *final(self) == *final(r),
    {
        self.inner.set(Property::new("DESCRIPTION", value));
        self
    }

    /// The value of the `DESCRIPTION` property, if set.
    pub fn get_description(&self) -> (r: Option<&str>)
        ensures
            opt_text(r) == first_value(self@, "DESCRIPTION"@),
    {
        self.inner.value_of("DESCRIPTION")
    }


    /// Sets the `PERCENT-COMPLETE` property.
    pub fn percent_complete(&mut self, percent: u8) -> (r: &mut Self)
        ensures
            r@ == store_set(old(self)@, plain_property("PERCENT-COMPLETE"@, decimal(percent as nat))),
            *final(self) == *final(r),
    {
        let text = decimal_string(percent as u64);
        self.inner.set(Property::new("PERCENT-COMPLETE", text.as_str()));
        self
    }

    /// The `PERCENT-COMPLETE` value, where it is a number that fits in a byte.
    pub fn get_percent_complete(&self) -> (r: Option<u8>)
        ensures
            r == (match first_value(self@, "PERCENT-COMPLETE"@) {
                Some(v) => match unsigned_value(v) {
                    Some(n) => if n <= 255 { Some(n as u8) } else { None },
                    None => None,
                },
                None => None,
            }),
    {
        match self.inner.value_of("PERCENT-COMPLETE") {
            Some(v) => match parse_u64(v) {
                Some(n) => if n <= 255 {
                    Some(n as u8)
                } else {
                    None
                },
                None => None,
            },
            None => None,
        }
    }


    /// Removes the `PERCENT-COMPLETE` property.
    pub fn remove_percent_complete(&mut self) -> (r: &mut Self)
        ensures
            r@ == store_remove(old(self)@, "PERCENT-COMPLETE"@),
            occurrences(r@, "PERCENT-COMPLETE"@).len() == 0,
            forall|other: Seq<char>| other != "PERCENT-COMPLETE"@ ==> #[trigger] occurrences(r@, other) == occurrences(old(self)@, other),
            *final(self) == *final(r),
    {
        self.inner.remove("PERCENT-COMPLETE");
        self
    }


    /// Adds a `DUE` property: a date (marked `VALUE=DATE`) or a date-time.
    pub fn due(&mut self, dt: DatePerhapsTime) -> (r: &mut Self)
        requires
            valid_date_perhaps_time(dt),
        ensures
            r@ == store_append(old(self)@, date_property(dt, "DUE"@)),
            *final(self) == *final(r),
    {
        self.inner.append(dt.to_property("DUE"));
        self
    }

    /// The date or date-time of the first `DUE` property, where it reads as one.
    pub fn get_due(&self) -> (r: Option<DatePerhapsTime>)
        ensures
            r == (match first_occurrence(self@, "DUE"@) {
                Some(p) => date_of_property(p),
                None => None,
            }),
    {
        match self.inner.get("DUE") {
            Some(p) => DatePerhapsTime::from_property(p),
            None => None,
        }
    }


    /// Removes the `DUE` property.
    pub fn remove_due(&mut self) -> (r: &mut Self)
        ensures
            r@ == store_remove(old(self)@, "DUE"@),
            occurrences(r@, "DUE"@).len() == 0,
            forall|other: Seq<char>| other != "DUE"@ ==> #[trigger] occurrences(r@, other) == occurrences(old(self)@, other),
            *final(self) == *final(r),
    {
        self.inner.remove("DUE");
        self
    }


    /// Sets the `COMPLETED` property: a date-time in UTC.
    pub fn completed(&mut self, dt: LocalDateTime) -> (r: &mut Self)
        requires
            valid_date_time(dt),
        ensures
            r@ == store_set(old(self)@, plain_property("COMPLETED"@, local_text(dt) + seq!['Z'])),
            *final(self) == *final(r),
    {
        let text = format_utc_date_time(dt);
        self.inner.set(Property::new("COMPLETED", text.as_str()));
        self
    }

    /// The UTC date-time of the `COMPLETED` property, where it reads as one.
    pub fn get_completed(&self) -> (r: Option<LocalDateTime>)
        ensures
            r == (match first_value(self@, "COMPLETED"@) {
                Some(v) => parsed_date_time(v, utc_format()),
                None => None,
            }),
    {
        match self.inner.value_of("COMPLETED") {
            Some(v) => parse_utc_date_time(v),
            None => None,
        }
    }


    /// Removes the `COMPLETED` property.
    pub fn remove_completed(&mut self) -> (r: &mut Self)
        ensures
            r@ == store_remove(old(self)@, "COMPLETED"@),
            occurrences(r@, "COMPLETED"@).len() == 0,
            forall|other: Seq<char>| other != "COMPLETED"@ ==> #[trigger] occurrences(r@, other) == occurrences(old(self)@, other),
            *final(self) == *final(r),
    {
        self.inner.remove("COMPLETED");
        self
    }


    /// Adds a `STATUS` property.
    pub fn status(&mut self, status: TodoStatus) -> (r: &mut Self)
        ensures
            r@ == store_append(old(self)@, plain_property("STATUS"@, todo_status_name(status))),
            *final(self) == *final(r),
    {
        self.inner.append(status.to_property());
        self
    }

    /// The status that the first `STATUS` property names, if any.
    pub fn get_status(&self) -> (r: Option<TodoStatus>)
        ensures
            r == (match first_value(self@, "STATUS"@) {
                Some(v) => todo_status_from(v),
                None => None,
            }),
    {
        match self.inner.value_of("STATUS") {
            Some(v) => TodoStatus::from_str(v),
            None => None,
        }
    }


    /// Removes every `STATUS` property.
    pub fn remove_status(&mut self) -> (r: &mut Self)
        ensures
            r@ == store_remove(old(self)@, "STATUS"@),
            occurrences(r@, "STATUS"@).len() == 0,
            forall|other: Seq<char>| other != "STATUS"@ ==> #[trigger] occurrences(r@, other) == occurrences(old(self)@, other),
            *final(self) == *final(r),
    {
        self.inner.remove("STATUS");
        self
    }


    /// Marks the to-do as not completed: removes `COMPLETED` and
    /// `PERCENT-COMPLETE`, and `STATUS` where it reads `COMPLETED`.
    pub fn mark_uncompleted(&mut self) -> (r: &mut Self)
        ensures
            ({
                let base = store_remove(store_remove(old(self)@, "COMPLETED"@), "PERCENT-COMPLETE"@);
                r@ == if (match first_value(base, "STATUS"@) {
                    Some(v) => todo_status_from(v),
                    None => None,
                }) == Some(TodoStatus::Completed) {
                    store_remove(base, "STATUS"@)
                } else {
                    base
                }
            }),
            *final(self) == *final(r),
    {
        self.inner.remove("COMPLETED");
        self.inner.remove("PERCENT-COMPLETE");
        if let Some(TodoStatus::Completed) = self.get_status() {
            self.inner.remove("STATUS");
        }
        self
    }
}

/// A `VVENUE` component: a place, by its address.
#[derive(Clone, Debug)]
pub struct Venue {
    inner: PropertyStore,
}

impl View for Venue {
    type V = StoreView;

    closed spec fn view(&self) -> StoreView {
        self.inner@
    }
}

impl Venue {
    /// An empty venue.
    pub fn new() -> (r: Venue)
        ensures
            r@ == StoreView::empty(),
    {
        Venue { inner: PropertyStore::new() }
    }

    /// A venue with a `UID`.
    pub fn with_uid(uid: &str) -> (r: Venue)
        ensures
            r@ == store_set(StoreView::empty(), plain_property("UID"@, uid@)),
    {
        let mut c = Venue::new();
        c.inner.set(Property::new("UID", uid));
        c
    }

    /// Ends a chain of builder calls: hands out what was built and leaves
    /// an empty venue in its place.
    pub fn done(&mut self) -> (r: Venue)
        ensures
            r@ == old(self)@,
            final(self)@ == StoreView::empty(),
    {
        Venue { inner: self.inner.done() }
    }

    /// Makes a property with this key and value the only occurrence of the
    /// key.
    pub fn add_property(&mut self, key: &str, val: &str) -> (r: &mut Self)
        ensures
            r@ == store_set(old(self)@, plain_property(key@, val@)),
            *final(self) == *final(r),
    {
        self.inner.set(Property::new(key, val));
        self
    }

    /// Adds a property after the occurrences of its key.
    pub fn append_property(&mut self, property: Property) -> (r: &mut Self)
        ensures
            r@ == store_append(old(self)@, property@),
            *final(self) == *final(r),
    {
        self.inner.append(property);
        self
    }

    /// Removes every occurrence of `key`.
    pub fn remove_property(&mut self, key: &str) -> (r: &mut Self)
        ensures
            r@ == store_remove(old(self)@, key@),
            occurrences(r@, key@).len() == 0,
            forall|other: Seq<char>| other != key@ ==> #[trigger] occurrences(r@, other) == occurrences(old(self)@, other),
            *final(self) == *final(r),
    {
        self.inner.remove(key);
        self
    }

    /// The value of the first occurrence of `key`, if any.
    pub fn property_value(&self, key: &str) -> (r: Option<&str>)
        ensures
            opt_text(r) == first_value(self@, key@),
    {
        self.inner.value_of(key)
    }

    /// The stored properties.
    pub fn properties(&self) -> (r: &PropertyStore)
        ensures
            r@ == self@,
    {
        &self.inner
    }

    /// Every occurrence of `key`, in the order added.
    pub fn multi_properties(&self, key: &str) -> (r: Vec<&Property>)
        ensures
            r@.map_values(|p: &Property| p@) == occurrences(self@, key@),
    {
        self.inner.get_all(key)
    }

    /// Writes this venue to `out`.
    pub fn fmt_write(&self, out: &mut String)
        ensures
            final(out)@ == old(out)@ + component_text("VVENUE"@, self@),
    {
        write_component("VVENUE", &self.inner, out);
    }

    /// This venue as written out.
    pub fn to_string(&self) -> (r: String)
        ensures
            r@ == component_text("VVENUE"@, self@),
    {
        let mut s = String::new();
        write_component("VVENUE", &self.inner, &mut s);
        proof {
            assert(s@ =~= component_text("VVENUE"@, self@));
        }
        s
    }

    /// Sets the `UID` property.
    pub fn uid(&mut self, value: &str) -> (r: &mut Self)
        ensures
            r@ == store_set(old(self)@, plain_property("UID"@, value@)),
            *final(self) == *final(r),
    {
        self.inner.set(Property::new("UID", value));
        self
    }

    /// The value of the `UID` property, if set.
    pub fn get_uid(&self) -> (r: Option<&str>)
        ensures
            opt_text(r) == first_value(self@, "UID"@),
    {
        self.inner.value_of("UID")
    }

    /// Sets the `SUMMARY` property.
    pub fn summary(&mut self, value: &str) -> (r: &mut Self)
        ensures
            r@ == store_set(old(self)@, plain_property("SUMMARY"@, value@)),
            *final(self) == *final(r),
    {
        self.inner.set(Property::new("SUMMARY", value));
        self
    }

    /// The value of the `SUMMARY` property, if set.
    pub fn get_summary(&self) -> (r: Option<&str>)
        ensures
            opt_text(r) == first_value(self@, "SUMMARY"@),
    {
        self.inner.value_of("SUMMARY")
    }

    /// Sets the `DESCRIPTION` property.
    pub fn description(&mut self, value: &str) -> (r: &mut Self)
        ensures
            r@ == store_set(old(self)@, plain_property("DESCRIPTION"@, value@)),
            *final(self) == *final(r),
    {
        self.inner.set(Property::new("DESCRIPTION", value));
        self
    }

    /// The value of the `DESCRIPTION` property, if set.
    pub fn get_description(&self) -> (r: Option<&str>)
        ensures
            opt_text(r) == first_value(self@, "DESCRIPTION"@),
    {
        self.inner.value_of("DESCRIPTION")
    }


    /// Sets the `STREET-ADDRESS` property.
    pub fn street_address(&mut self, value: &str) -> (r: &mut Self)
        ensures
            r@ == store_set(old(self)@, plain_property("STREET-ADDRESS"@, value@)),
            *final(self) == *final(r),
    {
        self.inner.set(Property::new("STREET-ADDRESS", value));
        self
    }

    /// The value of the `STREET-ADDRESS` property, if set.
    pub fn get_street_address(&self) -> (r: Option<&str>)
        ensures
            opt_text(r) == first_value(self@, "STREET-ADDRESS"@),
    {
        self.inner.value_of("STREET-ADDRESS")
    }

    /// Removes the `STREET-ADDRESS` property.
    pub fn remove_street_address(&mut self) -> (r: &mut Self)
        ensures
            r@ == store_remove(old(self)@, "STREET-ADDRESS"@),
            occurrences(r@, "STREET-ADDRESS"@).len() == 0,
            forall|other: Seq<char>| other != "STREET-ADDRESS"@ ==> #[trigger] occurrences(r@, other) == occurrences(old(self)@, other),
            *final(self) == *final(r),
    {
        self.inner.remove("STREET-ADDRESS");
        self
    }


    /// Sets the `EXTENDED-ADDRESS` property.
    pub fn extended_address(&mut self, value: &str) -> (r: &mut Self)
        ensures
            r@ == store_set(old(self)@, plain_property("EXTENDED-ADDRESS"@, value@)),
            *final(self) == *final(r),
    {
        self.inner.set(Property::new("EXTENDED-ADDRESS", value));
        self
    }

    /// The value of the `EXTENDED-ADDRESS` property, if set.
    pub fn get_extended_address(&self) -> (r: Option<&str>)
        ensures
            opt_text(r) == first_value(self@, "EXTENDED-ADDRESS"@),
    {
        self.inner.value_of("EXTENDED-ADDRESS")
    }

    /// Removes the `EXTENDED-ADDRESS` property.
    pub fn remove_extended_address(&mut self) -> (r: &mut Self)
        ensures
            r@ == store_remove(old(self)@, "EXTENDED-ADDRESS"@),
            occurrences(r@, "EXTENDED-ADDRESS"@).len() == 0,
            forall|other: Seq<char>| other != "EXTENDED-ADDRESS"@ ==> #[trigger] occurrences(r@, other) == occurrences(old(self)@, other),
            *final(self) == *final(r),
    {
        self.inner.remove("EXTENDED-ADDRESS");
        self
    }


    /// Sets the `LOCALITY` property.
    pub fn locality(&mut self, value: &str) -> (r: &mut Self)
        ensures
            r@ == store_set(old(self)@, plain_property("LOCALITY"@, value@)),
            *final(self) == *final(r),
    {
        self.inner.set(Property::new("LOCALITY", value));
        self
    }

    /// The value of the `LOCALITY` property, if set.
    pub fn get_locality(&self) -> (r: Option<&str>)
        ensures
            opt_text(r) == first_value(self@, "LOCALITY"@),
    {
        self.inner.value_of("LOCALITY")
    }

    /// Removes the `LOCALITY` property.
    pub fn remove_locality(&mut self) -> (r: &mut Self)
        ensures
            r@ == store_remove(old(self)@, "LOCALITY"@),
            occurrences(r@, "LOCALITY"@).len() == 0,
            forall|other: Seq<char>| other != "LOCALITY"@ ==> #[trigger] occurrences(r@, other) == occurrences(old(self)@, other),
            *final(self) == *final(r),
    {
        self.inner.remove("LOCALITY");
        self
    }


    /// Sets the `REGION` property.
    pub fn region(&mut self, value: &str) -> (r: &mut Self)
        ensures
            r@ == store_set(old(self)@, plain_property("REGION"@, value@)),
            *final(self) == *final(r),
    {
        self.inner.set(Property::new("REGION", value));
        self
    }

    /// The value of the `REGION` property, if set.
    pub fn get_region(&self) -> (r: Option<&str>)
        ensures
            opt_text(r) == first_value(self@, "REGION"@),
    {
        self.inner.value_of("REGION")
    }

    /// Removes the `REGION` property.
    pub fn remove_region(&mut self) -> (r: &mut Self)
        ensures
            r@ == store_remove(old(self)@, "REGION"@),
            occurrences(r@, "REGION"@).len() == 0,
            forall|other: Seq<char>| other != "REGION"@ ==> #[trigger] occurrences(r@, other) == occurrences(old(self)@, other),
            *final(self) == *final(r),
    {
        self.inner.remove("REGION");
        self
    }


    /// Sets the `COUNTRY` property.
    pub fn country(&mut self, value: &str) -> (r: &mut Self)
        ensures
            r@ == store_set(old(self)@, plain_property("COUNTRY"@, value@)),
            *final(self) == *final(r),
    {
        self.inner.set(Property::new("COUNTRY", value));
        self
    }

    /// The value of the `COUNTRY` property, if set.
    pub fn get_country(&self) -> (r: Option<&str>)
        ensures
            opt_text(r) == first_value(self@, "COUNTRY"@),
    {
        self.inner.value_of("COUNTRY")
    }

    /// Removes the `COUNTRY` property.
    pub fn remove_country(&mut self) -> (r: &mut Self)
        ensures
            r@ == store_remove(old(self)@, "COUNTRY"@),
            occurrences(r@, "COUNTRY"@).len() == 0,
            forall|other: Seq<char>| other != "COUNTRY"@ ==> #[trigger] occurrences(r@, other) == occurrences(old(self)@, other),
            *final(self) == *final(r),
    {
        self.inner.remove("COUNTRY");
        self
    }


    /// Sets the `POSTAL-CODE` property.
    pub fn postal_code(&mut self, value: &str) -> (r: &mut Self)
        ensures
            r@ == store_set(old(self)@, plain_property("POSTAL-CODE"@, value@)),
            *final(self) == *final(r),
    {
        self.inner.set(Property::new("POSTAL-CODE", value));
        self
    }

    /// The value of the `POSTAL-CODE` property, if set.
    pub fn get_postal_code(&self) -> (r: Option<&str>)
        ensures
            opt_text(r) == first_value(self@, "POSTAL-CODE"@),
    {
        self.inner.value_of("POSTAL-CODE")
    }

    /// Removes the `POSTAL-CODE` property.
    pub fn remove_postal_code(&mut self) -> (r: &mut Self)
        ensures
            r@ == store_remove(old(self)@, "POSTAL-CODE"@),
            occurrences(r@, "POSTAL-CODE"@).len() == 0,
            forall|other: Seq<char>| other != "POSTAL-CODE"@ ==> #[trigger] occurrences(r@, other) == occurrences(old(self)@, other),
            *final(self) == *final(r),
    {
        self.inner.remove("POSTAL-CODE");
        self
    }

}

/// A `PARTICIPANT` component.
#[derive(Clone, Debug)]
pub struct Participant {
    inner: PropertyStore,
}

impl View for Participant {
    type V = StoreView;

    closed spec fn view(&self) -> StoreView {
        self.inner@
    }
}

impl Participant {
    /// An empty participant.
    pub fn new() -> (r: Participant)
        ensures
            r@ == StoreView::empty(),
    {
        Participant { inner: PropertyStore::new() }
    }

    /// A participant with a `UID`.
    pub fn with_uid(uid: &str) -> (r: Participant)
        ensures
            r@ == store_set(StoreView::empty(), plain_property("UID"@, uid@)),
    {
        let mut c = Participant::new();
        c.inner.set(Property::new("UID", uid));
        c
    }

    /// Ends a chain of builder calls: hands out what was built and leaves
    /// an empty participant in its place.
    pub fn done(&mut self) -> (r: Participant)
        ensures
            r@ == old(self)@,
            final(self)@ == StoreView::empty(),
    {
        Participant { inner: self.inner.done() }
    }

    /// Makes a property with this key and value the only occurrence of the
    /// key.
    pub fn add_property(&mut self, key: &str, val: &str) -> (r: &mut Self)
        ensures
            r@ == store_set(old(self)@, plain_property(key@, val@)),
            *final(self) == *final(r),
    {
        self.inner.set(Property::new(key, val));
        self
    }

    /// Adds a property after the occurrences of its key.
    pub fn append_property(&mut self, property: Property) -> (r: &mut Self)
        ensures
            r@ == store_append(old(self)@, property@),
            *final(self) == *final(r),
    {
        self.inner.append(property);
        self
    }

    /// Removes every occurrence of `key`.
    pub fn remove_property(&mut self, key: &str) -> (r: &mut Self)
        ensures
            r@ == store_remove(old(self)@, key@),
            occurrences(r@, key@).len() == 0,
            forall|other: Seq<char>| other != key@ ==> #[trigger] occurrences(r@, other) == occurrences(old(self)@, other),
            *final(self) == *final(r),
    {
        self.inner.remove(key);
        self
    }

    /// The value of the first occurrence of `key`, if any.
    pub fn property_value(&self, key: &str) -> (r: Option<&str>)
        ensures
            opt_text(r) == first_value(self@, key@),
    {
        self.inner.value_of(key)
    }

    /// The stored properties.
    pub fn properties(&self) -> (r: &PropertyStore)
        ensures
            r@ == self@,
    {
        &self.inner
    }

    /// Every occurrence of `key`, in the order added.
    pub fn multi_properties(&self, key: &str) -> (r: Vec<&Property>)
        ensures
            r@.map_values(|p: &Property| p@) == occurrences(self@, key@),
    {
        self.inner.get_all(key)
    }

    /// Writes this participant to `out`.
    pub fn fmt_write(&self, out: &mut String)
        ensures
            final(out)@ == old(out)@ + component_text("PARTICIPANT"@, self@),
    {
        write_component("PARTICIPANT", &self.inner, out);
    }

    /// This participant as written out.
    pub fn to_string(&self) -> (r: String)
        ensures
            r@ == component_text("PARTICIPANT"@, self@),
    {
        let mut s = String::new();
        write_component("PARTICIPANT", &self.inner, &mut s);
        proof {
            assert(s@ =~= component_text("PARTICIPANT"@, self@));
        }
        s
    }

    /// Sets the `UID` property.
    pub fn uid(&mut self, value: &str) -> (r: &mut Self)
        ensures
            r@ == store_set(old(self)@, plain_property("UID"@, value@)),
            *final(self) == *final(r),
    {
        self.inner.set(Property::new("UID", value));
        self
    }

    /// The value of the `UID` property, if set.
    pub fn get_uid(&self) -> (r: Option<&str>)
        ensures
            opt_text(r) == first_value(self@, "UID"@),
    {
        self.inner.value_of("UID")
    }

    /// Sets the `SUMMARY` property.
    pub fn summary(&mut self, value: &str) -> (r: &mut Self)
        ensures
            r@ == store_set(old(self)@, plain_property("SUMMARY"@, value@)),
            *final(self) == *final(r),
    {
        self.inner.set(Property::new("SUMMARY", value));
        self
    }

    /// The value of the `SUMMARY` property, if set.
    pub fn get_summary(&self) -> (r: Option<&str>)
        ensures
            opt_text(r) == first_value(self@, "SUMMARY"@),
    {
        self.inner.value_of("SUMMARY")
    }

    /// Sets the `DESCRIPTION` property.
    pub fn description(&mut self, value: &str) -> (r: &mut Self)
        ensures
            r@ == store_set(old(self)@, plain_property("DESCRIPTION"@, value@)),
            *final(self) == *final(r),
    {
        self.inner.set(Property::new("DESCRIPTION", value));
        self
    }

    /// The value of the `DESCRIPTION` property, if set.
    pub fn get_description(&self) -> (r: Option<&str>)
        ensures
            opt_text(r) == first_value(self@, "DESCRIPTION"@),
    {
        self.inner.value_of("DESCRIPTION")
    }


    /// Sets the `PARTICIPANT-TYPE` property.
    pub fn participant_type(&mut self, value: &str) -> (r: &mut Self)
        ensures
            r@ == store_set(old(self)@, plain_property("PARTICIPANT-TYPE"@, value@)),
            *final(self) == *final(r),
    {
        self.inner.set(Property::new("PARTICIPANT-TYPE", value));
        self
    }

    /// The value of the `PARTICIPANT-TYPE` property, if set.
    pub fn get_participant_type(&self) -> (r: Option<&str>)
        ensures
            opt_text(r) == first_value(self@, "PARTICIPANT-TYPE"@),
    {
        self.inner.value_of("PARTICIPANT-TYPE")
    }


    /// Sets the `CALENDAR-ADDRESS` property.
    pub fn calendar_address(&mut self, value: &str) -> (r: &mut Self)
        ensures
            r@ == store_set(old(self)@, plain_property("CALENDAR-ADDRESS"@, value@)),
            *final(self) == *final(r),
    {
        self.inner.set(Property::new("CALENDAR-ADDRESS", value));
        self
    }

    /// The value of the `CALENDAR-ADDRESS` property, if set.
    pub fn get_calendar_address(&self) -> (r: Option<&str>)
        ensures
            opt_text(r) == first_value(self@, "CALENDAR-ADDRESS"@),
    {
        self.inner.value_of("CALENDAR-ADDRESS")
    }


    /// Adds a property with parameters, after the occurrences of its key.
    fn add_property_with_params(&mut self, key: &str, value: &str, params: &[(&str, &str)]) -> (r: &mut Self)
        ensures
            r@ == store_append(old(self)@, property_with(key@, value@, params@)),
            *final(self) == *final(r),
    {
        let prop = property_with_params(key, value, params);
        self.inner.append(prop);
        self
    }

    /// Adds a `STRUCTURED-DATA` property with parameters; earlier ones stay.
    pub fn structured_data(&mut self, value: &str, params: &[(&str, &str)]) -> (r: &mut Self)
        ensures
            r@ == store_append(old(self)@, property_with("STRUCTURED-DATA"@, value@, params@)),
            *final(self) == *final(r),
    {
        self.add_property_with_params("STRUCTURED-DATA", value, params)
    }

    /// The value of the first `STRUCTURED-DATA` property, if any.
    pub fn get_structured_data(&self) -> (r: Option<&str>)
        ensures
            opt_text(r) == first_value(self@, "STRUCTURED-DATA"@),
    {
        self.inner.value_of("STRUCTURED-DATA")
    }

    /// Every `STRUCTURED-DATA` property, in the order added.
    pub fn get_all_structured_data(&self) -> (r: Vec<&Property>)
        ensures
            r@.map_values(|p: &Property| p@) == occurrences(self@, "STRUCTURED-DATA"@),
    {
        self.inner.get_all("STRUCTURED-DATA")
    }

}

/// A `VLOCATION` component.
#[derive(Clone, Debug)]
pub struct Location {
    inner: PropertyStore,
}

impl View for Location {
    type V = StoreView;

    closed spec fn view(&self) -> StoreView {
        self.inner@
    }
}

impl Location {
    /// An empty location.
    pub fn new() -> (r: Location)
        ensures
            r@ == StoreView::empty(),
    {
        Location { inner: PropertyStore::new() }
    }

    /// A location with a `UID`.
    pub fn with_uid(uid: &str) -> (r: Location)
        ensures
            r@ == store_set(StoreView::empty(), plain_property("UID"@, uid@)),
    {
        let mut c = Location::new();
        c.inner.set(Property::new("UID", uid));
        c
    }

    /// Ends a chain of builder calls: hands out what was built and leaves
    /// an empty location in its place.
    pub fn done(&mut self) -> (r: Location)
        ensures
            r@ == old(self)@,
            final(self)@ == StoreView::empty(),
    {
        Location { inner: self.inner.done() }
    }

    /// Makes a property with this key and value the only occurrence of the
    /// key.
    pub fn add_property(&mut self, key: &str, val: &str) -> (r: &mut Self)
        ensures
            r@ == store_set(old(self)@, plain_property(key@, val@)),
            *final(self) == *final(r),
    {
        self.inner.set(Property::new(key, val));
        self
    }

    /// Adds a property after the occurrences of its key.
    pub fn append_property(&mut self, property: Property) -> (r: &mut Self)
        ensures
            r@ == store_append(old(self)@, property@),
            *final(self) == *final(r),
    {
        self.inner.append(property);
        self
    }

    /// Removes every occurrence of `key`.
    pub fn remove_property(&mut self, key: &str) -> (r: &mut Self)
        ensures
            r@ == store_remove(old(self)@, key@),
            occurrences(r@, key@).len() == 0,
            forall|other: Seq<char>| other != key@ ==> #[trigger] occurrences(r@, other) == occurrences(old(self)@, other),
            *final(self) == *final(r),
    {
        self.inner.remove(key);
        self
    }

    /// The value of the first occurrence of `key`, if any.
    pub fn property_value(&self, key: &str) -> (r: Option<&str>)
        ensures
            opt_text(r) == first_value(self@, key@),
    {
        self.inner.value_of(key)
    }

    /// The stored properties.
    pub fn properties(&self) -> (r: &PropertyStore)
        ensures
            r@ == self@,
    {
        &self.inner
    }

    /// Every occurrence of `key`, in the order added.
    pub fn multi_properties(&self, key: &str) -> (r: Vec<&Property>)
        ensures
            r@.map_values(|p: &Property| p@) == occurrences(self@, key@),
    {
        self.inner.get_all(key)
    }

    /// Writes this location to `out`.
    pub fn fmt_write(&self, out: &mut String)
        ensures
            final(out)@ == old(out)@ + component_text("VLOCATION"@, self@),
    {
        write_component("VLOCATION", &self.inner, out);
    }

    /// This location as written out.
    pub fn to_string(&self) -> (r: String)
        ensures
            r@ == component_text("VLOCATION"@, self@),
    {
        let mut s = String::new();
        write_component("VLOCATION", &self.inner, &mut s);
        proof {
            assert(s@ =~= component_text("VLOCATION"@, self@));
        }
        s
    }

    /// Sets the `UID` property.
    pub fn uid(&mut self, value: &str) -> (r: &mut Self)
        ensures
            r@ == store_set(old(self)@, plain_property("UID"@, value@)),
            *final(self) == *final(r),
    {
        self.inner.set(Property::new("UID", value));
        self
    }

    /// The value of the `UID` property, if set.
    pub fn get_uid(&self) -> (r: Option<&str>)
        ensures
            opt_text(r) == first_value(self@, "UID"@),
    {
        self.inner.value_of("UID")
    }

    /// Sets the `SUMMARY` property.
    pub fn summary(&mut self, value: &str) -> (r: &mut Self)
        ensures
            r@ == store_set(old(self)@, plain_property("SUMMARY"@, value@)),
            *final(self) == *final(r),
    {
        self.inner.set(Property::new("SUMMARY", value));
        self
    }

    /// The value of the `SUMMARY` property, if set.
    pub fn get_summary(&self) -> (r: Option<&str>)
        ensures
            opt_text(r) == first_value(self@, "SUMMARY"@),
    {
        self.inner.value_of("SUMMARY")
    }

    /// Sets the `DESCRIPTION` property.
    pub fn description(&mut self, value: &str) -> (r: &mut Self)
        ensures
            r@ == store_set(old(self)@, plain_property("DESCRIPTION"@, value@)),
            *final(self) == *final(r),
    {
        self.inner.set(Property::new("DESCRIPTION", value));
        self
    }

    /// The value of the `DESCRIPTION` property, if set.
    pub fn get_description(&self) -> (r: Option<&str>)
        ensures
            opt_text(r) == first_value(self@, "DESCRIPTION"@),
    {
        self.inner.value_of("DESCRIPTION")
    }


    /// Sets the `LOCATION-TYPE` property.
    pub fn location_type(&mut self, value: &str) -> (r: &mut Self)
        ensures
            r@ == store_set(old(self)@, plain_property("LOCATION-TYPE"@, value@)),
            *final(self) == *final(r),
    {
        self.inner.set(Property::new("LOCATION-TYPE", value));
        self
    }

    /// The value of the `LOCATION-TYPE` property, if set.
    pub fn get_location_type(&self) -> (r: Option<&str>)
        ensures
            opt_text(r) == first_value(self@, "LOCATION-TYPE"@),
    {
        self.inner.value_of("LOCATION-TYPE")
    }


    /// Sets the `NAME` property.
    pub fn name(&mut self, value: &str) -> (r: &mut Self)
        ensures
            r@ == store_set(old(self)@, plain_property("NAME"@, value@)),
            *final(self) == *final(r),
    {
        self.inner.set(Property::new("NAME", value));
        self
    }

    /// The value of the `NAME` property, if set.
    pub fn get_name(&self) -> (r: Option<&str>)
        ensures
            opt_text(r) == first_value(self@, "NAME"@),
    {
        self.inner.value_of("NAME")
    }


    /// Adds a property with parameters, after the occurrences of its key.
    fn add_property_with_params(&mut self, key: &str, value: &str, params: &[(&str, &str)]) -> (r: &mut Self)
        ensures
            r@ == store_append(old(self)@, property_with(key@, value@, params@)),
            *final(self) == *final(r),
    {
        let prop = property_with_params(key, value, params);
        self.inner.append(prop);
        self
    }

    /// Adds a `STRUCTURED-DATA` property with parameters; earlier ones stay.
    pub fn structured_data(&mut self, value: &str, params: &[(&str, &str)]) -> (r: &mut Self)
        ensures
            r@ == store_append(old(self)@, property_with("STRUCTURED-DATA"@, value@, params@)),
            *final(self) == *final(r),
    {
        self.add_property_with_params("STRUCTURED-DATA", value, params)
    }

    /// The value of the first `STRUCTURED-DATA` property, if any.
    pub fn get_structured_data(&self) -> (r: Option<&str>)
        ensures
            opt_text(r) == first_value(self@, "STRUCTURED-DATA"@),
    {
        self.inner.value_of("STRUCTURED-DATA")
    }

    /// Every `STRUCTURED-DATA` property, in the order added.
    pub fn get_all_structured_data(&self) -> (r: Vec<&Property>)
        ensures
            r@.map_values(|p: &Property| p@) == occurrences(self@, "STRUCTURED-DATA"@),
    {
        self.inner.get_all("STRUCTURED-DATA")
    }

}

/// A `VRESOURCE` component.
#[derive(Clone, Debug)]
pub struct Resource {
    inner: PropertyStore,
}

impl View for Resource {
    type V = StoreView;

    closed spec fn view(&self) -> StoreView {
        self.inner@
    }
}

impl Resource {
    /// An empty resource.
    pub fn new() -> (r: Resource)
        ensures
            r@ == StoreView::empty(),
    {
        Resource { inner: PropertyStore::new() }
    }

    /// A resource with a `UID`.
    pub fn with_uid(uid: &str) -> (r: Resource)
        ensures
            r@ == store_set(StoreView::empty(), plain_property("UID"@, uid@)),
    {
        let mut c = Resource::new();
        c.inner.set(Property::new("UID", uid));
        c
    }

    /// Ends a chain of builder calls: hands out what was built and leaves
    /// an empty resource in its place.
    pub fn done(&mut self) -> (r: Resource)
        ensures
            r@ == old(self)@,
            final(self)@ == StoreView::empty(),
    {
        Resource { inner: self.inner.done() }
    }

    /// Makes a property with this key and value the only occurrence of the
    /// key.
    pub fn add_property(&mut self, key: &str, val: &str) -> (r: &mut Self)
        ensures
            r@ == store_set(old(self)@, plain_property(key@, val@)),
            *final(self) == *final(r),
    {
        self.inner.set(Property::new(key, val));
        self
    }

    /// Adds a property after the occurrences of its key.
    pub fn append_property(&mut self, property: Property) -> (r: &mut Self)
        ensures
            r@ == store_append(old(self)@, property@),
            *final(self) == *final(r),
    {
        self.inner.append(property);
        self
    }

    /// Removes every occurrence of `key`.
    pub fn remove_property(&mut self, key: &str) -> (r: &mut Self)
        ensures
            r@ == store_remove(old(self)@, key@),
            occurrences(r@, key@).len() == 0,
            forall|other: Seq<char>| other != key@ ==> #[trigger] occurrences(r@, other) == occurrences(old(self)@, other),
            *final(self) == *final(r),
    {
        self.inner.remove(key);
        self
    }

    /// The value of the first occurrence of `key`, if any.
    pub fn property_value(&self, key: &str) -> (r: Option<&str>)
        ensures
            opt_text(r) == first_value(self@, key@),
    {
        self.inner.value_of(key)
    }

    /// The stored properties.
    pub fn properties(&self) -> (r: &PropertyStore)
        ensures
            r@ == self@,
    {
        &self.inner
    }

    /// Every occurrence of `key`, in the order added.
    pub fn multi_properties(&self, key: &str) -> (r: Vec<&Property>)
        ensures
            r@.map_values(|p: &Property| p@) == occurrences(self@, key@),
    {
        self.inner.get_all(key)
    }

    /// Writes this resource to `out`.
    pub fn fmt_write(&self, out: &mut String)
        ensures
            final(out)@ == old(out)@ + component_text("VRESOURCE"@, self@),
    {
        write_component("VRESOURCE", &self.inner, out);
    }

    /// This resource as written out.
    pub fn to_string(&self) -> (r: String)
        ensures
            r@ == component_text("VRESOURCE"@, self@),
    {
        let mut s = String::new();
        write_component("VRESOURCE", &self.inner, &mut s);
        proof {
            assert(s@ =~= component_text("VRESOURCE"@, self@));
        }
        s
    }

    /// Sets the `UID` property.
    pub fn uid(&mut self, value: &str) -> (r: &mut Self)
        ensures
            r@ == store_set(old(self)@, plain_property("UID"@, value@)),
            *final(self) == *final(r),
    {
        self.inner.set(Property::new("UID", value));
        self
    }

    /// The value of the `UID` property, if set.
    pub fn get_uid(&self) -> (r: Option<&str>)
        ensures
            opt_text(r) == first_value(self@, "UID"@),
    {
        self.inner.value_of("UID")
    }

    /// Sets the `SUMMARY` property.
    pub fn summary(&mut self, value: &str) -> (r: &mut Self)
        ensures
            r@ == store_set(old(self)@, plain_property("SUMMARY"@, value@)),
            *final(self) == *final(r),
    {
        self.inner.set(Property::new("SUMMARY", value));
        self
    }

    /// The value of the `SUMMARY` property, if set.
    pub fn get_summary(&self) -> (r: Option<&str>)
        ensures
            opt_text(r) == first_value(self@, "SUMMARY"@),
    {
        self.inner.value_of("SUMMARY")
    }

    /// Sets the `DESCRIPTION` property.
    pub fn description(&mut self, value: &str) -> (r: &mut Self)
        ensures
            r@ == store_set(old(self)@, plain_property("DESCRIPTION"@, value@)),
            *final(self) == *final(r),
    {
        self.inner.set(Property::new("DESCRIPTION", value));
        self
    }

    /// The value of the `DESCRIPTION` property, if set.
    pub fn get_description(&self) -> (r: Option<&str>)
        ensures
            opt_text(r) == first_value(self@, "DESCRIPTION"@),
    {
        self.inner.value_of("DESCRIPTION")
    }


    /// Sets the `RESOURCE-TYPE` property.
    pub fn resource_type(&mut self, value: &str) -> (r: &mut Self)
        ensures
            r@ == store_set(old(self)@, plain_property("RESOURCE-TYPE"@, value@)),
            *final(self) == *final(r),
    {
        self.inner.set(Property::new("RESOURCE-TYPE", value));
        self
    }

    /// The value of the `RESOURCE-TYPE` property, if set.
    pub fn get_resource_type(&self) -> (r: Option<&str>)
        ensures
            opt_text(r) == first_value(self@, "RESOURCE-TYPE"@),
    {
        self.inner.value_of("RESOURCE-TYPE")
    }


    /// Sets the `NAME` property.
    pub fn name(&mut self, value: &str) -> (r: &mut Self)
        ensures
            r@ == store_set(old(self)@, plain_property("NAME"@, value@)),
            *final(self) == *final(r),
    {
        self.inner.set(Property::new("NAME", value));
        self
    }

    /// The value of the `NAME` property, if set.
    pub fn get_name(&self) -> (r: Option<&str>)
        ensures
            opt_text(r) == first_value(self@, "NAME"@),
    {
        self.inner.value_of("NAME")
    }


    /// Adds a property with parameters, after the occurrences of its key.
    fn add_property_with_params(&mut self, key: &str, value: &str, params: &[(&str, &str)]) -> (r: &mut Self)
        ensures
            r@ == store_append(old(self)@, property_with(key@, value@, params@)),
            *final(self) == *final(r),
    {
        let prop = property_with_params(key, value, params);
        self.inner.append(prop);
        self
    }

    /// Adds a `STRUCTURED-DATA` property with parameters; earlier ones stay.
    pub fn structured_data(&mut self, value: &str, params: &[(&str, &str)]) -> (r: &mut Self)
        ensures
            r@ == store_append(old(self)@, property_with("STRUCTURED-DATA"@, value@, params@)),
            *final(self) == *final(r),
    {
        self.add_property_with_params("STRUCTURED-DATA", value, params)
    }

    /// The value of the first `STRUCTURED-DATA` property, if any.
    pub fn get_structured_data(&self) -> (r: Option<&str>)
        ensures
            opt_text(r) == first_value(self@, "STRUCTURED-DATA"@),
    {
        self.inner.value_of("STRUCTURED-DATA")
    }

    /// Every `STRUCTURED-DATA` property, in the order added.
    pub fn get_all_structured_data(&self) -> (r: Vec<&Property>)
        ensures
            r@.map_values(|p: &Property| p@) == occurrences(self@, "STRUCTURED-DATA"@),
    {
        self.inner.get_all("STRUCTURED-DATA")
    }

}

/// A component that a calendar holds.
#[derive(Clone, Debug)]
pub enum CalendarComponent {
    Todo(Todo),
    Event(Event),
    Venue(Venue),
    Participant(Participant),
}

impl CalendarComponent {
    /// The event, if this is one.
    pub fn as_event(&self) -> (r: Option<&Event>)
        ensures
            r is Some <==> self is Event,
            r matches Some(e) ==> self matches CalendarComponent::Event(x) && e@ == x@,
    {
        match self {
            CalendarComponent::Event(event) => Some(event),
            _ => None,
        }
    }

    /// The to-do, if this is one.
    pub fn as_todo(&self) -> (r: Option<&Todo>)
        ensures
            r is Some <==> self is Todo,
            r matches Some(t) ==> self matches CalendarComponent::Todo(x) && t@ == x@,
    {
        match self {
            CalendarComponent::Todo(todo) => Some(todo),
            _ => None,
        }
    }

    /// Writes the component to `out`.
    pub fn fmt_write(&self, out: &mut String)
        ensures
            final(out)@ == old(out)@ + component_text_of(*self),
    {
        match self {
            CalendarComponent::Todo(c) => c.fmt_write(out),
            CalendarComponent::Event(c) => c.fmt_write(out),
            CalendarComponent::Venue(c) => c.fmt_write(out),
            CalendarComponent::Participant(c) => c.fmt_write(out),
        }
    }
}

/// A calendar component as written.
pub open spec fn component_text_of(c: CalendarComponent) -> Seq<char> {
    match c {
        CalendarComponent::Todo(x) => component_text("VTODO"@, x@),
        CalendarComponent::Event(x) => component_text("VEVENT"@, x@),
        CalendarComponent::Venue(x) => component_text("VVENUE"@, x@),
        CalendarComponent::Participant(x) => component_text("PARTICIPANT"@, x@),
    }
}

} // verus!
