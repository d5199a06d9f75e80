//! A calendar: header properties, then components in the order added.

use vstd::prelude::*;
use crate::components::{component_text_of, CalendarComponent};
use crate::fold::crlf;
use crate::properties::{plain_property, Property};
use crate::store::{store_set, store_text, PropertyStore, StoreView};

verus! {

/// The components as written, one after another.
pub open spec fn components_text(cs: Seq<CalendarComponent>) -> Seq<char>
    decreases cs.len(),
{
    if cs.len() == 0 {
        Seq::empty()
    } else {
        components_text(cs.drop_last()) + component_text_of(cs.last())
    }
}

/// A calendar as written: `BEGIN:VCALENDAR`, its own properties, its
/// components in the order added, `END:VCALENDAR`.
pub open spec fn calendar_text(header: StoreView, cs: Seq<CalendarComponent>) -> Seq<char> {
    "BEGIN:VCALENDAR"@ + crlf() + store_text(header) + components_text(cs) + "END:VCALENDAR"@ + crlf()
}

/// The header that a new calendar has.
pub open spec fn default_header() -> StoreView {
    store_set(
        store_set(
            store_set(StoreView::empty(), plain_property("VERSION"@, "2.0"@)),
            plain_property("PRODID"@, "ICALENDAR-RS"@),
        ),
        plain_property("CALSCALE"@, "GREGORIAN"@),
    )
}

/// A `VCALENDAR`: its own properties and the components it holds.
#[derive(Clone, Debug)]
pub struct Calendar {
    pub properties: PropertyStore,
    pub components: Vec<CalendarComponent>,
}

impl Calendar {
    /// The calendar's own properties.
    pub open spec fn header(&self) -> StoreView {
        self.properties@
    }

    /// A calendar with `VERSION:2.0`, `PRODID:ICALENDAR-RS` and
    /// `CALSCALE:GREGORIAN`, and no components.
    pub fn new() -> (r: Calendar)
        ensures
            r.header() == default_header(),
            r.components@.len() == 0,
    {
        let mut properties = PropertyStore::new();
        properties.set(Property::new("VERSION", "2.0"));
        properties.set(Property::new("PRODID", "ICALENDAR-RS"));
        properties.set(Property::new("CALSCALE", "GREGORIAN"));
        Calendar { properties, components: Vec::new() }
    }

    /// Adds a component after the others.
    pub fn push(&mut self, component: CalendarComponent) -> (r: &mut Self)
        ensures
            r.header() == old(self).header(),
            r.components@ == old(self).components@.push(component),
            *final(self) == *final(r),
    {
        self.components.push(component);
        self
    }

    /// Sets a property of the calendar itself.
    pub fn add_property(&mut self, key: &str, val: &str) -> (r: &mut Self)
        ensures
            r.header() == store_set(old(self).header(), plain_property(key@, val@)),
            r.components@ == old(self).components@,
            *final(self) == *final(r),
    {
        self.properties.set(Property::new(key, val));
        self
    }

    /// Writes the calendar to `out`.
    pub fn fmt_write(&self, out: &mut String)
        ensures
            final(out)@ == old(out)@ + calendar_text(self.header(), self.components@),
    {
        out.push_str("BEGIN:VCALENDAR");
        out.push('\r');
        out.push('\n');
        self.properties.fmt_write(out);
        let ghost before = out@;
        let mut i: usize = 0;
        proof {
            assert(self.components@.take(0) =~= Seq::<CalendarComponent>::empty());
            assert(out@ =~= before + components_text(self.components@.take(0)));
        }
        while i < self.components.len()
            invariant
                0 <= i <= self.components@.len(),
                out@ == before + components_text(self.components@.take(i as int)),
            decreases self.components@.len() - i,
        {
            self.components[i].fmt_write(out);
            proof {
                assert(self.components@.take(i + 1).drop_last() =~= self.components@.take(i as int));
                assert(out@ =~= before + components_text(self.components@.take(i + 1)));
            }
            i = i + 1;
        }
        proof {
            assert(self.components@.take(i as int) =~= self.components@);
        }
        out.push_str("END:VCALENDAR");
        out.push('\r');
        out.push('\n');
        proof {
            assert(out@ =~= old(out)@ + calendar_text(self.header(), self.components@));
        }
    }

    /// The calendar as written out.
    pub fn to_string(&self) -> (r: String)
        ensures
            r@ == calendar_text(self.header(), self.components@),
    {
        let mut s = String::new();
        self.fmt_write(&mut s);
        proof {
            assert(s@ =~= calendar_text(self.header(), self.components@));
        }
        s
    }
}

} // verus!
