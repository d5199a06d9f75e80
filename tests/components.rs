use icalendar::{
    CalendarDate, CalendarDateTime, DatePerhapsTime, Event, EventStatus, LocalDateTime, Location,
    Participant, Resource, Todo, TodoStatus, Venue,
};

#[test]
fn event_get_properties_unset() {
    let event = Event::new();
    assert_eq!(event.get_status(), None);
}

#[test]
fn event_get_properties_set() {
    let event = Event::new().status(EventStatus::Tentative).done();
    assert_eq!(event.get_status(), Some(EventStatus::Tentative));
}

#[test]
fn test_remove_status() {
    let mut event = Event::new().status(EventStatus::Cancelled).done();

    assert_eq!(event.get_status(), Some(EventStatus::Cancelled));

    event.remove_status();

    assert_eq!(event.get_status(), None);
}

fn completed_at() -> LocalDateTime {
    LocalDateTime::new(2001, 3, 13, 14, 15, 16).unwrap()
}

#[test]
fn todo_get_properties_unset() {
    let todo = Todo::new();
    assert_eq!(todo.get_percent_complete(), None);
    assert_eq!(todo.get_status(), None);
    assert_eq!(todo.get_completed(), None);
    assert_eq!(todo.get_due(), None);
}

#[test]
fn todo_get_properties_set() {
    let completed = completed_at();
    let todo = Todo::new()
        .percent_complete(42)
        .status(TodoStatus::NeedsAction)
        .completed(completed)
        .done();
    assert_eq!(todo.get_percent_complete(), Some(42));
    assert_eq!(todo.get_status(), Some(TodoStatus::NeedsAction));
    assert_eq!(todo.get_completed(), Some(completed))
}

#[test]
fn todo_get_properties_remove() {
    let completed = completed_at();
    let mut todo = Todo::new()
        .percent_complete(42)
        .status(TodoStatus::NeedsAction)
        .completed(completed)
        .done();
    assert_eq!(todo.get_percent_complete(), Some(42));
    assert_eq!(todo.get_status(), Some(TodoStatus::NeedsAction));
    assert_eq!(todo.get_completed(), Some(completed));

    todo.remove_percent_complete()
        .remove_status()
        .remove_completed();
    assert_eq!(todo.get_percent_complete(), None);
    assert_eq!(todo.get_status(), None);
    assert_eq!(todo.get_completed(), None);
}

#[test]
fn get_date_times_naive() {
    let naive_date_time = CalendarDateTime::Floating(LocalDateTime::new(2001, 3, 13, 14, 15, 16).unwrap());
    let todo = Todo::new().due(DatePerhapsTime::DateTime(naive_date_time)).done();
    assert_eq!(todo.get_due(), Some(DatePerhapsTime::DateTime(naive_date_time)));
}

#[test]
fn get_date_times_utc() {
    let utc = LocalDateTime::new(2001, 3, 13, 14, 15, 16).unwrap();
    let utc_date_time = CalendarDateTime::Utc(utc);
    let todo = Todo::new()
        .due(DatePerhapsTime::DateTime(utc_date_time))
        .completed(utc)
        .done();
    assert_eq!(todo.get_due(), Some(DatePerhapsTime::DateTime(utc_date_time)));
    assert_eq!(todo.get_completed(), Some(utc));
}

#[test]
fn get_dates_naive() {
    let naive_date = CalendarDate::from_ymd_opt(2001, 3, 13).unwrap();
    let todo = Todo::new().due(DatePerhapsTime::Date(naive_date)).done();
    assert_eq!(todo.get_due(), Some(DatePerhapsTime::Date(naive_date)));
}

#[test]
fn test_mark_uncompleted() {
    let completed = completed_at();

    let mut todo = Todo::new()
        .percent_complete(100)
        .status(TodoStatus::Completed)
        .completed(completed)
        .done();

    assert_eq!(todo.get_percent_complete(), Some(100));
    assert_eq!(todo.get_status(), Some(TodoStatus::Completed));
    assert_eq!(todo.get_completed(), Some(completed));

    todo.mark_uncompleted();

    assert_eq!(todo.get_percent_complete(), None);
    assert_eq!(todo.get_status(), None);
    assert_eq!(todo.get_completed(), None);
}

#[test]
fn mark_uncompleted_keeps_other_status() {
    let mut todo = Todo::new().status(TodoStatus::InProcess).percent_complete(10).done();
    todo.mark_uncompleted();
    assert_eq!(todo.get_status(), Some(TodoStatus::InProcess));
    assert_eq!(todo.get_percent_complete(), None);
}

#[test]
fn uid_preserved_after_uncompleted() {
    let uid = "test-todo-unique-identifier-123";

    let mut todo = Todo::new()
        .summary("Test Todo")
        .uid(uid)
        .completed(completed_at())
        .percent_complete(100)
        .status(TodoStatus::Completed)
        .done();

    assert_eq!(todo.get_uid(), Some(uid));

    todo.mark_uncompleted();

    assert_eq!(todo.get_uid(), Some(uid));

    assert_eq!(todo.get_completed(), None);
    assert_eq!(todo.get_percent_complete(), None);
    assert_eq!(todo.get_status(), None);
}

#[test]
fn venue_get_properties_unset() {
    let venue = Venue::new();
    assert_eq!(venue.get_street_address(), None);
    assert_eq!(venue.get_extended_address(), None);
    assert_eq!(venue.get_locality(), None);
    assert_eq!(venue.get_region(), None);
    assert_eq!(venue.get_country(), None);
    assert_eq!(venue.get_postal_code(), None);
}

#[test]
fn venue_get_properties_set() {
    let venue = Venue::new()
        .street_address("street address")
        .extended_address("extended address")
        .locality("locality")
        .region("region")
        .country("country")
        .postal_code("postal code")
        .done();
    assert_eq!(venue.get_street_address(), Some("street address"));
    assert_eq!(venue.get_extended_address(), Some("extended address"));
    assert_eq!(venue.get_locality(), Some("locality"));
    assert_eq!(venue.get_region(), Some("region"));
    assert_eq!(venue.get_country(), Some("country"));
    assert_eq!(venue.get_postal_code(), Some("postal code"));
}

#[test]
fn venue_get_properties_remove() {
    let mut venue = Venue::new()
        .street_address("street address")
        .extended_address("extended address")
        .locality("locality")
        .region("region")
        .country("country")
        .postal_code("postal code")
        .done();
    assert_eq!(venue.get_street_address(), Some("street address"));
    assert_eq!(venue.get_extended_address(), Some("extended address"));
    assert_eq!(venue.get_locality(), Some("locality"));
    assert_eq!(venue.get_region(), Some("region"));
    assert_eq!(venue.get_country(), Some("country"));
    assert_eq!(venue.get_postal_code(), Some("postal code"));

    venue
        .remove_street_address()
        .remove_extended_address()
        .remove_locality()
        .remove_region()
        .remove_country()
        .remove_postal_code();
    assert_eq!(venue.get_street_address(), None);
    assert_eq!(venue.get_extended_address(), None);
    assert_eq!(venue.get_locality(), None);
    assert_eq!(venue.get_region(), None);
    assert_eq!(venue.get_country(), None);
    assert_eq!(venue.get_postal_code(), None);
}

#[test]
fn participant_multi_instance_properties() {
    let mut participant = Participant::new();
    participant.structured_data("https://example.com/1", &[("VALUE", "URI"), ("ORDER", "1")]);
    participant.structured_data("https://example.com/2", &[("VALUE", "URI"), ("ORDER", "2")]);

    let all_sd = participant.get_all_structured_data();
    assert_eq!(all_sd.len(), 2);
    assert_eq!(all_sd[0].value(), "https://example.com/1");
    assert_eq!(all_sd[1].value(), "https://example.com/2");
    assert_eq!(all_sd[0].params().get("ORDER").unwrap().value(), "1");
    assert_eq!(all_sd[1].params().get("ORDER").unwrap().value(), "2");
}

#[test]
fn location_multi_instance_properties() {
    let mut location = Location::new();
    location.structured_data("https://loc.example/1", &[("VALUE", "URI"), ("ORDER", "1")]);
    location.structured_data("https://loc.example/2", &[("VALUE", "URI"), ("ORDER", "2")]);

    let all_sd = location.get_all_structured_data();
    assert_eq!(all_sd.len(), 2);
    assert_eq!(all_sd[0].value(), "https://loc.example/1");
    assert_eq!(all_sd[1].value(), "https://loc.example/2");
    assert_eq!(all_sd[0].params().get("ORDER").unwrap().value(), "1");
    assert_eq!(all_sd[1].params().get("ORDER").unwrap().value(), "2");
}

#[test]
fn resource_multi_instance_properties() {
    let mut resource = Resource::new();
    resource.structured_data("https://res.example/1", &[("VALUE", "URI"), ("ORDER", "1")]);
    resource.structured_data("https://res.example/2", &[("VALUE", "URI"), ("ORDER", "2")]);

    let all_sd = resource.get_all_structured_data();
    assert_eq!(all_sd.len(), 2);
    assert_eq!(all_sd[0].value(), "https://res.example/1");
    assert_eq!(all_sd[1].value(), "https://res.example/2");
    assert_eq!(all_sd[0].params().get("ORDER").unwrap().value(), "1");
    assert_eq!(all_sd[1].params().get("ORDER").unwrap().value(), "2");
}

#[test]
fn structured_data_keeps_insertion_order() {
    let mut participant = Participant::new();
    participant.structured_data("A", &[]);
    participant.structured_data("B", &[]);
    let all: Vec<&str> = participant.get_all_structured_data().iter().map(|p| p.value()).collect();
    assert_eq!(all, vec!["A", "B"]);
    assert_eq!(participant.get_structured_data(), Some("A"));
}

#[test]
fn append_then_remove_then_set() {
    let mut event = Event::new();
    for i in 0..3 {
        event.append_property(icalendar::Property::new("RDATE", &format!("2025010{}", i + 1)));
    }
    assert_eq!(event.multi_properties("RDATE").len(), 3);
    assert_eq!(event.multi_properties("RDATE")[2].value(), "20250103");
    event.remove_property("RDATE");
    assert_eq!(event.multi_properties("RDATE").len(), 0);
    event.remove_property("RDATE");
    for i in 0..3 {
        event.append_property(icalendar::Property::new("RDATE", &format!("2025010{}", i + 1)));
    }
    event.add_property("RDATE", "20250201");
    let all = event.multi_properties("RDATE");
    assert_eq!(all.len(), 1);
    assert_eq!(all[0].value(), "20250201");
}

#[test]
fn with_uid_sets_uid() {
    let event = Event::with_uid("abc");
    assert_eq!(event.get_uid(), Some("abc"));
    let venue = Venue::with_uid("v1");
    assert_eq!(venue.get_uid(), Some("v1"));
}

#[test]
fn event_writes_begin_properties_end() {
    let event = Event::new().summary("Party").uid("u1").status(EventStatus::Confirmed).done();
    assert_eq!(
        event.to_string(),
        "BEGIN:VEVENT\r\nSUMMARY:Party\r\nUID:u1\r\nSTATUS:CONFIRMED\r\nEND:VEVENT\r\n"
    );
}

#[test]
fn participant_fields() {
    let p = Participant::with_uid("p1")
        .participant_type("SPEAKER")
        .calendar_address("mailto:a@example.com")
        .description("Talks")
        .done();
    assert_eq!(p.get_participant_type(), Some("SPEAKER"));
    assert_eq!(p.get_calendar_address(), Some("mailto:a@example.com"));
    assert_eq!(p.get_description(), Some("Talks"));
    let l = Location::new().location_type("hall").name("Main").done();
    assert_eq!(l.get_location_type(), Some("hall"));
    assert_eq!(l.get_name(), Some("Main"));
    let r = Resource::new().resource_type("projector").name("P1").done();
    assert_eq!(r.get_resource_type(), Some("projector"));
    assert_eq!(r.get_name(), Some("P1"));
}

#[test]
fn percent_complete_out_of_range_reads_none() {
    let mut todo = Todo::new();
    todo.add_property("PERCENT-COMPLETE", "300");
    assert_eq!(todo.get_percent_complete(), None);
    todo.add_property("PERCENT-COMPLETE", "+7");
    assert_eq!(todo.get_percent_complete(), Some(7));
}

#[test]
fn uid_preserved_in_calendar() {
    let uid = "calendar-todo-uid-456";

    let mut calendar = icalendar::Calendar::new();
    let todo = Todo::new()
        .summary("Calendar Test Todo")
        .uid(uid)
        .completed(completed_at())
        .percent_complete(100)
        .status(TodoStatus::Completed)
        .done();

    calendar.push(icalendar::CalendarComponent::Todo(todo));

    if let Some(component) = calendar.components.iter_mut().next() {
        if let icalendar::CalendarComponent::Todo(todo) = component {
            assert_eq!(todo.get_uid(), Some(uid));
            todo.mark_uncompleted();
            assert_eq!(todo.get_uid(), Some(uid));
        } else {
            panic!("Expected a Todo component");
        }
    }

    let calendar_str = calendar.to_string();
    assert!(calendar_str.contains(&format!("UID:{uid}")));
}

#[test]
fn calendar_text_layout() {
    let mut calendar = icalendar::Calendar::new();
    calendar.push(icalendar::CalendarComponent::Event(Event::with_uid("e1")));
    assert_eq!(
        calendar.to_string(),
        "BEGIN:VCALENDAR\r\nVERSION:2.0\r\nPRODID:ICALENDAR-RS\r\nCALSCALE:GREGORIAN\r\nBEGIN:VEVENT\r\nUID:e1\r\nEND:VEVENT\r\nEND:VCALENDAR\r\n"
    );
    assert!(calendar.components[0].as_event().is_some());
    assert!(calendar.components[0].as_todo().is_none());
}

#[test]
fn remove_drops_every_occurrence() {
    let mut venue = Venue::new();
    venue.append_property(icalendar::Property::new("STREET-ADDRESS", "a"));
    venue.append_property(icalendar::Property::new("STREET-ADDRESS", "b"));
    venue.locality("here");
    let copy = venue.clone();
    venue.remove_street_address();
    assert_eq!(venue.get_street_address(), None);
    assert_eq!(venue.multi_properties("STREET-ADDRESS").len(), 0);
    assert_eq!(venue.get_locality(), Some("here"));
    assert_eq!(copy.multi_properties("STREET-ADDRESS").len(), 2);
}
