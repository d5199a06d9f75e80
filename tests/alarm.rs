use icalendar::alarm::{parse_duration, Action, Duration};
use icalendar::{Alarm, CalendarDateTime, LocalDateTime, Property, Related, Repeat, Trigger};

#[test]
fn test_repeat_default() {
    assert_eq!(
        Property::from(Repeat::default()).try_into(),
        Ok(String::from("REPEAT:0\r\n"))
    )
}

#[test]
fn repeat_from_count() {
    let mut out = String::new();
    Property::from(Repeat::from(12)).fmt_write(&mut out);
    assert_eq!(out, "REPEAT:12\r\n");
}

#[test]
fn test_audio() {
    let alarm = Alarm::audio(Trigger::Duration(Duration::minutes(15), Some(Related::Start)))
        .duration_and_repeat(Duration::minutes(5), 3)
        .done();
    assert_eq!(alarm.get_action(), Some(Action::Audio));
    assert_eq!(
        alarm.get_trigger(),
        Some(Trigger::Duration(Duration::minutes(15), Some(Related::Start)))
    );
    assert_eq!(alarm.get_trigger().unwrap().as_duration(), Some(&Duration::minutes(15)));
    assert_eq!(alarm.get_trigger().unwrap().related(), Some(Related::Start));
    assert_eq!(alarm.get_repeat(), 3);
    let trigger = Trigger::Duration(Duration::minutes(15), Some(Related::Start));
    assert_eq!(trigger.as_duration(), Some(&Duration::minutes(15)));
    assert_eq!(trigger.related(), Some(Related::Start));
    assert_eq!(trigger.as_date_time(), None);
}

#[test]
fn test_display() {
    let now = CalendarDateTime::Utc(LocalDateTime::new(2022, 11, 17, 21, 32, 45).unwrap());
    let alarm = Alarm::display("test alarm with display", Trigger::DateTime(now));
    assert_eq!(alarm.get_action(), Some(Action::Display));
    assert_eq!(alarm.get_trigger().unwrap().as_date_time().unwrap(), &now);
    assert_eq!(alarm.get_description(), Some("test alarm with display"));
}

#[test]
fn test_email() {
    let now = CalendarDateTime::Floating(LocalDateTime::new(2022, 11, 17, 21, 32, 45).unwrap());
    let alarm = Alarm::email("test alarm with email", Trigger::DateTime(now), "important email");
    assert_eq!(alarm.get_action(), Some(Action::Email));
    assert_eq!(alarm.get_trigger().unwrap().as_date_time().unwrap(), &now);
    assert_eq!(alarm.get_description(), Some("test alarm with email"));
    assert_eq!(alarm.get_summary(), Some("important email"));
}

#[test]
fn trigger_properties() {
    let now = CalendarDateTime::Floating(LocalDateTime::new(2022, 11, 17, 21, 32, 45).unwrap());
    let mut out = String::new();
    Trigger::DateTime(now).to_property().fmt_write(&mut out);
    assert_eq!(out, "TRIGGER;VALUE=DATE-TIME:20221117T213245\r\n");
    let p = Trigger::Duration(Duration::weeks(14), None).to_property();
    assert_eq!(p.key(), "TRIGGER");
    assert_eq!(p.value(), "PT8467200S");
    assert_eq!(Duration::minutes(-15).to_text(), "-PT900S");
    assert_eq!(Duration::seconds(0).to_text(), "P0D");
    let p = Trigger::Duration(Duration::minutes(15), Some(Related::End)).to_property();
    assert_eq!(p.params().get("RELATED").unwrap().value(), "END");
}

#[test]
fn action_names() {
    assert_eq!(Action::from_str("AUDIO"), Action::Audio);
    assert_eq!(Action::from_str("X-BEEP"), Action::Other("X-BEEP".to_string()));
    assert_eq!(Action::Other("X-BEEP".to_string()).to_string(), "X-BEEP");
    assert_eq!(Related::from_str("END"), Some(Related::End));
    assert_eq!(Related::from_str("MIDDLE"), None);
}

#[test]
fn audio_alarm_text() {
    let alarm = Alarm::audio(Trigger::Duration(Duration::minutes(15), Some(Related::Start)))
        .duration_and_repeat(Duration::minutes(5), 3)
        .done();
    assert_eq!(alarm.get_repeat(), 3);
    let mut rel = String::new();
    Trigger::Duration(Duration::minutes(15), Some(Related::Start)).to_property().fmt_write(&mut rel);
    assert_eq!(rel, "TRIGGER;RELATED=START:PT900S\r\n");
}

#[test]
fn test_trigger() {
    let prop: Property = Trigger::Duration(Duration::weeks(14), None).to_property();
    let mut out = String::new();
    prop.fmt_write(&mut out);
    assert_eq!(out, "TRIGGER:PT8467200S\r\n");
}

#[test]
fn test_trigger_abs_from_str() {
    let now = CalendarDateTime::Utc(LocalDateTime::new(2022, 11, 17, 21, 32, 45).unwrap());
    let alarm_with_abs_trigger = Alarm::audio(Trigger::DateTime(now));
    assert_eq!(alarm_with_abs_trigger.get_trigger(), Some(Trigger::DateTime(now)));
}

#[test]
fn test_trigger_abs_from_str_naive() {
    let now = CalendarDateTime::Floating(LocalDateTime::new(2022, 11, 17, 21, 32, 45).unwrap());
    let alarm_with_abs_trigger = Alarm::audio(Trigger::DateTime(now));
    assert_eq!(alarm_with_abs_trigger.get_trigger(), Some(Trigger::DateTime(now)));
}

#[test]
fn test_trigger_dur_from_str() {
    let dur = Duration::minutes(15);
    let alarm_with_rel_trigger = Alarm::audio(Trigger::Duration(dur, None));
    assert_eq!(alarm_with_rel_trigger.get_trigger(), Some(Trigger::Duration(dur, None)));
}

#[test]
fn test_trigger_dur_from_str_start() {
    let dur = Duration::minutes(15);
    let alarm_with_rel_start_trigger = Alarm::audio(Trigger::Duration(dur, Some(Related::Start)));
    assert_eq!(
        alarm_with_rel_start_trigger.get_trigger(),
        Some(Trigger::Duration(dur, Some(Related::Start)))
    );
}

#[test]
fn durations_parse() {
    assert_eq!(parse_duration("-PT15M"), Some(Duration::minutes(-15)));
    assert_eq!(parse_duration("P1DT2H3M4S"), Some(Duration::seconds(86400 + 7200 + 180 + 4)));
    assert_eq!(parse_duration("P2W"), Some(Duration::weeks(2)));
    assert_eq!(parse_duration("P0D"), Some(Duration::seconds(0)));
    assert_eq!(parse_duration("PT"), None);
    assert_eq!(parse_duration("P1H"), None);
    assert_eq!(parse_duration("PT1M1H"), None);
    assert_eq!(parse_duration("15M"), None);
    assert_eq!(parse_duration("PT99999999999999999999S"), None);
}

#[test]
fn trigger_rejects_other_properties() {
    assert_eq!(Trigger::try_from(&Property::new("SUMMARY", "PT1S")), Err(()));
    let p = Property::new("TRIGGER", "PT1S").add_parameter("VALUE", "TEXT").done();
    assert_eq!(Trigger::try_from(&p), Err(()));
}
