use pomodoro::config::Config;
use pomodoro::event::{Event, EventStream};

#[test]
fn default_config() {
    let mut es = EventStream::new(Default::default());

    assert_eq!(es.next(), Some(Event::Pomodoro(25)));
    assert_eq!(es.next(), Some(Event::ShortBreak(5)));
    assert_eq!(es.next(), Some(Event::Pomodoro(25)));
    assert_eq!(es.next(), Some(Event::ShortBreak(5)));
    assert_eq!(es.next(), Some(Event::Pomodoro(25)));
    assert_eq!(es.next(), Some(Event::ShortBreak(5)));
    assert_eq!(es.next(), Some(Event::Pomodoro(25)));
    assert_eq!(es.next(), Some(Event::LongBreak(30)));
}

#[test]
fn no_short_break_config() {
    let mut es = EventStream::new(Config {
        repetition: Some(1),
        ..Default::default()
    });

    assert_eq!(es.next(), Some(Event::Pomodoro(25)));
    assert_eq!(es.next(), Some(Event::LongBreak(30)));
    assert_eq!(es.next(), Some(Event::Pomodoro(25)));
    assert_eq!(es.next(), Some(Event::LongBreak(30)));
    assert_eq!(es.next(), Some(Event::Pomodoro(25)));
    assert_eq!(es.next(), Some(Event::LongBreak(30)));
}

#[test]
fn alternating_config() {
    let mut es = EventStream::new(Config {
        duration_long_break: Some(15),
        repetition: Some(2),
        ..Default::default()
    });

    assert_eq!(es.next(), Some(Event::Pomodoro(25)));
    assert_eq!(es.next(), Some(Event::ShortBreak(5)));
    assert_eq!(es.next(), Some(Event::Pomodoro(25)));
    assert_eq!(es.next(), Some(Event::LongBreak(15)));
    assert_eq!(es.next(), Some(Event::Pomodoro(25)));
    assert_eq!(es.next(), Some(Event::ShortBreak(5)));
    assert_eq!(es.next(), Some(Event::Pomodoro(25)));
    assert_eq!(es.next(), Some(Event::LongBreak(15)));
}

#[test]
fn default_cadence_repeats_each_cycle() {
    let mut es = EventStream::new(Config::default());
    let events = es.take_events(24);
    assert_eq!(events.len(), 24);
    assert_eq!(events[..8], events[8..16]);
    assert_eq!(events[..8], events[16..24]);
    assert_eq!(events[7], Event::LongBreak(30));
    assert_eq!(events[6], Event::Pomodoro(25));
}

#[test]
fn single_repetition_has_no_short_break() {
    let mut es = EventStream::new(Config {
        repetition: Some(1),
        ..Config::default()
    });
    let events = es.take_events(100);
    assert!(events.iter().all(|e| !matches!(e, Event::ShortBreak(_))));
}

#[test]
fn equal_configs_give_equal_streams() {
    let config = Config {
        duration_pomodoro: Some(50),
        duration_short_break: Some(10),
        duration_long_break: Some(20),
        repetition: Some(3),
    };
    let mut a = EventStream::new(config);
    let mut b = EventStream::new(config);
    assert_eq!(a.take_events(37), b.take_events(37));
    assert_eq!(a.next(), b.next());
}

#[test]
fn take_events_continues_after_next() {
    let mut es = EventStream::new(Config::default());
    assert_eq!(es.next(), Some(Event::Pomodoro(25)));
    assert_eq!(
        es.take_events(3),
        vec![Event::ShortBreak(5), Event::Pomodoro(25), Event::ShortBreak(5)]
    );
    assert_eq!(es.take_events(0), vec![]);
    assert_eq!(es.next(), Some(Event::Pomodoro(25)));
    assert_eq!(es.next(), Some(Event::ShortBreak(5)));
    assert_eq!(es.next(), Some(Event::Pomodoro(25)));
    assert_eq!(es.next(), Some(Event::LongBreak(30)));
}

#[test]
fn large_repetition_stays_on_pomodoros_and_short_breaks() {
    let mut es = EventStream::new(Config {
        repetition: Some(2147483647),
        ..Config::default()
    });
    let events = es.take_events(10);
    for (i, e) in events.iter().enumerate() {
        if i % 2 == 0 {
            assert_eq!(*e, Event::Pomodoro(25));
        } else {
            assert_eq!(*e, Event::ShortBreak(5));
        }
    }
}

#[test]
fn message_count_pomodoro_values() {
    assert_eq!(EventStream::message_count_pomodoro(0), "nothing");
    assert_eq!(EventStream::message_count_pomodoro(1), "1 pomodoro");
    assert_eq!(EventStream::message_count_pomodoro(2), "1 pomodoro");
    assert_eq!(EventStream::message_count_pomodoro(3), "2 pomodoros");
    assert_eq!(EventStream::message_count_pomodoro(7), "4 pomodoros");
    assert_eq!(EventStream::message_count_pomodoro(20), "10 pomodoros");
    assert_eq!(EventStream::message_count_pomodoro(199), "100 pomodoros");
    assert_eq!(
        EventStream::message_count_pomodoro(usize::MAX),
        format!("{} pomodoros", usize::MAX / 2 + 1)
    );
}

#[test]
fn event_durations_in_seconds() {
    assert_eq!(Event::Pomodoro(25).duration(), 1500);
    assert_eq!(Event::ShortBreak(5).duration(), 300);
    assert_eq!(Event::LongBreak(30).duration(), 1800);
    assert_eq!(Event::LongBreak(30).minutes(), 30);
}

#[test]
fn event_is_over_after_its_duration() {
    let e = Event::ShortBreak(5);
    assert!(!e.is_over(0));
    assert!(!e.is_over(299));
    assert!(e.is_over(300));
    assert!(e.is_over(301));
}

#[test]
fn event_messages() {
    assert_eq!(Event::Pomodoro(25).message_name(), "Pomodoro");
    assert_eq!(Event::ShortBreak(5).message_name(), "Short break");
    assert_eq!(Event::LongBreak(30).message_name(), "Long break");
    assert_eq!(
        Event::Pomodoro(25).message_start_confirmation(),
        "Ready to start a pomodoro?"
    );
    assert_eq!(
        Event::ShortBreak(5).message_start_confirmation(),
        "Start a short break?"
    );
    assert_eq!(
        Event::LongBreak(30).message_start_confirmation(),
        "Start a long break?"
    );
    assert_eq!(Event::Pomodoro(25).message_finished(), "Pomodoro finished");
    assert_eq!(Event::LongBreak(30).message_finished(), "Long break finished");
    assert_eq!(Event::Pomodoro(25).message_notification_body(), "Take a break");
    assert_eq!(
        Event::ShortBreak(5).message_notification_body(),
        "Ready for another pomodoro?"
    );
    assert_eq!(
        Event::LongBreak(30).message_notification_body(),
        "Ready for another pomodoro?"
    );
}
