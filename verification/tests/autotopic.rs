use eris::autotopic::{
    inquire, now_live, short_display, short_display_at, topic, uptime_msg, Event, Inquiry,
    Instant, START_FORMAT,
};
use eris::rpc::{GameId, HeaderInfo, ShowId};

fn s(text: &str) -> String {
    text.to_string()
}

fn header(is_live: bool, game: Option<i32>, show: Option<i32>) -> HeaderInfo {
    HeaderInfo {
        is_live,
        channel: s("loadingreadyrun"),
        current_game: game.map(|id| GameId { id, is_override: false }),
        current_show: show.map(|id| ShowId { id, is_override: true }),
        advice: None,
    }
}

#[test]
fn live_stream_asks_for_what_the_header_names() {
    assert_eq!(
        inquire(&header(true, Some(3), Some(9))),
        Inquiry::Live { game: Some(3), show: Some(9), entry: Some((3, 9)), channel: s("loadingreadyrun") }
    );
    assert_eq!(
        inquire(&header(true, Some(3), None)),
        Inquiry::Live { game: Some(3), show: None, entry: None, channel: s("loadingreadyrun") }
    );
    assert_eq!(
        inquire(&header(true, None, Some(9))),
        Inquiry::Live { game: None, show: Some(9), entry: None, channel: s("loadingreadyrun") }
    );
    assert_eq!(
        inquire(&header(true, None, None)),
        Inquiry::Live { game: None, show: None, entry: None, channel: s("loadingreadyrun") }
    );
}

#[test]
fn stream_that_is_not_live_asks_for_the_schedule() {
    assert_eq!(inquire(&header(false, Some(3), Some(9))), Inquiry::Scheduled);
    assert_eq!(inquire(&header(false, None, None)), Inquiry::Scheduled);
}

#[test]
fn now_live_names_game_and_show() {
    let game = s("Prey");
    let show = s("Let's NOPE");
    let display = s("Prey (2017)");
    assert_eq!(now_live(Some(&game), Some(&show), None), "Now live: Prey on Let's NOPE.");
    assert_eq!(
        now_live(Some(&game), Some(&show), Some(&display)),
        "Now live: Prey (2017) on Let's NOPE."
    );
    assert_eq!(now_live(Some(&game), None, None), "Now live: Prey.");
    assert_eq!(now_live(Some(&game), None, Some(&display)), "Now live: Prey (2017).");
    assert_eq!(now_live(None, Some(&show), None), "Now live: Let's NOPE.");
    assert_eq!(now_live(None, Some(&show), Some(&display)), "Now live: Let's NOPE.");
    assert_eq!(now_live(None, None, None), "Now live: something?");
    assert_eq!(now_live(None, None, Some(&display)), "Now live: something?");
}

#[test]
fn uptime_says_for_how_long_or_that_the_stream_is_not_live() {
    assert_eq!(uptime_msg(Some(&s("2 hours"))), "The stream has been live for 2 hours");
    assert_eq!(uptime_msg(None), "The stream is not live.");
}

#[test]
fn instants_are_ordered_by_seconds_then_nanoseconds() {
    let early = Instant { seconds: 10, nanos: 999_999_999 };
    let late = Instant { seconds: 11, nanos: 0 };
    assert!(late.after(&early));
    assert!(!early.after(&late));
    assert!(!early.after(&early));
    assert!(Instant { seconds: 10, nanos: 5 }.after(&Instant { seconds: 10, nanos: 4 }));
    assert!(Instant { seconds: -1, nanos: 0 }.after(&Instant { seconds: -2, nanos: 7 }));
}

#[test]
fn start_is_laid_out_as_day_date_and_time_of_the_zone() {
    assert_eq!(START_FORMAT, "%a %e %b at %I:%M %p %Z");
}

#[test]
fn coming_stream_is_displayed_with_the_time_until_it() {
    let event = Event {
        start: Instant { seconds: 1546711200, nanos: 0 },
        summary: s("Crossing the Streams"),
        description: Some(s("raw description")),
    };
    let now = Instant { seconds: 1546711200 - 5400, nanos: 0 };
    let text = short_display(
        &event,
        &now,
        &s("America/Vancouver"),
        &s("1 hour, 30 minutes"),
        Some(&s("Paul and Beej")),
    );
    assert_eq!(
        text,
        Some(s(
            "In 1 hour, 30 minutes: Crossing the Streams (Paul and Beej) on Sat  5 Jan at 10:00 AM PST."
        ))
    );
}

#[test]
fn past_stream_is_displayed_with_the_time_since_it() {
    let event = Event {
        start: Instant { seconds: 1562432400, nanos: 0 },
        summary: s("Talking Sim"),
        description: None,
    };
    let now = Instant { seconds: 1562432400 + 600, nanos: 0 };
    let text = short_display(&event, &now, &s("America/Vancouver"), &s("10 minutes"), None);
    assert_eq!(text, Some(s("10 minutes ago: Talking Sim on Sat  6 Jul at 10:00 AM PDT.")));
    let utc = short_display(&event, &now, &s("UTC"), &s("10 minutes"), None);
    assert_eq!(utc, Some(s("10 minutes ago: Talking Sim on Sat  6 Jul at 05:00 PM UTC.")));
}

#[test]
fn stream_that_starts_now_is_displayed_as_past() {
    let event = Event {
        start: Instant { seconds: 1562432400, nanos: 1 },
        summary: s("X"),
        description: None,
    };
    let now = Instant { seconds: 1562432400, nanos: 1 };
    let text = short_display_at(&event, &now, &s("0 seconds"), None, &s("then"));
    assert_eq!(text, "0 seconds ago: X on then.");
    let earlier = Instant { seconds: 1562432400, nanos: 0 };
    let text = short_display_at(&event, &earlier, &s("0 seconds"), None, &s("then"));
    assert_eq!(text, "In 0 seconds: X on then.");
}

#[test]
fn nothing_is_displayed_for_an_unknown_zone_or_a_time_out_of_range() {
    let event = Event {
        start: Instant { seconds: 1562432400, nanos: 0 },
        summary: s("X"),
        description: None,
    };
    let now = Instant { seconds: 0, nanos: 0 };
    assert_eq!(short_display(&event, &now, &s("Moonbase/Alpha"), &s("long"), None), None);
    let never = Event { start: Instant { seconds: i64::MAX, nanos: 0 }, ..event };
    assert_eq!(short_display(&never, &now, &s("UTC"), &s("long"), None), None);
}

#[test]
fn topic_joins_its_parts_with_spaces() {
    let messages = vec![s("Now live: Prey."), s("The stream has been live for 2 hours")];
    assert_eq!(
        topic(&messages, Some(&s("Be excellent."))),
        "Now live: Prey. The stream has been live for 2 hours Be excellent."
    );
    assert_eq!(topic(&messages, None), "Now live: Prey. The stream has been live for 2 hours");
    assert_eq!(topic(&vec![s("one")], None), "one");
    assert_eq!(topic(&Vec::new(), Some(&s("Be excellent."))), "Be excellent.");
    assert_eq!(topic(&Vec::new(), None), "");
    assert_eq!(topic(&vec![s(""), s("")], Some(&s(""))), "  ");
}
