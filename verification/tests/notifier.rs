//! The outbox, delivery, and the Bot API.

use std::cmp::Ordering;

use critical_section as _;
use m5nanoc6::bot::{encode, seed, Bot, Reply, SendError};
use m5nanoc6::config::{Config, Environment};
use m5nanoc6::env_pro::Reading;
use m5nanoc6::led::{LedCmd, Rgb};
use m5nanoc6::telegram::{
    backoff, configured, disable_notification, notify, retries, Flight, Leg, LegEvent, LinkStep,
    Notification, Outbox, SendStep, Urgency, WaitStep,
};
use m5nanoc6::time::Duration;

fn config(token: &'static str, chat_id: &'static str) -> Config {
    let zero = || Reading { bits: 0, shown: String::from("0.0") };
    Config::from_env(Environment {
        wifi_creds: None,
        telegram_token: Some(token),
        telegram_chat_id: Some(chat_id),
        tg_min_c: zero(),
        tg_clear_c: zero(),
        tg_dwell_min: None,
        tg_repeat_min: None,
        tg_heartbeat_min: None,
    })
}

fn alarm(text: &str) -> Notification {
    Notification::alarm(String::from(text))
}

fn info(text: &str) -> Notification {
    Notification::info(String::from(text))
}

fn perishable(text: &str) -> Notification {
    Notification::perishable(String::from(text))
}

fn drain(outbox: &mut Outbox) -> Vec<String> {
    let mut texts = vec![];
    while let Some(message) = outbox.try_receive() {
        texts.push(message.text);
    }
    texts
}

#[test]
fn loudest_first_then_earliest() {
    let config = config("t", "c");
    let mut outbox = Outbox::new();
    assert!(outbox.try_receive().is_none());
    for message in [info("i1"), perishable("p"), alarm("a1"), info("i2")] {
        assert!(notify(&mut outbox, &config, message).is_none());
    }
    assert_eq!(drain(&mut outbox), ["a1", "i1", "i2", "p"]);
}

#[test]
fn equally_urgent_messages_keep_their_order() {
    let config = config("t", "c");
    let mut outbox = Outbox::new();
    for text in ["a", "b", "c", "d"] {
        notify(&mut outbox, &config, alarm(text));
    }
    assert_eq!(drain(&mut outbox), ["a", "b", "c", "d"]);
}

#[test]
fn a_full_outbox_loses_the_quietest_and_oldest() {
    let config = config("t", "c");
    let mut outbox = Outbox::new();
    for message in [info("old info"), alarm("a1"), info("new info"), alarm("a2")] {
        notify(&mut outbox, &config, message);
    }
    let dropped = notify(&mut outbox, &config, alarm("a3"));
    assert_eq!(dropped.unwrap().text, "old info");
    let dropped = notify(&mut outbox, &config, perishable("beat"));
    assert_eq!(dropped.unwrap().text, "beat");
    let dropped = notify(&mut outbox, &config, alarm("a4"));
    assert_eq!(dropped.unwrap().text, "new info");
    let dropped = notify(&mut outbox, &config, alarm("a5"));
    assert_eq!(dropped.unwrap().text, "a1");
    assert_eq!(drain(&mut outbox), ["a2", "a3", "a4", "a5"]);
}

#[test]
fn with_the_notifier_off_nothing_is_queued() {
    for config in [config("", "c"), config("t", " ")] {
        assert!(!configured(&config));
        let mut outbox = Outbox::new();
        let ignored = notify(&mut outbox, &config, alarm("a"));
        assert_eq!(ignored.unwrap().text, "a");
        assert!(outbox.try_receive().is_none());
    }
    assert!(configured(&config("t", "c")));
}

#[test]
fn messages_are_stamped_in_order() {
    let config = config("t", "c");
    let mut outbox = Outbox::new();
    notify(&mut outbox, &config, info("first"));
    notify(&mut outbox, &config, alarm("second"));
    assert_eq!(outbox.try_receive().unwrap().seq, 1);
    assert_eq!(outbox.try_receive().unwrap().seq, 0);
}

#[test]
fn louder_messages_are_noticed() {
    let config = config("t", "c");
    let mut outbox = Outbox::new();
    assert!(!outbox.louder_than(Urgency::Perishable));
    notify(&mut outbox, &config, info("i"));
    assert!(outbox.louder_than(Urgency::Perishable));
    assert!(!outbox.louder_than(Urgency::Info));
    notify(&mut outbox, &config, alarm("a"));
    assert!(outbox.louder_than(Urgency::Info));
    assert!(!outbox.louder_than(Urgency::Alarm));
}

#[test]
fn messages_compare_by_urgency_and_stamp() {
    let early = Notification { text: String::from("x"), urgency: Urgency::Info, seq: 1 };
    let late = Notification { text: String::from("y"), urgency: Urgency::Info, seq: 2 };
    let same = Notification { text: String::from("z"), urgency: Urgency::Info, seq: 1 };
    assert!(early > late);
    assert!(early == same);
    assert!(alarm("a") > early);
    assert_eq!(late.partial_cmp(&early), Some(Ordering::Less));
    assert_eq!(early.partial_cmp(&same), Some(Ordering::Equal));
}

#[test]
fn retry_budget_and_waits() {
    assert_eq!(retries(Urgency::Alarm), 20);
    assert_eq!(retries(Urgency::Info), 3);
    assert_eq!(retries(Urgency::Perishable), 0);
    for (urgency, total) in [(Urgency::Alarm, 830), (Urgency::Info, 65), (Urgency::Perishable, 0)] {
        let mut attempts = 0;
        let mut waited = 0;
        while let Some(delay) = backoff(&mut attempts, urgency) {
            waited += delay.as_secs();
        }
        assert_eq!(attempts, retries(urgency));
        assert_eq!(waited, total);
    }
}

#[test]
fn only_alarms_ring() {
    assert!(!disable_notification(Urgency::Alarm));
    assert!(disable_notification(Urgency::Info));
    assert!(disable_notification(Urgency::Perishable));
}

#[test]
fn a_message_waits_for_the_link_or_is_dropped() {
    assert!(matches!(Flight::new(alarm("a")).on_link(true), LinkStep::Send(_)));
    assert!(matches!(Flight::new(alarm("a")).on_link(false), LinkStep::Await(_)));
    assert!(matches!(Flight::new(info("i")).on_link(false), LinkStep::Await(_)));
    assert!(matches!(Flight::new(perishable("p")).on_link(false), LinkStep::Drop(_)));
    assert!(matches!(Flight::new(perishable("p")).on_link(true), LinkStep::Send(_)));
}

#[test]
fn sending_shows_on_the_led() {
    let (step, led) = Flight::new(perishable("p")).on_sent(true);
    assert!(matches!(step, SendStep::Done(_)));
    assert_eq!(led, LedCmd::blink(Rgb::blue(), 1));
    let (step, led) = Flight::new(perishable("p")).on_sent(false);
    assert!(matches!(step, SendStep::GiveUp(_)));
    assert_eq!(led, LedCmd::blink(Rgb::yellow(), 2));
}

#[test]
fn an_info_is_given_up_after_its_last_retry() {
    let mut flight = Flight::new(info("i"));
    for seconds in [5, 15, 45] {
        match flight.on_sent(false).0 {
            SendStep::Retry(next, delay) => {
                assert_eq!(delay, Duration::from_secs(seconds));
                flight = next;
            }
            other => panic!("{other:?}"),
        }
    }
    assert!(matches!(flight.on_sent(false).0, SendStep::GiveUp(m) if m.text == "i"));
}

#[test]
fn an_outage_delays_an_alarm_without_losing_it() {
    let mut outbox = Outbox::new();
    let mut flight = Flight::new(alarm("a"));
    for failed in 0..20 {
        for _ in 0..100 {
            flight = match flight.on_link(false) {
                LinkStep::Await(flight) => flight,
                other => panic!("{other:?}"),
            };
            flight = match flight.on_waited(false, &mut outbox) {
                WaitStep::Resume(flight) => flight,
                other => panic!("{other:?}"),
            };
        }
        assert_eq!(flight.attempts, failed);
        flight = match flight.on_sent(false).0 {
            SendStep::Retry(flight, _) => flight,
            other => panic!("{other:?}"),
        };
    }
    let again = Flight { message: flight.message.clone(), attempts: flight.attempts };
    assert!(matches!(again.on_sent(false).0, SendStep::GiveUp(_)));
    assert!(matches!(flight.on_sent(true).0, SendStep::Done(m) if m.text == "a"));
}

#[test]
fn a_preempted_message_keeps_its_place() {
    let config = config("t", "c");
    let mut outbox = Outbox::new();
    notify(&mut outbox, &config, info("first"));
    notify(&mut outbox, &config, info("second"));
    let flight = Flight::new(outbox.try_receive().unwrap());
    notify(&mut outbox, &config, alarm("loud"));
    assert!(outbox.louder_than(Urgency::Info));
    assert!(matches!(flight.on_waited(true, &mut outbox), WaitStep::Yield(None)));
    assert_eq!(drain(&mut outbox), ["loud", "first", "second"]);
    let flight = Flight::new(info("kept"));
    match flight.on_waited(false, &mut outbox) {
        WaitStep::Resume(flight) => assert_eq!(flight.message.text, "kept"),
        other => panic!("{other:?}"),
    }
}

#[test]
fn percent_encoding_is_byte_wise() {
    let mut out = String::from("q=");
    encode(&mut out, "AZaz09-._~ /%&=\u{e9}\n");
    assert_eq!(out, "q=AZaz09-._~%20%2F%25%26%3D%C3%A9%0A");
}

#[test]
fn every_byte_is_encoded_as_it_should_be() {
    for code in 0..128u8 {
        let c = code as char;
        let mut out = String::new();
        encode(&mut out, &c.to_string());
        if c.is_ascii_alphanumeric() || "-._~".contains(c) {
            assert_eq!(out, c.to_string());
        } else {
            assert_eq!(out, format!("%{code:02X}"));
        }
    }
}

#[test]
fn requests_by_loudness() {
    let bot = Bot::new("12:ab", "-100");
    assert_eq!(
        bot.url(&alarm("too cold")),
        "https://api.telegram.org/bot12:ab/sendMessage?chat_id=-100&text=too%20cold"
    );
    assert_eq!(
        bot.url(&info("hi")),
        "https://api.telegram.org/bot12:ab/sendMessage?chat_id=-100&disable_notification=true&text=hi"
    );
}

#[test]
fn replies_and_their_errors() {
    assert!(Bot::outcome(Reply::Status(200)).is_ok());
    assert!(Bot::outcome(Reply::Status(299)).is_ok());
    for status in [0, 199, 300, 429] {
        match Bot::outcome(Reply::Status(status)) {
            Err(SendError::Status(n)) => assert_eq!(n, status),
            other => panic!("{other:?}"),
        }
    }
    let told = |reply| Bot::outcome(reply).unwrap_err().to_text();
    assert_eq!(told(Reply::Silence), "no answer within 30s");
    assert_eq!(told(Reply::Broken(String::from("dns"))), "dns");
    assert_eq!(told(Reply::Status(429)), "HTTP 429");
}

#[test]
fn two_words_make_a_seed() {
    assert_eq!(seed(0x1234_5678, 0x9abc_def0), 0x1234_5678_9abc_def0);
}

#[test]
fn delivery_runs_from_message_to_message() {
    let config = config("t", "c");
    let mut outbox = Outbox::new();
    let blue = Some(LedCmd::blink(Rgb::blue(), 1));
    let yellow = Some(LedCmd::blink(Rgb::yellow(), 2));

    let progress = Leg::Idle.advance(LegEvent::Received(info("first")), &mut outbox);
    let progress = progress.leg.advance(LegEvent::Link(false), &mut outbox);
    assert!(matches!(progress.leg, Leg::AwaitingLink(_)));
    // Nothing else is taken up meanwhile.
    let progress = progress.leg.advance(LegEvent::Received(alarm("other")), &mut outbox);
    assert!(matches!(&progress.leg, Leg::AwaitingLink(f) if f.message.text == "first"));
    let progress = progress.leg.advance(LegEvent::Waited(false), &mut outbox);
    assert!(matches!(progress.leg, Leg::Checking(_)));
    let progress = progress.leg.advance(LegEvent::Link(true), &mut outbox);
    assert!(matches!(progress.leg, Leg::Sending(_)));
    assert_eq!(progress.led, None);
    let progress = progress.leg.advance(LegEvent::Sent(false), &mut outbox);
    assert_eq!(progress.led, yellow);
    assert!(matches!(&progress.leg, Leg::Resting(_, delay) if *delay == Duration::from_secs(5)));

    notify(&mut outbox, &config, alarm("loud"));
    let progress = progress.leg.advance(LegEvent::Waited(true), &mut outbox);
    assert!(matches!(progress.leg, Leg::Requeued));
    assert!(progress.dropped.is_none());

    let next = outbox.try_receive().unwrap();
    assert_eq!(next.text, "loud");
    let progress = progress.leg.advance(LegEvent::Received(next), &mut outbox);
    let progress = progress.leg.advance(LegEvent::Link(true), &mut outbox);
    let progress = progress.leg.advance(LegEvent::Sent(true), &mut outbox);
    assert_eq!(progress.led, blue);
    assert!(matches!(&progress.leg, Leg::Delivered(m) if m.text == "loud"));

    let next = outbox.try_receive().unwrap();
    assert_eq!(next.text, "first");
    let leg = progress.leg.on_event(LegEvent::Received(next));
    assert!(matches!(leg, Leg::Checking(f) if f.attempts == 0));
}

#[test]
fn a_perishable_message_ends_with_the_link() {
    let leg = Leg::Idle.on_event(LegEvent::Received(perishable("p")));
    let leg = leg.on_event(LegEvent::Link(false));
    assert!(matches!(&leg, Leg::Dropped(m) if m.text == "p"));
    let leg = leg.on_event(LegEvent::Received(perishable("q")));
    let leg = leg.on_event(LegEvent::Link(true)).on_event(LegEvent::Sent(false));
    assert!(matches!(&leg, Leg::GivenUp(m) if m.text == "q"));
}

#[test]
fn yielding_to_a_full_outbox_loses_the_least_worthwhile() {
    let config = config("t", "c");
    let mut outbox = Outbox::new();
    notify(&mut outbox, &config, info("waiting"));
    let leg = Leg::Idle.on_event(LegEvent::Received(outbox.try_receive().unwrap()));
    let leg = leg.on_event(LegEvent::Link(false));
    for text in ["a", "b", "c", "d"] {
        notify(&mut outbox, &config, alarm(text));
    }
    let progress = leg.advance(LegEvent::Waited(true), &mut outbox);
    assert_eq!(progress.dropped.unwrap().text, "waiting");
    assert_eq!(drain(&mut outbox), ["a", "b", "c", "d"]);
}
