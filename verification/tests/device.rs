//! The sensor, the button, the station, the event bus and the device as a whole.

use critical_section as _;
use m5nanoc6::app::{handle, hhmm, App, AppEvent};
use m5nanoc6::button::{Button, ButtonEvent, Level};
use m5nanoc6::config::{Config, Environment};
use m5nanoc6::env_pro::{EnvData, Reading, Schedule, SensorEvent, SensorTask};
use m5nanoc6::events;
use m5nanoc6::led::{LedCmd, Rgb};
use m5nanoc6::telegram::{Outbox, Urgency};
use m5nanoc6::time::{Duration, Instant};
use m5nanoc6::wifi::{
    configured_as, stored_name, Auth, Effect, Next, Station, StationEvent, Sweep, SweepAction, SweepEvent,
    WifiState,
};

fn reading(value: f32, shown: String) -> Reading {
    Reading { bits: value.to_bits(), shown }
}

fn env(temperature: f32) -> EnvData {
    EnvData {
        temperature: reading(temperature, format!("{temperature:.1}")),
        humidity: reading(55.4, format!("{:.0}", 55.4)),
        pressure: reading(1013.2, format!("{:.0}", 1013.2)),
        gas_resistance: None,
    }
}

fn config(dwell: &'static str, repeat: &'static str, heartbeat: &'static str) -> Config {
    Config::from_env(Environment {
        wifi_creds: None,
        telegram_token: Some("t"),
        telegram_chat_id: Some("c"),
        tg_min_c: reading(10.0, String::from("10.0")),
        tg_clear_c: reading(11.0, String::from("11.0")),
        tg_dwell_min: Some(dwell),
        tg_repeat_min: Some(repeat),
        tg_heartbeat_min: Some(heartbeat),
    })
}

fn at(seconds: u64) -> Instant {
    Instant { ticks: seconds * 1_000_000 }
}

fn connected(ssid: &'static str) -> WifiState {
    WifiState::Connected { ssid, ip: [192, 168, 1, 7] }
}

#[test]
fn sensor_failures_lead_back_to_initialization() {
    let schedule = Schedule {
        env_retry: Duration::from_secs(10),
        env_sample: Duration::from_secs(5),
    };
    let step = schedule.on_event(SensorEvent::Initialized);
    assert_eq!((step.next, step.pause, step.led), (SensorTask::Measure, None, None));
    let step = schedule.on_event(SensorEvent::Measured(env(20.0)));
    assert_eq!(step.reading.unwrap().temperature.shown, "20.0");
    assert_eq!(step.pause, Some(Duration::from_secs(5)));
    assert_eq!(step.led, Some(LedCmd::blink(Rgb::green(), 1)));
    assert_eq!(step.next, SensorTask::Measure);
    for event in [SensorEvent::InitFailed, SensorEvent::MeasureFailed] {
        let step = schedule.on_event(event);
        assert!(step.reading.is_none());
        assert_eq!(step.pause, Some(Duration::from_secs(10)));
        assert_eq!(step.led, Some(LedCmd::blink(Rgb::red(), 3)));
        assert_eq!(step.next, SensorTask::Initialize);
    }
}

#[test]
fn button_edges_alternate() {
    let mut button = Button::new();
    for _ in 0..3 {
        assert_eq!(button.awaited(), Level::Low);
        assert_eq!(button.on_level(), (ButtonEvent::Down, Duration { ticks: 50_000 }));
        assert_eq!(button.awaited(), Level::High);
        assert_eq!(button.on_level(), (ButtonEvent::Up, Duration { ticks: 50_000 }));
    }
}

#[test]
fn the_slot_keeps_the_latest_of_the_loudest() {
    let mut slot = events::Slot::new();
    assert!(slot.take().is_none());
    let text = |s: &str| String::from(s);
    assert!(events::notify(&mut slot, events::Notification::info(text("i1"))).is_none());
    let dropped = events::notify(&mut slot, events::Notification::perishable(text("p")));
    assert_eq!(dropped.unwrap().text, "p");
    let dropped = events::notify(&mut slot, events::Notification::info(text("i2")));
    assert_eq!(dropped.unwrap().text, "i1");
    assert_eq!(slot.take().unwrap().text, "i2");
    assert!(slot.take().is_none());
    events::notify(&mut slot, events::Notification::alarm(text("a1")));
    events::notify(&mut slot, events::Notification::alarm(text("a2")));
    events::notify(&mut slot, events::Notification::info(text("i3")));
    assert_eq!(slot.take().unwrap().text, "a2");
}

#[test]
fn superseding_is_by_priority() {
    let alarm = events::Notification::alarm(String::from("a"));
    let info = events::Notification::info(String::from("i"));
    assert!(alarm.supersedes(&info));
    assert!(alarm.supersedes(&alarm));
    assert!(!info.supersedes(&alarm));
    assert_eq!(events::Urgency::Alarm.priority(), 2);
    assert_eq!(events::Urgency::Info.priority(), 1);
    assert_eq!(events::Urgency::Perishable.priority(), 0);
}

#[test]
fn station_state_becomes_an_event() {
    let event = events::Event::from(WifiState::Failed);
    assert!(matches!(event.clone(), events::Event::Wifi(WifiState::Failed)));
}

#[test]
fn names_match_the_way_the_radio_stores_them() {
    let long = "0123456789012345678901234567890123456789";
    let networks = vec![("home", "x"), (long, ""), ("home", "y")];
    assert_eq!(configured_as(&networks, &b"home".to_vec()), Some("home"));
    assert_eq!(configured_as(&networks, &long.as_bytes()[..32].to_vec()), Some(long));
    assert_eq!(configured_as(&networks, &long.as_bytes().to_vec()), None);
    assert_eq!(configured_as(&networks, &b"hom".to_vec()), None);
    assert_eq!(configured_as(&networks, &vec![]), None);
}

#[test]
fn names_are_cut_inside_a_character_too() {
    let long = "0123456789012345678901234567890\u{e9}x";
    assert_eq!(stored_name("home"), b"home");
    assert_eq!(stored_name(long), long.as_bytes()[..32]);
    let networks = vec![("home", ""), (long, "")];
    assert_eq!(configured_as(&networks, &stored_name(long)), Some(long));
}

#[test]
fn only_the_first_connection_is_told() {
    let config = config("5", "60", "0");
    let mut app = App::new(&config, at(0));
    let states = [
        WifiState::Connecting,
        WifiState::Failed,
        connected("a"),
        WifiState::Disconnected,
        connected("a"),
        connected("b"),
    ];
    let told: Vec<bool> = (1..).zip(states).map(|(t, s)| app.on_wifi(s, at(t)).is_some()).collect();
    assert_eq!(told, [false, false, true, false, false, false]);
}

#[test]
fn a_sweep_stops_at_the_first_lease() {
    let networks = vec![("a", "pw"), ("b", ""), ("c", "pw")];
    let (mut sweep, action) = Sweep::start(networks);
    assert!(matches!(
        action,
        SweepAction::Configure { ssid: "a", auth: Auth::Password("pw") }
    ));
    let action = sweep.on_event(SweepEvent::Configured(false));
    assert!(matches!(action, SweepAction::Configure { ssid: "b", auth: Auth::Open }));
    assert!(matches!(sweep.on_event(SweepEvent::Configured(true)), SweepAction::Connect));
    assert!(matches!(sweep.on_event(SweepEvent::Associated(None)), SweepAction::Disconnect));
    let action = sweep.on_event(SweepEvent::Disconnected);
    assert!(matches!(action, SweepAction::Configure { ssid: "c", .. }));
    assert!(matches!(sweep.on_event(SweepEvent::Configured(true)), SweepAction::Connect));
    // The attempt at another network that timed out came about after all.
    let action = sweep.on_event(SweepEvent::Associated(Some(b"b".to_vec())));
    assert!(matches!(action, SweepAction::AwaitLease));
    let action = sweep.on_event(SweepEvent::Leased(Some([10, 0, 0, 2])));
    assert!(matches!(action, SweepAction::Done(Some(("b", [10, 0, 0, 2])))));
}

#[test]
fn a_sweep_can_come_back_with_nothing() {
    let (mut sweep, _) = Sweep::start(vec![("a", "pw")]);
    sweep.on_event(SweepEvent::Configured(true));
    let action = sweep.on_event(SweepEvent::Associated(Some(b"other".to_vec())));
    assert!(matches!(action, SweepAction::Disconnect));
    assert!(matches!(sweep.on_event(SweepEvent::Disconnected), SweepAction::Done(None)));
    let (mut sweep, _) = Sweep::start(vec![("a", "pw")]);
    sweep.on_event(SweepEvent::Configured(true));
    sweep.on_event(SweepEvent::Associated(Some(b"a".to_vec())));
    assert!(matches!(sweep.on_event(SweepEvent::Leased(None)), SweepAction::Disconnect));
    assert!(matches!(sweep.on_event(SweepEvent::Disconnected), SweepAction::Done(None)));
    assert!(matches!(Sweep::start(vec![]).1, SweepAction::Done(None)));
}

#[test]
fn the_station_backs_off_and_starts_over() {
    let mut station = Station::new();
    for seconds in [30, 60, 120, 240, 300, 300] {
        let (effects, next) = station.on_event(StationEvent::Swept(None));
        assert!(matches!(next, Next::Sleep(wait) if wait == Duration::from_secs(seconds)));
        assert!(matches!(effects[0], Effect::Publish(WifiState::Failed)));
        assert!(matches!(effects[1], Effect::Led(led) if led == LedCmd::status(false)));
        assert!(matches!(effects[2], Effect::Led(led) if led == LedCmd::rgb(Rgb::red())));
        assert_eq!(effects.len(), 3);
    }
    let (effects, next) = station.on_event(StationEvent::Swept(Some(("a", [1, 2, 3, 4]))));
    assert!(matches!(next, Next::AwaitLoss));
    assert!(matches!(effects[0], Effect::Led(led) if led == LedCmd::rgb(Rgb::off())));
    assert!(matches!(effects[1], Effect::Led(led) if led == LedCmd::status(false)));
    assert!(matches!(
        effects[2],
        Effect::Publish(WifiState::Connected { ssid: "a", ip: [1, 2, 3, 4] })
    ));
    let (effects, next) = station.on_event(StationEvent::Lost);
    assert!(matches!(next, Next::Sleep(wait) if wait == Duration::from_secs(2)));
    assert!(matches!(effects[0], Effect::Publish(WifiState::Disconnected)));
    let (_, next) = station.on_event(StationEvent::Slept);
    assert!(matches!(next, Next::Sweep));
    let (_, next) = station.on_event(StationEvent::Swept(None));
    assert!(matches!(next, Next::Sleep(wait) if wait == Duration::from_secs(30)));
}

#[test]
fn without_networks_the_station_parks() {
    let (effects, next) = Station::new().on_event(StationEvent::Boot(false));
    assert!(matches!(next, Next::Park));
    assert!(matches!(effects[0], Effect::Publish(WifiState::Failed)));
    assert!(matches!(effects[1], Effect::Led(led) if led == LedCmd::rgb(Rgb::red())));
    let (effects, next) = Station::new().on_event(StationEvent::Boot(true));
    assert!(matches!(next, Next::Sweep));
    assert!(matches!(effects[0], Effect::Publish(WifiState::Connecting)));
    assert!(matches!(effects[1], Effect::Led(led) if led == LedCmd::status_blink_forever()));
}

#[test]
fn alarm_at_once_and_recovery_after_the_dwell() {
    let config = config("5", "0", "0");
    let mut app = App::new(&config, at(0));
    assert!(app.on_env(env(10.0), at(1)).is_none());
    let message = app.on_env(env(9.5), at(2)).unwrap();
    assert_eq!(message.urgency, Urgency::Alarm);
    assert_eq!(message.text, "ALARM: 9.5C is below the 10.0C threshold (55%RH, 1013hPa)");
    assert!(app.on_env(env(9.0), at(3)).is_none());
    assert!(app.on_env(env(12.0), at(301)).is_none());
    assert!(app.on_env(env(11.0), at(303)).is_none());
    let message = app.on_env(env(11.5), at(304)).unwrap();
    assert_eq!(message.urgency, Urgency::Alarm);
    assert_eq!(message.text, "Recovered: 11.5C, back above 11.0C");
    // The next alarm is not held back.
    assert!(app.on_env(env(9.0), at(305)).is_some());
}

#[test]
fn without_a_dwell_the_alarm_clears_at_once() {
    let config = config("0", "0", "0");
    let mut app = App::new(&config, at(0));
    assert!(app.on_env(env(9.5), at(2)).is_some());
    assert!(app.on_env(env(11.5), at(2)).is_some());
    assert_eq!(app.deadline(), None);
}

#[test]
fn a_swinging_temperature_alarms_once_per_dwell() {
    let config = config("5", "0", "0");
    let mut app = App::new(&config, at(0));
    let mut onsets = vec![];
    let mut recoveries = 0;
    for second in (0..3000).step_by(5) {
        let swing = if second % 10 == 0 { 5.0 } else { 20.0 };
        if let Some(message) = app.on_env(env(swing), at(second)) {
            if message.text.starts_with("ALARM") {
                assert_eq!(onsets.len(), recoveries);
                onsets.push(second);
            } else {
                recoveries += 1;
            }
        }
    }
    assert!(onsets.len() >= 2);
    for pair in onsets.windows(2) {
        assert!(pair[1] - pair[0] >= 300);
    }
}

#[test]
fn a_standing_alarm_repeats() {
    let config = config("5", "60", "0");
    let mut app = App::new(&config, at(0));
    app.on_env(env(9.5), at(10));
    assert_eq!(app.deadline(), Some(at(3610)));
    assert!(app.on_timeout(at(3609)).is_none());
    app.on_env(env(9.4), at(3500));
    let message = app.on_timeout(at(3610)).unwrap();
    assert_eq!(message.text, "ALARM: 9.4C is below the 10.0C threshold (55%RH, 1013hPa)");
    assert_eq!(app.deadline(), Some(at(7210)));
    let message = app.on_timeout(at(7210)).unwrap();
    assert_eq!(message.urgency, Urgency::Alarm);
    assert_eq!(
        message.text,
        "ALARM: still below the 10.0C threshold, and the sensor has gone quiet"
    );
}

#[test]
fn start_is_told_once() {
    let config = config("5", "60", "1");
    let mut app = App::new(&config, at(0));
    assert!(app.on_wifi(WifiState::Connecting, at(1)).is_none());
    let message = app.on_wifi(connected("home"), at(2)).unwrap();
    assert_eq!(message.urgency, Urgency::Info);
    assert_eq!(message.text, "m5nanoc6 started");
    assert_eq!(app.deadline(), Some(at(62)));
    assert!(app.on_wifi(WifiState::Disconnected, at(3)).is_none());
    assert_eq!(app.ssid, None);
    assert!(app.on_wifi(connected("other"), at(4)).is_none());
    assert_eq!(app.ssid, Some("other"));
}

#[test]
fn heartbeats_carry_the_reading() {
    let config = config("5", "60", "60");
    let mut app = App::new(&config, at(100));
    assert_eq!(app.deadline(), Some(at(3700)));
    app.on_wifi(connected("home"), at(200));
    app.on_env(env(20.0), at(3799));
    let message = app.on_timeout(at(3800)).unwrap();
    assert_eq!(message.urgency, Urgency::Perishable);
    assert_eq!(message.text, "alive - 20.0C, 55%RH, 1013hPa, up 1h01m, wifi home");
    assert_eq!(app.deadline(), Some(at(7400)));
}

#[test]
fn a_heartbeat_without_reading_is_loud() {
    let config = config("5", "60", "60");
    let mut app = App::new(&config, at(0));
    app.on_wifi(connected("home"), at(0));
    app.on_env(env(20.0), at(3300));
    let message = app.on_timeout(at(3600)).unwrap();
    assert_eq!(message.urgency, Urgency::Alarm);
    assert_eq!(message.text, "ALARM: no sensor reading for over 5 minutes");
}

#[test]
fn a_heartbeat_without_link_looks_again_in_a_minute() {
    let config = config("5", "60", "60");
    let mut app = App::new(&config, at(0));
    app.on_wifi(connected("home"), at(0));
    app.on_wifi(WifiState::Disconnected, at(1));
    app.on_env(env(20.0), at(3599));
    assert!(app.on_timeout(at(3600)).is_none());
    assert_eq!(app.deadline(), Some(at(3660)));
    app.on_wifi(connected("home"), at(3650));
    assert!(app.on_timeout(at(3660)).is_some());
}

#[test]
fn a_message_puts_the_heartbeat_off() {
    let config = config("5", "0", "60");
    let mut app = App::new(&config, at(0));
    app.on_env(env(5.0), at(1000));
    assert_eq!(app.deadline(), Some(at(4600)));
}

#[test]
fn spans_in_hours_and_minutes() {
    assert_eq!(hhmm(Duration::from_secs(0)), "0h00m");
    assert_eq!(hhmm(Duration::from_secs(3_599)), "0h59m");
    assert_eq!(hhmm(Duration::from_secs(36_000 + 540)), "10h09m");
}

#[test]
fn events_past_the_clock_are_noticed() {
    let end = Instant { ticks: u64::MAX };
    let beating = config("5", "60", "60");
    assert!(!App::allows_boot(&beating, end));
    let silent = config("5", "60", "0");
    assert!(App::allows_boot(&silent, end));
    let mut app = App::new(&silent, at(0));
    assert!(app.allows(&AppEvent::Env(env(5.0)), end));
    app.on_env(env(5.0), end);
    assert!(!app.allows_wait());
    assert!(!app.allows(&AppEvent::Timeout, end));
    assert!(!app.allows(&AppEvent::Env(env(20.0)), end));
    assert!(app.allows(&AppEvent::Wifi(connected("home")), end));
    let app = App::new(&beating, at(0));
    assert!(!app.allows(&AppEvent::Wifi(connected("home")), end));
    assert!(!app.allows(&AppEvent::Env(env(5.0)), end));
    assert!(app.allows(&AppEvent::Env(env(20.0)), end));
    assert!(!app.allows(&AppEvent::Timeout, end));
}

#[test]
fn what_is_said_ends_up_in_the_outbox() {
    let config = config("5", "60", "0");
    let mut app = App::new(&config, at(0));
    let mut outbox = Outbox::new();
    assert!(handle(&mut app, AppEvent::Wifi(connected("home")), at(1), &mut outbox).is_none());
    assert!(handle(&mut app, AppEvent::Env(env(5.0)), at(2), &mut outbox).is_none());
    assert!(handle(&mut app, AppEvent::Timeout, at(3), &mut outbox).is_none());
    assert_eq!(
        outbox.try_receive().unwrap().text,
        "ALARM: 5.0C is below the 10.0C threshold (55%RH, 1013hPa)"
    );
    assert_eq!(outbox.try_receive().unwrap().text, "m5nanoc6 started");
    assert!(outbox.try_receive().is_none());
}
