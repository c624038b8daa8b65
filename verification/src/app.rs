//! What the device does with what it hears: the alarm thresholds, the heartbeat schedule, the
//! wording of every message.
//!
//! [`App`] is the device's state. Delivery is none of its business: it only says what there is to
//! say, and [`handle`] drops that in the outbox.

use vstd::prelude::*;
use crate::config::Config;
use crate::env_pro::EnvData;
use crate::telegram::{self, notify, Notification, Outbox, Urgency};
use crate::text;
use crate::time::{self, sooner, Duration, Instant};
use crate::wifi::WifiState;

verus! {

/// What the device calls itself.
pub const NAME: &'static str = "m5nanoc6";

/// Seconds past which there is no reading: the ENV-Pro samples every few seconds.
pub const SENSOR_TIMEOUT: u64 = 300;

/// How often, in seconds, a heartbeat due with no link looks for one, instead of spending its
/// interval.
pub const LINK_RETRY: u64 = 60;

/// Hours and minutes of a span, the minutes in two digits.
pub open spec fn clocked(span: Duration) -> Seq<char> {
    let secs = span.ticks / time::TICKS_PER_SEC;
    let minutes = (secs % 3600) / 60;
    text::decimal((secs / 3600) as nat) + "h"@ + (if minutes < 10 {
        "0"@
    } else {
        Seq::empty()
    }) + text::decimal(minutes as nat) + "m"@
}

pub fn hhmm(span: Duration) -> (shown: String)
    ensures
        shown@ == clocked(span),
{
    let secs: u64 = span.as_secs();
    let minutes: u64 = (secs % 3600) / 60;
    let mut out = String::new();
    text::push_decimal(&mut out, secs / 3600);
    out.append("h");
    if minutes < 10 {
        out.append("0");
    }
    text::push_decimal(&mut out, minutes);
    out.append("m");
    assert(out@ == clocked(span));
    out
}

/// Something the device hears.
#[derive(Debug)]
pub enum AppEvent {
    Env(EnvData),
    Wifi(WifiState),
    /// [`App::deadline`] has come.
    Timeout,
}

/// Whether `message` is what is to be said: how urgently, and in which words.
pub open spec fn says(
    message: Option<Notification>,
    meant: Option<(Urgency, Seq<char>)>,
) -> bool {
    match (message, meant) {
        (Some(message), Some((urgency, text))) => {
            &&& message.urgency == urgency
            &&& message.text@ == text
            &&& message.seq == 0
        },
        (None, None) => true,
        _ => false,
    }
}

/// The device's state.
#[derive(Debug)]
pub struct App<'a> {
    pub config: &'a Config,
    pub boot: Instant,
    /// The last reading, and when it came.
    pub latest: Option<(EnvData, Instant)>,
    /// The network the device is on.
    pub ssid: Option<&'static str>,
    /// Whether the first connection after boot has been told.
    pub announced: bool,
    /// Whether an alarm stands.
    pub cold: bool,
    /// When the alarm last came up or cleared.
    pub last_flip: Option<Instant>,
    /// When the alarm was last told.
    pub last_alarm: Instant,
    pub next_heartbeat: Option<Instant>,
}

impl<'a> App<'a> {
    /// Whether a reading calls for the alarm to come up or to clear.
    pub open spec fn crosses(self, env: EnvData) -> bool {
        if self.cold {
            crate::env_pro::less(self.config.tg_clear_c.bits, env.temperature.bits)
        } else {
            crate::env_pro::less(env.temperature.bits, self.config.tg_min_c.bits)
        }
    }

    /// Whether the alarm has not stood for long enough to clear.
    pub open spec fn dwells(self, now: Instant) -> bool {
        match (self.config.tg_dwell, self.last_flip) {
            (Some(dwell), Some(at)) => self.cold && now.ticks < at.ticks + dwell.ticks,
            _ => false,
        }
    }

    /// Whether a reading changes the alarm.
    pub open spec fn flips(self, env: EnvData, now: Instant) -> bool {
        self.crosses(env) && !self.dwells(now)
    }

    /// Whether the standing alarm is to be told again.
    pub open spec fn repeats(self, now: Instant) -> bool {
        match self.config.tg_repeat {
            Some(every) => self.cold && now.ticks >= self.last_alarm.ticks + every.ticks,
            None => false,
        }
    }

    /// Whether a heartbeat is due.
    pub open spec fn beats(self, now: Instant) -> bool {
        match self.next_heartbeat {
            Some(due) => now.ticks >= due.ticks,
            None => false,
        }
    }

    /// The last reading, unless it is too old to count.
    pub open spec fn current(self, now: Instant) -> Option<EnvData> {
        match self.latest {
            Some((env, at)) => if now.ticks < at.ticks + time::secs(SENSOR_TIMEOUT).ticks {
                Some(env)
            } else {
                None
            },
            None => None,
        }
    }

    pub open spec fn alarm_words(self, env: EnvData) -> Seq<char> {
        "ALARM: "@ + env.temperature.shown@ + "C is below the "@ + self.config.tg_min_c.shown@
            + "C threshold ("@ + env.humidity.shown@ + "%RH, "@ + env.pressure.shown@ + "hPa)"@
    }

    pub open spec fn recovery_words(self, env: EnvData) -> Seq<char> {
        "Recovered: "@ + env.temperature.shown@ + "C, back above "@ + self.config.tg_clear_c.shown@
            + "C"@
    }

    pub open spec fn quiet_alarm_words(self) -> Seq<char> {
        "ALARM: still below the "@ + self.config.tg_min_c.shown@
            + "C threshold, and the sensor has gone quiet"@
    }

    pub open spec fn heartbeat_words(self, env: EnvData, now: Instant) -> Seq<char> {
        "alive - "@ + env.temperature.shown@ + "C, "@ + env.humidity.shown@ + "%RH, "@
            + env.pressure.shown@ + "hPa, up "@ + clocked(
            Duration { ticks: (now.ticks - self.boot.ticks) as u64 },
        ) + (match self.ssid {
            Some(ssid) => ", wifi "@ + ssid@,
            None => Seq::empty(),
        })
    }

    /// What there is to say about an event.
    pub open spec fn said(self, event: AppEvent, now: Instant) -> Option<(Urgency, Seq<char>)> {
        match event {
            AppEvent::Env(env) => if !self.flips(env, now) {
                None
            } else if self.cold {
                Some((Urgency::Alarm, self.recovery_words(env)))
            } else {
                Some((Urgency::Alarm, self.alarm_words(env)))
            },
            AppEvent::Wifi(state) => if state is Connected && !self.announced {
                Some((Urgency::Info, NAME@ + " started"@))
            } else {
                None
            },
            AppEvent::Timeout => if self.repeats(now) {
                match self.current(now) {
                    Some(env) => Some((Urgency::Alarm, self.alarm_words(env))),
                    None => Some((Urgency::Alarm, self.quiet_alarm_words())),
                }
            } else if self.beats(now) && self.ssid is Some {
                match self.current(now) {
                    Some(env) => Some((Urgency::Perishable, self.heartbeat_words(env, now))),
                    None => Some((Urgency::Alarm, silent_words())),
                }
            } else {
                None
            },
        }
    }

    /// The state once something has been said.
    pub open spec fn spoken(self, now: Instant) -> App<'a> {
        App {
            next_heartbeat: match self.config.tg_heartbeat {
                Some(every) => Some(now.plus(every)),
                None => self.next_heartbeat,
            },
            ..self
        }
    }

    /// The state after an event.
    pub open spec fn after(self, event: AppEvent, now: Instant) -> App<'a> {
        match event {
            AppEvent::Env(env) => {
                let heard = App { latest: Some((env, now)), ..self };
                if self.flips(env, now) {
                    App {
                        cold: !self.cold,
                        last_flip: Some(now),
                        last_alarm: now,
                        ..heard
                    }.spoken(now)
                } else {
                    heard
                }
            },
            AppEvent::Wifi(WifiState::Connected { ssid, .. }) => {
                let heard = App { ssid: Some(ssid), ..self };
                if self.announced {
                    heard
                } else {
                    App { announced: true, ..heard }.spoken(now)
                }
            },
            AppEvent::Wifi(_) => App { ssid: None, ..self },
            AppEvent::Timeout => if self.repeats(now) {
                App { last_alarm: now, ..self }.spoken(now)
            } else if self.beats(now) {
                if self.ssid is Some {
                    self.spoken(now)
                } else {
                    App { next_heartbeat: Some(now.plus(time::secs(LINK_RETRY))), ..self }
                }
            } else {
                self
            },
        }
    }

    /// Whether the next heartbeat after something said now is still on the clock.
    pub open spec fn can_speak(self, now: Instant) -> bool {
        match self.config.tg_heartbeat {
            Some(every) => now.reaches(every),
            None => true,
        }
    }

    /// Whether the end of the last reading is on the clock.
    pub open spec fn can_read(self) -> bool {
        match self.latest {
            Some((_, at)) => at.reaches(time::secs(SENSOR_TIMEOUT)),
            None => true,
        }
    }

    /// Whether the next repeat of a standing alarm is on the clock.
    pub open spec fn can_wait(self) -> bool {
        match self.config.tg_repeat {
            Some(every) => self.cold ==> self.last_alarm.reaches(every),
            None => true,
        }
    }

    /// Whether every instant that an event makes the device think of is on the clock.
    pub open spec fn can_hear(self, event: AppEvent, now: Instant) -> bool {
        match event {
            AppEvent::Env(env) => {
                &&& match (self.config.tg_dwell, self.last_flip) {
                    (Some(dwell), Some(at)) => self.cold ==> at.reaches(dwell),
                    _ => true,
                }
                &&& self.flips(env, now) ==> self.can_speak(now)
            },
            AppEvent::Wifi(state) => state is Connected && !self.announced ==> self.can_speak(now),
            AppEvent::Timeout => {
                &&& self.can_wait()
                &&& if self.repeats(now) {
                    self.can_read() && self.can_speak(now)
                } else if self.beats(now) && self.ssid is Some {
                    &&& self.can_read()
                    &&& self.can_speak(now)
                    &&& self.current(now) is Some ==> self.boot.ticks <= now.ticks
                } else {
                    self.beats(now) ==> now.reaches(time::secs(LINK_RETRY))
                }
            },
        }
    }

    /// When the next message comes due with no event to prompt it.
    pub open spec fn due(self) -> Option<Instant> {
        time::earliest(
            self.next_heartbeat,
            match self.config.tg_repeat {
                Some(every) => if self.cold {
                    Some(self.last_alarm.plus(every))
                } else {
                    None
                },
                None => None,
            },
        )
    }

    /// The state at power-up.
    pub open spec fn fresh(config: &'a Config, boot: Instant) -> App<'a> {
        App {
            config,
            boot,
            latest: None,
            ssid: None,
            announced: false,
            cold: false,
            last_flip: None,
            last_alarm: boot,
            next_heartbeat: match config.tg_heartbeat {
                Some(every) => Some(boot.plus(every)),
                None => None,
            },
        }
    }

    pub fn new(config: &'a Config, boot: Instant) -> (app: App<'a>)
        requires
            config.tg_heartbeat is Some ==> boot.reaches(config.tg_heartbeat->0),
        ensures
            app == App::fresh(config, boot),
    {
        App {
            config,
            boot,
            latest: None,
            ssid: None,
            announced: false,
            cold: false,
            last_flip: None,
            last_alarm: boot,
            next_heartbeat: match config.tg_heartbeat {
                Some(every) => Some(boot.after(every)),
                None => None,
            },
        }
    }

    /// Whether [`App::new`] can be called.
    pub fn allows_boot(config: &Config, boot: Instant) -> (r: bool)
        ensures
            r == (config.tg_heartbeat is Some ==> boot.reaches(config.tg_heartbeat->0)),
    {
        match config.tg_heartbeat {
            Some(every) => boot.allows(every),
            None => true,
        }
    }

    /// Whether [`App::deadline`] can be called.
    pub fn allows_wait(&self) -> (r: bool)
        ensures
            r == self.can_wait(),
    {
        match self.config.tg_repeat {
            Some(every) => !self.cold || self.last_alarm.allows(every),
            None => true,
        }
    }

    fn allows_speech(&self, now: Instant) -> (r: bool)
        ensures
            r == self.can_speak(now),
    {
        match self.config.tg_heartbeat {
            Some(every) => now.allows(every),
            None => true,
        }
    }

    fn allows_reading(&self) -> (r: bool)
        ensures
            r == self.can_read(),
    {
        match &self.latest {
            Some((_, at)) => at.allows(Duration::from_secs(SENSOR_TIMEOUT)),
            None => true,
        }
    }

    /// Whether the device can take in an event.
    pub fn allows(&self, event: &AppEvent, now: Instant) -> (r: bool)
        ensures
            r == self.can_hear(*event, now),
    {
        match event {
            AppEvent::Env(env) => {
                let crossed = if self.cold {
                    self.config.tg_clear_c.is_less(&env.temperature)
                } else {
                    env.temperature.is_less(&self.config.tg_min_c)
                };
                let mut dwelling = false;
                if let (Some(dwell), Some(at)) = (self.config.tg_dwell, self.last_flip) {
                    if self.cold {
                        if !at.allows(dwell) {
                            return false;
                        }
                        dwelling = now.ticks < at.after(dwell).ticks;
                    }
                }
                !crossed || dwelling || self.allows_speech(now)
            },
            AppEvent::Wifi(state) => match state {
                WifiState::Connected { .. } => self.announced || self.allows_speech(now),
                _ => true,
            },
            AppEvent::Timeout => {
                if !self.allows_wait() {
                    return false;
                }
                let repeat = match self.config.tg_repeat {
                    Some(every) => self.cold && now.ticks >= self.last_alarm.after(every).ticks,
                    None => false,
                };
                if repeat {
                    return self.allows_reading() && self.allows_speech(now);
                }
                let beat = match self.next_heartbeat {
                    Some(due) => now.ticks >= due.ticks,
                    None => false,
                };
                if !beat {
                    true
                } else if self.ssid.is_none() {
                    now.allows(Duration::from_secs(LINK_RETRY))
                } else {
                    self.allows_reading() && self.allows_speech(now) && (self.reading(now).is_none()
                        || self.boot.ticks <= now.ticks)
                }
            },
        }
    }

    /// Takes in a reading. Only a recovery dwells: delaying an alarm would lose a short
    /// excursion, not space it.
    pub fn on_env(&mut self, env: EnvData, now: Instant) -> (message: Option<Notification>)
        requires
            old(self).can_hear(AppEvent::Env(env), now),
        ensures
            *final(self) == old(self).after(AppEvent::Env(env), now),
            says(message, old(self).said(AppEvent::Env(env), now)),
    {
        self.latest = Some((env.clone(), now));
        let crossed = if self.cold {
            self.config.tg_clear_c.is_less(&env.temperature)
        } else {
            env.temperature.is_less(&self.config.tg_min_c)
        };
        let dwelling = self.cold && match (self.config.tg_dwell, self.last_flip) {
            (Some(dwell), Some(at)) => now.ticks < at.after(dwell).ticks,
            _ => false,
        };
        if !crossed || dwelling {
            return None;
        }
        self.cold = !self.cold;
        self.last_flip = Some(now);
        self.last_alarm = now;
        let text = if self.cold {
            self.alarm_text(&env)
        } else {
            let mut text = String::from_str("Recovered: ");
            text.append(env.temperature.shown.as_str());
            text.append("C, back above ");
            text.append(self.config.tg_clear_c.shown.as_str());
            text.append("C");
            text
        };
        let message = self.speak(Notification::alarm(text), now);
        assert(*self == old(self).after(AppEvent::Env(env), now));
        Some(message)
    }

    /// One line on the first connection after boot, so a reboot loop shows up in the chat instead
    /// of hiding behind the heartbeat interval.
    pub fn on_wifi(&mut self, state: WifiState, now: Instant) -> (message: Option<Notification>)
        requires
            old(self).can_hear(AppEvent::Wifi(state), now),
        ensures
            *final(self) == old(self).after(AppEvent::Wifi(state), now),
            says(message, old(self).said(AppEvent::Wifi(state), now)),
    {
        match state {
            WifiState::Connected { ssid, .. } => {
                self.ssid = Some(ssid);
                if self.announced {
                    return None;
                }
                self.announced = true;
                let mut text = String::from_str(NAME);
                text.append(" started");
                Some(self.speak(Notification::info(text), now))
            },
            _ => {
                // Or the next heartbeat would name a network the device has left.
                self.ssid = None;
                None
            },
        }
    }

    pub fn deadline(&self) -> (due: Option<Instant>)
        requires
            self.can_wait(),
        ensures
            due == self.due(),
    {
        let repeat = match self.config.tg_repeat {
            Some(every) => if self.cold {
                Some(self.last_alarm.after(every))
            } else {
                None
            },
            None => None,
        };
        sooner(self.next_heartbeat, repeat)
    }

    pub fn on_timeout(&mut self, now: Instant) -> (message: Option<Notification>)
        requires
            old(self).can_hear(AppEvent::Timeout, now),
        ensures
            *final(self) == old(self).after(AppEvent::Timeout, now),
            says(message, old(self).said(AppEvent::Timeout, now)),
    {
        let repeat = match self.config.tg_repeat {
            Some(every) => self.cold && now.ticks >= self.last_alarm.after(every).ticks,
            None => false,
        };
        if repeat {
            self.last_alarm = now;
            // No elapsed span: a loud message waits for the link and would read as current.
            let text = match self.reading(now) {
                Some(env) => self.alarm_text(&env),
                None => {
                    let mut text = String::from_str("ALARM: still below the ");
                    text.append(self.config.tg_min_c.shown.as_str());
                    text.append("C threshold, and the sensor has gone quiet");
                    text
                },
            };
            return Some(self.speak(Notification::alarm(text), now));
        }
        let beat = match self.next_heartbeat {
            Some(due) => now.ticks >= due.ticks,
            None => false,
        };
        if beat {
            // Proof of life only counts when it lands, and nothing lands without a link.
            if self.ssid.is_none() {
                self.next_heartbeat = Some(now.after(Duration::from_secs(LINK_RETRY)));
                return None;
            }
            let message = match self.reading(now) {
                Some(env) => Notification::perishable(self.heartbeat_text(&env, now)),
                // No reading means no alarm can fire, which is worth waking someone for.
                None => {
                    let mut text = String::from_str("ALARM: no sensor reading for over ");
                    text::push_decimal(&mut text, SENSOR_TIMEOUT / 60);
                    text.append(" minutes");
                    Notification::alarm(text)
                },
            };
            return Some(self.speak(message, now));
        }
        None
    }

    /// Every message is proof of life, so the heartbeat is due again from here.
    pub fn speak(&mut self, message: Notification, now: Instant) -> (spoken: Notification)
        requires
            old(self).can_speak(now),
        ensures
            *final(self) == old(self).spoken(now),
            spoken == message,
    {
        if let Some(every) = self.config.tg_heartbeat {
            self.next_heartbeat = Some(now.after(every));
        }
        message
    }

    pub fn reading(&self, now: Instant) -> (env: Option<EnvData>)
        requires
            self.can_read(),
        ensures
            env == self.current(now),
    {
        match &self.latest {
            Some((env, at)) => if now.ticks < at.after(Duration::from_secs(SENSOR_TIMEOUT)).ticks {
                Some(env.clone())
            } else {
                None
            },
            None => None,
        }
    }

    pub fn alarm_text(&self, env: &EnvData) -> (text: String)
        ensures
            text@ == self.alarm_words(*env),
    {
        let mut text = String::from_str("ALARM: ");
        text.append(env.temperature.shown.as_str());
        text.append("C is below the ");
        text.append(self.config.tg_min_c.shown.as_str());
        text.append("C threshold (");
        text.append(env.humidity.shown.as_str());
        text.append("%RH, ");
        text.append(env.pressure.shown.as_str());
        text.append("hPa)");
        text
    }

    pub fn heartbeat_text(&self, env: &EnvData, now: Instant) -> (text: String)
        requires
            self.boot.ticks <= now.ticks,
        ensures
            text@ == self.heartbeat_words(*env, now),
    {
        let mut text = String::from_str("alive - ");
        text.append(env.temperature.shown.as_str());
        text.append("C, ");
        text.append(env.humidity.shown.as_str());
        text.append("%RH, ");
        text.append(env.pressure.shown.as_str());
        text.append("hPa, up ");
        text.append(hhmm(now.since(self.boot)).as_str());
        if let Some(ssid) = self.ssid {
            text.append(", wifi ");
            text.append(ssid);
        }
        assert(text@ == self.heartbeat_words(*env, now));
        text
    }
}

/// What is said of a sensor that has stopped answering.
pub open spec fn silent_words() -> Seq<char> {
    "ALARM: no sensor reading for over "@ + text::decimal((SENSOR_TIMEOUT / 60) as nat)
        + " minutes"@
}

/// Takes in an event and hands what there is to say to the notifier; what finds no room in the
/// outbox is given back.
pub fn handle(app: &mut App, event: AppEvent, now: Instant, outbox: &mut Outbox) -> (dropped:
    Option<Notification>)
    requires
        old(app).can_hear(event, now),
        old(outbox).wf(),
    ensures
        *final(app) == old(app).after(event, now),
        final(outbox).wf(),
        old(app).said(event, now) is None ==> dropped is None && *final(outbox) == *old(outbox),
        old(app).said(event, now) is Some ==> exists|message: Notification| #[trigger]
            says(Some(message), old(app).said(event, now)) && telegram::notified(
                *old(app).config,
                *old(outbox),
                message,
                *final(outbox),
                dropped,
            ),
{
    let produced = match event {
        AppEvent::Env(env) => app.on_env(env, now),
        AppEvent::Wifi(state) => app.on_wifi(state, now),
        AppEvent::Timeout => app.on_timeout(now),
    };
    match produced {
        Some(message) => notify(outbox, app.config, message),
        None => None,
    }
}

impl<'a> App<'a> {
    /// What holds of the state between any two events: there is a next heartbeat exactly where
    /// heartbeats are on, and an alarm that stands came up at some time.
    pub open spec fn wf(self) -> bool {
        &&& self.next_heartbeat is Some <==> self.config.tg_heartbeat is Some
        &&& self.cold ==> self.last_flip is Some
    }

    /// The state after some events, each with its time.
    pub open spec fn ran(self, events: Seq<(AppEvent, Instant)>) -> App<'a>
        decreases events.len(),
    {
        if events.len() == 0 {
            self
        } else {
            self.ran(events.drop_last()).after(events.last().0, events.last().1)
        }
    }
}

/// Whether events come one after the other, none before `from`.
pub open spec fn in_order(from: Instant, events: Seq<(AppEvent, Instant)>) -> bool {
    &&& forall|i: int| 0 <= i < events.len() ==> from.ticks <= (#[trigger] events[i]).1.ticks
    &&& forall|i: int, j: int|
        0 <= i <= j < events.len() ==> (#[trigger] events[i]).1.ticks <= (
        #[trigger] events[j]).1.ticks
}

/// The state stays sound from power-up on, and its configuration stays what it was.
pub proof fn law_state_stays_sound<'a>(
    config: &'a Config,
    boot: Instant,
    events: Seq<(AppEvent, Instant)>,
)
    ensures
        App::fresh(config, boot).ran(events).wf(),
        App::fresh(config, boot).ran(events).config == config,
    decreases events.len(),
{
    if events.len() > 0 {
        law_state_stays_sound(config, boot, events.drop_last());
    }
}

/// An alarm is never held back: the first reading below the threshold is told at once, and
/// loudly, whatever happened before.
pub proof fn law_alarm_is_not_held_back(app: App, env: EnvData, now: Instant)
    requires
        !app.cold,
        crate::env_pro::less(env.temperature.bits, app.config.tg_min_c.bits),
    ensures
        app.said(AppEvent::Env(env), now) == Some((Urgency::Alarm, app.alarm_words(env))),
        app.after(AppEvent::Env(env), now).cold,
        app.after(AppEvent::Env(env), now).last_flip == Some(now),
{
}

/// A recovery waits until the alarm has stood for the dwell, and is then told loudly, by the first
/// reading above the clearing threshold.
pub proof fn law_recovery_waits_out_the_dwell(
    app: App,
    env: EnvData,
    now: Instant,
    dwell: Duration,
    onset: Instant,
)
    requires
        app.cold,
        app.config.tg_dwell == Some(dwell),
        app.last_flip == Some(onset),
        crate::env_pro::less(app.config.tg_clear_c.bits, env.temperature.bits),
    ensures
        now.ticks < onset.ticks + dwell.ticks ==> {
            &&& app.said(AppEvent::Env(env), now) is None
            &&& app.after(AppEvent::Env(env), now).cold
        },
        now.ticks >= onset.ticks + dwell.ticks ==> {
            &&& app.said(AppEvent::Env(env), now) == Some(
                (Urgency::Alarm, app.recovery_words(env)),
            )
            &&& !app.after(AppEvent::Env(env), now).cold
        },
{
}

/// Without a dwell an alarm clears at once.
pub proof fn law_no_dwell_clears_at_once(app: App, env: EnvData, now: Instant)
    requires
        app.cold,
        app.config.tg_dwell is None,
        crate::env_pro::less(app.config.tg_clear_c.bits, env.temperature.bits),
    ensures
        app.said(AppEvent::Env(env), now) == Some((Urgency::Alarm, app.recovery_words(env))),
        !app.after(AppEvent::Env(env), now).cold,
{
}

/// Between the two thresholds, both of them included, nothing changes and nothing is said.
pub proof fn law_hysteresis(app: App, env: EnvData, now: Instant)
    requires
        !crate::env_pro::less(env.temperature.bits, app.config.tg_min_c.bits),
        !crate::env_pro::less(app.config.tg_clear_c.bits, env.temperature.bits),
    ensures
        app.said(AppEvent::Env(env), now) is None,
        app.after(AppEvent::Env(env), now) == (App { latest: Some((env, now)), ..app }),
{
}

/// An alarm is told by the reading that brings it up and by no other, and so is a recovery.
pub proof fn law_change_is_told_once(app: App, env: EnvData, now: Instant)
    ensures
        app.cold && !crate::env_pro::less(app.config.tg_clear_c.bits, env.temperature.bits)
            ==> app.said(AppEvent::Env(env), now) is None,
        !app.cold && !crate::env_pro::less(env.temperature.bits, app.config.tg_min_c.bits)
            ==> app.said(AppEvent::Env(env), now) is None,
        app.said(AppEvent::Env(env), now) is Some <==> app.after(AppEvent::Env(env), now).cold
            != app.cold,
{
}

/// However the temperature swings, the alarm that came up at `onset` neither clears nor comes up
/// anew before the dwell is over: there is one alarm for each such interval at most.
pub proof fn law_one_alarm_per_dwell(
    app: App,
    events: Seq<(AppEvent, Instant)>,
    dwell: Duration,
    onset: Instant,
)
    requires
        app.cold,
        app.config.tg_dwell == Some(dwell),
        app.last_flip == Some(onset),
        in_order(onset, events),
    ensures
        app.ran(events).config == app.config,
        ({
            let later = app.ran(events);
            ||| later.cold && later.last_flip == Some(onset)
            ||| later.last_flip matches Some(at) && at.ticks >= onset.ticks + dwell.ticks && (
            events.len() > 0 ==> at.ticks <= events.last().1.ticks)
        }),
    decreases events.len(),
{
    if events.len() > 0 {
        let before = events.drop_last();
        assert(in_order(onset, before));
        law_one_alarm_per_dwell(app, before, dwell, onset);
        if before.len() > 0 {
            assert(before.last() == events[events.len() - 2]);
        }
    }
}

/// What is said of event `i` of a run.
pub open spec fn told(app: App, events: Seq<(AppEvent, Instant)>, i: int) -> Option<
    (Urgency, Seq<char>),
> {
    app.ran(events.take(i)).said(events[i].0, events[i].1)
}

/// Whether event `i` of a run is a reading that brings an alarm message.
pub open spec fn alarms(app: App, events: Seq<(AppEvent, Instant)>, i: int) -> bool {
    &&& events[i].0 matches AppEvent::Env(env)
    &&& told(app, events, i) == Some(
        (Urgency::Alarm, app.ran(events.take(i)).alarm_words(env)),
    )
}

/// Whether event `i` of a run is a reading that brings a recovery message.
pub open spec fn recovers(app: App, events: Seq<(AppEvent, Instant)>, i: int) -> bool {
    &&& events[i].0 matches AppEvent::Env(env)
    &&& told(app, events, i) == Some(
        (Urgency::Alarm, app.ran(events.take(i)).recovery_words(env)),
    )
}

/// Where two readings of a run both bring an alarm message, a reading between them brought a
/// recovery message; and where there is a dwell, that one, and the second alarm with it, came at
/// least the dwell after the first.
pub proof fn law_alarms_are_a_dwell_apart(
    app: App,
    events: Seq<(AppEvent, Instant)>,
    i: int,
    j: int,
)
    requires
        in_order(Instant { ticks: 0 }, events),
        0 <= i < j < events.len(),
        alarms(app, events, i),
        alarms(app, events, j),
    ensures
        exists|k: int|
            #![trigger recovers(app, events, k)]
            i < k < j && recovers(app, events, k) && (app.config.tg_dwell matches Some(dwell)
                ==> events[k].1.ticks >= events[i].1.ticks + dwell.ticks),
        app.config.tg_dwell matches Some(dwell) ==> events[j].1.ticks >= events[i].1.ticks
            + dwell.ticks,
{
    lemma_words_differ(app.ran(events.take(i)), events[i].0->Env_0);
    lemma_words_differ(app.ran(events.take(j)), events[j].0->Env_0);
    lemma_ran_step(app, events, i);
    let k = lemma_recovery_between(app, events, i, j);
    assert(recovers(app, events, k));
    assert(events[k].1.ticks <= events[j].1.ticks);
}

proof fn lemma_words_differ(app: App, env: EnvData)
    ensures
        app.alarm_words(env) != app.recovery_words(env),
{
    reveal_strlit("ALARM: ");
    reveal_strlit("Recovered: ");
    assert(app.alarm_words(env)[0] == 'A');
    assert(app.recovery_words(env)[0] == 'R');
}

proof fn lemma_ran_step(app: App, events: Seq<(AppEvent, Instant)>, i: int)
    requires
        0 <= i < events.len(),
    ensures
        app.ran(events.take(i + 1)) == app.ran(events.take(i)).after(events[i].0, events[i].1),
        app.ran(events.take(i)).config == app.config,
    decreases i,
{
    assert(events.take(i + 1).drop_last() == events.take(i));
    if i > 0 {
        lemma_ran_step(app, events, i - 1);
    }
}

/// Where the alarm that came up at event `i` no longer stands at event `j`, the first event that
/// cleared it.
proof fn lemma_recovery_between(
    app: App,
    events: Seq<(AppEvent, Instant)>,
    i: int,
    j: int,
) -> (k: int)
    requires
        0 <= i < j < events.len(),
        app.ran(events.take(i + 1)).cold,
        app.ran(events.take(i + 1)).last_flip == Some(events[i].1),
        !app.ran(events.take(j)).cold,
    ensures
        i < k < j,
        recovers(app, events, k),
        app.config.tg_dwell matches Some(dwell) ==> events[k].1.ticks >= events[i].1.ticks
            + dwell.ticks,
{
    let k = lemma_first_change(app, events, i, i + 1, j);
    lemma_ran_step(app, events, k);
    k
}

proof fn lemma_first_change(
    app: App,
    events: Seq<(AppEvent, Instant)>,
    i: int,
    at: int,
    j: int,
) -> (k: int)
    requires
        0 <= i < at <= j < events.len(),
        app.ran(events.take(at)).cold,
        app.ran(events.take(at)).last_flip == Some(events[i].1),
        !app.ran(events.take(j)).cold,
    ensures
        at <= k < j,
        app.ran(events.take(k)).cold,
        app.ran(events.take(k)).last_flip == Some(events[i].1),
        !app.ran(events.take(k + 1)).cold,
    decreases j - at,
{
    lemma_ran_step(app, events, at);
    if app.ran(events.take(at + 1)).cold {
        lemma_first_change(app, events, i, at + 1, j)
    } else {
        at
    }
}

/// A standing alarm is told again once its interval is over and not before, and the next interval
/// starts there.
pub proof fn law_standing_alarm_repeats(app: App, now: Instant, every: Duration)
    requires
        app.cold,
        app.config.tg_repeat == Some(every),
    ensures
        now.ticks >= app.last_alarm.ticks + every.ticks ==> {
            &&& app.said(AppEvent::Timeout, now) matches Some((urgency, _))
            &&& urgency == Urgency::Alarm
            &&& app.after(AppEvent::Timeout, now).last_alarm == now
            &&& app.after(AppEvent::Timeout, now).cold
        },
        now.ticks < app.last_alarm.ticks + every.ticks ==> {
            &&& !app.repeats(now)
            &&& app.after(AppEvent::Timeout, now).last_alarm == app.last_alarm
        },
        app.can_wait() ==> {
            &&& app.due() matches Some(due)
            &&& due.ticks <= app.last_alarm.ticks + every.ticks
        },
{
}

/// A device that has told of its start does not do so again.
pub proof fn law_start_is_told_once(app: App, events: Seq<(AppEvent, Instant)>, i: int)
    requires
        app.announced,
        0 <= i < events.len(),
        events[i].0 is Wifi,
    ensures
        app.ran(events.take(i)).said(events[i].0, events[i].1) is None,
{
    lemma_stays_announced(app, events.take(i));
}

/// The first connection after boot is told, quietly, and counts as told from then on.
pub proof fn law_start_is_told(app: App, ssid: &'static str, ip: [u8; 4], now: Instant)
    requires
        !app.announced,
    ensures
        app.said(AppEvent::Wifi(WifiState::Connected { ssid, ip }), now) == Some(
            (Urgency::Info, NAME@ + " started"@),
        ),
        app.after(AppEvent::Wifi(WifiState::Connected { ssid, ip }), now).announced,
{
}

/// Whether an event is a connection.
pub open spec fn is_connection(event: AppEvent) -> bool {
    event matches AppEvent::Wifi(state) && state is Connected
}

/// From power-up on, exactly the first connection is told: the line about the start is said of it,
/// and of no other event, and no other change of the station's state is told at all.
pub proof fn law_first_connection_is_told<'a>(
    config: &'a Config,
    boot: Instant,
    events: Seq<(AppEvent, Instant)>,
    i: int,
)
    requires
        0 <= i < events.len(),
    ensures
        ({
            let first = is_connection(events[i].0) && forall|k: int|
                0 <= k < i ==> !is_connection((#[trigger] events[k]).0);
            let said = told(App::fresh(config, boot), events, i);
            &&& said == Some((Urgency::Info, NAME@ + " started"@)) <==> first
            &&& events[i].0 is Wifi && !first ==> said is None
        }),
{
    lemma_announced(App::fresh(config, boot), events, i);
}

proof fn lemma_announced(app: App, events: Seq<(AppEvent, Instant)>, i: int)
    requires
        !app.announced,
        0 <= i < events.len(),
    ensures
        !app.ran(events.take(i)).announced <==> forall|k: int|
            0 <= k < i ==> !is_connection((#[trigger] events[k]).0),
    decreases i,
{
    if i > 0 {
        lemma_announced(app, events, i - 1);
        lemma_ran_step(app, events, i - 1);
    }
}

proof fn lemma_stays_announced(app: App, events: Seq<(AppEvent, Instant)>)
    requires
        app.announced,
    ensures
        app.ran(events).announced,
    decreases events.len(),
{
    if events.len() > 0 {
        lemma_stays_announced(app, events.drop_last());
    }
}

/// Every message is proof of life: after it the next heartbeat is a whole interval away.
pub proof fn law_every_message_is_proof_of_life(
    app: App,
    event: AppEvent,
    now: Instant,
    every: Duration,
)
    requires
        app.config.tg_heartbeat == Some(every),
        app.said(event, now) is Some,
    ensures
        app.after(event, now).next_heartbeat == Some(now.plus(every)),
{
}

/// A heartbeat that comes due with the link down is not composed, and its interval is not spent:
/// it looks again a minute later.
pub proof fn law_heartbeat_waits_for_the_link(app: App, now: Instant)
    requires
        app.ssid is None,
        app.beats(now),
        !app.repeats(now),
    ensures
        app.said(AppEvent::Timeout, now) is None,
        app.after(AppEvent::Timeout, now) == (App {
            next_heartbeat: Some(now.plus(time::secs(LINK_RETRY))),
            ..app
        }),
{
}

/// Such a heartbeat is due within a minute of the connection coming back, and then something is
/// said.
pub proof fn law_heartbeat_follows_reconnection(
    app: App,
    now: Instant,
    ssid: &'static str,
    ip: [u8; 4],
    back: Instant,
)
    requires
        app.ssid is None,
        app.beats(now),
        !app.repeats(now),
        app.announced,
        now.reaches(time::secs(LINK_RETRY)),
        now.ticks <= back.ticks,
    ensures
        ({
            let linked = app.after(AppEvent::Timeout, now).after(
                AppEvent::Wifi(WifiState::Connected { ssid, ip }),
                back,
            );
            &&& linked.next_heartbeat matches Some(due)
            &&& due.ticks <= back.ticks + time::secs(LINK_RETRY).ticks
            &&& linked.said(AppEvent::Timeout, due) is Some
        }),
{
}

/// With the link up a due heartbeat carries the current reading, to be dropped rather than be
/// late; without a current reading it is an alarm.
pub proof fn law_silent_sensor_is_loud(app: App, now: Instant)
    requires
        app.ssid is Some,
        app.beats(now),
        !app.repeats(now),
    ensures
        app.current(now) matches Some(env) ==> app.said(AppEvent::Timeout, now) == Some(
            (Urgency::Perishable, app.heartbeat_words(env, now)),
        ),
        app.current(now) is None ==> app.said(AppEvent::Timeout, now) == Some(
            (Urgency::Alarm, silent_words()),
        ),
{
}

/// A network the device has left is not named any more.
pub proof fn law_left_network_is_forgotten(app: App, state: WifiState, now: Instant)
    requires
        !(state is Connected),
    ensures
        app.after(AppEvent::Wifi(state), now).ssid is None,
        app.said(AppEvent::Wifi(state), now) is None,
{
}

/// Before the deadline there is nothing to do.
pub proof fn law_nothing_before_the_deadline(app: App, now: Instant)
    requires
        app.can_wait(),
        app.due() matches Some(due) ==> now.ticks < due.ticks,
    ensures
        app.said(AppEvent::Timeout, now) is None,
        app.after(AppEvent::Timeout, now) == app,
{
}

/// At the deadline something happens, and the next deadline is later than that: waiting for one
/// deadline after the other never turns into a busy loop.
pub proof fn law_deadlines_move_on(app: App, now: Instant)
    requires
        app.wf(),
        app.can_hear(AppEvent::Timeout, now),
        app.due() matches Some(due) && now.ticks >= due.ticks,
        app.config.tg_repeat matches Some(every) ==> every.ticks > 0,
        app.config.tg_heartbeat matches Some(every) ==> every.ticks > 0,
        app.after(AppEvent::Timeout, now).can_wait(),
    ensures
        app.after(AppEvent::Timeout, now).due() matches Some(due) && due.ticks > now.ticks,
{
}

/// A span is shown to the minute: its whole minutes are sixty times the hours, in decimal, and the
/// two digits after them, which are fewer than sixty.
pub proof fn law_span_is_shown_to_the_minute(span: Duration)
    ensures
        ({
            let minutes = span.ticks as nat / 60_000_000;
            clocked(span) == text::decimal(minutes / 60) + seq![
                'h',
                "0123456789"@[(minutes % 60) as int / 10],
                "0123456789"@[(minutes % 60) as int % 10],
                'm',
            ]
        }),
{
    let secs = span.ticks / time::TICKS_PER_SEC;
    let h = (secs / 3600) as nat;
    let m = ((secs % 3600) / 60) as nat;
    let minutes = span.ticks as nat / 60_000_000;
    assert(minutes / 60 == h && minutes % 60 == m);
    reveal_strlit("h");
    reveal_strlit("0");
    reveal_strlit("m");
    reveal_strlit("0123456789");
    reveal_with_fuel(text::decimal, 2);
    let tens = "0123456789"@[m as int / 10];
    let ones = "0123456789"@[m as int % 10];
    if m < 10 {
        assert(text::decimal(m) == seq![ones]);
    } else {
        assert(text::decimal(m) == seq![tens, ones]);
    }
    assert(clocked(span) == text::decimal(h) + seq!['h', tens, ones, 'm']);
}

/// Spans of different whole minutes never share a text, and those of the same always do.
pub proof fn law_spans_tell_apart(a: Duration, b: Duration)
    ensures
        clocked(a) == clocked(b) <==> a.ticks as int / 60_000_000 == b.ticks as int / 60_000_000,
{
    law_span_is_shown_to_the_minute(a);
    law_span_is_shown_to_the_minute(b);
    let x = a.ticks as nat / 60_000_000;
    let y = b.ticks as nat / 60_000_000;
    if clocked(a) == clocked(b) {
        reveal_strlit("0123456789");
        let s = clocked(a);
        let end = s.len() - 4;
        assert(s.take(end) == text::decimal(x / 60));
        assert(s.take(end) == text::decimal(y / 60));
        text::law_decimal_tells_apart(x / 60, y / 60);
        assert(s[end + 1] == "0123456789"@[(x % 60) as int / 10]);
        assert(s[end + 1] == "0123456789"@[(y % 60) as int / 10]);
        assert(s[end + 2] == "0123456789"@[(x % 60) as int % 10]);
        assert(s[end + 2] == "0123456789"@[(y % 60) as int % 10]);
        assert(x % 60 == y % 60);
    }
}

/// What the lines say, word for word: the alarm and the recovery quote the temperature and the
/// threshold it is held against, the alarm and the heartbeat the rest of the reading, and the
/// heartbeat how long the device is up and on which network, if on any.
pub proof fn law_lines(app: App, env: EnvData, now: Instant)
    requires
        app.boot.ticks <= now.ticks,
    ensures
        app.alarm_words(env) == "ALARM: "@ + env.temperature.shown@ + "C is below the "@
            + app.config.tg_min_c.shown@ + "C threshold ("@ + env.humidity.shown@ + "%RH, "@
            + env.pressure.shown@ + "hPa)"@,
        app.recovery_words(env) == "Recovered: "@ + env.temperature.shown@ + "C, back above "@
            + app.config.tg_clear_c.shown@ + "C"@,
        app.quiet_alarm_words() == "ALARM: still below the "@ + app.config.tg_min_c.shown@
            + "C threshold, and the sensor has gone quiet"@,
        silent_words() == "ALARM: no sensor reading for over 5 minutes"@,
        NAME@ + " started"@ == "m5nanoc6 started"@,
        ({
            let up = Duration { ticks: (now.ticks - app.boot.ticks) as u64 };
            let line = "alive - "@ + env.temperature.shown@ + "C, "@ + env.humidity.shown@
                + "%RH, "@ + env.pressure.shown@ + "hPa, up "@ + clocked(up);
            &&& app.ssid is None ==> app.heartbeat_words(env, now) == line
            &&& app.ssid matches Some(ssid) ==> app.heartbeat_words(env, now) == line
                + ", wifi "@ + ssid@
        }),
{
    reveal_strlit("ALARM: no sensor reading for over ");
    reveal_strlit(" minutes");
    reveal_strlit("ALARM: no sensor reading for over 5 minutes");
    reveal_with_fuel(text::decimal, 2);
    assert(silent_words() == "ALARM: no sensor reading for over 5 minutes"@);
    reveal_strlit("m5nanoc6");
    reveal_strlit(" started");
    reveal_strlit("m5nanoc6 started");
    assert(NAME@ + " started"@ == "m5nanoc6 started"@);
    if let Some(ssid) = app.ssid {
        let up = Duration { ticks: (now.ticks - app.boot.ticks) as u64 };
        let line = "alive - "@ + env.temperature.shown@ + "C, "@ + env.humidity.shown@ + "%RH, "@
            + env.pressure.shown@ + "hPa, up "@ + clocked(up);
        assert(app.heartbeat_words(env, now) == line + ", wifi "@ + ssid@);
    } else {
        let up = Duration { ticks: (now.ticks - app.boot.ticks) as u64 };
        let line = "alive - "@ + env.temperature.shown@ + "C, "@ + env.humidity.shown@ + "%RH, "@
            + env.pressure.shown@ + "hPa, up "@ + clocked(up);
        assert(app.heartbeat_words(env, now) == line);
    }
}

/// When a reading changes the alarm: it comes up below the threshold and clears above the clearing
/// one, but not before it has stood for the dwell. Whatever it changes, the reading is the latest
/// from then on, and of the alarm either all is changed, as of now, or nothing.
pub proof fn law_readings(app: App, env: EnvData, now: Instant)
    ensures
        ({
            let after = app.after(AppEvent::Env(env), now);
            let young = match (app.config.tg_dwell, app.last_flip) {
                (Some(dwell), Some(at)) => now.ticks < at.ticks + dwell.ticks,
                _ => false,
            };
            let changed = if app.cold {
                crate::env_pro::less(app.config.tg_clear_c.bits, env.temperature.bits) && !young
            } else {
                crate::env_pro::less(env.temperature.bits, app.config.tg_min_c.bits)
            };
            &&& after.cold == (app.cold != changed)
            &&& app.said(AppEvent::Env(env), now) is Some <==> changed
            &&& changed ==> after.last_flip == Some(now) && after.last_alarm == now
            &&& !changed ==> after.last_flip == app.last_flip && after.last_alarm == app.last_alarm
                && after.next_heartbeat == app.next_heartbeat
            &&& changed && app.cold ==> app.said(AppEvent::Env(env), now) == Some(
                (Urgency::Alarm, app.recovery_words(env)),
            )
            &&& changed && !app.cold ==> app.said(AppEvent::Env(env), now) == Some(
                (Urgency::Alarm, app.alarm_words(env)),
            )
            &&& after.latest == Some((env, now))
            &&& after.config == app.config && after.boot == app.boot && after.ssid == app.ssid
                && after.announced == app.announced
        }),
{
}

/// What a state of the station changes: the network that the device is on, and whether its start
/// has been told; nothing of the alarm and nothing of the readings.
pub proof fn law_connections(app: App, state: WifiState, now: Instant)
    ensures
        ({
            let after = app.after(AppEvent::Wifi(state), now);
            &&& state matches WifiState::Connected { ssid, .. } ==> after.ssid == Some(ssid)
                && after.announced
            &&& state is Connected && !app.announced ==> app.said(
                AppEvent::Wifi(state),
                now,
            ) == Some((Urgency::Info, "m5nanoc6 started"@))
            &&& !(state is Connected) ==> after.ssid is None && after.announced == app.announced
            &&& !(state is Connected) || app.announced ==> {
                &&& app.said(AppEvent::Wifi(state), now) is None
                &&& after.next_heartbeat == app.next_heartbeat
            }
            &&& after.config == app.config && after.boot == app.boot && after.latest == app.latest
            &&& after.cold == app.cold && after.last_flip == app.last_flip && after.last_alarm
                == app.last_alarm
        }),
{
    reveal_strlit("m5nanoc6");
    reveal_strlit(" started");
    reveal_strlit("m5nanoc6 started");
    assert(NAME@ + " started"@ == "m5nanoc6 started"@);
}

/// What comes due with no event to prompt it. A standing alarm whose interval is over comes first;
/// it quotes the last reading if that is not five minutes old. Otherwise a heartbeat that is due
/// goes out over the link, loud without such a reading, and without a link looks again in a
/// minute. Otherwise there is nothing to say and nothing changes.
pub proof fn law_timeouts(app: App, now: Instant, env: EnvData, at: Instant)
    requires
        app.latest is Some ==> app.latest == Some((env, at)),
    ensures
        ({
            let after = app.after(AppEvent::Timeout, now);
            let said = app.said(AppEvent::Timeout, now);
            let repeat = app.cold && (app.config.tg_repeat matches Some(every) && now.ticks
                >= app.last_alarm.ticks + every.ticks);
            let beat = app.next_heartbeat matches Some(due) && now.ticks >= due.ticks;
            let current = app.latest is Some && now.ticks < at.ticks + 300_000_000;
            &&& repeat && current ==> said == Some((Urgency::Alarm, app.alarm_words(env)))
            &&& repeat && !current ==> said == Some((Urgency::Alarm, app.quiet_alarm_words()))
            &&& !repeat && beat && app.ssid is Some && current ==> said == Some(
                (Urgency::Perishable, app.heartbeat_words(env, now)),
            )
            &&& !repeat && beat && app.ssid is Some && !current ==> said == Some(
                (Urgency::Alarm, silent_words()),
            )
            &&& !repeat && beat && app.ssid is None ==> {
                &&& said is None
                &&& now.ticks + 60_000_000 <= u64::MAX ==> after.next_heartbeat == Some(
                    Instant { ticks: (now.ticks + 60_000_000) as u64 },
                )
            }
            &&& !repeat && !beat ==> said is None && after == app
            &&& after.last_alarm == (if repeat {
                now
            } else {
                app.last_alarm
            })
            &&& after.config == app.config && after.boot == app.boot && after.latest == app.latest
                && after.ssid == app.ssid && after.announced == app.announced
            &&& after.cold == app.cold && after.last_flip == app.last_flip
        }),
{
}

/// The deadline is the earlier of the next heartbeat and the next repeat of a standing alarm, and
/// there is none exactly where there is neither.
pub proof fn law_deadline(app: App)
    requires
        app.cold && app.config.tg_repeat is Some ==> app.last_alarm.ticks
            + app.config.tg_repeat->0.ticks <= u64::MAX,
    ensures
        ({
            let standing = app.cold && app.config.tg_repeat is Some;
            let repeat = app.last_alarm.ticks + app.config.tg_repeat->0.ticks;
            &&& app.due() is None <==> app.next_heartbeat is None && !standing
            &&& app.due() matches Some(due) ==> {
                &&& app.next_heartbeat matches Some(beat) ==> due.ticks <= beat.ticks
                &&& standing ==> due.ticks <= repeat
                &&& app.next_heartbeat == Some(due) || standing && due.ticks == repeat
            }
        }),
{
}

/// Whatever is said puts the next heartbeat a whole interval off, and where heartbeats are off
/// leaves them so.
pub proof fn law_speaking(app: App, event: AppEvent, now: Instant)
    requires
        app.said(event, now) is Some,
    ensures
        app.config.tg_heartbeat matches Some(every) ==> (now.ticks + every.ticks <= u64::MAX
            ==> app.after(event, now).next_heartbeat == Some(
            Instant { ticks: (now.ticks + every.ticks) as u64 },
        )),
        app.config.tg_heartbeat is None ==> app.after(event, now).next_heartbeat
            == app.next_heartbeat,
{
}

/// At power-up nothing has been heard or told, no alarm stands, and the first heartbeat is a whole
/// interval away.
pub proof fn law_power_up<'a>(config: &'a Config, boot: Instant)
    ensures
        ({
            let app = App::fresh(config, boot);
            &&& app.config == config && app.boot == boot && app.last_alarm == boot
            &&& app.latest is None && app.ssid is None && app.last_flip is None
            &&& !app.announced && !app.cold
            &&& config.tg_heartbeat is None ==> app.next_heartbeat is None
            &&& config.tg_heartbeat matches Some(every) ==> (boot.ticks + every.ticks <= u64::MAX
                ==> app.next_heartbeat == Some(
                Instant { ticks: (boot.ticks + every.ticks) as u64 },
            ))
        }),
{
}

/// A message says what is meant exactly where it has the urgency and the words of it; and where
/// nothing is meant, nothing is said.
pub proof fn law_what_is_meant_is_said(
    message: Notification,
    urgency: Urgency,
    words: Seq<char>,
)
    ensures
        says(Some(message), Some((urgency, words))) <==> message.urgency == urgency
            && message.text@ == words && message.seq == 0,
        says(None, None),
        !says(None, Some((urgency, words))),
        !says(Some(message), None),
{
}

/// As long as the clock has room for every interval that is set, from every instant the device
/// remembers and from now, and does not run backwards, every event can be taken in.
pub proof fn law_every_event_is_taken_in(app: App, event: AppEvent, now: Instant, longest: Duration)
    requires
        app.config.tg_dwell matches Some(span) ==> span.ticks <= longest.ticks,
        app.config.tg_repeat matches Some(span) ==> span.ticks <= longest.ticks,
        app.config.tg_heartbeat matches Some(span) ==> span.ticks <= longest.ticks,
        longest.ticks >= 300_000_000,
        now.ticks + longest.ticks <= u64::MAX,
        app.boot.ticks <= now.ticks,
        app.last_alarm.ticks <= now.ticks,
        app.last_flip matches Some(at) ==> at.ticks <= now.ticks,
        app.latest matches Some((_, at)) ==> at.ticks <= now.ticks,
    ensures
        app.can_hear(event, now),
        app.can_wait(),
        app.after(event, now).can_wait(),
{
}

} // verus!
