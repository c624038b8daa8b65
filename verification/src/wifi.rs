//! Wi-Fi station: sweeps the configured networks, brings up DHCP, and reconnects on its own.
//!
//! The first network that both associates and gets a lease wins.

use vstd::prelude::*;
use crate::led::{LedCmd, Rgb};
use crate::time::{self, Duration, TICKS_PER_SEC};

verus! {

/// Where the Wi-Fi station is in its connect cycle.
#[derive(Debug, Clone, Copy, PartialEq, Eq)]
pub enum WifiState {
    /// Sweeping the configured networks.
    Connecting,
    Connected { ssid: &'static str, ip: [u8; 4] },
    /// Was associated, lost the access point; a new sweep follows.
    Disconnected,
    /// The whole list was exhausted without a lease.
    Failed,
}

/// Socket slots the stack can hand out: one for DHCP, one for DNS, one for the Telegram client's
/// TCP connection, and one spare.
pub const SOCKETS: usize = 4;

/// Seconds to wait for an association, and for a lease.
pub const CONNECT_TIMEOUT: u64 = 15;

pub const DHCP_TIMEOUT: u64 = 20;

/// Seconds to wait after an exhausted sweep, and the ceiling that backs off to.
pub const RETRY_MIN: u64 = 30;

pub const RETRY_MAX: u64 = 300;

/// Seconds that give the radio, and the IP stack watching its link state, a moment to notice a
/// drop before re-associating.
pub const RECONNECT_DELAY: u64 = 2;

/// The most bytes of a name that the radio keeps.
pub const SSID_MAX: usize = 32;

/// A network name as the radio stores it.
pub open spec fn stored(ssid: Seq<char>) -> Seq<u8> {
    let bytes = vstd::utf8::encode_utf8(ssid);
    if bytes.len() > SSID_MAX {
        bytes.take(SSID_MAX as int)
    } else {
        bytes
    }
}

/// Where the first network stands, from `at` on, that the radio stores as `connected`; past the
/// end if there is none.
pub open spec fn first_stored_as(
    networks: Seq<(&'static str, &'static str)>,
    connected: Seq<u8>,
    at: int,
) -> int
    decreases networks.len() - at,
{
    if at < 0 || at >= networks.len() || stored(networks[at].0@) == connected {
        at
    } else {
        first_stored_as(networks, connected, at + 1)
    }
}

/// The configured name that a connection belongs to.
pub open spec fn configured_name(
    networks: Seq<(&'static str, &'static str)>,
    connected: Seq<u8>,
) -> Option<&'static str> {
    let at = first_stored_as(networks, connected, 0);
    if at < networks.len() {
        Some(networks[at].0)
    } else {
        None
    }
}

/// The bytes that the radio keeps of a network name.
pub fn stored_name(ssid: &str) -> (kept: Vec<u8>)
    ensures
        kept@ == stored(ssid@),
{
    let bytes: &[u8] = ssid.as_bytes();
    let mut kept: Vec<u8> = Vec::new();
    while kept.len() < bytes.len() && kept.len() < SSID_MAX
        invariant
            kept@.len() <= bytes@.len(),
            kept@.len() <= SSID_MAX,
            kept@ == bytes@.take(kept@.len() as int),
        decreases bytes.len() - kept.len(),
    {
        let i: usize = kept.len();
        kept.push(bytes[i]);
        assert(kept@ == bytes@.take(kept@.len() as int));
    }
    assert(kept@ == stored(ssid@));
    kept
}

fn is_stored_as(ssid: &str, connected: &Vec<u8>) -> (r: bool)
    ensures
        r == (stored(ssid@) == connected@),
{
    let kept = stored_name(ssid);
    if kept.len() != connected.len() {
        return false;
    }
    let mut i: usize = 0;
    while i < kept.len()
        invariant
            i <= kept@.len() == connected@.len(),
            kept@ == stored(ssid@),
            forall|k: int| 0 <= k < i ==> kept@[k] == #[trigger] connected@[k],
        decreases kept.len() - i,
    {
        if kept[i] != connected[i] {
            assert(kept@[i as int] != connected@[i as int]);
            return false;
        }
        i = i + 1;
    }
    assert(kept@ =~= connected@);
    true
}

/// The configured entry a connection belongs to, matched the way the radio stores a name: as at
/// most 32 bytes, so an over-long entry compares equal to what it truncated to.
pub fn configured_as(networks: &Vec<(&'static str, &'static str)>, connected: &Vec<u8>) -> (name:
    Option<&'static str>)
    ensures
        name == configured_name(networks@, connected@),
{
    let mut i: usize = 0;
    while i < networks.len()
        invariant
            i <= networks@.len(),
            first_stored_as(networks@, connected@, 0) == first_stored_as(
                networks@,
                connected@,
                i as int,
            ),
        decreases networks.len() - i,
    {
        let ssid: &'static str = networks[i].0;
        if is_stored_as(ssid, connected) {
            return Some(ssid);
        }
        i = i + 1;
    }
    None
}

/// A connection belongs to the first entry that is stored the way it reports itself, and to none
/// only where there is no such entry.
pub proof fn law_first_entry_is_meant(
    networks: Seq<(&'static str, &'static str)>,
    connected: Seq<u8>,
    i: int,
)
    requires
        0 <= i < networks.len(),
        stored(networks[i].0@) == connected,
    ensures
        configured_name(networks, connected) is Some,
        stored((configured_name(networks, connected)->0)@) == connected,
        (forall|k: int| 0 <= k < i ==> stored((#[trigger] networks[k]).0@) != connected)
            ==> configured_name(networks, connected) == Some(networks[i].0),
{
    lemma_first_stored(networks, connected, 0, i);
}

proof fn lemma_first_stored(
    networks: Seq<(&'static str, &'static str)>,
    connected: Seq<u8>,
    at: int,
    i: int,
)
    requires
        0 <= at <= i < networks.len(),
        stored(networks[i].0@) == connected,
    ensures
        at <= first_stored_as(networks, connected, at) <= i,
        stored(networks[first_stored_as(networks, connected, at)].0@) == connected,
    decreases i - at,
{
    if stored(networks[at].0@) != connected {
        lemma_first_stored(networks, connected, at + 1, i);
    }
}

/// How to join a network.
#[derive(Debug, Clone, Copy)]
pub enum Auth {
    Open,
    Password(&'static str),
}

/// What one sweep of the networks asks for next.
#[derive(Debug, Clone, Copy)]
pub enum SweepAction {
    /// Set the radio up for a network.
    Configure { ssid: &'static str, auth: Auth },
    /// Associate, for as long as [`CONNECT_TIMEOUT`] allows.
    Connect,
    /// Wait for a lease, for as long as [`DHCP_TIMEOUT`] allows.
    AwaitLease,
    /// Leave the radio idle before setting it up for the next network.
    Disconnect,
    /// The network that led all the way to an address, if any did.
    Done(Option<(&'static str, [u8; 4])>),
}

/// What came of it.
#[derive(Debug)]
pub enum SweepEvent {
    /// Whether the radio took the setup.
    Configured(bool),
    /// The name of the network the radio ended up on, or `None` where it failed or timed out.
    /// That is not always the one just asked for: an attempt that timed out is abandoned, not
    /// cancelled, and may still come about later.
    Associated(Option<Vec<u8>>),
    /// The address leased, or `None` where the wait timed out or brought no IPv4 address.
    Leased(Option<[u8; 4]>),
    Disconnected,
}

/// What a sweep waits to hear.
#[derive(Debug, Clone, Copy)]
pub enum Stage {
    Configuring,
    Connecting,
    /// On this network.
    Leasing(&'static str),
    Disconnecting,
    Over,
}

/// One sweep of the configured networks.
#[derive(Debug)]
pub struct Sweep {
    pub networks: Vec<(&'static str, &'static str)>,
    pub at: usize,
    pub stage: Stage,
}

/// How to set up for the network at `at`, or the end of the sweep past the last one.
pub open spec fn setup(networks: Seq<(&'static str, &'static str)>, at: int) -> (Stage, SweepAction) {
    if at < networks.len() {
        let (ssid, password) = networks[at];
        (
            Stage::Configuring,
            SweepAction::Configure {
                ssid,
                auth: if password@.len() == 0 {
                    Auth::Open
                } else {
                    Auth::Password(password)
                },
            },
        )
    } else {
        (Stage::Over, SweepAction::Done(None))
    }
}

/// Whether an event answers what a sweep waits for.
pub open spec fn answers(stage: Stage, event: SweepEvent) -> bool {
    match (stage, event) {
        (Stage::Configuring, SweepEvent::Configured(_)) => true,
        (Stage::Connecting, SweepEvent::Associated(_)) => true,
        (Stage::Leasing(_), SweepEvent::Leased(_)) => true,
        (Stage::Disconnecting, SweepEvent::Disconnected) => true,
        _ => false,
    }
}

/// Where a sweep stands after an event, and what it asks for then.
pub open spec fn swept(
    networks: Seq<(&'static str, &'static str)>,
    at: int,
    stage: Stage,
    event: SweepEvent,
) -> (int, Stage, SweepAction) {
    match (stage, event) {
        (Stage::Configuring, SweepEvent::Configured(true)) => (
            at,
            Stage::Connecting,
            SweepAction::Connect,
        ),
        (Stage::Connecting, SweepEvent::Associated(Some(connected))) => match configured_name(
            networks,
            connected@,
        ) {
            Some(actual) => (at, Stage::Leasing(actual), SweepAction::AwaitLease),
            None => (at, Stage::Disconnecting, SweepAction::Disconnect),
        },
        (Stage::Leasing(actual), SweepEvent::Leased(Some(ip))) => (
            at,
            Stage::Over,
            SweepAction::Done(Some((actual, ip))),
        ),
        (Stage::Connecting, _) | (Stage::Leasing(_), _) => (
            at,
            Stage::Disconnecting,
            SweepAction::Disconnect,
        ),
        _ => (at + 1, setup(networks, at + 1).0, setup(networks, at + 1).1),
    }
}

impl Sweep {
    /// Only a sweep that is over is past the last network.
    pub open spec fn wf(&self) -> bool {
        &&& self.at <= self.networks@.len()
        &&& !(self.stage is Over) ==> self.at < self.networks@.len()
    }

    fn configure(&self) -> (next: (Stage, SweepAction))
        requires
            self.at <= self.networks@.len(),
        ensures
            next == setup(self.networks@, self.at as int),
    {
        if self.at < self.networks.len() {
            let (ssid, password) = self.networks[self.at];
            let auth = if password.is_empty() {
                Auth::Open
            } else {
                Auth::Password(password)
            };
            (Stage::Configuring, SweepAction::Configure { ssid, auth })
        } else {
            (Stage::Over, SweepAction::Done(None))
        }
    }

    /// Starts with the first network.
    pub fn start(networks: Vec<(&'static str, &'static str)>) -> (begun: (Sweep, SweepAction))
        ensures
            begun.0.wf(),
            begun.0.networks == networks,
            begun.0.at == 0,
            (begun.0.stage, begun.1) == setup(networks@, 0),
    {
        let mut sweep = Sweep { networks, at: 0, stage: Stage::Over };
        let (stage, action) = sweep.configure();
        sweep.stage = stage;
        (sweep, action)
    }

    /// What to do next. A network that does not work out is left behind: one whose setup is
    /// refused at once, any other once the radio is idle again. Which network it is goes by what
    /// the radio says, not by what was asked for.
    pub fn on_event(&mut self, event: SweepEvent) -> (action: SweepAction)
        requires
            old(self).wf(),
            answers(old(self).stage, event),
        ensures
            final(self).wf(),
            final(self).networks == old(self).networks,
            (final(self).at as int, final(self).stage, action) == swept(
                old(self).networks@,
                old(self).at as int,
                old(self).stage,
                event,
            ),
    {
        match event {
            SweepEvent::Configured(true) => {
                self.stage = Stage::Connecting;
                SweepAction::Connect
            },
            SweepEvent::Associated(Some(connected)) => match configured_as(
                &self.networks,
                &connected,
            ) {
                Some(actual) => {
                    self.stage = Stage::Leasing(actual);
                    SweepAction::AwaitLease
                },
                None => {
                    self.stage = Stage::Disconnecting;
                    SweepAction::Disconnect
                },
            },
            SweepEvent::Leased(Some(ip)) => match self.stage {
                Stage::Leasing(actual) => {
                    self.stage = Stage::Over;
                    SweepAction::Done(Some((actual, ip)))
                },
                _ => SweepAction::Disconnect,
            },
            SweepEvent::Associated(None) | SweepEvent::Leased(None) => {
                self.stage = Stage::Disconnecting;
                SweepAction::Disconnect
            },
            SweepEvent::Configured(false) | SweepEvent::Disconnected => {
                assert(self.at < self.networks.len());
                self.at = self.at + 1;
                let (stage, action) = self.configure();
                self.stage = stage;
                action
            },
        }
    }
}

/// Whether an event is of the kind that a request asks for.
pub open spec fn replies(action: SweepAction, event: SweepEvent) -> bool {
    match action {
        SweepAction::Configure { .. } => event is Configured,
        SweepAction::Connect => event is Associated,
        SweepAction::AwaitLease => event is Leased,
        SweepAction::Disconnect => event is Disconnected,
        SweepAction::Done(_) => false,
    }
}

/// Whoever answers each request of a sweep with an event of the kind asked for always tells it
/// what it waits to hear, from the first request on; and a sweep is over exactly when it says so.
pub proof fn law_requests_are_answerable(
    networks: Seq<(&'static str, &'static str)>,
    at: int,
    stage: Stage,
    event: SweepEvent,
    reply: SweepEvent,
)
    requires
        answers(stage, event),
    ensures
        replies(setup(networks, 0).1, reply) <==> answers(setup(networks, 0).0, reply),
        setup(networks, 0).1 is Done <==> setup(networks, 0).0 is Over,
        ({
            let (_, next, action) = swept(networks, at, stage, event);
            &&& replies(action, reply) <==> answers(next, reply)
            &&& action is Done <==> next is Over
        }),
{
}

/// What would come of trying one network.
pub struct Attempt {
    pub accepted: bool,
    pub associated: Option<Vec<u8>>,
    pub lease: Option<[u8; 4]>,
}

impl Attempt {
    pub open spec fn answer(self, action: SweepAction) -> SweepEvent {
        match action {
            SweepAction::Configure { .. } => SweepEvent::Configured(self.accepted),
            SweepAction::Connect => SweepEvent::Associated(self.associated),
            SweepAction::AwaitLease => SweepEvent::Leased(self.lease),
            _ => SweepEvent::Disconnected,
        }
    }

    /// The network and the address that the attempt leads to, if it goes all the way.
    pub open spec fn works_out(self, networks: Seq<(&'static str, &'static str)>) -> Option<
        (&'static str, [u8; 4]),
    > {
        match (self.associated, self.lease) {
            (Some(connected), Some(ip)) => match configured_name(networks, connected@) {
                Some(actual) => if self.accepted {
                    Some((actual, ip))
                } else {
                    None
                },
                None => None,
            },
            _ => None,
        }
    }
}

/// What a sweep asks for once `steps` of its requests have been answered.
pub open spec fn played(
    networks: Seq<(&'static str, &'static str)>,
    attempts: Seq<Attempt>,
    at: int,
    stage: Stage,
    action: SweepAction,
    steps: nat,
) -> SweepAction
    decreases steps,
{
    if steps == 0 || action is Done {
        action
    } else {
        let (at, stage, action) = swept(networks, at, stage, attempts[at].answer(action));
        played(networks, attempts, at, stage, action, (steps - 1) as nat)
    }
}

/// What the first attempt that works out leads to, from `at` on.
pub open spec fn first_working(
    networks: Seq<(&'static str, &'static str)>,
    attempts: Seq<Attempt>,
    at: int,
) -> Option<(&'static str, [u8; 4])>
    decreases attempts.len() - at,
{
    if at < 0 || at >= attempts.len() {
        None
    } else {
        match attempts[at].works_out(networks) {
            Some(found) => Some(found),
            None => first_working(networks, attempts, at + 1),
        }
    }
}

/// The first network that both associates and gets a lease wins; every other one before it is
/// tried once, and a sweep ends within four requests for each network.
pub proof fn law_first_working_network_wins(
    networks: Seq<(&'static str, &'static str)>,
    attempts: Seq<Attempt>,
)
    requires
        attempts.len() == networks.len(),
    ensures
        ({
            let (stage, action) = setup(networks, 0);
            played(networks, attempts, 0, stage, action, 4 * networks.len()) == SweepAction::Done(
                first_working(networks, attempts, 0),
            )
        }),
{
    lemma_played(networks, attempts, 0, 4 * networks.len());
}

proof fn lemma_played(
    networks: Seq<(&'static str, &'static str)>,
    attempts: Seq<Attempt>,
    at: int,
    steps: nat,
)
    requires
        attempts.len() == networks.len(),
        0 <= at <= networks.len(),
        steps >= 4 * (networks.len() - at),
    ensures
        ({
            let (stage, action) = setup(networks, at);
            played(networks, attempts, at, stage, action, steps) == SweepAction::Done(
                first_working(networks, attempts, at),
            )
        }),
    decreases networks.len() - at,
{
    reveal_with_fuel(played, 5);
    if at < networks.len() {
        let attempt = attempts[at];
        if !attempt.accepted {
            lemma_played(networks, attempts, at + 1, (steps - 1) as nat);
        } else if attempt.associated is None || configured_name(
            networks,
            attempt.associated->0@,
        ) is None {
            lemma_played(networks, attempts, at + 1, (steps - 3) as nat);
        } else if attempt.lease is None {
            lemma_played(networks, attempts, at + 1, (steps - 4) as nat);
        }
    }
}

/// A sweep comes back with nothing exactly where no network works out.
pub proof fn law_sweep_gives_up_last(
    networks: Seq<(&'static str, &'static str)>,
    attempts: Seq<Attempt>,
    at: int,
)
    requires
        0 <= at,
    ensures
        first_working(networks, attempts, at) is None <==> forall|i: int|
            at <= i < attempts.len() ==> (#[trigger] attempts[i]).works_out(networks) is None,
    decreases attempts.len() - at,
{
    if at < attempts.len() {
        law_sweep_gives_up_last(networks, attempts, at + 1);
        assert(first_working(networks, attempts, at) is None <==> attempts[at].works_out(networks)
            is None && first_working(networks, attempts, at + 1) is None);
    }
}

/// Something the station shows or says.
#[derive(Debug, Clone, Copy)]
pub enum Effect {
    Publish(WifiState),
    Led(LedCmd),
}

/// What the station does after its effects.
#[derive(Debug, Clone, Copy)]
pub enum Next {
    /// Nothing, ever: letting go of the radio would take it down under the interface.
    Park,
    Sweep,
    AwaitLoss,
    Sleep(Duration),
}

/// What the station hears.
#[derive(Debug, Clone, Copy)]
pub enum StationEvent {
    /// Power-up, and whether any network is configured.
    Boot(bool),
    Slept,
    /// What a sweep came back with.
    Swept(Option<(&'static str, [u8; 4])>),
    /// The connection is gone.
    Lost,
}

/// The station between two events.
#[derive(Debug, Clone, Copy)]
pub struct Station {
    /// How long to wait after the next exhausted sweep.
    pub backoff: Duration,
}

impl Station {
    pub open spec fn wf(self) -> bool {
        self.backoff.ticks <= RETRY_MAX * TICKS_PER_SEC
    }

    pub open spec fn effects(self, event: StationEvent) -> Seq<Effect> {
        match event {
            StationEvent::Boot(false) => seq![
                Effect::Publish(WifiState::Failed),
                Effect::Led(LedCmd::rgb(Rgb::red())),
            ],
            StationEvent::Boot(true) | StationEvent::Slept => seq![
                Effect::Publish(WifiState::Connecting),
                Effect::Led(LedCmd::status_blink_forever()),
            ],
            StationEvent::Swept(None) => seq![
                Effect::Publish(WifiState::Failed),
                Effect::Led(LedCmd::status(false)),
                Effect::Led(LedCmd::rgb(Rgb::red())),
            ],
            StationEvent::Swept(Some((ssid, ip))) => seq![
                Effect::Led(LedCmd::rgb(Rgb::off())),
                Effect::Led(LedCmd::status(false)),
                Effect::Publish(WifiState::Connected { ssid, ip }),
            ],
            StationEvent::Lost => seq![
                Effect::Publish(WifiState::Disconnected),
                Effect::Led(LedCmd::status(false)),
            ],
        }
    }

    pub open spec fn next(self, event: StationEvent) -> Next {
        match event {
            StationEvent::Boot(false) => Next::Park,
            StationEvent::Boot(true) | StationEvent::Slept => Next::Sweep,
            StationEvent::Swept(None) => Next::Sleep(self.backoff),
            StationEvent::Swept(Some(_)) => Next::AwaitLoss,
            StationEvent::Lost => Next::Sleep(time::secs(RECONNECT_DELAY)),
        }
    }

    pub open spec fn after(self, event: StationEvent) -> Station {
        match event {
            StationEvent::Swept(None) => Station {
                backoff: if 2 * self.backoff.ticks < RETRY_MAX * TICKS_PER_SEC {
                    Duration { ticks: (2 * self.backoff.ticks) as u64 }
                } else {
                    time::secs(RETRY_MAX)
                },
            },
            StationEvent::Swept(Some(_)) => Station::fresh(),
            _ => self,
        }
    }

    pub open spec fn fresh() -> Station {
        Station { backoff: time::secs(RETRY_MIN) }
    }

    pub fn new() -> (station: Station)
        ensures
            station == Station::fresh(),
            station.wf(),
    {
        Station { backoff: Duration::from_secs(RETRY_MIN) }
    }

    /// What to show and say, in this order, and what to do then.
    pub fn on_event(&mut self, event: StationEvent) -> (plan: (Vec<Effect>, Next))
        requires
            old(self).wf(),
        ensures
            final(self).wf(),
            *final(self) == old(self).after(event),
            plan.0@ == old(self).effects(event),
            plan.1 == old(self).next(event),
    {
        let mut effects: Vec<Effect> = Vec::new();
        match event {
            StationEvent::Boot(false) => {
                effects.push(Effect::Publish(WifiState::Failed));
                effects.push(Effect::Led(LedCmd::rgb(Rgb::red())));
                (effects, Next::Park)
            },
            StationEvent::Boot(true) | StationEvent::Slept => {
                effects.push(Effect::Publish(WifiState::Connecting));
                effects.push(Effect::Led(LedCmd::status_blink_forever()));
                (effects, Next::Sweep)
            },
            StationEvent::Swept(None) => {
                effects.push(Effect::Publish(WifiState::Failed));
                effects.push(Effect::Led(LedCmd::status(false)));
                effects.push(Effect::Led(LedCmd::rgb(Rgb::red())));
                let wait = self.backoff;
                let most = Duration::from_secs(RETRY_MAX);
                self.backoff = if 2 * wait.ticks < most.ticks {
                    Duration { ticks: 2 * wait.ticks }
                } else {
                    most
                };
                (effects, Next::Sleep(wait))
            },
            StationEvent::Swept(Some((ssid, ip))) => {
                self.backoff = Duration::from_secs(RETRY_MIN);
                effects.push(Effect::Led(LedCmd::rgb(Rgb::off())));
                effects.push(Effect::Led(LedCmd::status(false)));
                effects.push(Effect::Publish(WifiState::Connected { ssid, ip }));
                (effects, Next::AwaitLoss)
            },
            StationEvent::Lost => {
                effects.push(Effect::Publish(WifiState::Disconnected));
                effects.push(Effect::Led(LedCmd::status(false)));
                (effects, Next::Sleep(Duration::from_secs(RECONNECT_DELAY)))
            },
        }
    }

    /// The station after `n` exhausted sweeps in a row.
    pub open spec fn failed(self, n: nat) -> Station
        decreases n,
    {
        if n == 0 {
            self
        } else {
            self.failed((n - 1) as nat).after(StationEvent::Slept).after(StationEvent::Swept(None))
        }
    }
}

/// After `n` exhausted sweeps in a row the next one is followed by a wait of 30 seconds doubled
/// `n` times, but of five minutes at most.
pub proof fn law_backoff_doubles(n: nat)
    ensures
        ({
            let doubled = RETRY_MIN * vstd::arithmetic::power2::pow2(n);
            let seconds = if doubled < RETRY_MAX {
                doubled
            } else {
                RETRY_MAX as int
            };
            let station = Station::fresh().failed(n);
            &&& station.wf()
            &&& station.next(StationEvent::Swept(None)) matches Next::Sleep(wait)
            &&& wait.ticks == seconds * TICKS_PER_SEC
        }),
    decreases n,
{
    vstd::arithmetic::power2::lemma2_to64();
    if n > 0 {
        law_backoff_doubles((n - 1) as nat);
        vstd::arithmetic::power2::lemma_pow2_unfold(n);
    }
}

/// The station says that it is connected only with the network and the address that a sweep came
/// back with, and then waits for the loss of that connection.
pub proof fn law_connected_means_leased(station: Station, event: StationEvent, i: int)
    requires
        0 <= i < station.effects(event).len(),
        station.effects(event)[i] matches Effect::Publish(state) && state is Connected,
    ensures
        ({
            let state = station.effects(event)[i]->Publish_0;
            &&& event == StationEvent::Swept(Some((state->ssid, state->ip)))
            &&& station.next(event) == Next::AwaitLoss
        }),
{
}

/// A connection starts the waits over.
pub proof fn law_connection_resets_backoff(station: Station, ssid: &'static str, ip: [u8; 4])
    ensures
        station.after(StationEvent::Swept(Some((ssid, ip)))) == Station::fresh(),
{
}

/// Every sweep, and the station says so before it starts, follows power-up or a wait; without any
/// network there is never one.
pub proof fn law_sweeps_are_announced(station: Station, event: StationEvent)
    ensures
        station.next(event) == Next::Sweep ==> {
            &&& event is Slept || event == StationEvent::Boot(true)
            &&& station.effects(event)[0] == Effect::Publish(WifiState::Connecting)
        },
        station.next(StationEvent::Boot(false)) == Next::Park,
{
}

/// The radio keeps a name's bytes in order: all of them up to 32, and the first 32 of a longer
/// name.
pub proof fn law_stored_names(ssid: Seq<char>)
    ensures
        ({
            let bytes = vstd::utf8::encode_utf8(ssid);
            &&& bytes.len() <= 32 ==> stored(ssid) == bytes
            &&& bytes.len() > 32 ==> stored(ssid).len() == 32 && stored(ssid).is_prefix_of(bytes)
        }),
{
}

/// A connection that no entry is stored as belongs to none, and one that belongs to an entry
/// belongs to one that is stored that way.
pub proof fn law_unknown_networks_belong_to_none(
    networks: Seq<(&'static str, &'static str)>,
    connected: Seq<u8>,
)
    ensures
        configured_name(networks, connected) is None <==> forall|i: int|
            0 <= i < networks.len() ==> stored((#[trigger] networks[i]).0@) != connected,
        configured_name(networks, connected) matches Some(name) ==> exists|i: int|
            0 <= i < networks.len() && (#[trigger] networks[i]).0 == name && stored(name@)
                == connected,
{
    lemma_first_stored_range(networks, connected, 0);
    if exists|i: int| 0 <= i < networks.len() && stored((#[trigger] networks[i]).0@) == connected {
        let i = choose|i: int|
            0 <= i < networks.len() && stored((#[trigger] networks[i]).0@) == connected;
        lemma_first_stored(networks, connected, 0, i);
    }
}

proof fn lemma_first_stored_range(
    networks: Seq<(&'static str, &'static str)>,
    connected: Seq<u8>,
    at: int,
)
    requires
        0 <= at <= networks.len(),
    ensures
        ({
            let found = first_stored_as(networks, connected, at);
            &&& at <= found <= networks.len()
            &&& found < networks.len() ==> stored(networks[found].0@) == connected
        }),
    decreases networks.len() - at,
{
    if at < networks.len() && stored(networks[at].0@) != connected {
        lemma_first_stored_range(networks, connected, at + 1);
    }
}

/// Every network is set up with its own name and its own password, and as an open one exactly
/// where it has none; past the last one the sweep is over, with nothing found.
pub proof fn law_each_network_has_its_own_setup(
    networks: Seq<(&'static str, &'static str)>,
    i: int,
)
    requires
        0 <= i <= networks.len(),
    ensures
        i < networks.len() ==> {
            &&& setup(networks, i).0 is Configuring
            &&& setup(networks, i).1 matches SweepAction::Configure { ssid, auth }
            &&& ssid == networks[i].0
            &&& auth is Open <==> networks[i].1@.len() == 0
            &&& auth matches Auth::Password(password) ==> password == networks[i].1
        },
        i == networks.len() ==> {
            &&& setup(networks, i).0 is Over
            &&& setup(networks, i).1 == SweepAction::Done(None)
        },
{
}

/// A sweep goes from network to network, one at a time and in order: it moves on to the one right
/// after where a setup is refused, and otherwise only once the radio is idle.
pub proof fn law_networks_are_tried_in_order(
    networks: Seq<(&'static str, &'static str)>,
    at: int,
    stage: Stage,
    event: SweepEvent,
)
    requires
        answers(stage, event),
    ensures
        ({
            let (next, then, action) = swept(networks, at, stage, event);
            &&& next == at || next == at + 1
            &&& next == at + 1 <==> event == SweepEvent::Configured(false) || event is Disconnected
            &&& next == at + 1 ==> (then, action) == setup(networks, at + 1)
        }),
{
}

/// What a network has to get through: a setup that is taken leads to an association, one with a
/// configured network to the wait for a lease on that network, and a lease to the end of the
/// sweep with that network and that address. Failing at an association, with a network that is
/// not configured, or at a lease, leaves the radio to be made idle first.
pub proof fn law_steps_to_a_lease(
    networks: Seq<(&'static str, &'static str)>,
    at: int,
    connected: Vec<u8>,
    actual: &'static str,
    ip: [u8; 4],
)
    ensures
        swept(networks, at, Stage::Configuring, SweepEvent::Configured(true)) == (
            at,
            Stage::Connecting,
            SweepAction::Connect,
        ),
        configured_name(networks, connected@) matches Some(name) ==> swept(
            networks,
            at,
            Stage::Connecting,
            SweepEvent::Associated(Some(connected)),
        ) == (at, Stage::Leasing(name), SweepAction::AwaitLease),
        configured_name(networks, connected@) is None ==> swept(
            networks,
            at,
            Stage::Connecting,
            SweepEvent::Associated(Some(connected)),
        ) == (at, Stage::Disconnecting, SweepAction::Disconnect),
        swept(networks, at, Stage::Connecting, SweepEvent::Associated(None)) == (
            at,
            Stage::Disconnecting,
            SweepAction::Disconnect,
        ),
        swept(networks, at, Stage::Leasing(actual), SweepEvent::Leased(Some(ip))) == (
            at,
            Stage::Over,
            SweepAction::Done(Some((actual, ip))),
        ),
        swept(networks, at, Stage::Leasing(actual), SweepEvent::Leased(None)) == (
            at,
            Stage::Disconnecting,
            SweepAction::Disconnect,
        ),
{
}

/// An attempt works out exactly where the setup is taken, the radio ends up on a configured
/// network and a lease comes; it then leads to the network the radio is on, not the one asked for,
/// and to the address leased.
pub proof fn law_when_an_attempt_works_out(
    networks: Seq<(&'static str, &'static str)>,
    attempt: Attempt,
)
    ensures
        attempt.works_out(networks) is Some <==> {
            &&& attempt.accepted
            &&& attempt.associated is Some
            &&& configured_name(networks, attempt.associated->0@) is Some
            &&& attempt.lease is Some
        },
        attempt.works_out(networks) matches Some((name, ip)) ==> {
            &&& configured_name(networks, attempt.associated->0@) == Some(name)
            &&& attempt.lease == Some(ip)
        },
{
}

/// What the station shows: blinking blue while it sweeps, red with the blue light off when a sweep
/// found nothing, both lights off once connected, and the blue one off when the connection is
/// lost.
pub proof fn law_station_lights(station: Station, ssid: &'static str, ip: [u8; 4])
    ensures
        ({
            let blue_off = Effect::Led(LedCmd::Status(false, crate::led::Pattern::Solid));
            let red = Effect::Led(
                LedCmd::Rgb(Rgb { r: 32, g: 0, b: 0 }, crate::led::Pattern::Solid),
            );
            let dark = Effect::Led(
                LedCmd::Rgb(Rgb { r: 0, g: 0, b: 0 }, crate::led::Pattern::Solid),
            );
            let blinking = Effect::Led(
                LedCmd::Status(
                    true,
                    crate::led::Pattern::Blink {
                        on: Duration { ticks: 150_000 },
                        off: Duration { ticks: 150_000 },
                        count: None,
                    },
                ),
            );
            let sweeping = seq![Effect::Publish(WifiState::Connecting), blinking];
            &&& station.effects(StationEvent::Boot(true)) == sweeping
            &&& station.effects(StationEvent::Slept) == sweeping
            &&& station.effects(StationEvent::Boot(false)) == seq![
                Effect::Publish(WifiState::Failed),
                red,
            ]
            &&& station.effects(StationEvent::Swept(None)) == seq![
                Effect::Publish(WifiState::Failed),
                blue_off,
                red,
            ]
            &&& station.effects(StationEvent::Swept(Some((ssid, ip)))) == seq![
                dark,
                blue_off,
                Effect::Publish(WifiState::Connected { ssid, ip }),
            ]
            &&& station.effects(StationEvent::Lost) == seq![
                Effect::Publish(WifiState::Disconnected),
                blue_off,
            ]
        }),
{
}

/// What the station does next: it sweeps after power-up and after every wait, waits two seconds
/// after a loss and its backoff after an exhausted sweep, and only a sweep changes the backoff: to
/// half a minute where it found a network, and otherwise to twice as long, but five minutes at
/// most.
pub proof fn law_station_waits(station: Station, event: StationEvent)
    requires
        station.backoff.ticks <= 300_000_000,
    ensures
        event == StationEvent::Boot(true) || event is Slept ==> station.next(event) is Sweep,
        event == StationEvent::Boot(false) ==> station.next(event) is Park,
        event is Lost ==> station.next(event) == Next::Sleep(Duration { ticks: 2_000_000 }),
        event matches StationEvent::Swept(found) ==> {
            &&& found is None ==> station.next(event) == Next::Sleep(station.backoff)
            &&& found is Some ==> station.next(event) is AwaitLoss
            &&& found is Some ==> station.after(event).backoff.ticks == 30_000_000
            &&& found is None && station.backoff.ticks <= 150_000_000 ==> station.after(
                event,
            ).backoff.ticks == 2 * station.backoff.ticks
            &&& found is None && station.backoff.ticks > 150_000_000 ==> station.after(
                event,
            ).backoff.ticks == 300_000_000
        },
        !(event is Swept) ==> station.after(event) == station,
        Station::fresh().backoff.ticks == 30_000_000,
{
}

} // verus!
