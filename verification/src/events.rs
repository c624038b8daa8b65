//! What tasks tell each other, and an outbox with room for one message: the latest of the
//! loudest.

use embassy_sync::blocking_mutex::raw::CriticalSectionRawMutex;
use embassy_sync::signal::Signal;
use vstd::prelude::*;
pub use crate::env_pro::EnvData;
pub use crate::wifi::WifiState;

verus! {

#[derive(Debug)]
pub enum Event {
    ButtonUp,
    ButtonDown,
    Env(EnvData),
    Wifi(WifiState),
}

impl Clone for Event {
    fn clone(&self) -> (copy: Event)
        ensures
            copy == *self,
    {
        match self {
            Event::ButtonUp => Event::ButtonUp,
            Event::ButtonDown => Event::ButtonDown,
            Event::Env(env) => Event::Env(env.clone()),
            Event::Wifi(state) => Event::Wifi(*state),
        }
    }
}

impl From<WifiState> for Event {
    fn from(state: WifiState) -> (event: Event) {
        Event::Wifi(state)
    }
}

impl vstd::std_specs::convert::FromSpecImpl<WifiState> for Event {
    open spec fn obeys_from_spec() -> bool {
        true
    }

    open spec fn from_spec(state: WifiState) -> Event {
        Event::Wifi(state)
    }
}

/// How badly the device wants a message delivered. A transport reads its own settings off this:
/// how loudly to ring, how long to keep trying.
#[derive(Debug, Clone, Copy, PartialEq, Eq, Structural)]
pub enum Urgency {
    /// Must reach a person, and must not be dropped on the way there.
    Alarm,
    /// Worth having in the log, not worth waking anyone.
    Info,
    /// True only right now: better dropped than delivered late.
    Perishable,
}

impl Urgency {
    /// How hard the device tries; the higher of two wins the one slot they have to share.
    #[verifier::allow_in_spec]
    pub fn priority(self) -> (rank: u8)
        returns
            (match self {
                Urgency::Alarm => 2u8,
                Urgency::Info => 1u8,
                Urgency::Perishable => 0u8,
            }),
    {
        match self {
            Urgency::Alarm => 2,
            Urgency::Info => 1,
            Urgency::Perishable => 0,
        }
    }
}

/// Something for a person to read, for whichever notifier is fitted to deliver it.
///
/// Not an [`Event`]: the bus is lossy, and the one message worth sending is the one a slow
/// subscriber would lose.
#[derive(Debug)]
pub struct Notification {
    pub text: String,
    pub urgency: Urgency,
}

impl Notification {
    pub open spec fn outranks(self, other: Notification) -> bool {
        self.urgency.priority() >= other.urgency.priority()
    }

    pub fn alarm(text: String) -> (message: Notification)
        ensures
            message == (Notification { text, urgency: Urgency::Alarm }),
    {
        Notification { text, urgency: Urgency::Alarm }
    }

    pub fn info(text: String) -> (message: Notification)
        ensures
            message == (Notification { text, urgency: Urgency::Info }),
    {
        Notification { text, urgency: Urgency::Info }
    }

    pub fn perishable(text: String) -> (message: Notification)
        ensures
            message == (Notification { text, urgency: Urgency::Perishable }),
    {
        Notification { text, urgency: Urgency::Perishable }
    }

    /// Newest wins between equals, but a quieter message never displaces a louder one.
    pub fn supersedes(&self, other: &Notification) -> (r: bool)
        ensures
            r == self.outranks(*other),
    {
        self.urgency.priority() >= other.urgency.priority()
    }

    pub open spec fn kept(waiting: Option<Notification>, message: Notification) -> Notification {
        match waiting {
            Some(waiting) => if message.outranks(waiting) {
                message
            } else {
                waiting
            },
            None => message,
        }
    }

    /// What has to go for the one that is kept.
    pub open spec fn given_up(
        waiting: Option<Notification>,
        message: Notification,
    ) -> Option<Notification> {
        match waiting {
            Some(waiting) => if message.outranks(waiting) {
                Some(waiting)
            } else {
                Some(message)
            },
            None => None,
        }
    }

    /// The message to keep of two, and the one to drop.
    fn fit(waiting: Option<Notification>, message: Notification) -> (fitted: (
        Notification,
        Option<Notification>,
    ))
        ensures
            fitted.0 == Notification::kept(waiting, message),
            fitted.1 == Notification::given_up(waiting, message),
    {
        match waiting {
            Some(waiting) => if message.supersedes(&waiting) {
                (message, Some(waiting))
            } else {
                (waiting, Some(message))
            },
            None => (message, None),
        }
    }

    /// Fit two messages into one slot: the one that supersedes stays, the other is dropped.
    pub fn keep(waiting: Option<Notification>, message: Notification) -> (kept: Notification)
        ensures
            kept == Notification::kept(waiting, message),
    {
        Notification::fit(waiting, message).0
    }
}

/// The one message waiting to go out: an `embassy_sync` signal.
#[verifier::external_body]
pub struct Slot {
    signal: Signal<CriticalSectionRawMutex, Notification>,
}

/// What a slot holds: nothing, or one message.
pub uninterp spec fn held(slot: Slot) -> Seq<Notification>;

/// Calls `embassy_sync::signal::Signal::new`, which holds nothing.
#[verifier::external_body]
fn signal_new() -> (slot: Slot)
    ensures
        held(slot) == Seq::<Notification>::empty(),
{
    Slot { signal: Signal::new() }
}

/// Calls `embassy_sync::signal::Signal::try_take`, which takes out the value held, if there is
/// one, and never holds more than one.
#[verifier::external_body]
fn signal_try_take(slot: &mut Slot) -> (message: Option<Notification>)
    ensures
        message is None <==> held(*old(slot)).len() == 0,
        message matches Some(m) ==> held(*old(slot)) == seq![m],
        held(*final(slot)) == Seq::<Notification>::empty(),
{
    slot.signal.try_take()
}

/// Calls `embassy_sync::signal::Signal::signal`, after which the value given is the one held,
/// whatever was before.
#[verifier::external_body]
fn signal_signal(slot: &mut Slot, message: Notification)
    ensures
        held(*final(slot)) == seq![message],
{
    slot.signal.signal(message);
}

impl Slot {
    /// The message held, if any.
    pub closed spec fn view(&self) -> Option<Notification> {
        if held(*self).len() > 0 {
            Some(held(*self)[0])
        } else {
            None
        }
    }

    pub fn new() -> (slot: Slot)
        ensures
            slot@ is None,
    {
        signal_new()
    }

    /// The notifier's end of [`notify`]: takes out the message to deliver, if there is one.
    pub fn take(&mut self) -> (message: Option<Notification>)
        ensures
            message == old(self)@,
            final(self)@ is None,
    {
        signal_try_take(self)
    }
}

/// Hand a message to the notifier. Never blocks, so the caller keeps serving the bus while a send
/// is parked on the network. Where two messages would wait, the one that has to go is given back.
pub fn notify(slot: &mut Slot, message: Notification) -> (dropped: Option<Notification>)
    ensures
        final(slot)@ == Some(Notification::kept(old(slot)@, message)),
        dropped == Notification::given_up(old(slot)@, message),
{
    let waiting = signal_try_take(slot);
    let (kept, dropped) = Notification::fit(waiting, message);
    signal_signal(slot, kept);
    dropped
}

/// What an empty slot holds once messages have been handed in one after the other.
pub open spec fn handed_in(messages: Seq<Notification>) -> Option<Notification>
    decreases messages.len(),
{
    if messages.len() == 0 {
        None
    } else {
        Some(Notification::kept(handed_in(messages.drop_last()), messages.last()))
    }
}

/// Whichever messages are handed in, the one that waits in the end is the latest of the loudest.
pub proof fn law_latest_of_the_loudest_waits(messages: Seq<Notification>)
    requires
        messages.len() > 0,
    ensures
        exists|i: int|
            #![trigger messages[i]]
            0 <= i < messages.len() && handed_in(messages) == Some(messages[i]) && (forall|j: int|
                0 <= j < messages.len() ==> messages[i].outranks(#[trigger] messages[j])) && (forall|
                j: int,
            |
                i < j < messages.len() ==> !(#[trigger] messages[j]).outranks(messages[i])),
    decreases messages.len(),
{
    let last = messages.len() - 1;
    let before = messages.drop_last();
    if before.len() > 0 {
        law_latest_of_the_loudest_waits(before);
        let i = choose|i: int|
            #![trigger before[i]]
            0 <= i < before.len() && handed_in(before) == Some(before[i]) && (forall|j: int|
                0 <= j < before.len() ==> before[i].outranks(#[trigger] before[j])) && (forall|
                j: int,
            | i < j < before.len() ==> !(#[trigger] before[j]).outranks(before[i]));
        assert(forall|j: int| 0 <= j < before.len() ==> #[trigger] messages[j] == before[j]);
        if messages[last].outranks(before[i]) {
            assert(handed_in(messages) == Some(messages[last]));
        } else {
            assert(handed_in(messages) == Some(messages[i]));
        }
    } else {
        assert(handed_in(messages) == Some(messages[last]));
    }
}

/// An alarm outranks an info, which outranks what is perishable; equals outrank each other.
pub proof fn law_ranks(a: Notification, b: Notification)
    ensures
        a.urgency == Urgency::Alarm ==> a.outranks(b),
        b.urgency == Urgency::Perishable ==> a.outranks(b),
        a.urgency == b.urgency ==> a.outranks(b),
        a.urgency != Urgency::Alarm && b.urgency == Urgency::Alarm ==> !a.outranks(b),
        a.urgency == Urgency::Perishable && b.urgency != Urgency::Perishable ==> !a.outranks(b),
        Urgency::Alarm.priority() > Urgency::Info.priority() > Urgency::Perishable.priority(),
{
}

/// Nothing is lost without being given back: of two messages one is kept and the other given up,
/// and the newer one is kept unless it is the quieter.
pub proof fn law_one_is_kept_the_other_given_up(waiting: Notification, message: Notification)
    ensures
        ({
            let kept = Notification::kept(Some(waiting), message);
            let gone = Notification::given_up(Some(waiting), message);
            ||| kept == message && gone == Some(waiting)
            ||| kept == waiting && gone == Some(message)
        }),
        message.urgency == waiting.urgency || message.urgency == Urgency::Alarm || waiting.urgency
            == Urgency::Perishable ==> Notification::kept(Some(waiting), message) == message,
        message.urgency != Urgency::Alarm && waiting.urgency == Urgency::Alarm ||
            message.urgency == Urgency::Perishable && waiting.urgency == Urgency::Info
            ==> Notification::kept(Some(waiting), message) == waiting,
        Notification::kept(None, message) == message,
        Notification::given_up(None, message) is None,
{
}

} // verus!
