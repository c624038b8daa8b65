//! The outbox anything upstream drops a [`Notification`] into, and the rules by which it gets
//! delivered.
//!
//! What to say and when was decided upstream; this module only knows how to say it: wait for the
//! link, send, retry, report the outcome on the LED.
//!
//! The outbox is a max-heap keyed on [`Urgency`] and then on arrival, so an alarm queued behind
//! an info goes out first and two equally urgent messages keep their order. When it is full the
//! quietest, oldest message it holds goes, which may be the one being queued.
//!
//! One message is in flight at a time and keeps its retry budget. A louder one arriving while
//! that message waits, for the link or for its next attempt, takes the link instead: the waiting
//! message goes back in the outbox, keeping its place in the order but not its budget.

use core::cmp::Ordering;
use embassy_sync::blocking_mutex::raw::CriticalSectionRawMutex;
use embassy_sync::priority_channel::{Max, PriorityChannel};
use vstd::multiset::Multiset;
use vstd::prelude::*;
use crate::config::Config;
use crate::led::{LedCmd, Rgb};
use crate::time::{self, Duration};

verus! {

broadcast use vstd::multiset::group_multiset_axioms, vstd::seq_lib::group_to_multiset_ensures;

/// Declared quietest first: this order *is* the outbox's priority rule.
#[derive(Debug, Clone, Copy, PartialEq, Eq, PartialOrd, Ord, Structural)]
pub enum Urgency {
    /// True only right now: better dropped than delivered late.
    Perishable,
    /// Worth having in the log, not worth waking anyone.
    Info,
    /// Must reach a person, and must not be dropped on the way there.
    Alarm,
}

impl Urgency {
    /// The place in the order, quietest first.
    #[verifier::allow_in_spec]
    pub fn loudness(self) -> (rank: u8)
        returns
            (match self {
                Urgency::Perishable => 0u8,
                Urgency::Info => 1u8,
                Urgency::Alarm => 2u8,
            }),
    {
        match self {
            Urgency::Perishable => 0,
            Urgency::Info => 1,
            Urgency::Alarm => 2,
        }
    }
}

/// Something for a person to read.
#[derive(Debug)]
pub struct Notification {
    pub text: String,
    pub urgency: Urgency,
    /// Means nothing until [`notify`] stamps it, which is where the order begins.
    pub seq: u32,
}

/// Whether one key stands below another: by the first part, then by the second.
pub open spec fn below(a: (u8, u32), b: (u8, u32)) -> bool {
    a.0 < b.0 || (a.0 == b.0 && a.1 < b.1)
}

impl Notification {
    /// What the outbox orders a message by: loudest first, then earliest.
    pub open spec fn key_of(self) -> (u8, u32) {
        (self.urgency.loudness(), (u32::MAX - self.seq) as u32)
    }

    /// Whether `self` is to go before `other` where there is no room for both: the quieter of
    /// the two, and of two equals the older.
    pub open spec fn expendable_before(self, other: Notification) -> bool {
        ||| self.urgency.loudness() < other.urgency.loudness()
        ||| self.urgency.loudness() == other.urgency.loudness() && self.seq < other.seq
    }

    fn new(text: String, urgency: Urgency) -> (message: Notification)
        ensures
            message == (Notification { text, urgency, seq: 0 }),
    {
        Notification { text, urgency, seq: 0 }
    }

    pub fn alarm(text: String) -> (message: Notification)
        ensures
            message == (Notification { text, urgency: Urgency::Alarm, seq: 0 }),
    {
        Notification::new(text, Urgency::Alarm)
    }

    pub fn info(text: String) -> (message: Notification)
        ensures
            message == (Notification { text, urgency: Urgency::Info, seq: 0 }),
    {
        Notification::new(text, Urgency::Info)
    }

    pub fn perishable(text: String) -> (message: Notification)
        ensures
            message == (Notification { text, urgency: Urgency::Perishable, seq: 0 }),
    {
        Notification::new(text, Urgency::Perishable)
    }

    fn key(&self) -> (key: (u8, u32))
        ensures
            key == self.key_of(),
    {
        (self.urgency.loudness(), u32::MAX - self.seq)
    }

    fn has_key(&self, key: (u8, u32)) -> (r: bool)
        ensures
            r == (self.key_of() == key),
    {
        self.urgency.loudness() == key.0 && u32::MAX - self.seq == key.1
    }

    fn goes_before(&self, other: &Notification) -> (r: bool)
        ensures
            r == self.expendable_before(*other),
    {
        let mine: u8 = self.urgency.loudness();
        let theirs: u8 = other.urgency.loudness();
        mine < theirs || (mine == theirs && self.seq < other.seq)
    }
}

impl Clone for Notification {
    fn clone(&self) -> (copy: Notification)
        ensures
            copy == *self,
    {
        Notification { text: self.text.clone(), urgency: self.urgency, seq: self.seq }
    }
}

impl PartialEq for Notification {
    fn eq(&self, other: &Notification) -> (equal: bool) {
        self.urgency == other.urgency && self.seq == other.seq
    }
}

impl vstd::std_specs::cmp::PartialEqSpecImpl for Notification {
    open spec fn obeys_eq_spec() -> bool {
        true
    }

    open spec fn eq_spec(&self, other: &Notification) -> bool {
        self.urgency == other.urgency && self.seq == other.seq
    }
}

impl Eq for Notification {

}

/// Loudest first, then earliest.
impl PartialOrd for Notification {
    fn partial_cmp(&self, other: &Notification) -> (order: Option<Ordering>) {
        let mine: u8 = self.urgency.loudness();
        let theirs: u8 = other.urgency.loudness();
        if mine < theirs || (mine == theirs && self.seq > other.seq) {
            Some(Ordering::Less)
        } else if mine > theirs || (mine == theirs && self.seq < other.seq) {
            Some(Ordering::Greater)
        } else {
            Some(Ordering::Equal)
        }
    }
}

impl vstd::std_specs::cmp::PartialOrdSpecImpl for Notification {
    open spec fn obeys_partial_cmp_spec() -> bool {
        true
    }

    open spec fn partial_cmp_spec(&self, other: &Notification) -> Option<Ordering> {
        if below(self.key_of(), other.key_of()) {
            Some(Ordering::Less)
        } else if below(other.key_of(), self.key_of()) {
            Some(Ordering::Greater)
        } else {
            Some(Ordering::Equal)
        }
    }
}

/// Messages compare equal exactly when neither goes out before the other, and the order is
/// total and transitive.
pub proof fn law_order(a: Notification, b: Notification, c: Notification)
    ensures
        (!below(a.key_of(), b.key_of()) && !below(b.key_of(), a.key_of())) <==> (a.urgency
            == b.urgency && a.seq == b.seq),
        !(below(a.key_of(), b.key_of()) && below(b.key_of(), a.key_of())),
        below(a.key_of(), b.key_of()) && below(b.key_of(), c.key_of()) ==> below(
            a.key_of(),
            c.key_of(),
        ),
{
}

/// One message in flight and a few waiting is already more than a link this slow can spend.
pub const DEPTH: usize = 4;

/// The keys of the messages that wait: an `embassy_sync` priority channel.
#[verifier::external_body]
pub struct Keys {
    channel: PriorityChannel<CriticalSectionRawMutex, (u8, u32), Max, 4>,
}

/// What a channel of keys holds.
pub uninterp spec fn queued(keys: Keys) -> Multiset<(u8, u32)>;

/// Calls `embassy_sync::priority_channel::PriorityChannel::new`, which holds nothing.
#[verifier::external_body]
fn keys_new() -> (keys: Keys)
    ensures
        queued(keys) == Multiset::<(u8, u32)>::empty(),
{
    Keys { channel: PriorityChannel::new() }
}

/// Calls `embassy_sync::priority_channel::PriorityChannel::try_send`, which takes a value as long
/// as there is room and otherwise leaves the channel as it is.
#[verifier::external_body]
fn keys_try_send(keys: &mut Keys, key: (u8, u32)) -> (taken: bool)
    ensures
        taken == (queued(*old(keys)).len() < DEPTH),
        queued(*final(keys)) == (if queued(*old(keys)).len() < DEPTH {
            queued(*old(keys)).insert(key)
        } else {
            queued(*old(keys))
        }),
{
    keys.channel.try_send(key).is_ok()
}

/// Calls `embassy_sync::priority_channel::PriorityChannel::try_receive`, which takes out a value
/// that none of the others is above; tuples compare part by part.
#[verifier::external_body]
fn keys_try_receive(keys: &mut Keys) -> (key: Option<(u8, u32)>)
    ensures
        key is None <==> queued(*old(keys)).len() == 0,
        key is None ==> queued(*final(keys)) == queued(*old(keys)),
        key matches Some(k) ==> {
            &&& queued(*old(keys)).contains(k)
            &&& forall|other: (u8, u32)| #[trigger]
                queued(*old(keys)).contains(other) ==> !below(k, other)
            &&& queued(*final(keys)) == queued(*old(keys)).remove(k)
        },
{
    keys.channel.try_receive().ok()
}

/// Calls `embassy_sync::priority_channel::PriorityChannel::try_peek`, which copies the value that
/// would come out next.
#[verifier::external_body]
fn keys_try_peek(keys: &Keys) -> (key: Option<(u8, u32)>)
    ensures
        key is None <==> queued(*keys).len() == 0,
        key matches Some(k) ==> {
            &&& queued(*keys).contains(k)
            &&& forall|other: (u8, u32)| #[trigger]
                queued(*keys).contains(other) ==> !below(k, other)
        },
{
    keys.channel.try_peek().ok()
}

/// The keys of a list of messages.
pub open spec fn keys_of(messages: Seq<Notification>) -> Multiset<(u8, u32)> {
    messages.map_values(|message: Notification| message.key_of()).to_multiset()
}

/// Whether `message` is to be delivered before all the rest.
pub open spec fn goes_first(messages: Multiset<Notification>, message: Notification) -> bool {
    &&& messages.contains(message)
    &&& forall|other: Notification| #[trigger]
        messages.contains(other) ==> !below(message.key_of(), other.key_of())
}

/// Whether `message` is the least worthwhile of all: the quietest, and of those the oldest.
pub open spec fn least_worthwhile(messages: Multiset<Notification>, message: Notification) -> bool {
    &&& messages.contains(message)
    &&& forall|other: Notification| #[trigger]
        messages.contains(other) ==> !other.expendable_before(message)
}

/// Whether queuing `message` leads from `before` to `after`: it goes in where there is room, and
/// otherwise the least worthwhile of all makes room and is given back.
pub open spec fn takes_in(
    before: Multiset<Notification>,
    message: Notification,
    after: Multiset<Notification>,
    dropped: Option<Notification>,
) -> bool {
    if before.len() < DEPTH {
        dropped is None && after == before.insert(message)
    } else {
        &&& dropped matches Some(gone)
        &&& least_worthwhile(before.insert(message), gone)
        &&& after == before.insert(message).remove(gone)
    }
}

/// The messages that wait to be sent.
pub struct Outbox {
    keys: Keys,
    held: Vec<Notification>,
    /// Stamped on every message the outbox takes, so equal urgencies keep the order spoken in.
    seq: u32,
}

impl Outbox {
    pub closed spec fn view(&self) -> Multiset<Notification> {
        self.held@.to_multiset()
    }

    /// The number the next message gets.
    pub closed spec fn next_seq(&self) -> u32 {
        self.seq
    }

    /// Every message held has its key in the channel, and there are no more than fit.
    pub closed spec fn wf(&self) -> bool {
        &&& queued(self.keys) == keys_of(self.held@)
        &&& self.held@.len() <= DEPTH
    }

    pub fn new() -> (outbox: Outbox)
        ensures
            outbox.wf(),
            outbox@ == Multiset::<Notification>::empty(),
            outbox.next_seq() == 0,
    {
        let outbox = Outbox { keys: keys_new(), held: Vec::new(), seq: 0 };
        proof {
            assert(outbox.held@.to_multiset() =~= Multiset::<Notification>::empty());
            assert(keys_of(outbox.held@) =~= Multiset::<(u8, u32)>::empty());
        }
        outbox
    }

    /// Queues `message`, losing the least worthwhile in hand, possibly `message` itself, where
    /// there is no room; that one is given back.
    pub fn enqueue(&mut self, message: Notification) -> (dropped: Option<Notification>)
        requires
            old(self).wf(),
        ensures
            final(self).wf(),
            final(self).next_seq() == old(self).next_seq(),
            takes_in(old(self)@, message, final(self)@, dropped),
    {
        proof {
            lemma_keys_push(self.held@, message);
        }
        if keys_try_send(&mut self.keys, message.key()) {
            self.held.push(message);
            return None;
        }
        loop
            invariant
                self.held@ == old(self).held@,
                self.seq == old(self).seq,
            ensures
                queued(self.keys).len() == 0,
            decreases queued(self.keys).len(),
        {
            if keys_try_receive(&mut self.keys).is_none() {
                break;
            }
        }
        self.held.push(message);
        let ghost all = self.held@;
        let worst: usize = least(&self.held);
        let dropped = self.held.remove(worst);
        let mut i: usize = 0;
        proof {
            assert(queued(self.keys) =~= keys_of(self.held@.take(0)));
        }
        while i < self.held.len()
            invariant
                i <= self.held@.len() == DEPTH,
                self.held@ == all.remove(worst as int),
                self.seq == old(self).seq,
                queued(self.keys) == keys_of(self.held@.take(i as int)),
            decreases self.held.len() - i,
        {
            proof {
                assert(self.held@.take(i + 1) == self.held@.take(i as int).push(
                    self.held@[i as int],
                ));
                lemma_keys_push(self.held@.take(i as int), self.held@[i as int]);
            }
            let key = self.held[i].key();
            let _ = keys_try_send(&mut self.keys, key);
            i = i + 1;
        }
        assert(self.held@.take(i as int) == self.held@);
        Some(dropped)
    }

    /// Takes out the message to send next.
    pub fn try_receive(&mut self) -> (message: Option<Notification>)
        requires
            old(self).wf(),
        ensures
            final(self).wf(),
            final(self).next_seq() == old(self).next_seq(),
            message is None <==> old(self)@.len() == 0,
            message is None ==> final(self)@ == old(self)@,
            message matches Some(m) ==> goes_first(old(self)@, m) && final(self)@
                == old(self)@.remove(m),
    {
        let ghost keys = self.held@.map_values(|message: Notification| message.key_of());
        match keys_try_receive(&mut self.keys) {
            None => None,
            Some(key) => {
                let mut i: usize = 0;
                assert(keys.contains(key));
                let ghost at = choose|k: int| 0 <= k < keys.len() && keys[k] == key;
                while !self.held[i].has_key(key)
                    invariant
                        i <= at < self.held@.len() <= DEPTH,
                        keys == self.held@.map_values(|message: Notification| message.key_of()),
                        keys[at] == key,
                        self.held@ == old(self).held@,
                        self.seq == old(self).seq,
                        queued(self.keys) == keys_of(self.held@).remove(key),
                    decreases at - i,
                {
                    i = i + 1;
                }
                let ghost held = self.held@;
                let message = self.held.remove(i);
                proof {
                    lemma_keys_remove(held, i as int);
                    assert(held.contains(message));
                    assert forall|other: Notification| #[trigger]
                        old(self)@.contains(other) implies !below(
                        message.key_of(),
                        other.key_of(),
                    ) by {
                        let k = choose|k: int| 0 <= k < held.len() && held[k] == other;
                        assert(keys[k] == other.key_of());
                        assert(keys.contains(other.key_of()));
                        assert(queued(old(self).keys).contains(other.key_of()));
                    }
                }
                Some(message)
            },
        }
    }

    /// Whether something more urgent than `urgency` waits.
    pub fn louder_than(&self, urgency: Urgency) -> (r: bool)
        requires
            self.wf(),
        ensures
            r == exists|other: Notification| #[trigger]
                self@.contains(other) && other.urgency.loudness() > urgency.loudness(),
    {
        let ghost keys = self.held@.map_values(|message: Notification| message.key_of());
        let next = keys_try_peek(&self.keys);
        proof {
            assert forall|other: Notification| #[trigger] self@.contains(other) implies next is Some
                && other.urgency.loudness() <= (next->0).0 by {
                assert(self.held@.contains(other));
                let k = choose|k: int| 0 <= k < self.held@.len() && self.held@[k] == other;
                assert(keys[k] == other.key_of());
                assert(keys.contains(other.key_of()));
                assert(queued(self.keys).contains(other.key_of()));
            }
            if let Some(key) = next {
                assert(keys.contains(key));
                let k = choose|k: int| 0 <= k < keys.len() && keys[k] == key;
                assert(self.held@.contains(self.held@[k]));
                assert(self@.contains(self.held@[k]));
            }
        }
        match next {
            Some(key) => key.0 > urgency.loudness(),
            None => false,
        }
    }
}

proof fn lemma_keys_push(messages: Seq<Notification>, message: Notification)
    ensures
        keys_of(messages.push(message)) == keys_of(messages).insert(message.key_of()),
        keys_of(messages).len() == messages.len(),
{
    let f = |message: Notification| message.key_of();
    assert(messages.push(message).map_values(f) == messages.map_values(f).push(message.key_of()));
}

proof fn lemma_keys_remove(messages: Seq<Notification>, i: int)
    requires
        0 <= i < messages.len(),
    ensures
        keys_of(messages.remove(i)) == keys_of(messages).remove(messages[i].key_of()),
{
    let f = |message: Notification| message.key_of();
    assert(messages.remove(i).map_values(f) == messages.map_values(f).remove(i));
}

/// Where the least worthwhile of some messages stands.
fn least(messages: &Vec<Notification>) -> (at: usize)
    requires
        messages@.len() > 0,
    ensures
        at < messages@.len(),
        least_worthwhile(messages@.to_multiset(), messages@[at as int]),
{
    let mut at: usize = 0;
    let mut i: usize = 1;
    while i < messages.len()
        invariant
            at < i <= messages@.len(),
            forall|k: int|
                0 <= k < i ==> !(#[trigger] messages@[k]).expendable_before(messages@[at as int]),
        decreases messages.len() - i,
    {
        if messages[i].goes_before(&messages[at]) {
            at = i;
        }
        i = i + 1;
    }
    proof {
        assert(messages@.contains(messages@[at as int]));
        assert forall|other: Notification| #[trigger]
            messages@.to_multiset().contains(other) implies !other.expendable_before(
            messages@[at as int],
        ) by {
            let k = choose|k: int| 0 <= k < messages@.len() && messages@[k] == other;
        }
    }
    at
}

/// Whether the notifier is set up.
pub open spec fn is_configured(config: Config) -> bool {
    config.telegram_token@.len() > 0 && config.telegram_chat_id@.len() > 0
}

/// A fresh clone builds with the notifier off, and nothing then drains the outbox.
pub fn configured(config: &Config) -> (r: bool)
    ensures
        r == is_configured(*config),
{
    !config.telegram_token.is_empty() && !config.telegram_chat_id.is_empty()
}

/// Whether handing `message` to the notifier leads from `before` to `after`: it is stamped and
/// queued, or given back as it is with the notifier off.
pub open spec fn notified(
    config: Config,
    before: Outbox,
    message: Notification,
    after: Outbox,
    dropped: Option<Notification>,
) -> bool {
    if is_configured(config) {
        let stamped = Notification { seq: before.next_seq(), ..message };
        &&& takes_in(before@, stamped, after@, dropped)
        &&& after.next_seq() == (if before.next_seq() == u32::MAX {
            0
        } else {
            before.next_seq() + 1
        })
    } else {
        &&& dropped == Some(message)
        &&& after@ == before@
        &&& after.next_seq() == before.next_seq()
    }
}

/// Hand a message to the notifier, which stamps it. Never blocks; what finds no room is given
/// back. With the notifier off the outbox must not fill, so the message itself is given back.
pub fn notify(outbox: &mut Outbox, config: &Config, message: Notification) -> (dropped: Option<
    Notification,
>)
    requires
        old(outbox).wf(),
    ensures
        final(outbox).wf(),
        notified(*config, *old(outbox), message, *final(outbox), dropped),
{
    if !configured(config) {
        return Some(message);
    }
    let seq: u32 = outbox.seq;
    outbox.seq = if seq == u32::MAX {
        0
    } else {
        seq + 1
    };
    outbox.enqueue(Notification { text: message.text, urgency: message.urgency, seq })
}

/// An outbox never holds more than it has room for.
pub proof fn law_outbox_is_bounded(outbox: Outbox)
    requires
        outbox.wf(),
    ensures
        outbox@.len() <= DEPTH,
{
}

/// A louder message goes out before a quieter one, whichever was queued first.
pub proof fn law_louder_goes_first(
    messages: Multiset<Notification>,
    loud: Notification,
    quiet: Notification,
)
    requires
        messages.contains(loud),
        loud.urgency.loudness() > quiet.urgency.loudness(),
    ensures
        !goes_first(messages, quiet),
{
    assert(below(quiet.key_of(), loud.key_of()));
}

/// Of two equally urgent messages the one stamped first goes out first.
pub proof fn law_equals_keep_their_order(
    messages: Multiset<Notification>,
    early: Notification,
    late: Notification,
)
    requires
        messages.contains(early),
        early.urgency == late.urgency,
        early.seq < late.seq,
    ensures
        !goes_first(messages, late),
{
    assert(below(late.key_of(), early.key_of()));
}

/// Whether every message held was stamped before the next one will be.
pub open spec fn stamped_before(messages: Multiset<Notification>, next: u32) -> bool {
    forall|message: Notification| #[trigger] messages.contains(message) ==> message.seq < next
}

/// As long as the stamps have not run out, a message just handed in goes out after every equally
/// urgent one already held, and the same will be true of the next.
pub proof fn law_latest_of_equals_goes_last(
    messages: Multiset<Notification>,
    next: u32,
    message: Notification,
    dropped: Option<Notification>,
)
    requires
        stamped_before(messages, next),
        next < u32::MAX,
        message.seq == next,
    ensures
        forall|held: Notification| #[trigger]
            messages.contains(held) && held.urgency == message.urgency ==> below(
                message.key_of(),
                held.key_of(),
            ),
        stamped_before(messages.insert(message), (next + 1) as u32),
        dropped is Some ==> stamped_before(
            messages.insert(message).remove(dropped->0),
            (next + 1) as u32,
        ),
{
    assert forall|other: Notification| #[trigger]
        messages.insert(message).contains(other) implies other.seq < next + 1 by {
        if other != message {
            assert(messages.contains(other));
        }
    }
    if let Some(gone) = dropped {
        assert forall|other: Notification| #[trigger]
            messages.insert(message).remove(gone).contains(other) implies other.seq < next + 1 by {
            assert(messages.insert(message).contains(other));
        }
    }
}

/// What has to make room is never louder than what stays: an alarm goes only where nothing but
/// alarms would be held, and then it is the oldest of them.
pub proof fn law_the_quietest_makes_room(
    messages: Multiset<Notification>,
    dropped: Notification,
    kept: Notification,
)
    requires
        least_worthwhile(messages, dropped),
        messages.remove(dropped).contains(kept),
    ensures
        dropped.urgency.loudness() <= kept.urgency.loudness(),
        dropped.urgency == Urgency::Alarm ==> kept.urgency == Urgency::Alarm,
        dropped.urgency == kept.urgency ==> dropped.seq <= kept.seq,
{
    assert(messages.contains(kept));
}

/// Whether taking out the first message again and again empties `messages` in this order.
pub open spec fn delivered_as(messages: Multiset<Notification>, order: Seq<Notification>) -> bool
    decreases order.len(),
{
    if order.len() == 0 {
        messages.len() == 0
    } else {
        goes_first(messages, order[0]) && delivered_as(
            messages.remove(order[0]),
            order.drop_first(),
        )
    }
}

/// Emptying the outbox delivers everything it held, loudest first, and equally urgent messages
/// in the order of their stamps.
pub proof fn law_delivery_order(messages: Multiset<Notification>, order: Seq<Notification>)
    requires
        delivered_as(messages, order),
    ensures
        order.to_multiset() == messages,
        forall|i: int, j: int|
            0 <= i < j < order.len() ==> {
                &&& (#[trigger] order[i]).urgency.loudness() >= (
                #[trigger] order[j]).urgency.loudness()
                &&& order[i].urgency == order[j].urgency ==> order[i].seq <= order[j].seq
            },
    decreases order.len(),
{
    if order.len() == 0 {
        assert(order.to_multiset() =~= messages);
    } else {
        let rest = order.drop_first();
        law_delivery_order(messages.remove(order[0]), rest);
        assert(order.remove(0) == rest);
        assert(order.to_multiset() =~= messages) by {
            assert(order.contains(order[0]));
            assert(rest.to_multiset() == order.to_multiset().remove(order[0]));
            assert(messages.remove(order[0]).insert(order[0]) =~= messages);
            assert(order.to_multiset().remove(order[0]).insert(order[0]) =~= order.to_multiset());
        }
        assert forall|i: int, j: int| 0 <= i < j < order.len() implies {
            &&& (#[trigger] order[i]).urgency.loudness() >= (
            #[trigger] order[j]).urgency.loudness()
            &&& order[i].urgency == order[j].urgency ==> order[i].seq <= order[j].seq
        } by {
            assert(order[j] == rest[j - 1]);
            if i == 0 {
                assert(rest.contains(order[j]));
                assert(messages.contains(order[j]));
            } else {
                assert(order[i] == rest[i - 1]);
            }
        }
    }
}

/// Seconds between the attempts at one message; the last one repeats.
pub const BACKOFF: [u64; 3] = [5, 15, 45];

/// Attempts past the first; an alarm gives up after a quarter of an hour so it cannot starve the
/// rest.
#[verifier::allow_in_spec]
pub fn retries(urgency: Urgency) -> (n: u8)
    returns
        (match urgency {
            Urgency::Alarm => 20u8,
            Urgency::Info => 3u8,
            Urgency::Perishable => 0u8,
        }),
{
    match urgency {
        Urgency::Alarm => 20,
        Urgency::Info => 3,
        Urgency::Perishable => 0,
    }
}

/// Whether a message is delivered as a badge, with no sound or vibration.
#[verifier::allow_in_spec]
pub fn disable_notification(urgency: Urgency) -> (r: bool)
    returns
        urgency != Urgency::Alarm,
{
    urgency != Urgency::Alarm
}

/// Seconds to wait after a number of retries.
pub open spec fn delay_after(attempts: u8) -> u64 {
    if attempts == 0 {
        5
    } else if attempts == 1 {
        15
    } else {
        45
    }
}

/// How long to wait before trying again, or `None` once the budget is spent.
pub fn backoff(attempts: &mut u8, urgency: Urgency) -> (delay: Option<Duration>)
    ensures
        delay == (if *old(attempts) < retries(urgency) {
            Some(time::secs(delay_after(*old(attempts))))
        } else {
            None
        }),
        *final(attempts) == (if *old(attempts) < retries(urgency) {
            *old(attempts) + 1
        } else {
            *old(attempts) as int
        }),
{
    if *attempts < retries(urgency) {
        let at: usize = if (*attempts as usize) < BACKOFF.len() - 1 {
            *attempts as usize
        } else {
            BACKOFF.len() - 1
        };
        let delay = Duration::from_secs(BACKOFF[at]);
        *attempts = *attempts + 1;
        Some(delay)
    } else {
        None
    }
}

/// The message being delivered, and how many retries it has used up.
#[derive(Debug)]
pub struct Flight {
    pub message: Notification,
    pub attempts: u8,
}

/// What follows from the state of the link.
#[derive(Debug)]
pub enum LinkStep {
    /// Send the message.
    Send(Flight),
    /// Wait for the link, unless something louder turns up first.
    Await(Flight),
    /// The link can stay down for hours; this message would arrive reading as current.
    Drop(Notification),
}

/// What follows from an attempt to send.
#[derive(Debug)]
pub enum SendStep {
    Done(Notification),
    /// Wait this long before the next attempt, unless something louder turns up first.
    Retry(Flight, Duration),
    GiveUp(Notification),
}

/// What follows from the end of a wait.
#[derive(Debug)]
pub enum WaitStep {
    /// Go on with the message, from the state of the link.
    Resume(Flight),
    /// The message is back in the outbox, which may have lost this one to make room.
    Yield(Option<Notification>),
}

impl Flight {
    pub open spec fn after_link(self, up: bool) -> LinkStep {
        if up {
            LinkStep::Send(self)
        } else if self.message.urgency == Urgency::Perishable {
            LinkStep::Drop(self.message)
        } else {
            LinkStep::Await(self)
        }
    }

    pub open spec fn after_send(self, sent: bool) -> SendStep {
        if sent {
            SendStep::Done(self.message)
        } else if self.attempts < retries(self.message.urgency) {
            SendStep::Retry(
                Flight { attempts: (self.attempts + 1) as u8, ..self },
                time::secs(delay_after(self.attempts)),
            )
        } else {
            SendStep::GiveUp(self.message)
        }
    }

    pub fn new(message: Notification) -> (flight: Flight)
        ensures
            flight == (Flight { message, attempts: 0 }),
    {
        Flight { message, attempts: 0 }
    }

    /// What to do with the link up or down.
    pub fn on_link(self, up: bool) -> (step: LinkStep)
        ensures
            step == self.after_link(up),
    {
        if up {
            LinkStep::Send(self)
        } else if self.message.urgency == Urgency::Perishable {
            LinkStep::Drop(self.message)
        } else {
            LinkStep::Await(self)
        }
    }

    /// What to do once an attempt has gone well or has not, and how to show it.
    pub fn on_sent(self, sent: bool) -> (step: (SendStep, LedCmd))
        ensures
            step.0 == self.after_send(sent),
            step.1 == (if sent {
                LedCmd::blink(Rgb::blue(), 1)
            } else {
                LedCmd::blink(Rgb::yellow(), 2)
            }),
    {
        if sent {
            return (SendStep::Done(self.message), LedCmd::blink(Rgb::blue(), 1));
        }
        let mut attempts: u8 = self.attempts;
        let next = match backoff(&mut attempts, self.message.urgency) {
            Some(delay) => SendStep::Retry(Flight { message: self.message, attempts }, delay),
            None => SendStep::GiveUp(self.message),
        };
        (next, LedCmd::blink(Rgb::yellow(), 2))
    }

    /// What to do at the end of a wait, which something louder may have cut short: then that has
    /// the link, and this message goes back where it came from, stamp and all.
    pub fn on_waited(self, preempted: bool, outbox: &mut Outbox) -> (step: WaitStep)
        requires
            old(outbox).wf(),
        ensures
            final(outbox).wf(),
            final(outbox).next_seq() == old(outbox).next_seq(),
            !preempted ==> step == WaitStep::Resume(self) && final(outbox)@ == old(outbox)@,
            preempted ==> {
                &&& step matches WaitStep::Yield(dropped)
                &&& takes_in(old(outbox)@, self.message, final(outbox)@, dropped)
            },
    {
        if preempted {
            WaitStep::Yield(outbox.enqueue(self.message))
        } else {
            WaitStep::Resume(self)
        }
    }

    /// What follows from `n + 1` failed attempts in a row.
    pub open spec fn after_failures(self, n: nat) -> SendStep
        decreases n,
    {
        if n == 0 {
            self.after_send(false)
        } else {
            match self.after_failures((n - 1) as nat) {
                SendStep::Retry(flight, _) => flight.after_send(false),
                step => step,
            }
        }
    }

    /// The seconds spent waiting over the first `n` retries.
    pub open spec fn waited(n: nat) -> nat
        decreases n,
    {
        if n == 0 {
            0
        } else {
            Self::waited((n - 1) as nat) + delay_after((n - 1) as u8) as nat
        }
    }
}

/// A message is retried as often as its urgency allows and then given up, exactly; the message
/// itself, its stamp included, stays what it was.
pub proof fn law_retry_budget(message: Notification, n: nat)
    ensures
        ({
            let flight = Flight { message, attempts: 0 };
            let budget = retries(message.urgency) as nat;
            &&& n < budget ==> flight.after_failures(n) == SendStep::Retry(
                Flight { message, attempts: (n + 1) as u8 },
                time::secs(delay_after(n as u8)),
            )
            &&& n >= budget ==> flight.after_failures(n) == SendStep::GiveUp(message)
        }),
    decreases n,
{
    if n > 0 {
        law_retry_budget(message, (n - 1) as nat);
    }
}

/// An alarm is retried over 830 seconds of waiting, about a quarter of an hour, an info over 65,
/// and what is perishable not at all.
pub proof fn law_time_spent_waiting()
    ensures
        Flight::waited(retries(Urgency::Alarm) as nat) == 830,
        Flight::waited(retries(Urgency::Info) as nat) == 65,
        Flight::waited(retries(Urgency::Perishable) as nat) == 0,
{
    reveal_with_fuel(Flight::waited, 21);
}

/// With the link down nothing is sent: what is perishable is dropped, everything else waits, and
/// with the link up every message is sent.
pub proof fn law_link_down(flight: Flight)
    ensures
        flight.after_link(true) == LinkStep::Send(flight),
        flight.message.urgency == Urgency::Perishable ==> flight.after_link(false)
            == LinkStep::Drop(flight.message),
        flight.message.urgency != Urgency::Perishable ==> flight.after_link(false)
            == LinkStep::Await(flight),
{
}

/// Where delivery is.
#[derive(Debug)]
pub enum Leg {
    /// No message in hand yet.
    Idle,
    /// About to look at the link.
    Checking(Flight),
    /// Waiting for the link.
    AwaitingLink(Flight),
    Sending(Flight),
    /// Waiting this long for the next attempt.
    Resting(Flight, Duration),
    Delivered(Notification),
    /// The message is back in the outbox.
    Requeued,
    /// The link was down, and the message would have been late.
    Dropped(Notification),
    /// The retries are used up.
    GivenUp(Notification),
}

/// What can happen to it.
#[derive(Debug)]
pub enum LegEvent {
    /// The next message to deliver is there.
    Received(Notification),
    /// The link is up, or down.
    Link(bool),
    /// The attempt went well, or did not.
    Sent(bool),
    /// The wait is over, cut short by something louder or not.
    Waited(bool),
}

/// What follows from an event: where delivery is then, what the LED shows, and the message that
/// found no room in the outbox, if any.
#[derive(Debug)]
pub struct Progress {
    pub leg: Leg,
    pub led: Option<LedCmd>,
    pub dropped: Option<Notification>,
}

impl Leg {
    /// The message on its way, if there is one.
    pub open spec fn carried(self) -> Option<Flight> {
        match self {
            Leg::Checking(flight) => Some(flight),
            Leg::AwaitingLink(flight) => Some(flight),
            Leg::Sending(flight) => Some(flight),
            Leg::Resting(flight, _) => Some(flight),
            _ => None,
        }
    }

    /// Whether a message was lost on the way.
    pub open spec fn is_lost(self) -> bool {
        self is Dropped || self is GivenUp
    }

    /// Where delivery is after an event; one that does not belong there changes nothing.
    pub open spec fn after(self, event: LegEvent) -> Leg {
        match (self, event) {
            (Leg::Checking(flight), LegEvent::Link(up)) => match flight.after_link(up) {
                LinkStep::Send(flight) => Leg::Sending(flight),
                LinkStep::Await(flight) => Leg::AwaitingLink(flight),
                LinkStep::Drop(message) => Leg::Dropped(message),
            },
            (Leg::Sending(flight), LegEvent::Sent(sent)) => match flight.after_send(sent) {
                SendStep::Done(message) => Leg::Delivered(message),
                SendStep::Retry(flight, delay) => Leg::Resting(flight, delay),
                SendStep::GiveUp(message) => Leg::GivenUp(message),
            },
            (Leg::AwaitingLink(flight), LegEvent::Waited(false)) => Leg::Checking(flight),
            (Leg::Resting(flight, _), LegEvent::Waited(false)) => Leg::Checking(flight),
            (Leg::AwaitingLink(_), LegEvent::Waited(true)) => Leg::Requeued,
            (Leg::Resting(_, _), LegEvent::Waited(true)) => Leg::Requeued,
            (_, LegEvent::Received(message)) => if self.carried() is None {
                Leg::Checking(Flight { message, attempts: 0 })
            } else {
                self
            },
            _ => self,
        }
    }

    /// The message that an event sends back to the outbox, if it does.
    pub open spec fn yielded(self, event: LegEvent) -> Option<Notification> {
        match (self, event) {
            (Leg::AwaitingLink(flight), LegEvent::Waited(true)) => Some(flight.message),
            (Leg::Resting(flight, _), LegEvent::Waited(true)) => Some(flight.message),
            _ => None,
        }
    }

    /// What the LED shows of an event.
    pub open spec fn shown(self, event: LegEvent) -> Option<LedCmd> {
        match (self, event) {
            (Leg::Sending(_), LegEvent::Sent(sent)) => Some(
                if sent {
                    LedCmd::blink(Rgb::blue(), 1)
                } else {
                    LedCmd::blink(Rgb::yellow(), 2)
                },
            ),
            _ => None,
        }
    }

    pub open spec fn travelled(self, events: Seq<LegEvent>) -> Leg
        decreases events.len(),
    {
        if events.len() == 0 {
            self
        } else {
            self.travelled(events.drop_last()).after(events.last())
        }
    }

    fn linked(flight: Flight, up: bool) -> (leg: Leg)
        ensures
            leg == Leg::Checking(flight).after(LegEvent::Link(up)),
    {
        match flight.on_link(up) {
            LinkStep::Send(flight) => Leg::Sending(flight),
            LinkStep::Await(flight) => Leg::AwaitingLink(flight),
            LinkStep::Drop(message) => Leg::Dropped(message),
        }
    }

    fn attempted(flight: Flight, sent: bool) -> (next: (Leg, LedCmd))
        ensures
            next.0 == Leg::Sending(flight).after(LegEvent::Sent(sent)),
            Some(next.1) == Leg::Sending(flight).shown(LegEvent::Sent(sent)),
    {
        let (step, led) = flight.on_sent(sent);
        let leg = match step {
            SendStep::Done(message) => Leg::Delivered(message),
            SendStep::Retry(flight, delay) => Leg::Resting(flight, delay),
            SendStep::GiveUp(message) => Leg::GivenUp(message),
        };
        (leg, led)
    }

    /// Where delivery is after an event that leaves the outbox alone: one by which the message has
    /// to yield is for [`Leg::advance`].
    pub fn on_event(self, event: LegEvent) -> (leg: Leg)
        requires
            self.yielded(event) is None,
        ensures
            leg == self.after(event),
    {
        match (self, event) {
            (Leg::Checking(flight), LegEvent::Link(up)) => Leg::linked(flight, up),
            (Leg::Sending(flight), LegEvent::Sent(sent)) => Leg::attempted(flight, sent).0,
            (Leg::AwaitingLink(flight), LegEvent::Waited(_)) => Leg::Checking(flight),
            (Leg::Resting(flight, _), LegEvent::Waited(_)) => Leg::Checking(flight),
            (Leg::Idle, LegEvent::Received(message)) => Leg::Checking(Flight::new(message)),
            (Leg::Delivered(_), LegEvent::Received(message)) => Leg::Checking(Flight::new(message)),
            (Leg::Requeued, LegEvent::Received(message)) => Leg::Checking(Flight::new(message)),
            (Leg::Dropped(_), LegEvent::Received(message)) => Leg::Checking(Flight::new(message)),
            (Leg::GivenUp(_), LegEvent::Received(message)) => Leg::Checking(Flight::new(message)),
            (leg, _) => leg,
        }
    }

    fn waited(flight: Flight, preempted: bool, outbox: &mut Outbox) -> (progress: Progress)
        requires
            old(outbox).wf(),
        ensures
            final(outbox).wf(),
            final(outbox).next_seq() == old(outbox).next_seq(),
            progress.led is None,
            preempted ==> progress.leg is Requeued && takes_in(
                old(outbox)@,
                flight.message,
                final(outbox)@,
                progress.dropped,
            ),
            !preempted ==> progress.leg == Leg::Checking(flight) && progress.dropped is None
                && final(outbox)@ == old(outbox)@,
    {
        match flight.on_waited(preempted, outbox) {
            WaitStep::Resume(flight) => Progress {
                leg: Leg::Checking(flight),
                led: None,
                dropped: None,
            },
            WaitStep::Yield(dropped) => Progress { leg: Leg::Requeued, led: None, dropped },
        }
    }

    /// Moves delivery on by an event. A message that has to yield goes back in the outbox.
    pub fn advance(self, event: LegEvent, outbox: &mut Outbox) -> (progress: Progress)
        requires
            old(outbox).wf(),
        ensures
            final(outbox).wf(),
            final(outbox).next_seq() == old(outbox).next_seq(),
            progress.leg == self.after(event),
            progress.led == self.shown(event),
            match self.yielded(event) {
                Some(message) => takes_in(
                    old(outbox)@,
                    message,
                    final(outbox)@,
                    progress.dropped,
                ),
                None => progress.dropped is None && final(outbox)@ == old(outbox)@,
            },
    {
        match (self, event) {
            (Leg::Sending(flight), LegEvent::Sent(sent)) => {
                let (leg, led) = Leg::attempted(flight, sent);
                Progress { leg, led: Some(led), dropped: None }
            },
            (Leg::AwaitingLink(flight), LegEvent::Waited(preempted)) => Leg::waited(
                flight,
                preempted,
                outbox,
            ),
            (Leg::Resting(flight, _), LegEvent::Waited(preempted)) => Leg::waited(
                flight,
                preempted,
                outbox,
            ),
            (leg, event) => Progress { leg: leg.on_event(event), led: None, dropped: None },
        }
    }
}

/// How many attempts failed.
pub open spec fn failures(events: Seq<LegEvent>) -> nat
    decreases events.len(),
{
    if events.len() == 0 {
        0
    } else {
        failures(events.drop_last()) + if events.last() == LegEvent::Sent(false) {
            1nat
        } else {
            0
        }
    }
}

/// An outage delays a message but does not lose it: however often the link goes down and however
/// long the waits are, until the next message is taken up, one that is not perishable is lost only
/// once more attempts have failed than it has retries. Until it is delivered or yields it stays
/// what it was.
pub proof fn law_outage_only_delays(message: Notification, events: Seq<LegEvent>)
    requires
        message.urgency != Urgency::Perishable,
        forall|i: int| 0 <= i < events.len() ==> !((#[trigger] events[i]) is Received),
    ensures
        ({
            let leg = Leg::Checking(Flight { message, attempts: 0 }).travelled(events);
            &&& failures(events) <= retries(message.urgency) ==> !leg.is_lost()
            &&& leg.carried() matches Some(flight) ==> {
                &&& flight.message == message
                &&& flight.attempts <= failures(events)
            }
        }),
    decreases events.len(),
{
    if events.len() > 0 {
        let before = events.drop_last();
        assert forall|i: int| 0 <= i < before.len() implies !((#[trigger] before[i])
            is Received) by {
            assert(before[i] == events[i]);
        }
        law_outage_only_delays(message, before);
    }
}

/// One message is in flight at a time: the next one is taken up, with a budget of its own, once
/// the last one is delivered, lost or back in the outbox, and not before. With none in flight
/// nothing else matters.
pub proof fn law_one_message_in_flight(leg: Leg, message: Notification, event: LegEvent)
    ensures
        leg.carried() is None && !(event is Received) ==> leg.after(event) == leg,
        leg.carried() is None ==> leg.after(LegEvent::Received(message)) == Leg::Checking(
            Flight { message, attempts: 0 },
        ),
        leg.carried() is Some ==> leg.after(LegEvent::Received(message)) == leg,
{
}

/// A message whose wait ends on its own looks at the link again before anything is sent: only a
/// link that is up leads to an attempt.
pub proof fn law_link_is_checked_before_sending(leg: Leg, event: LegEvent)
    requires
        leg.after(event) is Sending,
        !(leg is Sending),
    ensures
        leg is Checking && event == LegEvent::Link(true),
        leg.carried() == leg.after(event).carried(),
{
}

/// Delivery never stands still: as long as a message is in flight, the event it waits for moves
/// it on.
pub proof fn law_every_leg_moves_on(leg: Leg, up: bool, sent: bool, preempted: bool)
    ensures
        leg is Checking ==> leg.after(LegEvent::Link(up)) != leg,
        leg is Sending ==> leg.after(LegEvent::Sent(sent)) != leg,
        leg is AwaitingLink || leg is Resting ==> leg.after(LegEvent::Waited(preempted)) != leg,
{
}

/// What the urgencies mean: which is louder, how often each is retried and after how many seconds,
/// and which are silent.
pub proof fn law_urgencies(urgency: Urgency, attempts: u8)
    ensures
        delay_after(0) == 5,
        delay_after(1) == 15,
        attempts >= 2 ==> delay_after(attempts) == 45,
        Urgency::Perishable.loudness() < Urgency::Info.loudness() < Urgency::Alarm.loudness(),
        retries(Urgency::Perishable) == 0,
        retries(Urgency::Info) == 3,
        retries(Urgency::Alarm) == 20,
        disable_notification(urgency) <==> !(urgency is Alarm),
{
}

/// One key is below another exactly where its message is quieter, or equally loud and stamped
/// later.
pub proof fn law_keys(a: Notification, b: Notification)
    ensures
        below(a.key_of(), b.key_of()) <==> a.urgency.loudness() < b.urgency.loudness() || (a.urgency
            == b.urgency && a.seq > b.seq),
        a.expendable_before(b) <==> a.urgency.loudness() < b.urgency.loudness() || (a.urgency
            == b.urgency && a.seq < b.seq),
{
}

/// Which message is delivered first: one that is held, than which none held is louder, and none as
/// loud was stamped earlier.
pub proof fn law_who_goes_first(messages: Multiset<Notification>, message: Notification)
    ensures
        goes_first(messages, message) <==> messages.contains(message) && forall|other: Notification|
         #[trigger]
            messages.contains(other) ==> message.urgency.loudness() > other.urgency.loudness() || (
            message.urgency == other.urgency && message.seq <= other.seq),
{
    assert forall|other: Notification| #[trigger] messages.contains(other) implies (!below(
        message.key_of(),
        other.key_of(),
    ) <==> message.urgency.loudness() > other.urgency.loudness() || (message.urgency
        == other.urgency && message.seq <= other.seq)) by {
        law_keys(message, other);
    }
}

/// Which message has to make room: one that is held, than which none held is quieter, and none as
/// quiet was stamped earlier.
pub proof fn law_who_makes_room(messages: Multiset<Notification>, message: Notification)
    ensures
        least_worthwhile(messages, message) <==> messages.contains(message) && forall|
            other: Notification,
        | #[trigger]
            messages.contains(other) ==> message.urgency.loudness() < other.urgency.loudness() || (
            message.urgency == other.urgency && message.seq <= other.seq),
{
    assert forall|other: Notification| #[trigger] messages.contains(other) implies (
    !other.expendable_before(message) <==> message.urgency.loudness() < other.urgency.loudness()
        || (message.urgency == other.urgency && message.seq <= other.seq)) by {
        law_keys(other, message);
    }
}

/// Queuing loses nothing without giving it back: what was held and the message are what is held
/// then and what was dropped; something is dropped exactly where four wait already, and then it is
/// the one that has to make room.
pub proof fn law_queuing_loses_nothing_unseen(
    before: Multiset<Notification>,
    message: Notification,
    after: Multiset<Notification>,
    dropped: Option<Notification>,
)
    requires
        takes_in(before, message, after, dropped),
    ensures
        dropped is Some <==> before.len() >= 4,
        dropped is None ==> after == before.insert(message),
        dropped matches Some(gone) ==> {
            &&& after.insert(gone) == before.insert(message)
            &&& after.len() == before.len()
            &&& least_worthwhile(before.insert(message), gone)
        },
{
    if let Some(gone) = dropped {
        assert(after.insert(gone) =~= before.insert(message));
    }
}

/// A message handed in is queued as it is but for its stamp, the next number, and the numbers go
/// on from there, round again after the last; with the notifier off it comes back as it was and
/// nothing changes.
pub proof fn law_messages_are_stamped(
    config: Config,
    before: Outbox,
    message: Notification,
    after: Outbox,
    dropped: Option<Notification>,
)
    requires
        notified(config, before, message, after, dropped),
    ensures
        is_configured(config) <==> config.telegram_token@.len() > 0
            && config.telegram_chat_id@.len() > 0,
        config.telegram_token@.len() > 0 && config.telegram_chat_id@.len() > 0 ==> {
            let stamped = Notification {
                text: message.text,
                urgency: message.urgency,
                seq: before.next_seq(),
            };
            &&& takes_in(before@, stamped, after@, dropped)
            &&& after.next_seq() == (before.next_seq() + 1) % 0x1_0000_0000
        },
        config.telegram_token@.len() == 0 || config.telegram_chat_id@.len() == 0 ==> {
            &&& after@ == before@
            &&& after.next_seq() == before.next_seq()
            &&& dropped == Some(message)
        },
{
}

/// No message in flight vanishes: after any event it is still in flight, delivered, dropped or
/// given up, or it is handed to the outbox, whatever it was waiting for and however often it was
/// tried; and nothing else is ever handed back.
pub proof fn law_nothing_in_flight_vanishes(leg: Leg, event: LegEvent)
    ensures
        leg.carried() matches Some(flight) ==> {
            ||| leg.after(event).carried() matches Some(on) && on.message == flight.message
                && leg.yielded(event) is None
            ||| leg.after(event) == Leg::Delivered(flight.message) && leg.yielded(event) is None
            ||| leg.after(event) == Leg::Dropped(flight.message) && leg.yielded(event) is None
            ||| leg.after(event) == Leg::GivenUp(flight.message) && leg.yielded(event) is None
            ||| leg.after(event) is Requeued && leg.yielded(event) == Some(flight.message)
        },
        leg.carried() is None ==> leg.yielded(event) is None,
{
}

/// How each leg ends. The link decides between sending and waiting, and costs no attempt; a send
/// that works delivers; a wait that ends leads back to the link, and one cut short to the outbox;
/// every other event is none of its business.
pub proof fn law_legs(flight: Flight, delay: Duration, event: LegEvent)
    ensures
        ({
            let leg = Leg::Checking(flight);
            &&& leg.after(LegEvent::Link(true)) == Leg::Sending(flight)
            &&& flight.message.urgency is Perishable ==> leg.after(LegEvent::Link(false))
                == Leg::Dropped(flight.message)
            &&& !(flight.message.urgency is Perishable) ==> leg.after(LegEvent::Link(false))
                == Leg::AwaitingLink(flight)
            &&& !(event is Link) ==> leg.after(event) == leg
        }),
        ({
            let leg = Leg::Sending(flight);
            &&& leg.after(LegEvent::Sent(true)) == Leg::Delivered(flight.message)
            &&& !(event is Sent) ==> leg.after(event) == leg
        }),
        ({
            let leg = Leg::AwaitingLink(flight);
            &&& leg.after(LegEvent::Waited(false)) == Leg::Checking(flight)
            &&& leg.after(LegEvent::Waited(true)) is Requeued
            &&& leg.yielded(LegEvent::Waited(true)) == Some(flight.message)
            &&& !(event is Waited) ==> leg.after(event) == leg
        }),
        ({
            let leg = Leg::Resting(flight, delay);
            &&& leg.after(LegEvent::Waited(false)) == Leg::Checking(flight)
            &&& leg.after(LegEvent::Waited(true)) is Requeued
            &&& leg.yielded(LegEvent::Waited(true)) == Some(flight.message)
            &&& !(event is Waited) ==> leg.after(event) == leg
        }),
        event != LegEvent::Waited(true) ==> Leg::AwaitingLink(flight).yielded(event) is None
            && Leg::Resting(flight, delay).yielded(event) is None,
{
}

/// What a failed attempt costs: one of the retries, and a wait of five seconds for the first, of
/// fifteen for the second and of forty-five for every other; with no retry left the message is
/// given up.
pub proof fn law_failed_attempts(flight: Flight)
    ensures
        ({
            let budget = match flight.message.urgency {
                Urgency::Alarm => 20int,
                Urgency::Info => 3,
                Urgency::Perishable => 0,
            };
            let seconds = if flight.attempts == 0 {
                5int
            } else if flight.attempts == 1 {
                15
            } else {
                45
            };
            let next = Leg::Sending(flight).after(LegEvent::Sent(false));
            &&& flight.attempts < budget ==> {
                &&& next matches Leg::Resting(again, delay)
                &&& again.message == flight.message
                &&& again.attempts == flight.attempts + 1
                &&& delay.ticks == seconds * 1_000_000
            }
            &&& flight.attempts < budget ==> {
                &&& flight.after_send(false) matches SendStep::Retry(again, delay)
                &&& again == (Flight {
                    message: flight.message,
                    attempts: (flight.attempts + 1) as u8,
                })
                &&& delay.ticks == seconds * 1_000_000
            }
            &&& flight.attempts >= budget ==> next == Leg::GivenUp(flight.message)
                && flight.after_send(false) == SendStep::GiveUp(flight.message)
            &&& flight.after_send(true) == SendStep::Done(flight.message)
        }),
{
}

/// What the LED shows of delivery: one blue blink for each attempt that works, two yellow ones for
/// each that does not, and nothing of anything else.
pub proof fn law_attempts_are_shown(leg: Leg, event: LegEvent)
    ensures
        ({
            let phase = Duration { ticks: 150_000 };
            let blinks = |color: Rgb, count: u16|
                LedCmd::Rgb(
                    color,
                    crate::led::Pattern::Blink { on: phase, off: phase, count: Some(count) },
                );
            &&& leg is Sending && event == LegEvent::Sent(true) ==> leg.shown(event) == Some(
                blinks(Rgb { r: 0, g: 0, b: 32 }, 1),
            )
            &&& leg is Sending && event == LegEvent::Sent(false) ==> leg.shown(event) == Some(
                blinks(Rgb { r: 32, g: 32, b: 0 }, 2),
            )
            &&& !(leg is Sending) || !(event is Sent) ==> leg.shown(event) is None
        }),
{
}

} // verus!
