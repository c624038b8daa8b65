//! Everything the build bakes in: tunables and secrets, read once.

use vstd::prelude::*;
use crate::env_pro::Reading;
use crate::text;
use crate::time::{Duration, TICKS_PER_SEC};

verus! {

/// The settings as they were written down, where they were.
#[derive(Debug)]
pub struct Environment {
    pub wifi_creds: Option<&'static str>,
    pub telegram_token: Option<&'static str>,
    pub telegram_chat_id: Option<&'static str>,
    pub tg_min_c: Reading,
    pub tg_clear_c: Reading,
    pub tg_dwell_min: Option<&'static str>,
    pub tg_repeat_min: Option<&'static str>,
    pub tg_heartbeat_min: Option<&'static str>,
}

#[derive(Debug)]
pub struct Config {
    /// `ssid1,pass1;ssid2,pass2`: read through [`Config::wifi_networks`].
    pub wifi_creds: &'static str,
    /// `123456789:AAE...` from @BotFather. Empty when the notifier is not set up.
    pub telegram_token: &'static str,
    /// The one chat every message goes to. Negative for groups.
    pub telegram_chat_id: &'static str,
    /// Alarm below this, in degrees Celsius.
    pub tg_min_c: Reading,
    /// Hysteresis: the alarm clears above this, so a temperature on the threshold can't chatter.
    pub tg_clear_c: Reading,
    /// How long an alarm has to stand before a recovery clears it. `None` clears at once.
    pub tg_dwell: Option<Duration>,
    /// Between repeats of a standing alarm.
    pub tg_repeat: Option<Duration>,
    /// Between silent heartbeats.
    pub tg_heartbeat: Option<Duration>,
}

/// Minutes of dwell, of repeat and of heartbeat where nothing else is set.
pub const DEFAULT_DWELL: u64 = 5;

pub const DEFAULT_REPEAT: u64 = 60;

pub const DEFAULT_HEARTBEAT: u64 = 360;

/// The number in a setting, or `default` where there is none or it is not one.
pub open spec fn numbered(value: Option<&str>, default: u64) -> u64 {
    match value {
        Some(s) => match text::spelled(text::trimmed(s@)) {
            Some(n) => n,
            None => default,
        },
        None => default,
    }
}

/// Whether an interval of `n` minutes can be counted at all.
pub open spec fn minutes_fit(n: u64) -> bool {
    n * 60 * TICKS_PER_SEC <= u64::MAX
}

/// An interval of `n` minutes; none at all means that there is no interval.
pub open spec fn interval(n: u64) -> Option<Duration> {
    if n > 0 {
        Some(Duration { ticks: (n * 60 * TICKS_PER_SEC) as u64 })
    } else {
        None
    }
}

/// `0` turns an interval off, and any other number of minutes that can be counted makes one that
/// takes time.
pub proof fn law_interval_takes_time(n: u64)
    requires
        minutes_fit(n),
    ensures
        interval(0) is None,
        n > 0 ==> interval(n) is Some && interval(n)->0.ticks > 0,
{
}

pub fn number(value: Option<&str>, default: u64) -> (n: u64)
    ensures
        n == numbered(value, default),
{
    match value {
        Some(s) => match text::parse(text::trim(s)) {
            Some(n) => n,
            None => default,
        },
        None => default,
    }
}

/// `0` disables the interval rather than turning it into a busy loop.
pub fn minutes(value: Option<&str>, default: u64) -> (span: Option<Duration>)
    requires
        minutes_fit(numbered(value, default)),
    ensures
        span == interval(numbered(value, default)),
{
    let minutes: u64 = number(value, default);
    if minutes > 0 {
        Some(Duration::from_secs(minutes * 60))
    } else {
        None
    }
}

/// One entry of the network list: name and password up to and past the first comma, both
/// trimmed; an entry without a comma is open.
pub open spec fn network(entry: Seq<char>) -> (Seq<char>, Seq<char>) {
    let comma = text::find(entry, ',');
    if comma < entry.len() {
        (text::trimmed(entry.take(comma)), text::trimmed(entry.skip(comma + 1)))
    } else {
        (text::trimmed(entry), Seq::empty())
    }
}

/// The networks of a list, in order, without those that have no name.
pub open spec fn networks(creds: Seq<char>) -> Seq<(Seq<char>, Seq<char>)> {
    named(text::pieces(creds, ';'))
}

/// The networks of `entries` that have a name.
pub open spec fn named(entries: Seq<Seq<char>>) -> Seq<(Seq<char>, Seq<char>)>
    decreases entries.len(),
{
    if entries.len() == 0 {
        Seq::empty()
    } else {
        let last = network(entries.last());
        if last.0.len() > 0 {
            named(entries.drop_last()).push(last)
        } else {
            named(entries.drop_last())
        }
    }
}

/// The texts of a list of pairs.
pub open spec fn texts(pairs: Seq<(&'static str, &'static str)>) -> Seq<(Seq<char>, Seq<char>)> {
    pairs.map_values(|pair: (&'static str, &'static str)| (pair.0@, pair.1@))
}

impl Environment {
    /// Whether every interval can be counted.
    pub open spec fn fits(self) -> bool {
        &&& minutes_fit(numbered(self.tg_dwell_min, DEFAULT_DWELL))
        &&& minutes_fit(numbered(self.tg_repeat_min, DEFAULT_REPEAT))
        &&& minutes_fit(numbered(self.tg_heartbeat_min, DEFAULT_HEARTBEAT))
    }

    /// Whether [`Config::from_env`] can take these settings.
    pub fn is_countable(&self) -> (r: bool)
        ensures
            r == self.fits(),
    {
        let most: u64 = 307_445_734_561;
        assert(forall|n: u64| n <= most <==> #[trigger] minutes_fit(n));
        number(self.tg_dwell_min, DEFAULT_DWELL) <= most && number(
            self.tg_repeat_min,
            DEFAULT_REPEAT,
        ) <= most && number(self.tg_heartbeat_min, DEFAULT_HEARTBEAT) <= most
    }
}

/// A setting's text, empty where it is not set.
pub open spec fn text_of(value: Option<&str>) -> Seq<char> {
    match value {
        Some(s) => s@,
        None => Seq::empty(),
    }
}

fn or_empty(value: Option<&'static str>) -> (s: &'static str)
    ensures
        s@ == text_of(value),
{
    match value {
        Some(s) => s,
        None => {
            proof {
                reveal_strlit("");
            }
            let empty: &'static str = "";
            assert(empty@ =~= Seq::<char>::empty());
            empty
        },
    }
}

impl Config {
    pub fn from_env(env: Environment) -> (config: Config)
        requires
            env.fits(),
        ensures
            config.wifi_creds@ == text_of(env.wifi_creds),
            config.telegram_token@ == text::trimmed(text_of(env.telegram_token)),
            config.telegram_chat_id@ == text::trimmed(text_of(env.telegram_chat_id)),
            config.tg_min_c == env.tg_min_c,
            config.tg_clear_c == env.tg_clear_c,
            config.tg_dwell == interval(numbered(env.tg_dwell_min, DEFAULT_DWELL)),
            config.tg_repeat == interval(numbered(env.tg_repeat_min, DEFAULT_REPEAT)),
            config.tg_heartbeat == interval(numbered(env.tg_heartbeat_min, DEFAULT_HEARTBEAT)),
    {
        Config {
            wifi_creds: or_empty(env.wifi_creds),
            telegram_token: text::trim(or_empty(env.telegram_token)),
            telegram_chat_id: text::trim(or_empty(env.telegram_chat_id)),
            tg_min_c: env.tg_min_c,
            tg_clear_c: env.tg_clear_c,
            tg_dwell: minutes(env.tg_dwell_min, DEFAULT_DWELL),
            tg_repeat: minutes(env.tg_repeat_min, DEFAULT_REPEAT),
            tg_heartbeat: minutes(env.tg_heartbeat_min, DEFAULT_HEARTBEAT),
        }
    }

    /// `ssid1,pass1;ssid2,pass2` in order; an entry without a comma is open, both halves trimmed.
    pub fn wifi_networks(&self) -> (list: Vec<(&'static str, &'static str)>)
        ensures
            texts(list@) == networks(self.wifi_creds@),
    {
        let entries: Vec<&'static str> = text::split(self.wifi_creds, ';');
        let ghost all = entries@.map_values(|part: &'static str| part@);
        let mut list: Vec<(&'static str, &'static str)> = Vec::new();
        let mut i: usize = 0;
        assert(all.take(0) == Seq::<Seq<char>>::empty());
        assert(texts(list@) == named(all.take(0)));
        while i < entries.len()
            invariant
                i <= entries@.len(),
                all == entries@.map_values(|part: &'static str| part@),
                texts(list@) == named(all.take(i as int)),
            decreases entries.len() - i,
        {
            let entry: &'static str = entries[i];
            let pair: (&'static str, &'static str) = match text::split_once(entry, ',') {
                Some((ssid, password)) => (text::trim(ssid), text::trim(password)),
                None => (text::trim(entry), or_empty(None)),
            };
            proof {
                text::lemma_find(entry@, ',');
                assert((pair.0@, pair.1@) == network(entry@));
                assert(all.take(i + 1).drop_last() == all.take(i as int));
                assert(all.take(i + 1).last() == entry@);
                assert(texts(list@.push(pair)) == texts(list@).push((pair.0@, pair.1@)));
            }
            if !pair.0.is_empty() {
                list.push(pair);
            }
            i = i + 1;
        }
        assert(all.take(entries@.len() as int) == all);
        list
    }
}

/// Every network of a list has a name, and no name or password has white space at its ends.
pub proof fn law_networks_are_named(creds: Seq<char>)
    ensures
        forall|i: int|
            0 <= i < networks(creds).len() ==> {
                let entry = #[trigger] networks(creds)[i];
                &&& entry.0.len() > 0
                &&& text::trimmed(entry.0) == entry.0
                &&& text::trimmed(entry.1) == entry.1
            },
{
    lemma_named(text::pieces(creds, ';'));
}

proof fn lemma_named(entries: Seq<Seq<char>>)
    ensures
        forall|i: int|
            0 <= i < named(entries).len() ==> {
                let entry = #[trigger] named(entries)[i];
                &&& entry.0.len() > 0
                &&& text::trimmed(entry.0) == entry.0
                &&& text::trimmed(entry.1) == entry.1
            },
    decreases entries.len(),
{
    if entries.len() > 0 {
        lemma_named(entries.drop_last());
        let last = entries.last();
        let comma = text::find(last, ',');
        if comma < last.len() {
            text::law_trim_twice(last.take(comma));
            text::law_trim_twice(last.skip(comma + 1));
        } else {
            text::law_trim_twice(last);
            assert(text::trimmed(Seq::empty()) == Seq::<char>::empty());
        }
        assert forall|i: int| 0 <= i < named(entries).len() implies {
            let entry = #[trigger] named(entries)[i];
            &&& entry.0.len() > 0
            &&& text::trimmed(entry.0) == entry.0
            &&& text::trimmed(entry.1) == entry.1
        } by {
            let before = named(entries.drop_last());
            if i < before.len() {
                assert(named(entries)[i] == before[i]);
            } else {
                assert(named(entries)[i] == network(last));
            }
        }
    }
}

/// Whether a name and a password can stand in a list: the name has to be there and holds no
/// comma, neither holds a semicolon, and both are trimmed.
pub open spec fn listable(entry: (Seq<char>, Seq<char>)) -> bool {
    &&& entry.0.len() > 0
    &&& text::trimmed(entry.0) == entry.0
    &&& text::trimmed(entry.1) == entry.1
    &&& forall|i: int|
        0 <= i < entry.0.len() ==> (#[trigger] entry.0[i]) != ',' && entry.0[i] != ';'
    &&& forall|i: int| 0 <= i < entry.1.len() ==> (#[trigger] entry.1[i]) != ';'
}

/// A list as it is written down: `name,password` entries with semicolons between them.
pub open spec fn listed(entries: Seq<(Seq<char>, Seq<char>)>) -> Seq<char>
    decreases entries.len(),
{
    if entries.len() == 0 {
        Seq::empty()
    } else {
        let first = entries[0].0.push(',') + entries[0].1;
        if entries.len() == 1 {
            first
        } else {
            first.push(';') + listed(entries.drop_first())
        }
    }
}

/// A list of networks reads back as it was written down, in order.
pub proof fn law_list_reads_back(entries: Seq<(Seq<char>, Seq<char>)>)
    requires
        forall|i: int| 0 <= i < entries.len() ==> listable(#[trigger] entries[i]),
    ensures
        networks(listed(entries)) == entries,
    decreases entries.len(),
{
    let list = listed(entries);
    if entries.len() == 0 {
        text::lemma_find_is(list, ';', 0);
        let pieces = text::pieces(list, ';');
        assert(pieces == seq![list]);
        text::lemma_find_is(list, ',', 0);
        assert(pieces.drop_last() == Seq::<Seq<char>>::empty());
        assert(named(pieces.drop_last()) == Seq::<(Seq<char>, Seq<char>)>::empty());
    } else {
        let entry = entries[0];
        let rest = entries.drop_first();
        let first = entry.0.push(',') + entry.1;
        assert(listable(entry));
        lemma_network(entry);
        assert forall|i: int| 0 <= i < first.len() implies first[i] != ';' by {
            if i < entry.0.len() {
                assert(first[i] == entry.0[i]);
            } else if i > entry.0.len() {
                assert(first[i] == entry.1[i - entry.0.len() - 1]);
            }
        }
        if entries.len() == 1 {
            text::lemma_find_is(list, ';', list.len() as int);
            let pieces = text::pieces(list, ';');
            assert(pieces == seq![first]);
            assert(pieces.drop_last() == Seq::<Seq<char>>::empty());
            assert(named(pieces.drop_last()) == Seq::<(Seq<char>, Seq<char>)>::empty());
            assert(networks(list) == entries);
        } else {
            assert forall|i: int| 0 <= i < rest.len() implies listable(#[trigger] rest[i]) by {
                assert(rest[i] == entries[i + 1]);
            }
            law_list_reads_back(rest);
            let at = first.len() as int;
            assert(list[at] == ';');
            assert(forall|i: int| 0 <= i < at ==> list[i] == first[i]);
            text::lemma_find_is(list, ';', at);
            assert(list.take(at) == first);
            assert(list.skip(at + 1) == listed(rest));
            lemma_named_first(first, text::pieces(listed(rest), ';'));
            assert(networks(list) == seq![entry] + rest);
            assert(seq![entry] + rest == entries);
        }
    }
}

proof fn lemma_network(entry: (Seq<char>, Seq<char>))
    requires
        listable(entry),
    ensures
        network(entry.0.push(',') + entry.1) == entry,
{
    let s = entry.0.push(',') + entry.1;
    let at = entry.0.len() as int;
    assert(forall|i: int| 0 <= i < at ==> s[i] == entry.0[i]);
    text::lemma_find_is(s, ',', at);
    assert(s.take(at) == entry.0);
    assert(s.skip(at + 1) == entry.1);
}

proof fn lemma_named_first(first: Seq<char>, entries: Seq<Seq<char>>)
    requires
        network(first).0.len() > 0,
    ensures
        named(seq![first] + entries) == seq![network(first)] + named(entries),
    decreases entries.len(),
{
    let all = seq![first] + entries;
    if entries.len() == 0 {
        assert(all.drop_last() == Seq::<Seq<char>>::empty());
        assert(named(all.drop_last()) == Seq::<(Seq<char>, Seq<char>)>::empty());
        assert(named(all) == seq![network(first)] + named(entries));
    } else {
        lemma_named_first(first, entries.drop_last());
        assert(all.drop_last() == seq![first] + entries.drop_last());
        assert(all.last() == entries.last());
        assert(named(all) == seq![network(first)] + named(entries));
    }
}

/// A setting is read as a number whatever white space stands round it; one that is not there, or
/// does not hold a number, leaves the default.
pub proof fn law_numbers_are_read(s: &str, n: u64, default: u64)
    ensures
        numbered(None, default) == default,
        text::trimmed(s@) == text::decimal(n as nat) ==> numbered(Some(s), default) == n,
        text::spelled(text::trimmed(s@)) is None ==> numbered(Some(s), default) == default,
        text::trimmed(s@).len() == 0 ==> numbered(Some(s), default) == default,
{
    text::law_decimals_are_read(n as nat);
    text::law_what_is_a_number(text::trimmed(s@), 0);
}

/// An interval is as many times sixty million ticks as it has minutes, and any number of minutes
/// that the counter can hold can be set.
pub proof fn law_minutes(n: u64)
    ensures
        minutes_fit(n) <==> n <= 307_445_734_561,
        minutes_fit(n) && n > 0 ==> interval(n) == Some(Duration { ticks: (n * 60_000_000) as u64 })
            && interval(n)->0.ticks == n * 60_000_000,
        DEFAULT_DWELL == 5 && DEFAULT_REPEAT == 60 && DEFAULT_HEARTBEAT == 360,
{
}

/// A setting that is not there is an empty one, and any other is its text.
pub proof fn law_missing_settings_are_empty(s: &str)
    ensures
        text_of(None) == Seq::<char>::empty(),
        text_of(Some(s)) == s@,
{
}

/// An entry of the list is cut at its first comma and trimmed on both sides of it; without a comma
/// all of it is the name, and there is no password.
pub proof fn law_entry_is_cut_at_its_first_comma(entry: Seq<char>, at: int)
    requires
        0 <= at <= entry.len(),
        forall|i: int| 0 <= i < at ==> #[trigger] entry[i] != ',',
        at < entry.len() ==> entry[at] == ',',
    ensures
        at < entry.len() ==> network(entry) == (
            text::trimmed(entry.take(at)),
            text::trimmed(entry.skip(at + 1)),
        ),
        at == entry.len() ==> network(entry) == (text::trimmed(entry), Seq::<char>::empty()),
{
    text::lemma_find_is(entry, ',', at);
}

/// The networks are the entries between semicolons, each with a name, in order, none of them left
/// out and none of them twice.
pub proof fn law_networks_are_the_named_entries(creds: Seq<char>)
    ensures
        ({
            let entries = text::pieces(creds, ';').map_values(|entry: Seq<char>| network(entry));
            networks(creds) == entries.filter(
                |entry: (Seq<char>, Seq<char>)| entry.0.len() > 0,
            )
        }),
{
    lemma_named_is_filter(text::pieces(creds, ';'));
}

proof fn lemma_named_is_filter(entries: Seq<Seq<char>>)
    ensures
        named(entries) == entries.map_values(|entry: Seq<char>| network(entry)).filter(
            |entry: (Seq<char>, Seq<char>)| entry.0.len() > 0,
        ),
    decreases entries.len(),
{
    reveal(Seq::filter);
    let f = |entry: Seq<char>| network(entry);
    let all = entries.map_values(f);
    if entries.len() > 0 {
        lemma_named_is_filter(entries.drop_last());
        assert(all.drop_last() == entries.drop_last().map_values(f));
        assert(all.last() == network(entries.last()));
    }
}

/// Settings can be taken exactly where every interval, as set or by default, can be counted.
pub proof fn law_countable_settings(env: Environment)
    ensures
        env.fits() <==> numbered(env.tg_dwell_min, 5) <= 307_445_734_561 && numbered(
            env.tg_repeat_min,
            60,
        ) <= 307_445_734_561 && numbered(env.tg_heartbeat_min, 360) <= 307_445_734_561,
{
}

} // verus!
