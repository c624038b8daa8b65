//! On-board LEDs of the NanoC6: the blue status LED and one WS2812 RGB LED.
//!
//! Both are played from the [`LedCmd`]s anyone drops in through [`send`]. Timed and finite-count
//! effects restore the last steady value on their own, so callers can fire and forget.

use vstd::prelude::*;
use embassy_sync::blocking_mutex::raw::CriticalSectionRawMutex;
use embassy_sync::channel::Channel;
use crate::time::{self, sooner, Duration, Instant};

verus! {

/// A 24-bit color.
#[derive(Debug, Clone, Copy, PartialEq, Eq, Structural)]
pub struct Rgb {
    pub r: u8,
    pub g: u8,
    pub b: u8,
}

/// One channel re-scaled, saturating at full scale.
pub open spec fn scaled_channel(c: u8, level: u8) -> u8 {
    let scaled = c * level / Rgb::LEVEL as int;
    if scaled > u8::MAX {
        u8::MAX
    } else {
        scaled as u8
    }
}

fn scale(c: u8, level: u8) -> (scaled: u8)
    ensures
        scaled == scaled_channel(c, level),
{
    assert(0 <= c * level <= 255 * 255) by (nonlinear_arith)
        requires
            c <= 255,
            level <= 255,
    ;
    let scaled: u32 = (c as u32 * level as u32) / Rgb::LEVEL as u32;
    if scaled > u8::MAX as u32 {
        u8::MAX
    } else {
        scaled as u8
    }
}

impl Rgb {
    /// The palette below is deliberately dim: the WS2812 at full scale is blinding.
    pub const LEVEL: u8 = 32;

    #[verifier::allow_in_spec]
    pub fn new(r: u8, g: u8, b: u8) -> (color: Rgb)
        returns
            (Rgb { r, g, b }),
    {
        Rgb { r, g, b }
    }

    #[verifier::allow_in_spec]
    pub fn off() -> (color: Rgb)
        returns
            Rgb::new(0, 0, 0),
    {
        Rgb::new(0, 0, 0)
    }

    #[verifier::allow_in_spec]
    pub fn red() -> (color: Rgb)
        returns
            Rgb::new(Rgb::LEVEL, 0, 0),
    {
        Rgb::new(Rgb::LEVEL, 0, 0)
    }

    #[verifier::allow_in_spec]
    pub fn green() -> (color: Rgb)
        returns
            Rgb::new(0, Rgb::LEVEL, 0),
    {
        Rgb::new(0, Rgb::LEVEL, 0)
    }

    #[verifier::allow_in_spec]
    pub fn blue() -> (color: Rgb)
        returns
            Rgb::new(0, 0, Rgb::LEVEL),
    {
        Rgb::new(0, 0, Rgb::LEVEL)
    }

    #[verifier::allow_in_spec]
    pub fn yellow() -> (color: Rgb)
        returns
            Rgb::new(Rgb::LEVEL, Rgb::LEVEL, 0),
    {
        Rgb::new(Rgb::LEVEL, Rgb::LEVEL, 0)
    }

    #[verifier::allow_in_spec]
    pub fn white() -> (color: Rgb)
        returns
            Rgb::new(Rgb::LEVEL, Rgb::LEVEL, Rgb::LEVEL),
    {
        Rgb::new(Rgb::LEVEL, Rgb::LEVEL, Rgb::LEVEL)
    }

    /// The same hue re-scaled so that a channel at [`Rgb::LEVEL`] ends up at `level`.
    ///
    /// Channels that come out brighter than full scale saturate rather than wrap, so the hue can
    /// only wash out, never flip.
    pub fn scaled(self, level: u8) -> (color: Rgb)
        ensures
            color.r == scaled_channel(self.r, level),
            color.g == scaled_channel(self.g, level),
            color.b == scaled_channel(self.b, level),
    {
        Rgb::new(scale(self.r, level), scale(self.g, level), scale(self.b, level))
    }
}

/// A channel at the palette's level ends up at `level`, scaling to the palette's own level
/// changes nothing, and a brighter channel never ends up dimmer than another: the order of the
/// channels, which makes the hue, is kept. A higher level never makes a channel dimmer.
pub proof fn law_scaled(c: u8, d: u8, level: u8, higher: u8)
    ensures
        scaled_channel(Rgb::LEVEL, level) == level,
        scaled_channel(c, Rgb::LEVEL) == c,
        c <= d ==> scaled_channel(c, level) <= scaled_channel(d, level),
        level <= higher ==> scaled_channel(c, level) <= scaled_channel(c, higher),
{
    assert(c <= d ==> c * level <= d * level) by (nonlinear_arith);
    assert(level <= higher ==> c * level <= c * higher) by (nonlinear_arith);
}

/// How long an LED holds the value it was given.
#[derive(Debug, Clone, Copy, PartialEq, Eq, Structural)]
pub enum Pattern {
    /// Hold until the next command. This becomes the LED's steady state.
    Solid,
    /// Hold for this long, then restore the steady state.
    For(Duration),
    /// Alternate between the value and off. `count: None` blinks until the next command;
    /// `Some(n)` plays `n` on-phases and then restores the steady state.
    Blink { on: Duration, off: Duration, count: Option<u16> },
}

impl Pattern {
    /// Milliseconds of one on-phase at the default rate.
    pub const DEFAULT_ON: u64 = 150;

    /// Milliseconds of one off-phase at the default rate.
    pub const DEFAULT_OFF: u64 = 150;

    /// Whether the end of the first phase, started at `now`, is on the clock.
    pub open spec fn fits(self, now: Instant) -> bool {
        match self {
            Pattern::Solid => true,
            Pattern::For(duration) => now.reaches(duration),
            Pattern::Blink { on, count, .. } => count == Some(0u16) || now.reaches(on),
        }
    }

    /// Whether the pattern can be started at `now`.
    pub fn allows(&self, now: Instant) -> (r: bool)
        ensures
            r == self.fits(now),
    {
        match self {
            Pattern::Solid => true,
            Pattern::For(duration) => now.allows(*duration),
            Pattern::Blink { on, count, .. } => match count {
                Some(0) => true,
                _ => now.allows(*on),
            },
        }
    }

    /// Blink `count` times at the default rate, then restore the steady state.
    /// `count: 0` is a no-op: the steady state is kept as-is.
    #[verifier::allow_in_spec]
    pub fn blink(count: u16) -> (pattern: Pattern)
        returns
            (Pattern::Blink {
                on: time::millis(Pattern::DEFAULT_ON),
                off: time::millis(Pattern::DEFAULT_OFF),
                count: Some(count),
            }),
    {
        Pattern::Blink {
            on: Duration::from_millis(Pattern::DEFAULT_ON),
            off: Duration::from_millis(Pattern::DEFAULT_OFF),
            count: Some(count),
        }
    }

    /// Blink at the default rate until the next command for that LED.
    #[verifier::allow_in_spec]
    pub fn blink_forever() -> (pattern: Pattern)
        returns
            (Pattern::Blink {
                on: time::millis(Pattern::DEFAULT_ON),
                off: time::millis(Pattern::DEFAULT_OFF),
                count: None,
            }),
    {
        Pattern::Blink {
            on: Duration::from_millis(Pattern::DEFAULT_ON),
            off: Duration::from_millis(Pattern::DEFAULT_OFF),
            count: None,
        }
    }
}

/// What an LED should show, and for how long.
#[derive(Debug, Clone, Copy, PartialEq, Eq, Structural)]
pub enum LedCmd {
    /// The blue status LED.
    Status(bool, Pattern),
    /// The WS2812 RGB LED.
    Rgb(Rgb, Pattern),
}

impl LedCmd {
    pub open spec fn fits(self, now: Instant) -> bool {
        match self {
            LedCmd::Status(_, pattern) => pattern.fits(now),
            LedCmd::Rgb(_, pattern) => pattern.fits(now),
        }
    }

    /// Whether the command can be played from `now` on.
    pub fn allows(&self, now: Instant) -> (r: bool)
        ensures
            r == self.fits(now),
    {
        match self {
            LedCmd::Status(_, pattern) => pattern.allows(now),
            LedCmd::Rgb(_, pattern) => pattern.allows(now),
        }
    }

    #[verifier::allow_in_spec]
    pub fn status(on: bool) -> (cmd: LedCmd)
        returns
            LedCmd::Status(on, Pattern::Solid),
    {
        LedCmd::Status(on, Pattern::Solid)
    }

    #[verifier::allow_in_spec]
    pub fn status_for(on: bool, duration: Duration) -> (cmd: LedCmd)
        returns
            LedCmd::Status(on, Pattern::For(duration)),
    {
        LedCmd::Status(on, Pattern::For(duration))
    }

    #[verifier::allow_in_spec]
    pub fn status_blink(count: u16) -> (cmd: LedCmd)
        returns
            LedCmd::Status(true, Pattern::blink(count)),
    {
        LedCmd::Status(true, Pattern::blink(count))
    }

    /// Blink the status LED until the next command for it.
    #[verifier::allow_in_spec]
    pub fn status_blink_forever() -> (cmd: LedCmd)
        returns
            LedCmd::Status(true, Pattern::blink_forever()),
    {
        LedCmd::Status(true, Pattern::blink_forever())
    }

    #[verifier::allow_in_spec]
    pub fn rgb(color: Rgb) -> (cmd: LedCmd)
        returns
            LedCmd::Rgb(color, Pattern::Solid),
    {
        LedCmd::Rgb(color, Pattern::Solid)
    }

    #[verifier::allow_in_spec]
    pub fn rgb_for(color: Rgb, duration: Duration) -> (cmd: LedCmd)
        returns
            LedCmd::Rgb(color, Pattern::For(duration)),
    {
        LedCmd::Rgb(color, Pattern::For(duration))
    }

    #[verifier::allow_in_spec]
    pub fn blink(color: Rgb, count: u16) -> (cmd: LedCmd)
        returns
            LedCmd::Rgb(color, Pattern::blink(count)),
    {
        LedCmd::Rgb(color, Pattern::blink(count))
    }

    #[verifier::allow_in_spec]
    pub fn blink_forever(color: Rgb) -> (cmd: LedCmd)
        returns
            LedCmd::Rgb(color, Pattern::blink_forever()),
    {
        LedCmd::Rgb(color, Pattern::blink_forever())
    }
}

/// What an LED can be driven to: `bool` for the blue one, [`Rgb`] for the WS2812.
pub trait LedValue: Copy {
    /// The dark value.
    spec fn dark() -> Self;

    fn off() -> (value: Self)
        ensures
            value == Self::dark(),
    ;

    fn same(&self, other: &Self) -> (equal: bool)
        ensures
            equal == (*self == *other),
    ;
}

impl LedValue for bool {
    open spec fn dark() -> Self {
        false
    }

    fn off() -> (value: Self) {
        false
    }

    fn same(&self, other: &Self) -> (equal: bool) {
        *self == *other
    }
}

impl LedValue for Rgb {
    open spec fn dark() -> Self {
        Rgb::new(0, 0, 0)
    }

    fn off() -> (value: Self) {
        Rgb::new(0, 0, 0)
    }

    fn same(&self, other: &Self) -> (equal: bool) {
        *self == *other
    }
}

/// One LED's playback state: what it shows now, and what it falls back to.
#[derive(Debug)]
pub struct Animation<T> {
    /// The steady value, restored when a timed or finite-count pattern ends.
    pub base: T,
    /// What the running pattern shows during its on-phase.
    pub value: T,
    pub pattern: Pattern,
    pub on_phase: bool,
    /// On-phases left to play, `None` for an endless blink.
    pub left: Option<u16>,
    pub deadline: Option<Instant>,
    pub out: T,
    pub dirty: bool,
}

impl<T: LedValue> Animation<T> {
    /// The steady state has no deadline and shows the steady value; a running pattern has a
    /// deadline and shows what its phase calls for.
    pub open spec fn wf(self) -> bool {
        match self.pattern {
            Pattern::Solid => self.deadline is None && self.out == self.base,
            Pattern::For(_) => self.deadline is Some && self.out == self.value,
            Pattern::Blink { count, .. } => {
                &&& self.deadline is Some
                &&& self.out == (if self.on_phase {
                    self.value
                } else {
                    T::dark()
                })
                &&& self.left != Some(0u16)
                &&& self.left is None <==> count is None
            },
        }
    }

    /// Showing `value`; what is already out need not be written again.
    pub open spec fn showing(self, value: T) -> Self {
        Animation { out: value, dirty: self.dirty || self.out != value, ..self }
    }

    /// Back in the steady state.
    pub open spec fn restored(self) -> Self {
        Animation { pattern: Pattern::Solid, deadline: None, ..self }.showing(self.base)
    }

    /// The state once `value` plays with `pattern` from `now` on.
    pub open spec fn applied(self, value: T, pattern: Pattern, now: Instant) -> Self {
        let next = Animation { value, pattern, ..self };
        match pattern {
            Pattern::Solid => Animation { base: value, deadline: None, ..next }.showing(value),
            Pattern::For(duration) => Animation {
                deadline: Some(now.plus(duration)),
                ..next
            }.showing(value),
            Pattern::Blink { on, count, .. } => if count == Some(0u16) {
                next.restored()
            } else {
                Animation {
                    on_phase: true,
                    left: count,
                    deadline: Some(now.plus(on)),
                    ..next
                }.showing(value)
            },
        }
    }

    pub open spec fn expired(self, now: Instant) -> bool {
        self.deadline is Some && self.deadline->0.ticks <= now.ticks
    }

    /// On-phases left once the one that just went dark is counted.
    pub open spec fn left_after(self) -> Option<u16> {
        match self.left {
            Some(left) => Some(if left > 0 {
                (left - 1) as u16
            } else {
                0
            }),
            None => None,
        }
    }

    /// Whether advancing at `now` stays on the clock.
    pub open spec fn poll_fits(self, now: Instant) -> bool {
        match self.pattern {
            Pattern::Blink { on, off, .. } => self.expired(now) ==> if self.on_phase {
                now.reaches(off)
            } else {
                self.left_after() != Some(0u16) ==> now.reaches(on)
            },
            _ => true,
        }
    }

    /// The state at `now`: the next phase if the current one has expired.
    pub open spec fn polled(self, now: Instant) -> Self {
        if !self.expired(now) {
            self
        } else {
            match self.pattern {
                Pattern::Solid | Pattern::For(_) => self.restored(),
                Pattern::Blink { on, off, .. } => if self.on_phase {
                    Animation {
                        on_phase: false,
                        deadline: Some(now.plus(off)),
                        ..self
                    }.showing(T::dark())
                } else {
                    let next = Animation { left: self.left_after(), ..self };
                    if next.left == Some(0u16) {
                        next.restored()
                    } else {
                        Animation {
                            on_phase: true,
                            deadline: Some(now.plus(on)),
                            ..next
                        }.showing(self.value)
                    }
                },
            }
        }
    }

    /// Dark, with nothing playing, and still to be written.
    pub open spec fn fresh() -> Self {
        Animation {
            base: T::dark(),
            value: T::dark(),
            pattern: Pattern::Solid,
            on_phase: false,
            left: None,
            deadline: None,
            out: T::dark(),
            dirty: true,
        }
    }

    pub fn new() -> (animation: Self)
        ensures
            animation == Self::fresh(),
            animation.wf(),
    {
        Animation {
            base: T::off(),
            value: T::off(),
            pattern: Pattern::Solid,
            on_phase: false,
            left: None,
            deadline: None,
            out: T::off(),
            // Hardware state is unknown until the first flush.
            dirty: true,
        }
    }

    /// Start showing `value` with `pattern`, replacing whatever was running.
    pub fn apply(&mut self, value: T, pattern: Pattern, now: Instant)
        requires
            pattern.fits(now),
        ensures
            *final(self) == old(self).applied(value, pattern, now),
            old(self).wf() ==> final(self).wf(),
    {
        self.value = value;
        self.pattern = pattern;

        match pattern {
            Pattern::Solid => {
                self.base = value;
                self.deadline = None;
            },
            Pattern::For(duration) => {
                self.deadline = Some(now.after(duration));
            },
            Pattern::Blink { on, count, .. } => {
                // Nothing to play: leave the steady value alone.
                if let Some(0) = count {
                    self.restore();
                    return ;
                }
                self.on_phase = true;
                self.left = count;
                self.deadline = Some(now.after(on));
            },
        }

        self.show(value);
    }

    /// Advance to the next phase if the current one has expired.
    pub fn poll(&mut self, now: Instant)
        requires
            old(self).poll_fits(now),
        ensures
            *final(self) == old(self).polled(now),
            old(self).wf() ==> final(self).wf(),
    {
        match self.deadline {
            None => return ,
            Some(deadline) => if deadline.ticks > now.ticks {
                return ;
            },
        }

        match self.pattern {
            // Solid never sets a deadline.
            Pattern::Solid | Pattern::For(_) => self.restore(),
            Pattern::Blink { on, off, .. } => if self.on_phase {
                self.on_phase = false;
                self.deadline = Some(now.after(off));
                self.show(T::off());
            } else {
                // The off-phase that just ended completes one blink.
                let left: Option<u16> = match self.left {
                    Some(left) => Some(if left > 0 {
                        left - 1
                    } else {
                        0
                    }),
                    None => None,
                };
                self.left = left;
                if let Some(0) = left {
                    self.restore();
                } else {
                    self.on_phase = true;
                    self.deadline = Some(now.after(on));
                    self.show(self.value);
                }
            },
        }
    }

    /// Whether the animation can be advanced at `now`.
    pub fn allows(&self, now: Instant) -> (r: bool)
        ensures
            r == self.poll_fits(now),
    {
        match self.deadline {
            None => return true,
            Some(deadline) => if deadline.ticks > now.ticks {
                return true;
            },
        }
        match self.pattern {
            Pattern::Blink { on, off, .. } => if self.on_phase {
                now.allows(off)
            } else {
                match self.left {
                    Some(left) => left <= 1 || now.allows(on),
                    None => now.allows(on),
                }
            },
            _ => true,
        }
    }

    fn restore(&mut self)
        ensures
            *final(self) == old(self).restored(),
    {
        self.pattern = Pattern::Solid;
        self.deadline = None;
        self.show(self.base);
    }

    fn show(&mut self, value: T)
        ensures
            *final(self) == old(self).showing(value),
    {
        if !self.out.same(&value) {
            self.out = value;
            self.dirty = true;
        }
    }

    /// The value to write out, or `None` if the hardware is already showing it.
    pub fn take_output(&mut self) -> (output: Option<T>)
        ensures
            output == (if old(self).dirty {
                Some(old(self).out)
            } else {
                None
            }),
            *final(self) == (Animation { dirty: false, ..*old(self) }),
    {
        if self.dirty {
            self.dirty = false;
            Some(self.out)
        } else {
            None
        }
    }

    /// Put back the value a failed write consumed: a `Solid` one would otherwise stay wrong
    /// until some later command happened to change it.
    pub fn retry_output(&mut self)
        ensures
            *final(self) == (Animation { dirty: true, ..*old(self) }),
    {
        self.dirty = true;
    }

    /// The state after polling at each of `times` in turn.
    pub open spec fn polled_at(self, times: Seq<Instant>) -> Self
        decreases times.len(),
    {
        if times.len() == 0 {
            self
        } else {
            self.polled_at(times.drop_last()).polled(times.last())
        }
    }

    /// Whether each of `times` ends the phase that runs by then.
    pub open spec fn each_expires(self, times: Seq<Instant>) -> bool {
        forall|i: int|
            0 <= i < times.len() ==> self.polled_at(#[trigger] times.take(i)).expired(times[i])
    }
}

/// Only a solid command moves the steady value: every other pattern, and the passing of time,
/// leaves it alone.
pub proof fn law_steady_value<T: LedValue>(
    animation: Animation<T>,
    value: T,
    pattern: Pattern,
    now: Instant,
)
    ensures
        pattern == Pattern::Solid ==> animation.applied(value, pattern, now).base == value,
        pattern != Pattern::Solid ==> animation.applied(value, pattern, now).base
            == animation.base,
        animation.polled(now).base == animation.base,
{
}

/// A blink of no count at all only ends what was running.
pub proof fn law_blink_of_zero<T: LedValue>(
    animation: Animation<T>,
    value: T,
    on: Duration,
    off: Duration,
    now: Instant,
)
    ensures
        ({
            let after = animation.applied(value, Pattern::Blink { on, off, count: Some(0) }, now);
            &&& after.out == animation.base
            &&& after.base == animation.base
            &&& after.pattern == Pattern::Solid
            &&& after.deadline is None
        }),
{
}

/// A timed pattern shows its value until its deadline and the steady value from then on.
pub proof fn law_timed_pattern<T: LedValue>(
    animation: Animation<T>,
    value: T,
    duration: Duration,
    start: Instant,
    now: Instant,
)
    requires
        start.reaches(duration),
    ensures
        ({
            let playing = animation.applied(value, Pattern::For(duration), start);
            &&& now.ticks < start.ticks + duration.ticks ==> playing.polled(now) == playing
                && playing.out == value
            &&& now.ticks >= start.ticks + duration.ticks ==> {
                &&& playing.polled(now).out == animation.base
                &&& playing.polled(now).pattern == Pattern::Solid
            }
        }),
{
}

/// A blink of `n` counts plays `n` on-phases, each followed by an off-phase, and then restores
/// the steady value, whenever the phases are found to have ended. Each phase lasts its own time
/// from when the one before was found to have ended.
pub proof fn law_finite_blink<T: LedValue>(
    animation: Animation<T>,
    value: T,
    on: Duration,
    off: Duration,
    n: u16,
    start: Instant,
    times: Seq<Instant>,
)
    requires
        n > 0,
        times.len() <= 2 * n,
        animation.applied(value, Pattern::Blink { on, off, count: Some(n) }, start).each_expires(
            times,
        ),
    ensures
        ({
            let playing = animation.applied(
                value,
                Pattern::Blink { on, off, count: Some(n) },
                start,
            ).polled_at(times);
            &&& playing.base == animation.base
            &&& times.len() == 2 * n ==> {
                &&& playing.out == animation.base
                &&& playing.pattern == Pattern::Solid
                &&& playing.deadline is None
            }
            &&& times.len() < 2 * n ==> {
                let since = if times.len() == 0 {
                    start
                } else {
                    times.last()
                };
                if times.len() % 2 == 0 {
                    playing.out == value && playing.deadline == Some(since.plus(on))
                } else {
                    playing.out == T::dark() && playing.deadline == Some(since.plus(off))
                }
            }
        }),
{
    lemma_blink_phase(animation, value, on, off, n, start, times);
}

proof fn lemma_blink_phase<T: LedValue>(
    animation: Animation<T>,
    value: T,
    on: Duration,
    off: Duration,
    n: u16,
    start: Instant,
    times: Seq<Instant>,
)
    requires
        n > 0,
        times.len() <= 2 * n,
        animation.applied(value, Pattern::Blink { on, off, count: Some(n) }, start).each_expires(
            times,
        ),
    ensures
        ({
            let first = animation.applied(value, Pattern::Blink { on, off, count: Some(n) }, start);
            let playing = first.polled_at(times);
            &&& playing.base == animation.base
            &&& playing.value == value
            &&& times.len() == 2 * n ==> {
                &&& playing.out == animation.base
                &&& playing.pattern == Pattern::Solid
                &&& playing.deadline is None
            }
            &&& times.len() < 2 * n ==> {
                &&& playing.pattern == first.pattern
                &&& playing.left == Some((n - times.len() / 2) as u16)
                &&& playing.on_phase == (times.len() % 2 == 0)
                &&& playing.deadline == Some(
                    (if times.len() == 0 {
                        start
                    } else {
                        times.last()
                    }).plus(
                        if times.len() % 2 == 0 {
                            on
                        } else {
                            off
                        },
                    ),
                )
                &&& playing.out == (if times.len() % 2 == 0 {
                    value
                } else {
                    T::dark()
                })
            }
        }),
    decreases times.len(),
{
    let first = animation.applied(value, Pattern::Blink { on, off, count: Some(n) }, start);
    if times.len() > 0 {
        let before = times.drop_last();
        assert forall|i: int| 0 <= i < before.len() implies first.polled_at(
            #[trigger] before.take(i),
        ).expired(before[i]) by {
            assert(before.take(i) == times.take(i));
        }
        lemma_blink_phase(animation, value, on, off, n, start, before);
        assert(times.take(times.len() - 1) == before);
        assert(first.polled_at(before).expired(times.last()));
    }
}

/// An endless blink never falls back on its own: only a command ends it.
pub proof fn law_endless_blink<T: LedValue>(
    animation: Animation<T>,
    value: T,
    on: Duration,
    off: Duration,
    start: Instant,
    times: Seq<Instant>,
)
    ensures
        ({
            let first = animation.applied(value, Pattern::Blink { on, off, count: None }, start);
            let playing = first.polled_at(times);
            &&& playing.pattern == first.pattern
            &&& playing.out == value || playing.out == T::dark()
            &&& playing.deadline is Some
        }),
{
    lemma_endless_blink(animation, value, on, off, start, times);
}

proof fn lemma_endless_blink<T: LedValue>(
    animation: Animation<T>,
    value: T,
    on: Duration,
    off: Duration,
    start: Instant,
    times: Seq<Instant>,
)
    ensures
        ({
            let first = animation.applied(value, Pattern::Blink { on, off, count: None }, start);
            let playing = first.polled_at(times);
            &&& playing.pattern == first.pattern
            &&& playing.value == value
            &&& playing.left is None
            &&& playing.out == value || playing.out == T::dark()
            &&& playing.deadline is Some
        }),
    decreases times.len(),
{
    if times.len() > 0 {
        lemma_endless_blink(animation, value, on, off, start, times.drop_last());
    }
}

/// Whatever happens to an LED, hardware that shows the last value written either shows what it
/// should or is due another write.
pub proof fn law_nothing_goes_unwritten<T: LedValue>(
    animation: Animation<T>,
    hardware: T,
    value: T,
    pattern: Pattern,
    now: Instant,
)
    requires
        animation.dirty || hardware == animation.out,
    ensures
        ({
            let after = animation.applied(value, pattern, now);
            after.dirty || hardware == after.out
        }),
        ({
            let after = animation.polled(now);
            after.dirty || hardware == after.out
        }),
{
}

/// Two halves of one pulse: a level held for a number of transmitter ticks, then another.
#[derive(Debug, Clone, Copy, PartialEq, Eq, Structural)]
pub struct Pulse {
    pub level1: bool,
    pub length1: u16,
    pub level2: bool,
    pub length2: u16,
}

/// Transmitter clock, in MHz, that the timings below assume: one tick = 12.5 ns.
pub const RMT_FREQUENCY: u32 = 80;

// WS2812 bit timings, in transmitter ticks.
pub const T0H: u16 = 32;  // 0.40 us

pub const T0L: u16 = 68;  // 0.85 us

pub const T1H: u16 = 64;  // 0.80 us

pub const T1L: u16 = 36;  // 0.45 us

/// The low period that latches a frame, in transmitter ticks (2 x 300 us). Sent inside the
/// frame, so that two frames in quick succession cannot merge into one chain update.
pub const RESET: u16 = 24_000;

/// The longest half a transmitter pulse can have.
pub const MAX_LENGTH: u16 = 0x7fff;

pub open spec fn bit_pulse(bit: bool) -> Pulse {
    if bit {
        Pulse { level1: true, length1: T1H, level2: false, length2: T1L }
    } else {
        Pulse { level1: true, length1: T0H, level2: false, length2: T0L }
    }
}

pub open spec fn reset_pulse() -> Pulse {
    Pulse { level1: false, length1: RESET, level2: false, length2: RESET }
}

/// A pulse of no length ends the transmission.
pub open spec fn end_pulse() -> Pulse {
    Pulse { level1: false, length1: 0, level2: false, length2: 0 }
}

/// Bit `i` of a color on the wire: the channels in G, R, B order, most significant bit first.
pub open spec fn wire_bit(color: Rgb, i: int) -> bool {
    let channel = if i < 8 {
        color.g
    } else if i < 16 {
        color.r
    } else {
        color.b
    };
    channel & (0x80u8 >> ((i % 8) as u8)) != 0
}

/// What goes out for one color: its 24 bits, the reset, and the end marker.
pub open spec fn frame(color: Rgb) -> Seq<Pulse> {
    Seq::new(
        26,
        |i: int|
            if i < 24 {
                bit_pulse(wire_bit(color, i))
            } else if i == 24 {
                reset_pulse()
            } else {
                end_pulse()
            },
    )
}

/// The WS2812's frame buffer.
pub struct RgbLed {
    codes: [Pulse; 26],
}

impl RgbLed {
    pub closed spec fn view(&self) -> Seq<Pulse> {
        self.codes@
    }

    /// The reset and the end marker are in place.
    pub open spec fn wf(&self) -> bool {
        &&& self@.len() == 26
        &&& self@[24] == reset_pulse()
        &&& self@[25] == end_pulse()
    }

    pub fn new() -> (led: RgbLed)
        ensures
            led.wf(),
            forall|i: int| 0 <= i < 24 ==> led@[i] == end_pulse(),
    {
        // Only the data codes are rewritten per frame; the reset and end marker stay put.
        let end = Pulse { level1: false, length1: 0, level2: false, length2: 0 };
        let mut codes: [Pulse; 26] = [end; 26];
        codes[24] = Pulse { level1: false, length1: RESET, level2: false, length2: RESET };
        RgbLed { codes }
    }

    /// Encodes `color` into the frame.
    pub fn set(&mut self, color: Rgb)
        requires
            old(self).wf(),
        ensures
            final(self).wf(),
            final(self)@ == frame(color),
    {
        let mut bit: usize = 0;
        while bit < 24
            invariant
                bit <= 24,
                self.wf(),
                forall|i: int| 0 <= i < bit ==> self@[i] == bit_pulse(wire_bit(color, i)),
            decreases 24 - bit,
        {
            let channel: u8 = if bit < 8 {
                color.g
            } else if bit < 16 {
                color.r
            } else {
                color.b
            };
            let code = if channel & (0x80u8 >> ((bit % 8) as u8)) != 0 {
                Pulse { level1: true, length1: T1H, level2: false, length2: T1L }
            } else {
                Pulse { level1: true, length1: T0H, level2: false, length2: T0L }
            };
            self.codes[bit] = code;
            bit = bit + 1;
        }
    }

    /// The code at `i`, for the transmitter.
    pub fn code(&self, i: usize) -> (code: Pulse)
        requires
            i < self@.len(),
        ensures
            code == self@[i as int],
    {
        self.codes[i]
    }
}

/// The color a frame carries.
pub open spec fn channel_of(codes: Seq<Pulse>, from: int) -> int {
    let bit = |i: int| if codes[from + i] == bit_pulse(true) { 1int } else { 0int };
    128 * bit(0) + 64 * bit(1) + 32 * bit(2) + 16 * bit(3) + 8 * bit(4) + 4 * bit(5) + 2 * bit(6)
        + bit(7)
}

/// The color can be read back from its frame, so no two colors share one; and no pulse of it is
/// longer than the transmitter can send.
pub proof fn law_frame_carries_color(color: Rgb)
    ensures
        channel_of(frame(color), 0) == color.g,
        channel_of(frame(color), 8) == color.r,
        channel_of(frame(color), 16) == color.b,
        forall|i: int|
            0 <= i < 26 ==> (#[trigger] frame(color)[i]).length1 <= MAX_LENGTH && frame(
                color,
            )[i].length2 <= MAX_LENGTH,
{
    lemma_channel_bits(color.g);
    lemma_channel_bits(color.r);
    lemma_channel_bits(color.b);
}

proof fn lemma_channel_bits(c: u8)
    ensures
        ({
            let bit = |i: int| if c & (0x80u8 >> (i as u8)) != 0 { 1int } else { 0int };
            c == 128 * bit(0) + 64 * bit(1) + 32 * bit(2) + 16 * bit(3) + 8 * bit(4) + 4 * bit(5)
                + 2 * bit(6) + bit(7)
        }),
{
    let b0: u8 = if c & (0x80u8 >> 0u8) != 0 { 1 } else { 0 };
    let b1: u8 = if c & (0x80u8 >> 1u8) != 0 { 1 } else { 0 };
    let b2: u8 = if c & (0x80u8 >> 2u8) != 0 { 1 } else { 0 };
    let b3: u8 = if c & (0x80u8 >> 3u8) != 0 { 1 } else { 0 };
    let b4: u8 = if c & (0x80u8 >> 4u8) != 0 { 1 } else { 0 };
    let b5: u8 = if c & (0x80u8 >> 5u8) != 0 { 1 } else { 0 };
    let b6: u8 = if c & (0x80u8 >> 6u8) != 0 { 1 } else { 0 };
    let b7: u8 = if c & (0x80u8 >> 7u8) != 0 { 1 } else { 0 };
    assert(c == 128 * b0 + 64 * b1 + 32 * b2 + 16 * b3 + 8 * b4 + 4 * b5 + 2 * b6 + b7)
        by (bit_vector)
        requires
            b0 == (if c & (0x80u8 >> 0u8) != 0 { 1u8 } else { 0u8 }),
            b1 == (if c & (0x80u8 >> 1u8) != 0 { 1u8 } else { 0u8 }),
            b2 == (if c & (0x80u8 >> 2u8) != 0 { 1u8 } else { 0u8 }),
            b3 == (if c & (0x80u8 >> 3u8) != 0 { 1u8 } else { 0u8 }),
            b4 == (if c & (0x80u8 >> 4u8) != 0 { 1u8 } else { 0u8 }),
            b5 == (if c & (0x80u8 >> 5u8) != 0 { 1u8 } else { 0u8 }),
            b6 == (if c & (0x80u8 >> 6u8) != 0 { 1u8 } else { 0u8 }),
            b7 == (if c & (0x80u8 >> 7u8) != 0 { 1u8 } else { 0u8 }),
    ;
}

/// A failed Wi-Fi sweep fires three commands back to back; this is room for a few of those.
pub const DEPTH: usize = 8;

/// The commands waiting to be played: an `embassy_sync` channel.
#[verifier::external_body]
pub struct Commands {
    channel: Channel<CriticalSectionRawMutex, LedCmd, 8>,
}

/// What a channel of commands holds, oldest first.
pub uninterp spec fn waiting(commands: Commands) -> Seq<LedCmd>;

/// Calls `embassy_sync::channel::Channel::new`, which holds nothing.
#[verifier::external_body]
fn channel_new() -> (commands: Commands)
    ensures
        waiting(commands) == Seq::<LedCmd>::empty(),
{
    Commands { channel: Channel::new() }
}

/// Calls `embassy_sync::channel::Channel::try_send`, which takes a value at the back as long as
/// there is room and otherwise leaves the channel as it is.
#[verifier::external_body]
fn channel_try_send(commands: &mut Commands, cmd: LedCmd) -> (taken: bool)
    ensures
        taken == (waiting(*old(commands)).len() < DEPTH),
        waiting(*final(commands)) == (if waiting(*old(commands)).len() < DEPTH {
            waiting(*old(commands)).push(cmd)
        } else {
            waiting(*old(commands))
        }),
{
    commands.channel.try_send(cmd).is_ok()
}

/// Calls `embassy_sync::channel::Channel::try_receive`, which takes the value at the front.
#[verifier::external_body]
fn channel_try_receive(commands: &mut Commands) -> (cmd: Option<LedCmd>)
    ensures
        cmd == (if waiting(*old(commands)).len() > 0 {
            Some(waiting(*old(commands))[0])
        } else {
            None
        }),
        waiting(*final(commands)) == (if waiting(*old(commands)).len() > 0 {
            waiting(*old(commands)).drop_first()
        } else {
            waiting(*old(commands))
        }),
{
    commands.channel.try_receive().ok()
}

impl Commands {
    pub fn new() -> (commands: Commands)
        ensures
            waiting(commands) == Seq::<LedCmd>::empty(),
    {
        channel_new()
    }

    /// The next command to play, if one waits.
    pub fn next(&mut self) -> (cmd: Option<LedCmd>)
        ensures
            cmd == (if waiting(*old(self)).len() > 0 {
                Some(waiting(*old(self))[0])
            } else {
                None
            }),
            waiting(*final(self)) == (if waiting(*old(self)).len() > 0 {
                waiting(*old(self)).drop_first()
            } else {
                waiting(*old(self))
            }),
    {
        channel_try_receive(self)
    }
}

/// Queue a command, and say whether it was taken.
///
/// Never blocks: whoever plays a pattern is a slow drainer by design, and no producer should wait
/// on an LED. A dropped command is cosmetic.
pub fn send(commands: &mut Commands, cmd: LedCmd) -> (taken: bool)
    ensures
        taken == (waiting(*old(commands)).len() < DEPTH),
        waiting(*final(commands)) == (if taken {
            waiting(*old(commands)).push(cmd)
        } else {
            waiting(*old(commands))
        }),
{
    channel_try_send(commands, cmd)
}

/// Milliseconds the WS2812 needs after its supply is switched on, before the first frame.
pub const POWER_UP: u64 = 1;

/// Milliseconds before a failed frame is sent again.
pub const RGB_RETRY: u64 = 20;

/// Both on-board LEDs, and when a failed frame is due again.
#[derive(Debug)]
pub struct Leds {
    pub status: Animation<bool>,
    pub rgb: Animation<Rgb>,
    pub rgb_retry: Option<Instant>,
}

impl Leds {
    /// Both animations are sound, and a frame due again has not been counted as written.
    pub open spec fn wf(self) -> bool {
        &&& self.status.wf()
        &&& self.rgb.wf()
        &&& self.rgb_retry is Some ==> self.rgb.dirty
    }

    /// The state once `cmd` starts to play.
    pub open spec fn after_command(self, cmd: LedCmd, now: Instant) -> Leds {
        match cmd {
            LedCmd::Status(on, pattern) => Leds {
                status: self.status.applied(on, pattern, now),
                ..self
            },
            LedCmd::Rgb(color, pattern) => Leds {
                rgb: self.rgb.applied(color, pattern, now),
                ..self
            },
        }
    }

    /// The state once a frame was sent, or was not.
    pub open spec fn after_write(self, written: bool, now: Instant) -> Leds {
        if written {
            Leds { rgb_retry: None, ..self }
        } else {
            Leds {
                rgb: Animation { dirty: true, ..self.rgb },
                rgb_retry: Some(now.plus(time::millis(RGB_RETRY))),
                ..self
            }
        }
    }

    pub open spec fn next_deadline(self) -> Option<Instant> {
        time::earliest(time::earliest(self.status.deadline, self.rgb.deadline), self.rgb_retry)
    }

    /// The state at power-up.
    pub open spec fn fresh() -> Leds {
        Leds { status: Animation::fresh(), rgb: Animation::fresh(), rgb_retry: None }
    }

    /// Both LEDs dark, with nothing playing, and still to be written.
    pub fn new() -> (leds: Leds)
        ensures
            leds == Leds::fresh(),
            leds.wf(),
            leds.status.pattern == Pattern::Solid,
            leds.rgb.pattern == Pattern::Solid,
            leds.next_deadline() is None,
    {
        Leds { status: Animation::new(), rgb: Animation::new(), rgb_retry: None }
    }

    /// The level to drive the status LED to, if it has to change.
    pub fn take_status(&mut self) -> (output: Option<bool>)
        ensures
            output == (if old(self).status.dirty {
                Some(old(self).status.out)
            } else {
                None
            }),
            *final(self) == (Leds {
                status: Animation { dirty: false, ..old(self).status },
                ..*old(self)
            }),
            old(self).wf() ==> final(self).wf(),
    {
        self.status.take_output()
    }

    /// Encodes the color the RGB LED has to change to, if it has to; the frame then has to be
    /// sent, and its fate reported through [`Leds::rgb_written`].
    pub fn take_rgb(&mut self, led: &mut RgbLed) -> (output: Option<Rgb>)
        requires
            old(led).wf(),
        ensures
            final(led).wf(),
            output == (if old(self).rgb.dirty {
                Some(old(self).rgb.out)
            } else {
                None
            }),
            output is Some ==> final(led)@ == frame(old(self).rgb.out),
            output is None ==> *final(led) == *old(led),
            *final(self) == (Leds {
                rgb: Animation { dirty: false, ..old(self).rgb },
                ..*old(self)
            }),
    {
        let output = self.rgb.take_output();
        if let Some(color) = output {
            led.set(color);
        }
        output
    }

    /// Take note of how sending the last frame went: one that failed is due again shortly.
    pub fn rgb_written(&mut self, written: bool, now: Instant)
        requires
            !written ==> now.reaches(time::millis(RGB_RETRY)),
        ensures
            *final(self) == old(self).after_write(written, now),
            old(self).status.wf() && old(self).rgb.wf() ==> final(self).wf(),
    {
        if written {
            self.rgb_retry = None;
        } else {
            self.rgb.retry_output();
            self.rgb_retry = Some(now.after(Duration::from_millis(RGB_RETRY)));
        }
    }

    /// When something has to happen without a command to prompt it.
    pub fn deadline(&self) -> (deadline: Option<Instant>)
        ensures
            deadline == self.next_deadline(),
    {
        sooner(sooner(self.status.deadline, self.rgb.deadline), self.rgb_retry)
    }

    /// Start playing `cmd` on the LED it is for.
    pub fn on_command(&mut self, cmd: LedCmd, now: Instant)
        requires
            cmd.fits(now),
        ensures
            *final(self) == old(self).after_command(cmd, now),
            old(self).wf() ==> final(self).wf(),
    {
        match cmd {
            LedCmd::Status(on, pattern) => self.status.apply(on, pattern, now),
            LedCmd::Rgb(color, pattern) => self.rgb.apply(color, pattern, now),
        }
    }

    /// Whether both LEDs can be moved on at `now`.
    pub fn allows(&self, now: Instant) -> (r: bool)
        ensures
            r == (self.status.poll_fits(now) && self.rgb.poll_fits(now)),
    {
        self.status.allows(now) && self.rgb.allows(now)
    }

    /// Move both LEDs on to where they should be at `now`.
    pub fn on_timeout(&mut self, now: Instant)
        requires
            old(self).status.poll_fits(now),
            old(self).rgb.poll_fits(now),
        ensures
            *final(self) == (Leds {
                status: old(self).status.polled(now),
                rgb: old(self).rgb.polled(now),
                ..*old(self)
            }),
            old(self).wf() ==> final(self).wf(),
    {
        self.status.poll(now);
        self.rgb.poll(now);
    }
}

/// From power-up on both LEDs stay dark, and nothing falls due, until a command is played, however
/// often they are looked at.
pub proof fn law_dark_until_commanded(times: Seq<Instant>)
    ensures
        Leds::fresh().next_deadline() is None,
        Leds::fresh().status.polled_at(times) == Leds::fresh().status,
        Leds::fresh().rgb.polled_at(times) == Leds::fresh().rgb,
        !Leds::fresh().status.out,
        Leds::fresh().rgb.out == Rgb::off(),
    decreases times.len(),
{
    if times.len() > 0 {
        law_dark_until_commanded(times.drop_last());
    }
}

/// A command reaches the LED it names and never disturbs the other.
pub proof fn law_leds_are_independent(
    leds: Leds,
    on: bool,
    color: Rgb,
    pattern: Pattern,
    now: Instant,
)
    ensures
        leds.after_command(LedCmd::Status(on, pattern), now).rgb == leds.rgb,
        leds.after_command(LedCmd::Rgb(color, pattern), now).status == leds.status,
{
}

/// A frame that failed is not lost: whatever else happens meanwhile, the color that should show
/// is still to be written, and the wait for it ends within the retry interval.
pub proof fn law_failed_frame_is_sent_again(leds: Leds, cmd: LedCmd, failed: Instant, now: Instant)
    requires
        failed.reaches(time::millis(RGB_RETRY)),
    ensures
        ({
            let after = leds.after_write(false, failed);
            &&& after.rgb.dirty
            &&& after.rgb.out == leds.rgb.out
            &&& after.next_deadline() is Some
            &&& after.next_deadline()->0.ticks <= failed.ticks + time::millis(RGB_RETRY).ticks
            &&& after.after_command(cmd, now).rgb.dirty
            &&& after.rgb.polled(now).dirty
        }),
{
}

/// A channel is scaled in proportion, rounding down, as far as full scale goes.
pub proof fn law_scaled_in_proportion(c: u8, level: u8)
    ensures
        c * level < 256 * 32 ==> 32 * scaled_channel(c, level) <= c * level < 32 * (scaled_channel(
            c,
            level,
        ) + 1),
        c * level >= 256 * 32 ==> scaled_channel(c, level) == 255,
{
    assert(0 <= c * level) by (nonlinear_arith);
}

/// The palette, at an eighth of full scale.
pub proof fn law_palette()
    ensures
        Rgb::off() == (Rgb { r: 0, g: 0, b: 0 }),
        Rgb::red() == (Rgb { r: 32, g: 0, b: 0 }),
        Rgb::green() == (Rgb { r: 0, g: 32, b: 0 }),
        Rgb::blue() == (Rgb { r: 0, g: 0, b: 32 }),
        Rgb::yellow() == (Rgb { r: 32, g: 32, b: 0 }),
        Rgb::white() == (Rgb { r: 32, g: 32, b: 32 }),
        bool::dark() == false,
        Rgb::dark() == (Rgb { r: 0, g: 0, b: 0 }),
{
}

/// What each command by name stands for: which LED, which value, and how long. Both phases of a
/// blink last 150 milliseconds.
pub proof fn law_commands(on: bool, color: Rgb, duration: Duration, count: u16, r: u8, g: u8, b: u8)
    ensures
        ({
            let phase = Duration { ticks: 150_000 };
            let counted = Pattern::Blink { on: phase, off: phase, count: Some(count) };
            let endless = Pattern::Blink { on: phase, off: phase, count: None };
            &&& Pattern::blink(count) == counted
            &&& Pattern::blink_forever() == endless
            &&& LedCmd::status(on) == LedCmd::Status(on, Pattern::Solid)
            &&& LedCmd::status_for(on, duration) == LedCmd::Status(on, Pattern::For(duration))
            &&& LedCmd::status_blink(count) == LedCmd::Status(true, counted)
            &&& LedCmd::status_blink_forever() == LedCmd::Status(true, endless)
            &&& LedCmd::rgb(color) == LedCmd::Rgb(color, Pattern::Solid)
            &&& LedCmd::rgb_for(color, duration) == LedCmd::Rgb(color, Pattern::For(duration))
            &&& LedCmd::blink(color, count) == LedCmd::Rgb(color, counted)
            &&& LedCmd::blink_forever(color) == LedCmd::Rgb(color, endless)
            &&& Rgb::new(r, g, b) == (Rgb { r, g, b })
        }),
{
}

/// A solid command shows its value at once and for good: nothing falls due, and time passes
/// without a change.
pub proof fn law_solid_stays<T: LedValue>(
    animation: Animation<T>,
    value: T,
    start: Instant,
    times: Seq<Instant>,
)
    ensures
        ({
            let after = animation.applied(value, Pattern::Solid, start);
            &&& after.out == value
            &&& after.deadline is None
            &&& after.polled_at(times) == after
        }),
    decreases times.len(),
{
    if times.len() > 0 {
        law_solid_stays(animation, value, start, times.drop_last());
    }
}

/// A phase lasts until its deadline and not beyond: before it nothing changes, and from then on
/// the next phase plays or the steady value is back.
pub proof fn law_phases_end_at_their_deadline<T: LedValue>(
    animation: Animation<T>,
    now: Instant,
    on: Duration,
    off: Duration,
    count: Option<u16>,
)
    ensures
        animation.deadline is None ==> animation.polled(now) == animation,
        animation.deadline matches Some(due) ==> (now.ticks < due.ticks ==> animation.polled(now)
            == animation),
        ({
            let next = animation.polled(now);
            animation.deadline is Some && now.ticks >= animation.deadline->0.ticks
                && animation.pattern == (Pattern::Blink { on, off, count }) ==> {
                &&& animation.on_phase ==> {
                    &&& next.out == T::dark()
                    &&& !next.on_phase
                    &&& next.deadline == Some(now.plus(off))
                    &&& next.left == animation.left
                    &&& next.pattern == animation.pattern
                }
                &&& !animation.on_phase && (animation.left == Some(0u16) || animation.left == Some(
                    1u16,
                )) ==> {
                    &&& next.out == animation.base
                    &&& next.deadline is None
                    &&& next.pattern is Solid
                }
                &&& !animation.on_phase && (animation.left is None || animation.left->0 > 1) ==> {
                    &&& next.out == animation.value
                    &&& next.on_phase
                    &&& next.deadline == Some(now.plus(on))
                    &&& next.pattern == animation.pattern
                    &&& animation.left is None ==> next.left is None
                    &&& animation.left matches Some(left) ==> next.left == Some((left - 1) as u16)
                }
            }
        }),
{
}

/// An endless blink alternates for as long as it plays, each phase for its own time.
pub proof fn law_endless_blink_alternates<T: LedValue>(
    animation: Animation<T>,
    value: T,
    on: Duration,
    off: Duration,
    start: Instant,
    times: Seq<Instant>,
)
    requires
        animation.applied(value, Pattern::Blink { on, off, count: None }, start).each_expires(
            times,
        ),
    ensures
        ({
            let playing = animation.applied(
                value,
                Pattern::Blink { on, off, count: None },
                start,
            ).polled_at(times);
            let since = if times.len() == 0 {
                start
            } else {
                times.last()
            };
            &&& playing.pattern == (Pattern::Blink { on, off, count: None })
            &&& playing.value == value && playing.left is None && playing.base == animation.base
            &&& playing.on_phase == (times.len() % 2 == 0)
            &&& times.len() % 2 == 0 ==> playing.out == value && playing.deadline == Some(
                since.plus(on),
            )
            &&& times.len() % 2 == 1 ==> playing.out == T::dark() && playing.deadline == Some(
                since.plus(off),
            )
        }),
    decreases times.len(),
{
    let first = animation.applied(value, Pattern::Blink { on, off, count: None }, start);
    if times.len() > 0 {
        let before = times.drop_last();
        assert forall|i: int| 0 <= i < before.len() implies first.polled_at(
            #[trigger] before.take(i),
        ).expired(before[i]) by {
            assert(before.take(i) == times.take(i));
        }
        law_endless_blink_alternates(animation, value, on, off, start, before);
        assert(times.take(times.len() - 1) == before);
        assert(first.polled_at(before).expired(times.last()));
    }
}

/// Nothing is written twice: what the hardware already shows is due another write only if it was
/// before.
pub proof fn law_no_needless_writes<T: LedValue>(
    animation: Animation<T>,
    value: T,
    pattern: Pattern,
    now: Instant,
)
    requires
        !animation.dirty,
    ensures
        ({
            let after = animation.applied(value, pattern, now);
            after.dirty <==> after.out != animation.out
        }),
        ({
            let after = animation.polled(now);
            after.dirty <==> after.out != animation.out
        }),
{
}

/// What goes out for a color, pulse by pulse: the bits of green, red and blue, high ones first,
/// with the times the WS2812 tells a one from a zero by, then the reset and the end.
pub proof fn law_frame_pulse_by_pulse(color: Rgb, i: int)
    requires
        0 <= i < 26,
    ensures
        frame(color).len() == 26,
        i < 24 ==> ({
            let channel = if i / 8 == 0 {
                color.g
            } else if i / 8 == 1 {
                color.r
            } else {
                color.b
            };
            let one = Pulse { level1: true, length1: 64, level2: false, length2: 36 };
            let zero = Pulse { level1: true, length1: 32, level2: false, length2: 68 };
            frame(color)[i] == (if channel & (0x80u8 >> ((i % 8) as u8)) != 0 {
                one
            } else {
                zero
            })
        }),
        i == 24 ==> frame(color)[i] == (Pulse {
            level1: false,
            length1: 24_000,
            level2: false,
            length2: 24_000,
        }),
        i == 25 ==> frame(color)[i] == (Pulse {
            level1: false,
            length1: 0,
            level2: false,
            length2: 0,
        }),
{
}

/// The next deadline of both LEDs is the first of all that falls due, and there is none exactly
/// where nothing does; a failed frame falls due 20 milliseconds later.
pub proof fn law_first_of_all_deadlines(leds: Leds, failed: Instant)
    ensures
        leds.next_deadline() is None <==> leds.status.deadline is None && leds.rgb.deadline is None
            && leds.rgb_retry is None,
        leds.next_deadline() matches Some(due) ==> {
            &&& leds.status.deadline matches Some(at) ==> due.ticks <= at.ticks
            &&& leds.rgb.deadline matches Some(at) ==> due.ticks <= at.ticks
            &&& leds.rgb_retry matches Some(at) ==> due.ticks <= at.ticks
            &&& Some(due) == leds.status.deadline || Some(due) == leds.rgb.deadline || Some(due)
                == leds.rgb_retry
        },
        failed.ticks + 20_000 <= u64::MAX ==> leds.after_write(false, failed).rgb_retry == Some(
            Instant { ticks: (failed.ticks + 20_000) as u64 },
        ),
        leds.after_write(true, failed).rgb_retry is None,
        leds.after_write(true, failed).rgb == leds.rgb,
        leds.after_write(true, failed).status == leds.status,
        leds.after_write(false, failed).status == leds.status,
{
}

/// A command starts its own pattern on the LED it names, from the moment it is played, and leaves
/// a failed frame due when it was.
pub proof fn law_commands_start_their_pattern(
    leds: Leds,
    on: bool,
    color: Rgb,
    pattern: Pattern,
    now: Instant,
)
    ensures
        leds.after_command(LedCmd::Status(on, pattern), now).status == leds.status.applied(
            on,
            pattern,
            now,
        ),
        leds.after_command(LedCmd::Status(on, pattern), now).rgb_retry == leds.rgb_retry,
        leds.after_command(LedCmd::Rgb(color, pattern), now).rgb == leds.rgb.applied(
            color,
            pattern,
            now,
        ),
        leds.after_command(LedCmd::Rgb(color, pattern), now).rgb_retry == leds.rgb_retry,
{
}

/// As long as the clock has room for both phases of a pattern, it can be started and played.
pub proof fn law_patterns_play_on_a_clock_with_room<T: LedValue>(
    animation: Animation<T>,
    pattern: Pattern,
    now: Instant,
    longest: Duration,
)
    requires
        now.ticks + longest.ticks <= u64::MAX,
    ensures
        pattern is Solid ==> pattern.fits(now),
        pattern matches Pattern::For(span) ==> (span.ticks <= longest.ticks ==> pattern.fits(now)),
        pattern matches Pattern::Blink { on, .. } ==> (on.ticks <= longest.ticks ==> pattern.fits(
            now,
        )),
        animation.pattern matches Pattern::Blink { on, off, .. } ==> (on.ticks <= longest.ticks
            && off.ticks <= longest.ticks ==> animation.poll_fits(now)),
        !(animation.pattern is Blink) ==> animation.poll_fits(now),
{
}

} // verus!
