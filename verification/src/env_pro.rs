//! Unit ENV-Pro (BME688): what one reading is, and how the sensor is kept running.
//!
//! A failed read re-initializes the sensor, so the unit can be unplugged and plugged back in.

use vstd::prelude::*;
use crate::led::{LedCmd, Rgb};
use crate::time::Duration;

verus! {

/// A measured or configured quantity: the bits of an IEEE 754 single-precision number, by which
/// it is compared, and the decimal text in which people read it.
#[derive(Debug)]
pub struct Reading {
    pub bits: u32,
    pub shown: String,
}

/// The sign bit of a single-precision number.
pub const SIGN: u32 = 0x8000_0000;

/// The bits of positive infinity: a magnitude past these is not a number.
pub const INFINITY: u32 = 0x7f80_0000;

/// The magnitude bits; as unsigned integers they are in the order of the magnitudes.
pub open spec fn magnitude(bits: u32) -> int {
    if bits >= SIGN {
        bits - SIGN
    } else {
        bits as int
    }
}

pub open spec fn is_nan(bits: u32) -> bool {
    magnitude(bits) > INFINITY
}

/// An integer that grows with the number the bits stand for; both zeros have the same.
pub open spec fn rank(bits: u32) -> int {
    if bits >= SIGN {
        -magnitude(bits)
    } else {
        magnitude(bits)
    }
}

/// Whether one number is less than another; what is not a number compares with nothing.
pub open spec fn less(a: u32, b: u32) -> bool {
    !is_nan(a) && !is_nan(b) && rank(a) < rank(b)
}

impl Clone for Reading {
    fn clone(&self) -> (copy: Reading)
        ensures
            copy == *self,
    {
        Reading { bits: self.bits, shown: self.shown.clone() }
    }
}

impl Reading {
    pub fn is_less(&self, other: &Reading) -> (r: bool)
        ensures
            r == less(self.bits, other.bits),
    {
        let a = self.bits;
        let b = other.bits;
        let a_size: i64 = if a >= SIGN {
            (a - SIGN) as i64
        } else {
            a as i64
        };
        let b_size: i64 = if b >= SIGN {
            (b - SIGN) as i64
        } else {
            b as i64
        };
        if a_size > INFINITY as i64 || b_size > INFINITY as i64 {
            return false;
        }
        let a_rank: i64 = if a >= SIGN {
            -a_size
        } else {
            a_size
        };
        let b_rank: i64 = if b >= SIGN {
            -b_size
        } else {
            b_size
        };
        a_rank < b_rank
    }
}

/// Numbers are in order: nothing is below itself, of two only one is below the other, and what is
/// below something below a third is below the third.
pub proof fn law_less(a: u32, b: u32, c: u32)
    ensures
        !less(a, a),
        less(a, b) ==> !less(b, a),
        less(a, b) && less(b, c) ==> less(a, c),
{
}

/// One ENV-Pro reading.
#[derive(Debug)]
pub struct EnvData {
    /// degrees Celsius, shown with one decimal
    pub temperature: Reading,
    /// %RH, shown without decimals
    pub humidity: Reading,
    /// hPa, shown without decimals
    pub pressure: Reading,
    /// Ohm
    pub gas_resistance: Option<Reading>,
}

impl Clone for EnvData {
    fn clone(&self) -> (copy: EnvData)
        ensures
            copy == *self,
    {
        EnvData {
            temperature: self.temperature.clone(),
            humidity: self.humidity.clone(),
            pressure: self.pressure.clone(),
            gas_resistance: match &self.gas_resistance {
                Some(reading) => Some(reading.clone()),
                None => None,
            },
        }
    }
}

/// What the sensor is to do next.
#[derive(Debug, Clone, Copy, PartialEq, Eq, Structural)]
pub enum SensorTask {
    Initialize,
    Measure,
}

/// What came of what the sensor was to do.
#[derive(Debug)]
pub enum SensorEvent {
    Initialized,
    InitFailed,
    Measured(EnvData),
    MeasureFailed,
}

/// What follows from a sensor event: a reading to hand out, an LED command, how long to wait, and
/// what to do then.
#[derive(Debug)]
pub struct SensorStep {
    pub reading: Option<EnvData>,
    pub led: Option<LedCmd>,
    pub pause: Option<Duration>,
    pub next: SensorTask,
}

/// How often to sample, and how long to leave a sensor alone that does not answer.
#[derive(Debug, Clone, Copy)]
pub struct Schedule {
    pub env_retry: Duration,
    pub env_sample: Duration,
}

impl Schedule {
    pub open spec fn answer(self, event: SensorEvent) -> SensorStep {
        match event {
            SensorEvent::Initialized => SensorStep {
                reading: None,
                led: None,
                pause: None,
                next: SensorTask::Measure,
            },
            SensorEvent::InitFailed | SensorEvent::MeasureFailed => SensorStep {
                reading: None,
                led: Some(LedCmd::blink(Rgb::red(), 3)),
                pause: Some(self.env_retry),
                next: SensorTask::Initialize,
            },
            SensorEvent::Measured(data) => SensorStep {
                reading: Some(data),
                led: Some(LedCmd::blink(Rgb::green(), 1)),
                pause: Some(self.env_sample),
                next: SensorTask::Measure,
            },
        }
    }

    pub fn on_event(&self, event: SensorEvent) -> (step: SensorStep)
        ensures
            step == self.answer(event),
    {
        match event {
            SensorEvent::Initialized => SensorStep {
                reading: None,
                led: None,
                pause: None,
                next: SensorTask::Measure,
            },
            SensorEvent::InitFailed | SensorEvent::MeasureFailed => SensorStep {
                reading: None,
                led: Some(LedCmd::blink(Rgb::red(), 3)),
                pause: Some(self.env_retry),
                next: SensorTask::Initialize,
            },
            SensorEvent::Measured(data) => SensorStep {
                reading: Some(data),
                led: Some(LedCmd::blink(Rgb::green(), 1)),
                pause: Some(self.env_sample),
                next: SensorTask::Measure,
            },
        }
    }
}

/// The sensor is measured only once initialized and as long as every measurement succeeds; any
/// failure leads back to initialization, after a pause and with three red blinks.
pub proof fn law_failure_reinitializes(schedule: Schedule, event: SensorEvent)
    ensures
        schedule.answer(event).next == SensorTask::Measure <==> (event is Initialized
            || event is Measured),
        schedule.answer(event).next == SensorTask::Initialize ==> {
            &&& schedule.answer(event).pause == Some(schedule.env_retry)
            &&& schedule.answer(event).led == Some(LedCmd::blink(Rgb::red(), 3))
        },
        schedule.answer(event).reading is Some <==> event is Measured,
{
}

/// Numbers are in the order of IEEE 754: those without a sign like their bits, those with one the
/// other way round, all of the latter below all of the former but for the two zeros, which are
/// equal. What is past infinity is not a number, and nothing else is.
pub proof fn law_less_is_the_order_of_numbers(a: u32, b: u32)
    ensures
        a <= 0x7f80_0000 && b <= 0x7f80_0000 ==> (less(a, b) <==> a < b),
        0x8000_0000 <= a <= 0xff80_0000 && 0x8000_0000 <= b <= 0xff80_0000 ==> (less(a, b) <==> a
            > b),
        0x8000_0000 <= a <= 0xff80_0000 && b <= 0x7f80_0000 ==> {
            &&& less(a, b) <==> !(a == 0x8000_0000 && b == 0)
            &&& !less(b, a)
        },
        0x7f80_0000 < a < 0x8000_0000 || a > 0xff80_0000 ==> !less(a, b) && !less(b, a),
{
}

/// Of any two numbers one is less than the other, unless they are the same number.
pub proof fn law_numbers_compare(a: u32, b: u32)
    requires
        a <= 0x7f80_0000 || 0x8000_0000 <= a <= 0xff80_0000,
        b <= 0x7f80_0000 || 0x8000_0000 <= b <= 0xff80_0000,
    ensures
        less(a, b) || less(b, a) || a == b || (a == 0 && b == 0x8000_0000) || (a == 0x8000_0000
            && b == 0),
{
}

/// A measurement is handed out as it is, with one green blink, and the next one follows after the
/// sample interval; a sensor just initialized is measured at once.
pub proof fn law_measurements_are_handed_out(schedule: Schedule, data: EnvData)
    ensures
        ({
            let step = schedule.answer(SensorEvent::Measured(data));
            &&& step.reading == Some(data)
            &&& step.led == Some(
                LedCmd::Rgb(
                    Rgb { r: 0, g: 32, b: 0 },
                    crate::led::Pattern::Blink {
                        on: Duration { ticks: 150_000 },
                        off: Duration { ticks: 150_000 },
                        count: Some(1),
                    },
                ),
            )
            &&& step.pause == Some(schedule.env_sample)
            &&& step.next == SensorTask::Measure
        }),
        ({
            let step = schedule.answer(SensorEvent::Initialized);
            step.reading is None && step.led is None && step.pause is None && step.next
                == SensorTask::Measure
        }),
{
}

/// A failure, of whichever kind, shows as three red blinks and leaves the sensor alone for the
/// retry interval before it is initialized anew.
pub proof fn law_failures_are_shown(schedule: Schedule, event: SensorEvent)
    requires
        event is InitFailed || event is MeasureFailed,
    ensures
        ({
            let step = schedule.answer(event);
            &&& step.reading is None
            &&& step.led == Some(
                LedCmd::Rgb(
                    Rgb { r: 32, g: 0, b: 0 },
                    crate::led::Pattern::Blink {
                        on: Duration { ticks: 150_000 },
                        off: Duration { ticks: 150_000 },
                        count: Some(3),
                    },
                ),
            )
            &&& step.pause == Some(schedule.env_retry)
            &&& step.next == SensorTask::Initialize
        }),
{
}

} // verus!
