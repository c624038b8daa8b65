//! The LEDs.

use critical_section as _;
use m5nanoc6::led::{send, Animation, Commands, LedCmd, Leds, Pattern, Pulse, Rgb, RgbLed};
use m5nanoc6::time::{Duration, Instant};

fn ms(n: u64) -> Instant {
    Instant { ticks: n * 1000 }
}

#[test]
fn palette_and_scaling() {
    assert_eq!(Rgb::yellow(), Rgb { r: 32, g: 32, b: 0 });
    assert_eq!(Rgb::white().scaled(200), Rgb { r: 200, g: 200, b: 200 });
    assert_eq!(Rgb::new(64, 40, 1).scaled(255), Rgb { r: 255, g: 255, b: 7 });
    assert_eq!(Rgb::new(64, 40, 1).scaled(32), Rgb { r: 64, g: 40, b: 1 });
    assert_eq!(Rgb::red().scaled(0), Rgb::off());
}

#[test]
fn commands_by_name() {
    let on = Duration::from_millis(150);
    assert_eq!(LedCmd::status(true), LedCmd::Status(true, Pattern::Solid));
    assert_eq!(
        LedCmd::status_for(false, on),
        LedCmd::Status(false, Pattern::For(Duration { ticks: 150_000 }))
    );
    assert_eq!(
        LedCmd::status_blink(2),
        LedCmd::Status(true, Pattern::Blink { on, off: on, count: Some(2) })
    );
    assert_eq!(
        LedCmd::status_blink_forever(),
        LedCmd::Status(true, Pattern::Blink { on, off: on, count: None })
    );
    assert_eq!(LedCmd::rgb(Rgb::green()), LedCmd::Rgb(Rgb::new(0, 32, 0), Pattern::Solid));
    assert_eq!(LedCmd::rgb_for(Rgb::blue(), on), LedCmd::Rgb(Rgb::new(0, 0, 32), Pattern::For(on)));
    assert_eq!(
        LedCmd::blink(Rgb::red(), 3),
        LedCmd::Rgb(Rgb::new(32, 0, 0), Pattern::Blink { on, off: on, count: Some(3) })
    );
    assert_eq!(
        LedCmd::blink_forever(Rgb::red()),
        LedCmd::Rgb(Rgb::red(), Pattern::blink_forever())
    );
}

#[test]
fn first_flush_writes_the_dark_value() {
    let mut led = Animation::<bool>::new();
    assert_eq!(led.take_output(), Some(false));
    assert_eq!(led.take_output(), None);
    led.retry_output();
    assert_eq!(led.take_output(), Some(false));
}

#[test]
fn timed_pattern_restores_the_steady_value() {
    let mut led = Animation::<Rgb>::new();
    led.apply(Rgb::green(), Pattern::Solid, ms(0));
    led.apply(Rgb::red(), Pattern::For(Duration::from_millis(100)), ms(10));
    assert_eq!(led.take_output(), Some(Rgb::red()));
    led.poll(ms(109));
    assert_eq!(led.take_output(), None);
    led.poll(ms(110));
    assert_eq!(led.take_output(), Some(Rgb::green()));
    assert_eq!(led.deadline, None);
}

#[test]
fn finite_blink_plays_its_count() {
    let mut led = Animation::<bool>::new();
    led.apply(true, Pattern::Solid, ms(0));
    led.take_output();
    led.apply(true, Pattern::blink(2), ms(0));
    let mut shown = vec![];
    let mut now = 0;
    while led.deadline.is_some() {
        now += 150;
        assert_eq!(led.deadline, Some(ms(now)));
        led.poll(ms(now));
        shown.push(led.out);
    }
    assert_eq!(shown, vec![false, true, false, true]);
    assert_eq!(led.pattern, Pattern::Solid);
    assert_eq!(now, 600);
}

#[test]
fn blink_of_zero_keeps_the_steady_value() {
    let mut led = Animation::<Rgb>::new();
    led.apply(Rgb::blue(), Pattern::Solid, ms(0));
    led.apply(Rgb::red(), Pattern::For(Duration::from_millis(5)), ms(0));
    led.apply(Rgb::white(), Pattern::blink(0), ms(1));
    assert_eq!(led.out, Rgb::blue());
    assert_eq!(led.deadline, None);
}

#[test]
fn endless_blink_goes_on() {
    let mut led = Animation::<bool>::new();
    led.apply(true, Pattern::blink_forever(), ms(0));
    for round in 1..=20u64 {
        led.poll(ms(150 * round));
        assert_eq!(led.out, round % 2 == 0);
        assert!(led.deadline.is_some());
    }
}

#[test]
fn patterns_past_the_clock_are_noticed() {
    let end = Instant { ticks: u64::MAX };
    assert!(LedCmd::status(true).allows(end));
    assert!(LedCmd::blink(Rgb::red(), 0).allows(end));
    assert!(!LedCmd::blink(Rgb::red(), 1).allows(end));
    assert!(!LedCmd::status_for(true, Duration { ticks: 1 }).allows(end));
    let mut led = Animation::<bool>::new();
    led.apply(true, Pattern::blink(1), ms(0));
    assert!(led.allows(ms(150)));
    assert!(!led.allows(end));
}

#[test]
fn frame_of_a_color() {
    let one = Pulse { level1: true, length1: 64, level2: false, length2: 36 };
    let zero = Pulse { level1: true, length1: 32, level2: false, length2: 68 };
    let mut led = RgbLed::new();
    led.set(Rgb::new(0b1000_0001, 0xff, 0b0100_0000));
    let bits: Vec<bool> = (0..24).map(|i| led.code(i) == one).collect();
    for i in 0..24 {
        assert!(led.code(i) == one || led.code(i) == zero);
    }
    assert_eq!(bits[0..8], [true; 8]);
    assert_eq!(bits[8..16], [true, false, false, false, false, false, false, true]);
    assert_eq!(bits[16..24], [false, true, false, false, false, false, false, false]);
    assert_eq!(
        led.code(24),
        Pulse { level1: false, length1: 24_000, level2: false, length2: 24_000 }
    );
    assert_eq!(led.code(25), Pulse { level1: false, length1: 0, level2: false, length2: 0 });
}

#[test]
fn command_queue_is_bounded_and_in_order() {
    let mut commands = Commands::new();
    assert_eq!(commands.next(), None);
    for n in 0..8 {
        assert!(send(&mut commands, LedCmd::status_blink(n)));
    }
    assert!(!send(&mut commands, LedCmd::status(true)));
    for n in 0..8 {
        assert_eq!(commands.next(), Some(LedCmd::status_blink(n)));
    }
    assert_eq!(commands.next(), None);
}

#[test]
fn commands_reach_the_led_they_name() {
    let mut leds = Leds::new();
    let mut frame = RgbLed::new();
    assert_eq!(leds.take_status(), Some(false));
    assert_eq!(leds.take_rgb(&mut frame), Some(Rgb::off()));
    leds.on_command(LedCmd::status(true), ms(5));
    assert_eq!(leds.take_rgb(&mut frame), None);
    assert_eq!(leds.take_status(), Some(true));
    leds.on_command(LedCmd::blink(Rgb::red(), 1), ms(5));
    assert_eq!(leds.take_status(), None);
    assert_eq!(leds.take_rgb(&mut frame), Some(Rgb::red()));
    assert_eq!(leds.deadline(), Some(ms(155)));
    assert!(leds.allows(ms(155)));
    leds.on_timeout(ms(155));
    assert_eq!(leds.take_rgb(&mut frame), Some(Rgb::off()));
    assert_eq!(leds.deadline(), Some(ms(305)));
}

#[test]
fn nothing_plays_before_the_first_command() {
    let mut leds = Leds::new();
    assert_eq!(leds.deadline(), None);
    assert_eq!(leds.status.pattern, Pattern::Solid);
    assert_eq!(leds.rgb.pattern, Pattern::Solid);
    assert_eq!(leds.take_status(), Some(false));
    assert_eq!(leds.take_rgb(&mut RgbLed::new()), Some(Rgb::off()));
    leds.on_timeout(ms(1_000));
    assert_eq!(leds.take_status(), None);
    assert_eq!(leds.take_rgb(&mut RgbLed::new()), None);
    assert_eq!(leds.deadline(), None);
}

#[test]
fn failed_frame_is_due_again() {
    let mut leds = Leds::new();
    let mut frame = RgbLed::new();
    leds.on_command(LedCmd::rgb(Rgb::blue()), ms(0));
    assert_eq!(leds.take_rgb(&mut frame), Some(Rgb::blue()));
    leds.rgb_written(false, ms(1));
    assert_eq!(leds.deadline(), Some(ms(21)));
    assert_eq!(leds.take_rgb(&mut frame), Some(Rgb::blue()));
    leds.rgb_written(true, ms(22));
    assert_eq!(leds.deadline(), None);
    assert_eq!(leds.take_rgb(&mut frame), None);
}
