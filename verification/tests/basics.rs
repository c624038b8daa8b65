//! Time, text and configuration.

use m5nanoc6::config::{minutes, number, Config, Environment};
use m5nanoc6::env_pro::Reading;
use m5nanoc6::text;
use m5nanoc6::time::{sooner, Duration, Instant};

fn reading(value: f32, shown: &str) -> Reading {
    Reading { bits: value.to_bits(), shown: String::from(shown) }
}

fn environment() -> Environment {
    Environment {
        wifi_creds: None,
        telegram_token: None,
        telegram_chat_id: None,
        tg_min_c: reading(10.0, "10.0"),
        tg_clear_c: reading(11.0, "11.0"),
        tg_dwell_min: None,
        tg_repeat_min: None,
        tg_heartbeat_min: None,
    }
}

#[test]
fn durations_convert_like_the_clock_ticks() {
    assert_eq!(Duration::from_secs(3).ticks, embassy_time::Duration::from_secs(3).as_ticks());
    assert_eq!(Duration::from_secs(3).ticks, 3_000_000);
    assert_eq!(Duration::from_millis(150).ticks, 150_000);
    assert_eq!(Duration { ticks: 2_999_999 }.as_secs(), 2);
    assert_eq!(Duration { ticks: 3_000_000 }.as_secs(), 3);
}

#[test]
fn instants_add_and_subtract() {
    let at = Instant { ticks: 10 };
    assert_eq!(at.after(Duration { ticks: 5 }), Instant { ticks: 15 });
    assert_eq!(at.since(Instant { ticks: 4 }), Duration { ticks: 6 });
    assert!(at.allows(Duration { ticks: u64::MAX - 10 }));
    assert!(!at.allows(Duration { ticks: u64::MAX - 9 }));
}

#[test]
fn the_sooner_deadline_wins() {
    let a = Some(Instant { ticks: 3 });
    let b = Some(Instant { ticks: 7 });
    assert_eq!(sooner(a, b), a);
    assert_eq!(sooner(b, a), a);
    assert_eq!(sooner(None, b), b);
    assert_eq!(sooner(a, None), a);
    assert_eq!(sooner(None, None), None);
}

#[test]
fn trim_agrees_with_std() {
    let samples = [
        "", " ", "abc", " abc", "abc\t", "\r\n a b \u{a0}\u{3000}", "\u{200b}x\u{200b}", "\u{85}y\u{1680}",
        "\u{feff}z", "\u{2028}\u{2029}", "\u{b}\u{c}mid dle\u{1f}",
    ];
    for sample in samples {
        assert_eq!(text::trim(sample), sample.trim(), "{sample:?}");
    }
}

#[test]
fn whitespace_agrees_with_std_everywhere() {
    for code in 0..=0x10ffffu32 {
        if let Some(c) = char::from_u32(code) {
            assert_eq!(text::is_whitespace(c), c.is_whitespace(), "{code:x}");
        }
    }
}

#[test]
fn parse_agrees_with_std() {
    let samples = [
        "", "+", "-", "0", "007", "+5", "-0", "++1", "1_000", "18446744073709551615",
        "18446744073709551616", "99999999999999999999999", " 1", "1 ", "0x10", "5.0", "\u{661}",
        "00000000000000000000000000000000012",
    ];
    for sample in samples {
        assert_eq!(text::parse(sample), sample.parse::<u64>().ok(), "{sample:?}");
    }
}

#[test]
fn decimals_agree_with_std() {
    for n in [0, 9, 10, 99, 100, 12_345, u64::MAX] {
        let mut out = String::from("n=");
        text::push_decimal(&mut out, n);
        assert_eq!(out, format!("n={n}"));
    }
}

#[test]
fn split_agrees_with_std() {
    for sample in ["", ";", "a", "a;b", ";a;;b;", "\u{e9};\u{4e16}"] {
        let expected: Vec<&str> = sample.split(';').collect();
        assert_eq!(text::split(sample, ';'), expected);
        assert_eq!(text::split_once(sample, ';'), sample.split_once(';'));
    }
}

#[test]
fn numbers_fall_back_to_their_default() {
    assert_eq!(number(Some(" 7 "), 5), 7);
    assert_eq!(number(Some("seven"), 5), 5);
    assert_eq!(number(Some(""), 5), 5);
    assert_eq!(number(None, 5), 5);
}

#[test]
fn zero_minutes_mean_no_interval() {
    assert_eq!(minutes(Some("0"), 5), None);
    assert_eq!(minutes(Some("2"), 5), Some(Duration { ticks: 120_000_000 }));
    assert_eq!(minutes(None, 5), Some(Duration { ticks: 300_000_000 }));
}

#[test]
fn defaults_without_settings() {
    let env = environment();
    assert!(env.is_countable());
    let config = Config::from_env(env);
    assert_eq!(config.wifi_creds, "");
    assert_eq!(config.telegram_token, "");
    assert_eq!(config.telegram_chat_id, "");
    assert_eq!(config.tg_dwell, Some(Duration::from_secs(300)));
    assert_eq!(config.tg_repeat, Some(Duration::from_secs(3600)));
    assert_eq!(config.tg_heartbeat, Some(Duration::from_secs(21_600)));
    assert_eq!(config.wifi_networks(), vec![]);
}

#[test]
fn settings_are_trimmed_and_read() {
    let config = Config::from_env(Environment {
        telegram_token: Some(" 123:abc\n"),
        telegram_chat_id: Some("\t-100 "),
        tg_dwell_min: Some("0"),
        tg_repeat_min: Some(" 1 "),
        tg_heartbeat_min: Some("x"),
        ..environment()
    });
    assert_eq!(config.telegram_token, "123:abc");
    assert_eq!(config.telegram_chat_id, "-100");
    assert_eq!(config.tg_dwell, None);
    assert_eq!(config.tg_repeat, Some(Duration::from_secs(60)));
    assert_eq!(config.tg_heartbeat, Some(Duration::from_secs(21_600)));
    assert_eq!(config.tg_min_c.shown, "10.0");
    assert_eq!(config.tg_clear_c.bits, 11.0f32.to_bits());
}

#[test]
fn intervals_too_long_to_count_are_noticed() {
    let most = Environment { tg_repeat_min: Some("307445734561"), ..environment() };
    assert!(most.is_countable());
    let past = Environment { tg_repeat_min: Some("307445734562"), ..environment() };
    assert!(!past.is_countable());
}

#[test]
fn networks_in_order_without_nameless_ones() {
    let config = Config::from_env(Environment {
        wifi_creds: Some(" home , pass,word ;; open ; ,secret; caf\u{e9},\u{fc}ber;  "),
        ..environment()
    });
    assert_eq!(
        config.wifi_networks(),
        vec![("home", "pass,word"), ("open", ""), ("caf\u{e9}", "\u{fc}ber")]
    );
}

#[test]
fn readings_compare_like_single_precision_numbers() {
    let values = [
        0.0f32, -0.0, 1.0, -1.0, 9.99, 10.0, 10.01, f32::MIN, f32::MAX, f32::MIN_POSITIVE,
        -f32::MIN_POSITIVE, f32::INFINITY, f32::NEG_INFINITY, f32::NAN, -f32::NAN, 1e-42, -1e-42,
    ];
    for a in values {
        for b in values {
            assert_eq!(reading(a, "").is_less(&reading(b, "")), a < b, "{a} < {b}");
        }
    }
}
