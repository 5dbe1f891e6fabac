use fanctrlrs::config::{Config, TelegramConf, Temperature};
use fanctrlrs::controller::TickOutcome;
use fanctrlrs::policy::decide;
use fanctrlrs::sensor::{convert_raw, parse_raw, read_temperature, SensorError};

fn band() -> Temperature {
    Temperature { file: String::from("/sys/class/thermal/thermal_zone0/temp"), max: 40, min: 30 }
}

#[test]
fn within_band_while_off_stays_off() {
    assert_eq!(decide(false, 35, 30, 40), false);
}

#[test]
fn too_hot_while_off_turns_on() {
    assert_eq!(decide(false, 45, 30, 40), true);
}

#[test]
fn too_cold_while_on_turns_off() {
    assert_eq!(decide(true, 25, 30, 40), true);
}

#[test]
fn within_band_while_on_stays_on() {
    assert_eq!(decide(true, 35, 30, 40), false);
}

#[test]
fn dead_zone_at_both_edges() {
    for t in [30u64, 31, 39, 40] {
        assert_eq!(decide(false, t, 30, 40), false);
        assert_eq!(decide(true, t, 30, 40), false);
    }
}

#[test]
fn active_flips_exactly_below_min() {
    for t in 0u64..60 {
        assert_eq!(decide(true, t, 30, 40), t < 30);
    }
}

#[test]
fn inactive_flips_exactly_above_max() {
    for t in 0u64..60 {
        assert_eq!(decide(false, t, 30, 40), t > 40);
    }
}

#[test]
fn decide_is_deterministic() {
    for t in 0u64..60 {
        for active in [false, true] {
            assert_eq!(decide(active, t, 30, 40), decide(active, t, 30, 40));
        }
    }
}

#[test]
fn no_flip_when_already_correct() {
    assert_eq!(decide(true, 30, 30, 40), false);
    assert_eq!(decide(true, 100, 30, 40), false);
    assert_eq!(decide(false, 40, 30, 40), false);
    assert_eq!(decide(false, 0, 30, 40), false);
}

#[test]
fn switch_condition_uses_configured_thresholds() {
    let cfg = band();
    assert_eq!(cfg.switch_condition(false, 45), true);
    assert_eq!(cfg.switch_condition(true, 25), true);
    assert_eq!(cfg.switch_condition(false, 35), false);
    assert_eq!(cfg.switch_condition(true, 35), false);
}

#[test]
fn raw_reading_parses() {
    assert_eq!(parse_raw(b"45230"), Ok(45230));
}

#[test]
fn raw_reading_converts_to_whole_units() {
    assert_eq!(read_temperature(b"45230"), Ok(45));
}

#[test]
fn surrounding_whitespace_is_trimmed() {
    assert_eq!(parse_raw(b"45230\n"), Ok(45230));
    assert_eq!(parse_raw(b" \t 42 \r\n"), Ok(42));
}

#[test]
fn empty_reading_is_an_error() {
    assert_eq!(parse_raw(b""), Err(SensorError::Empty));
    assert_eq!(parse_raw(b" \n\t"), Err(SensorError::Empty));
}

#[test]
fn non_numeric_reading_is_an_error() {
    assert_eq!(parse_raw(b"4x2"), Err(SensorError::NonDigit));
    assert_eq!(parse_raw(b"-5"), Err(SensorError::NonDigit));
    assert_eq!(read_temperature(b"warm"), Err(SensorError::NonDigit));
}

#[test]
fn value_above_u64_is_an_error() {
    assert_eq!(parse_raw(b"18446744073709551615"), Ok(u64::MAX));
    assert_eq!(parse_raw(b"18446744073709551616"), Err(SensorError::Overflow));
}

#[test]
fn non_digit_outranks_overflow() {
    assert_eq!(parse_raw(b"99999999999999999999x"), Err(SensorError::NonDigit));
}

#[test]
fn conversion_discards_the_remainder() {
    assert_eq!(convert_raw(45230), 45);
    assert_eq!(convert_raw(999), 0);
    assert_eq!(convert_raw(1000), 1);
}

#[test]
fn tick_stops_on_observed_shutdown() {
    let cfg = band();
    assert_eq!(cfg.tick(true, false, b"45230"), TickOutcome::Stop);
    assert_eq!(cfg.tick(true, true, b"not even a number"), TickOutcome::Stop);
}

#[test]
fn tick_runs_the_policy_on_the_converted_reading() {
    let cfg = band();
    assert_eq!(cfg.tick(false, false, b"35000\n"), TickOutcome::Run { toggle: false });
    assert_eq!(cfg.tick(false, false, b"45230\n"), TickOutcome::Run { toggle: true });
    assert_eq!(cfg.tick(false, true, b"25000\n"), TickOutcome::Run { toggle: true });
    assert_eq!(cfg.tick(false, true, b"35999\n"), TickOutcome::Run { toggle: false });
}

#[test]
fn tick_propagates_a_bad_reading_as_fatal() {
    let cfg = band();
    assert_eq!(cfg.tick(false, false, b"oops"), TickOutcome::Fail { err: SensorError::NonDigit });
    assert_eq!(cfg.tick(false, true, b"\n"), TickOutcome::Fail { err: SensorError::Empty });
}

#[test]
fn config_carries_the_optional_notifier() {
    let with = Config {
        pin: 17,
        seconds: 5,
        temperature: band(),
        telegram: Some(TelegramConf {
            token: String::from("123456:TESTTOKEN"),
            chat_id: String::from("12345"),
        }),
    };
    assert!(with.telegram.is_some());
    let without = Config { pin: 17, seconds: 5, temperature: band(), telegram: None };
    assert!(without.telegram.is_none());
}
