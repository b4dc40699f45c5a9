use pumpkin_gui::format::{bytes, dimension, duration, game_time, list, or_dash, rate};

#[test]
fn bytes_switches_to_fractions_above_kib() {
    assert_eq!(bytes(Some(512)), "512 B");
    assert_eq!(bytes(Some(2048)), "2 KiB");
    assert_eq!(bytes(Some(3 * 1024 * 1024)), "3.0 MiB");
    assert_eq!(bytes(None), "–");
}

#[test]
fn duration_drops_the_units_it_does_not_need() {
    assert_eq!(duration(45), "45s");
    assert_eq!(duration(3661), "1h 1m");
    assert_eq!(duration(90_061), "1d 1h");
}

#[test]
fn game_time_starts_the_day_at_six() {
    assert_eq!(game_time(0), "Day 1 · 06:00");
    // Ticks run negative on a world whose time has been set backwards.
    assert_eq!(game_time(-1), "Day 0 · 05:59");
}

#[test]
fn bytes_matches_float_formatting() {
    for value in [
        0u64,
        1,
        1023,
        1024,
        1535,
        1536,
        2560,
        1024 * 1024 - 1,
        1024 * 1024,
        5 * 1024 * 1024 + 52429,
        (1u64 << 40) * 3 / 2,
        (1u64 << 50) * 1000,
        (1u64 << 53) + 1,
        u64::MAX - 1,
        u64::MAX,
    ] {
        let mut size = value as f64;
        let mut unit = 0;
        let units = ["B", "KiB", "MiB", "GiB", "TiB", "PiB"];
        while size >= 1024.0 && unit < units.len() - 1 {
            size /= 1024.0;
            unit += 1;
        }
        let decimals = usize::from(unit >= 2);
        let expected = format!("{size:.decimals$} {}", units[unit]);
        assert_eq!(bytes(Some(value)), expected, "value {value}");
    }
}

#[test]
fn bytes_rounds_ties_to_even() {
    assert_eq!(bytes(Some(1536)), "2 KiB");
    assert_eq!(bytes(Some(2560)), "2 KiB");
    assert_eq!(bytes(Some(1023)), "1023 B");
    assert_eq!(bytes(Some(1024 * 1024)), "1.0 MiB");
    assert_eq!(bytes(Some(u64::MAX)), "16384.0 PiB");
}

#[test]
fn rate_appends_per_second() {
    assert_eq!(rate(2048), "2 KiB/s");
    assert_eq!(rate(0), "0 B/s");
}

#[test]
fn duration_edges() {
    assert_eq!(duration(0), "0s");
    assert_eq!(duration(60), "1m 0s");
    assert_eq!(duration(86_400), "1d 0h");
    assert_eq!(duration(u64::MAX), "213503982334601d 7h");
}

#[test]
fn game_time_wraps_each_day() {
    assert_eq!(game_time(24_000), "Day 2 · 06:00");
    assert_eq!(game_time(18_000), "Day 1 · 00:00");
    assert_eq!(game_time(6_000), "Day 1 · 12:00");
    assert_eq!(game_time(-48_001), "Day -2 · 05:59");
    assert_eq!(game_time(i64::MIN), format!("Day {} · {:02}:{:02}", i64::MIN.div_euclid(24_000) + 1, ((i64::MIN.rem_euclid(24_000) * 60 / 1000 + 360) % 1440) / 60, ((i64::MIN.rem_euclid(24_000) * 60 / 1000 + 360) % 1440) % 60));
}

#[test]
fn dimension_drops_the_namespace() {
    assert_eq!(dimension("minecraft:overworld"), "overworld");
    assert_eq!(dimension("custom:nether"), "custom:nether");
    assert_eq!(dimension("minecraft:"), "");
}

#[test]
fn list_joins_or_dashes() {
    assert_eq!(list(&[]), "–");
    assert_eq!(list(&["a".to_owned()]), "a");
    assert_eq!(list(&["a".to_owned(), "b".to_owned(), "c".to_owned()]), "a, b, c");
}

#[test]
fn or_dash_fills_empty_cells() {
    assert_eq!(or_dash(""), "–");
    assert_eq!(or_dash("x"), "x");
}
