use autodark::{
    ConfigError, ScheduleConfig, ThemePair, TimeOfDay, bootstrap_settings, parse_config,
    serialize_config,
};

fn tod(h: u8, m: u8, s: u8) -> TimeOfDay {
    TimeOfDay::new(h, m, s).expect("invalid time")
}

fn assert_config_eq(a: &ScheduleConfig, b: &ScheduleConfig) {
    assert_eq!(a.light_start, b.light_start);
    assert_eq!(a.dark_start, b.dark_start);
    assert_eq!(a.poll_interval_seconds, b.poll_interval_seconds);
    assert_eq!(a.theme.light_color_id, b.theme.light_color_id);
    assert_eq!(a.theme.dark_color_id, b.theme.dark_color_id);
    assert_eq!(a.theme.light_theme_name, b.theme.light_theme_name);
    assert_eq!(a.theme.dark_theme_name, b.theme.dark_theme_name);
}

const DEFAULT_TEXT: &str = "light_start: 07:00\n\
                            dark_start: 19:00\n\
                            poll_interval_seconds: 600\n\
                            light_color_id: prefer-light\n\
                            dark_color_id: prefer-dark\n\
                            light_theme_name: Flat-Remix-GTK-Blue-Light-Solid\n\
                            dark_theme_name: Flat-Remix-GTK-Blue-Dark-Solid\n";

#[test]
fn default_config_values() {
    let c = ScheduleConfig::default();
    assert_eq!(c.light_start, tod(7, 0, 0));
    assert_eq!(c.dark_start, tod(19, 0, 0));
    assert_eq!(c.poll_interval_seconds, 600);
    assert_eq!(c.theme.light_color_id, "prefer-light");
    assert_eq!(c.theme.dark_color_id, "prefer-dark");
    assert_eq!(c.theme.light_theme_name, "Flat-Remix-GTK-Blue-Light-Solid");
    assert_eq!(c.theme.dark_theme_name, "Flat-Remix-GTK-Blue-Dark-Solid");
}

#[test]
fn serialize_default_exact_text() {
    let text = serialize_config(&ScheduleConfig::default());
    assert_eq!(text, DEFAULT_TEXT);
}

#[test]
fn round_trip_default() {
    let c = ScheduleConfig::default();
    let text = serialize_config(&c);
    let back = parse_config(&text).expect("default text must parse");
    assert_config_eq(&c, &back);
}

#[test]
fn round_trip_custom() {
    let c = ScheduleConfig {
        light_start: tod(5, 42, 0),
        dark_start: tod(23, 7, 0),
        poll_interval_seconds: 18446744073709551615,
        theme: ThemePair {
            light_color_id: "a b: c".to_string(),
            dark_color_id: "x".to_string(),
            light_theme_name: "Theme With Spaces".to_string(),
            dark_theme_name: "dark_theme_name: ".to_string(),
        },
    };
    let text = serialize_config(&c);
    let back = parse_config(&text).expect("written text must parse");
    assert_config_eq(&c, &back);
}

#[test]
fn parse_exact_text() {
    let c = parse_config(DEFAULT_TEXT).expect("well-formed text must parse");
    assert_config_eq(&c, &ScheduleConfig::default());
}

#[test]
fn parse_zero_padding_required() {
    let text = DEFAULT_TEXT.replace("light_start: 07:00", "light_start: 7:00");
    assert_eq!(parse_config(&text).unwrap_err(), ConfigError::BadTime);
}

#[test]
fn parse_rejects_empty() {
    assert_eq!(parse_config("").unwrap_err(), ConfigError::Malformed);
}

#[test]
fn parse_rejects_bad_hour() {
    let text = DEFAULT_TEXT.replace("light_start: 07:00", "light_start: 24:00");
    assert_eq!(parse_config(&text).unwrap_err(), ConfigError::BadTime);
}

#[test]
fn parse_rejects_bad_minute() {
    let text = DEFAULT_TEXT.replace("dark_start: 19:00", "dark_start: 19:60");
    assert_eq!(parse_config(&text).unwrap_err(), ConfigError::BadTime);
}

#[test]
fn parse_rejects_zero_interval() {
    let text = DEFAULT_TEXT.replace("poll_interval_seconds: 600", "poll_interval_seconds: 0");
    assert_eq!(parse_config(&text).unwrap_err(), ConfigError::Malformed);
}

#[test]
fn parse_rejects_non_numeric_interval() {
    let text = DEFAULT_TEXT.replace("poll_interval_seconds: 600", "poll_interval_seconds: ten");
    assert_eq!(parse_config(&text).unwrap_err(), ConfigError::Malformed);
}

#[test]
fn parse_rejects_huge_interval() {
    let text = DEFAULT_TEXT.replace(
        "poll_interval_seconds: 600",
        "poll_interval_seconds: 18446744073709551616",
    );
    assert_eq!(parse_config(&text).unwrap_err(), ConfigError::Malformed);
}

#[test]
fn parse_rejects_empty_theme_value() {
    let text = DEFAULT_TEXT.replace("light_color_id: prefer-light", "light_color_id: ");
    assert_eq!(parse_config(&text).unwrap_err(), ConfigError::Malformed);
}

#[test]
fn parse_rejects_missing_line() {
    let text = DEFAULT_TEXT.replace("dark_color_id: prefer-dark\n", "");
    assert_eq!(parse_config(&text).unwrap_err(), ConfigError::Malformed);
}

#[test]
fn parse_rejects_trailing_garbage() {
    let mut text = DEFAULT_TEXT.to_string();
    text.push_str("extra: line\n");
    assert_eq!(parse_config(&text).unwrap_err(), ConfigError::Malformed);
}

#[test]
fn parse_rejects_missing_final_newline() {
    let mut text = DEFAULT_TEXT.to_string();
    text.pop();
    assert_eq!(parse_config(&text).unwrap_err(), ConfigError::Malformed);
}

#[test]
fn bootstrap_creates_default_when_store_is_empty() {
    let (c, text) = bootstrap_settings(None).expect("bootstrap must succeed");
    assert_config_eq(&c, &ScheduleConfig::default());
    let text = text.expect("bootstrap must hand back the text to persist");
    assert_eq!(text, DEFAULT_TEXT);
    let back = parse_config(&text).expect("persisted default must parse");
    assert_config_eq(&back, &ScheduleConfig::default());
}

#[test]
fn bootstrap_reads_existing_store() {
    let (c, text) = bootstrap_settings(Some(DEFAULT_TEXT)).expect("existing text must parse");
    assert_config_eq(&c, &ScheduleConfig::default());
    assert!(text.is_none());
}

#[test]
fn bootstrap_fails_loudly_on_malformed_store() {
    assert_eq!(
        bootstrap_settings(Some("not a config")).unwrap_err(),
        ConfigError::Malformed
    );
    let text = DEFAULT_TEXT.replace("light_start: 07:00", "light_start: 0700!");
    assert_eq!(bootstrap_settings(Some(&text)).unwrap_err(), ConfigError::BadTime);
}
