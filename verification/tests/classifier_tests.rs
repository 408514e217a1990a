use autodark::{ThemePair, TimeOfDay, is_light_mode, resolve};

fn tod(h: u8, m: u8, s: u8) -> TimeOfDay {
    TimeOfDay::new(h, m, s).expect("invalid time")
}

#[test]
fn light_window_open_interval() {
    let light = tod(7, 0, 0);
    let dark = tod(19, 0, 0);
    assert!(is_light_mode(tod(7, 0, 1), light, dark));
    assert!(is_light_mode(tod(12, 0, 0), light, dark));
    assert!(is_light_mode(tod(18, 59, 59), light, dark));
    assert!(!is_light_mode(tod(6, 59, 59), light, dark));
    assert!(!is_light_mode(tod(19, 0, 1), light, dark));
    assert!(!is_light_mode(tod(0, 0, 0), light, dark));
}

#[test]
fn dark_window_open_interval() {
    let light = tod(19, 0, 0);
    let dark = tod(7, 0, 0);
    assert!(!is_light_mode(tod(7, 0, 1), light, dark));
    assert!(!is_light_mode(tod(12, 0, 0), light, dark));
    assert!(!is_light_mode(tod(18, 59, 59), light, dark));
    assert!(is_light_mode(tod(6, 59, 59), light, dark));
    assert!(is_light_mode(tod(19, 0, 1), light, dark));
    assert!(is_light_mode(tod(0, 0, 0), light, dark));
}

#[test]
fn equal_boundaries_always_dark() {
    let b = tod(12, 30, 0);
    assert!(!is_light_mode(tod(0, 0, 0), b, b));
    assert!(!is_light_mode(tod(12, 30, 0), b, b));
    assert!(!is_light_mode(tod(12, 29, 59), b, b));
    assert!(!is_light_mode(tod(23, 59, 59), b, b));
}

#[test]
fn boundary_instants() {
    // Light boundary first: both boundary instants resolve to dark.
    assert!(!is_light_mode(tod(7, 0, 0), tod(7, 0, 0), tod(19, 0, 0)));
    assert!(!is_light_mode(tod(19, 0, 0), tod(7, 0, 0), tod(19, 0, 0)));
    // Dark boundary first: both boundary instants resolve to light.
    assert!(is_light_mode(tod(7, 0, 0), tod(19, 0, 0), tod(7, 0, 0)));
    assert!(is_light_mode(tod(19, 0, 0), tod(19, 0, 0), tod(7, 0, 0)));
}

#[test]
fn seconds_matter_near_boundaries() {
    // Times differing only in seconds order correctly.
    let light = tod(7, 0, 0);
    let dark = tod(23, 0, 0);
    assert!(!is_light_mode(tod(23, 0, 0), light, dark));
    assert!(is_light_mode(tod(22, 59, 59), light, dark));
}

fn pair() -> ThemePair {
    ThemePair {
        light_color_id: "lc".to_string(),
        dark_color_id: "dc".to_string(),
        light_theme_name: "lt".to_string(),
        dark_theme_name: "dt".to_string(),
    }
}

#[test]
fn resolve_picks_light_pair() {
    let r = resolve(true, &pair());
    assert_eq!(r.color_scheme_id, "lc");
    assert_eq!(r.theme_name, "lt");
}

#[test]
fn resolve_picks_dark_pair() {
    let r = resolve(false, &pair());
    assert_eq!(r.color_scheme_id, "dc");
    assert_eq!(r.theme_name, "dt");
}

#[test]
fn time_of_day_rejects_out_of_range() {
    assert!(TimeOfDay::new(24, 0, 0).is_none());
    assert!(TimeOfDay::new(0, 60, 0).is_none());
    assert!(TimeOfDay::new(0, 0, 60).is_none());
    assert!(TimeOfDay::new(23, 59, 59).is_some());
}
