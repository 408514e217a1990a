//! Verified core of a light/dark theme scheduling daemon.
//!
//! The library decides, from the current wall-clock time and two schedule
//! boundaries, whether the light or the dark appearance mode is active,
//! resolves the concrete theme pair to apply, and reads and writes the
//! persisted schedule configuration as a flat text record.

use vstd::prelude::*;

pub mod codec;
pub mod config;
pub mod digits;
pub mod schedule;
pub mod theme;
pub mod time;

pub use codec::{ConfigError, parse_config, serialize_config};
pub use config::{ScheduleConfig, default_model};
pub use schedule::{is_light_mode, light_mode_active};
pub use theme::{ResolvedTheme, ThemePair, resolve};
pub use time::TimeOfDay;

verus! {

/// Classifies `current` against the two schedule boundaries and resolves the
/// theme pair of `settings` accordingly: the light pair exactly when light
/// mode is active, and the dark pair otherwise.
pub fn determine_theme(
    current: TimeOfDay,
    light_time: TimeOfDay,
    dark_time: TimeOfDay,
    settings: &ScheduleConfig,
) -> (r: ResolvedTheme)
    ensures
        light_mode_active(current, light_time, dark_time) ==> r.color_scheme_id
            == settings.theme.light_color_id && r.theme_name == settings.theme.light_theme_name,
        !light_mode_active(current, light_time, dark_time) ==> r.color_scheme_id
            == settings.theme.dark_color_id && r.theme_name == settings.theme.dark_theme_name,
{
    resolve(is_light_mode(current, light_time, dark_time), &settings.theme)
}

/// Produces the configuration for one poll tick from what the settings store
/// holds: the persisted text when there is one, parsed and rejected loudly
/// when malformed; the built-in default when the store is empty, together
/// with its text, which the caller persists.
pub fn bootstrap_settings(existing: Option<&str>) -> (r: Result<
    (ScheduleConfig, Option<String>),
    ConfigError,
>)
    ensures
        existing is None ==> ({
            &&& r matches Ok(p)
            &&& p.0@ == default_model()
            &&& p.1 matches Some(t) && t@ == codec::ser_spec(default_model())
        }),
        existing matches Some(s) ==> match codec::parse_cfg(s@) {
            Ok(m) => {
                &&& r matches Ok(p)
                &&& p.0@ == m
                &&& p.0.wf()
                &&& p.1 is None
            },
            Err(e) => r == Err::<(ScheduleConfig, Option<String>), ConfigError>(e),
        },
{
    match existing {
        None => {
            let c = ScheduleConfig::default();
            let text = serialize_config(&c);
            Ok((c, Some(text)))
        },
        Some(s) => {
            match parse_config(s) {
                Ok(c) => Ok((c, None)),
                Err(e) => Err(e),
            }
        },
    }
}

} // verus!
