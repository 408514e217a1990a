//! The persisted schedule configuration and its built-in defaults.

use vstd::prelude::*;
use vstd::string::StringExecFns;
use crate::time::TimeOfDay;
use crate::theme::{ThemeModel, ThemePair};

verus! {

/// The schedule configuration, reloaded at the start of every poll tick.
#[derive(Debug)]
pub struct ScheduleConfig {
    /// Wall-clock time at which light mode begins.
    pub light_start: TimeOfDay,
    /// Wall-clock time at which dark mode begins.
    pub dark_start: TimeOfDay,
    /// Seconds slept between two poll ticks; always at least one.
    pub poll_interval_seconds: u64,
    /// Theme identifiers for both appearance modes.
    pub theme: ThemePair,
}

/// Ghost image of a [`ScheduleConfig`].
pub ghost struct ConfigModel {
    pub light_start: TimeOfDay,
    pub dark_start: TimeOfDay,
    pub poll_interval_seconds: int,
    pub theme: ThemeModel,
}

impl View for ScheduleConfig {
    type V = ConfigModel;

    open spec fn view(&self) -> ConfigModel {
        ConfigModel {
            light_start: self.light_start,
            dark_start: self.dark_start,
            poll_interval_seconds: self.poll_interval_seconds as int,
            theme: self.theme@,
        }
    }
}

/// A usable theme identifier: non-empty, and free of line breaks so that it
/// fits on one line of the flat configuration text.
pub open spec fn valid_field_text(s: Seq<char>) -> bool {
    &&& s.len() >= 1
    &&& forall|i: int| 0 <= i < s.len() ==> s[i] != '\n'
}

impl ConfigModel {
    /// A well-formed configuration: valid minute-granular boundary times, a
    /// positive polling interval that fits the stored width, and usable theme
    /// identifiers.
    pub open spec fn wf(self) -> bool {
        &&& self.light_start.wf()
        &&& self.light_start.second == 0
        &&& self.dark_start.wf()
        &&& self.dark_start.second == 0
        &&& 1 <= self.poll_interval_seconds <= u64::MAX
        &&& valid_field_text(self.theme.light_color_id)
        &&& valid_field_text(self.theme.dark_color_id)
        &&& valid_field_text(self.theme.light_theme_name)
        &&& valid_field_text(self.theme.dark_theme_name)
    }
}

impl ScheduleConfig {
    /// A well-formed configuration record.
    pub open spec fn wf(self) -> bool {
        self@.wf()
    }
}

/// The built-in default configuration: light mode from seven in the morning,
/// dark mode from seven in the evening, a ten-minute polling interval, and a
/// fixed default theme pair.
pub open spec fn default_model() -> ConfigModel {
    ConfigModel {
        light_start: TimeOfDay { hour: 7, minute: 0, second: 0 },
        dark_start: TimeOfDay { hour: 19, minute: 0, second: 0 },
        poll_interval_seconds: 600,
        theme: ThemeModel {
            light_color_id: "prefer-light"@,
            dark_color_id: "prefer-dark"@,
            light_theme_name: "Flat-Remix-GTK-Blue-Light-Solid"@,
            dark_theme_name: "Flat-Remix-GTK-Blue-Dark-Solid"@,
        },
    }
}

/// The built-in default configuration is well-formed.
pub proof fn lemma_default_wf()
    ensures
        default_model().wf(),
{
    reveal_strlit("prefer-light");
    reveal_strlit("prefer-dark");
    reveal_strlit("Flat-Remix-GTK-Blue-Light-Solid");
    reveal_strlit("Flat-Remix-GTK-Blue-Dark-Solid");
    assert(valid_field_text("prefer-light"@));
    assert(valid_field_text("prefer-dark"@));
    assert(valid_field_text("Flat-Remix-GTK-Blue-Light-Solid"@));
    assert(valid_field_text("Flat-Remix-GTK-Blue-Dark-Solid"@));
}

impl Default for ThemePair {
    /// The fixed default theme pair.
    fn default() -> (r: ThemePair)
        ensures
            r@ == default_model().theme,
    {
        ThemePair {
            light_color_id: String::from_str("prefer-light"),
            dark_color_id: String::from_str("prefer-dark"),
            light_theme_name: String::from_str("Flat-Remix-GTK-Blue-Light-Solid"),
            dark_theme_name: String::from_str("Flat-Remix-GTK-Blue-Dark-Solid"),
        }
    }
}

impl Default for ScheduleConfig {
    /// The built-in default configuration.
    fn default() -> (r: ScheduleConfig)
        ensures
            r@ == default_model(),
    {
        ScheduleConfig {
            light_start: TimeOfDay { hour: 7, minute: 0, second: 0 },
            dark_start: TimeOfDay { hour: 19, minute: 0, second: 0 },
            poll_interval_seconds: 600,
            theme: ThemePair::default(),
        }
    }
}

} // verus!
