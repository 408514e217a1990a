//! The theme resolver: from a mode decision to the concrete pair to apply.

use vstd::prelude::*;

verus! {

/// The configured theme identifiers for both appearance modes.
#[derive(Debug)]
pub struct ThemePair {
    pub light_color_id: String,
    pub dark_color_id: String,
    pub light_theme_name: String,
    pub dark_theme_name: String,
}

/// The pair selected for application on one tick: a colour-scheme preference
/// and a theme name, passed through to the desktop settings unchanged.
#[derive(Debug)]
pub struct ResolvedTheme {
    pub color_scheme_id: String,
    pub theme_name: String,
}

/// Ghost image of a [`ThemePair`]: the four identifiers as character
/// sequences.
pub ghost struct ThemeModel {
    pub light_color_id: Seq<char>,
    pub dark_color_id: Seq<char>,
    pub light_theme_name: Seq<char>,
    pub dark_theme_name: Seq<char>,
}

impl View for ThemePair {
    type V = ThemeModel;

    open spec fn view(&self) -> ThemeModel {
        ThemeModel {
            light_color_id: self.light_color_id@,
            dark_color_id: self.dark_color_id@,
            light_theme_name: self.light_theme_name@,
            dark_theme_name: self.dark_theme_name@,
        }
    }
}

/// Picks the light pair of `theme` when `is_light` holds, and the dark pair
/// otherwise.
pub fn resolve(is_light: bool, theme: &ThemePair) -> (r: ResolvedTheme)
    ensures
        is_light ==> r.color_scheme_id == theme.light_color_id && r.theme_name
            == theme.light_theme_name,
        !is_light ==> r.color_scheme_id == theme.dark_color_id && r.theme_name
            == theme.dark_theme_name,
{
    if is_light {
        ResolvedTheme {
            color_scheme_id: theme.light_color_id.clone(),
            theme_name: theme.light_theme_name.clone(),
        }
    } else {
        ResolvedTheme {
            color_scheme_id: theme.dark_color_id.clone(),
            theme_name: theme.dark_theme_name.clone(),
        }
    }
}

} // verus!
