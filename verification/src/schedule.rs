//! The schedule classifier: which appearance mode is active at a given time.

use vstd::prelude::*;
use crate::time::TimeOfDay;

verus! {

/// The decision rule for the active appearance mode.
///
/// When `light_start` comes before `dark_start`, light mode holds strictly
/// between the two boundaries and dark mode everywhere else. When
/// `dark_start` comes before `light_start`, dark mode holds strictly between
/// them and light mode everywhere else, so the light window wraps across
/// midnight. When the two boundaries coincide, the result is dark mode,
/// whatever the current time: neither strict ordering holds, an inherited
/// asymmetry that is kept deliberately.
pub open spec fn light_mode_active(
    current: TimeOfDay,
    light_start: TimeOfDay,
    dark_start: TimeOfDay,
) -> bool {
    ||| (light_start.seconds() < dark_start.seconds() && light_start.seconds()
        < current.seconds() && current.seconds() < dark_start.seconds())
    ||| (dark_start.seconds() < light_start.seconds() && !(dark_start.seconds()
        < current.seconds() && current.seconds() < light_start.seconds()))
}

/// Decides whether light mode is active at `current`, given the two schedule
/// boundaries in either order.
pub fn is_light_mode(current: TimeOfDay, light_start: TimeOfDay, dark_start: TimeOfDay) -> (r:
    bool)
    ensures
        r == light_mode_active(current, light_start, dark_start),
{
    let cur = current.total_seconds();
    let light = light_start.total_seconds();
    let dark = dark_start.total_seconds();
    (light < dark && cur > light && cur < dark) || (dark < light && !(cur > dark && cur < light))
}

/// When the light boundary comes strictly first, light mode holds exactly on
/// the open interval between the boundaries; every other instant is dark.
pub proof fn lemma_light_window(current: TimeOfDay, light_start: TimeOfDay, dark_start: TimeOfDay)
    requires
        light_start.seconds() < dark_start.seconds(),
    ensures
        light_mode_active(current, light_start, dark_start) == (light_start.seconds()
            < current.seconds() && current.seconds() < dark_start.seconds()),
{
}

/// When the dark boundary comes strictly first, dark mode holds exactly on
/// the open interval between the boundaries; every other instant is light.
pub proof fn lemma_dark_window(current: TimeOfDay, light_start: TimeOfDay, dark_start: TimeOfDay)
    requires
        dark_start.seconds() < light_start.seconds(),
    ensures
        light_mode_active(current, light_start, dark_start) == !(dark_start.seconds()
            < current.seconds() && current.seconds() < light_start.seconds()),
{
}

/// Coinciding boundaries always yield dark mode, whatever the current time.
pub proof fn lemma_equal_boundaries(
    current: TimeOfDay,
    light_start: TimeOfDay,
    dark_start: TimeOfDay,
)
    requires
        light_start.seconds() == dark_start.seconds(),
    ensures
        !light_mode_active(current, light_start, dark_start),
{
}

/// At a boundary instant itself, the mode is dark when the light boundary
/// comes first, and light when the dark boundary comes first: only a strict
/// inequality opens the other mode's window.
pub proof fn lemma_boundary_instants(
    current: TimeOfDay,
    light_start: TimeOfDay,
    dark_start: TimeOfDay,
)
    requires
        current.seconds() == light_start.seconds() || current.seconds() == dark_start.seconds(),
    ensures
        light_start.seconds() < dark_start.seconds() ==> !light_mode_active(
            current,
            light_start,
            dark_start,
        ),
        dark_start.seconds() < light_start.seconds() ==> light_mode_active(
            current,
            light_start,
            dark_start,
        ),
{
}

} // verus!
