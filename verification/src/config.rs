//! The experiment configuration: the four physical slit parameters, the
//! display mode, and the single mutation entry point `add_val`, which
//! silently rejects any delta that would push a field outside its closed
//! valid interval.

use crate::fixed::ONE;
use vstd::prelude::*;

verus! {

/// Which pattern the screen shows: the continuous interference pattern or
/// individually sampled particle impacts.
#[derive(Clone, Copy, Debug, PartialEq, Eq, Structural)]
pub enum InputType {
    Light,
    Particles,
}

/// Which configuration field an adjustment targets.
#[derive(Clone, Copy, Debug, PartialEq, Eq, Structural)]
pub enum SlitControl {
    Separation,
    Width,
    Wavelength,
    ScreenDistance,
    Input,
}

/// Smallest accepted wavelength, in fixed-point nanometers.
pub const MIN_WAVELENGTH: i64 = 200 * ONE;

/// Largest accepted wavelength, in fixed-point nanometers.
pub const MAX_WAVELENGTH: i64 = 800 * ONE;

/// Smallest accepted slit separation, in fixed-point micrometers.
pub const MIN_SEPARATION: i64 = 1 * ONE;

/// Largest accepted slit separation, in fixed-point micrometers.
pub const MAX_SEPARATION: i64 = 100 * ONE;

/// Smallest accepted slit width, in fixed-point micrometers.
pub const MIN_SLIT_WIDTH: i64 = 1 * ONE;

/// Largest accepted slit width, in fixed-point micrometers.
pub const MAX_SLIT_WIDTH: i64 = 15 * ONE;

/// Smallest accepted screen distance, in fixed-point centimeters.
pub const MIN_SCREEN_DISTANCE: i64 = 20 * ONE;

/// Largest accepted screen distance, in fixed-point centimeters.
pub const MAX_SCREEN_DISTANCE: i64 = 200 * ONE;

/// Startup slit separation, in fixed-point micrometers.
pub const DEFAULT_SEPARATION: i64 = 50 * ONE;

/// Startup slit width, in fixed-point micrometers.
pub const DEFAULT_SLIT_WIDTH: i64 = 5 * ONE;

/// Startup wavelength, in fixed-point nanometers.
pub const DEFAULT_WAVELENGTH: i64 = 500 * ONE;

/// Startup screen distance, in fixed-point centimeters.
pub const DEFAULT_SCREEN_DISTANCE: i64 = 100 * ONE;

/// The slit geometry, the incident wavelength, the screen distance, and the
/// display mode.  Fields are fixed point: `separation` and `slit_width` in
/// micrometers, `wavelength` in nanometers, `screen_distance` in centimeters.
#[derive(Clone, Copy, Debug, PartialEq, Eq, Structural)]
pub struct SlitStructure {
    pub separation: i64,
    pub slit_width: i64,
    pub wavelength: i64,
    pub screen_distance: i64,
    pub toggle_input: InputType,
}

impl InputType {
    /// The mode's display label, as the UI shows it.
    pub fn label(&self) -> (s: &'static str)
        ensures
            self is Light ==> s@ == "Light"@,
            self is Particles ==> s@ == "Particles"@,
    {
        match self {
            InputType::Light => "Light",
            InputType::Particles => "Particles",
        }
    }
}

/// The display mode after a toggle.
pub open spec fn spec_toggled(m: InputType) -> InputType {
    match m {
        InputType::Light => InputType::Particles,
        InputType::Particles => InputType::Light,
    }
}

impl SlitStructure {
    /// Every field lies within its declared closed interval.
    pub open spec fn wf(self) -> bool {
        &&& MIN_SEPARATION <= self.separation <= MAX_SEPARATION
        &&& MIN_SLIT_WIDTH <= self.slit_width <= MAX_SLIT_WIDTH
        &&& MIN_WAVELENGTH <= self.wavelength <= MAX_WAVELENGTH
        &&& MIN_SCREEN_DISTANCE <= self.screen_distance <= MAX_SCREEN_DISTANCE
    }

    /// The configuration after one adjustment: the targeted field moves by
    /// `val` if that keeps it inside its interval and otherwise keeps its
    /// prior value; the mode field ignores `val` and toggles.
    pub open spec fn spec_adjusted(self, opt: SlitControl, val: int) -> SlitStructure {
        match opt {
            SlitControl::Separation => {
                if MIN_SEPARATION <= self.separation + val <= MAX_SEPARATION {
                    SlitStructure { separation: (self.separation + val) as i64, ..self }
                } else {
                    self
                }
            },
            SlitControl::Width => {
                if MIN_SLIT_WIDTH <= self.slit_width + val <= MAX_SLIT_WIDTH {
                    SlitStructure { slit_width: (self.slit_width + val) as i64, ..self }
                } else {
                    self
                }
            },
            SlitControl::Wavelength => {
                if MIN_WAVELENGTH <= self.wavelength + val <= MAX_WAVELENGTH {
                    SlitStructure { wavelength: (self.wavelength + val) as i64, ..self }
                } else {
                    self
                }
            },
            SlitControl::ScreenDistance => {
                if MIN_SCREEN_DISTANCE <= self.screen_distance + val <= MAX_SCREEN_DISTANCE {
                    SlitStructure { screen_distance: (self.screen_distance + val) as i64, ..self }
                } else {
                    self
                }
            },
            SlitControl::Input => {
                SlitStructure { toggle_input: spec_toggled(self.toggle_input), ..self }
            },
        }
    }

    /// Apply one adjustment in place.  Returns whether the configuration
    /// actually changed, so that downstream consumers can react exactly once
    /// per change.
    pub fn add_val(&mut self, opt: &SlitControl, val: i64) -> (changed: bool)
        requires
            old(self).wf(),
        ensures
            *final(self) == old(self).spec_adjusted(*opt, val as int),
            final(self).wf(),
            changed <==> *final(self) != *old(self),
    {
        match opt {
            SlitControl::Separation => {
                match self.separation.checked_add(val) {
                    Some(c) => {
                        if MIN_SEPARATION <= c && c <= MAX_SEPARATION {
                            self.separation = c;
                            val != 0
                        } else {
                            false
                        }
                    },
                    None => false,
                }
            },
            SlitControl::Width => {
                match self.slit_width.checked_add(val) {
                    Some(c) => {
                        if MIN_SLIT_WIDTH <= c && c <= MAX_SLIT_WIDTH {
                            self.slit_width = c;
                            val != 0
                        } else {
                            false
                        }
                    },
                    None => false,
                }
            },
            SlitControl::Wavelength => {
                match self.wavelength.checked_add(val) {
                    Some(c) => {
                        if MIN_WAVELENGTH <= c && c <= MAX_WAVELENGTH {
                            self.wavelength = c;
                            val != 0
                        } else {
                            false
                        }
                    },
                    None => false,
                }
            },
            SlitControl::ScreenDistance => {
                match self.screen_distance.checked_add(val) {
                    Some(c) => {
                        if MIN_SCREEN_DISTANCE <= c && c <= MAX_SCREEN_DISTANCE {
                            self.screen_distance = c;
                            val != 0
                        } else {
                            false
                        }
                    },
                    None => false,
                }
            },
            SlitControl::Input => {
                self.toggle_input = match self.toggle_input {
                    InputType::Light => InputType::Particles,
                    InputType::Particles => InputType::Light,
                };
                true
            },
        }
    }
}

impl Default for SlitStructure {
    /// The documented startup configuration: 50 um separation, 5 um slit
    /// width, 500 nm wavelength, 100 cm screen distance, light mode.
    fn default() -> (s: Self)
        ensures
            s == (SlitStructure {
                separation: DEFAULT_SEPARATION,
                slit_width: DEFAULT_SLIT_WIDTH,
                wavelength: DEFAULT_WAVELENGTH,
                screen_distance: DEFAULT_SCREEN_DISTANCE,
                toggle_input: InputType::Light,
            }),
            s.wf(),
    {
        SlitStructure {
            separation: DEFAULT_SEPARATION,
            slit_width: DEFAULT_SLIT_WIDTH,
            wavelength: DEFAULT_WAVELENGTH,
            screen_distance: DEFAULT_SCREEN_DISTANCE,
            toggle_input: InputType::Light,
        }
    }
}

/// An adjustment never moves a field outside its interval: well-formedness is
/// preserved by every single call, whatever the delta.
pub proof fn lemma_adjust_preserves_wf(s: SlitStructure, opt: SlitControl, val: int)
    requires
        s.wf(),
    ensures
        s.spec_adjusted(opt, val).wf(),
{
}

/// The configurations reached from `s` by a whole sequence of adjustments,
/// applied first to last.
pub open spec fn spec_adjusted_all(s: SlitStructure, adjs: Seq<(SlitControl, int)>) -> SlitStructure
    decreases adjs.len(),
{
    if adjs.len() == 0 {
        s
    } else {
        spec_adjusted_all(s.spec_adjusted(adjs[0].0, adjs[0].1), adjs.skip(1))
    }
}

/// For all sequences of deltas, every field still lies in its interval after
/// every call: well-formedness is preserved by any adjustment sequence.
pub proof fn lemma_adjust_all_preserves_wf(s: SlitStructure, adjs: Seq<(SlitControl, int)>)
    requires
        s.wf(),
    ensures
        spec_adjusted_all(s, adjs).wf(),
    decreases adjs.len(),
{
    if adjs.len() > 0 {
        lemma_adjust_preserves_wf(s, adjs[0].0, adjs[0].1);
        lemma_adjust_all_preserves_wf(s.spec_adjusted(adjs[0].0, adjs[0].1), adjs.skip(1));
    }
}

/// Toggling the mode twice returns to the starting mode, and leaves every
/// other field untouched both times.
pub proof fn lemma_double_toggle(s: SlitStructure, v1: int, v2: int)
    ensures
        s.spec_adjusted(SlitControl::Input, v1).spec_adjusted(SlitControl::Input, v2) == s,
{
    let t = s.spec_adjusted(SlitControl::Input, v1);
    assert(t.spec_adjusted(SlitControl::Input, v2) == s);
}

} // verus!
