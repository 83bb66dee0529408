//! The parameters of a spectrogram and what a change of them costs.
//!
//! A window length comes from a small fixed set, and a step is at least one
//! sample and at most one window. Settings that break this are refused when
//! they are made, so that nothing downstream meets a degenerate window.
use crate::colors::Color;
use crate::colors::ColorLookupTable;
use crate::colors::Colorscheme;
use crate::colors::COLORGRAD_LOOKUP_SIZE;
use vstd::prelude::*;

verus! {

/// Whether `size` is one of the window lengths that a spectrum can be taken
/// over.
pub open spec fn supported_size(size: usize) -> bool {
    size == 256 || size == 512 || size == 1024 || size == 2048
}

/// Where `size` stands among the supported window lengths, in rising order.
pub open spec fn size_position(size: usize) -> Option<usize> {
    if size == 256 {
        Some(0usize)
    } else if size == 512 {
        Some(1usize)
    } else if size == 1024 {
        Some(2usize)
    } else if size == 2048 {
        Some(3usize)
    } else {
        None
    }
}

/// The place of `size` among the supported window lengths: the index of its
/// table of window coefficients. `None` for any other length.
pub fn fft_size_index(size: usize) -> (index: Option<usize>)
    ensures
        index == size_position(size),
        index is Some <==> supported_size(size),
{
    if size == 256 {
        Some(0)
    } else if size == 512 {
        Some(1)
    } else if size == 1024 {
        Some(2)
    } else if size == 2048 {
        Some(3)
    } else {
        None
    }
}

/// Why a pair of window length and step is refused.
#[derive(Clone, Copy, PartialEq, Eq, Debug, Structural)]
pub enum SettingsError {
    /// The window has no samples.
    ZeroWindow,
    /// The window length is not one of the supported ones.
    UnsupportedWindow,
    /// The window would never move on.
    ZeroStep,
    /// The step is longer than the window, so samples would be skipped.
    StepExceedsWindow,
}

/// The first fault of a window length and step, if they have one.
pub open spec fn fault(size: usize, step_size: usize) -> Option<SettingsError> {
    if size == 0 {
        Some(SettingsError::ZeroWindow)
    } else if !supported_size(size) {
        Some(SettingsError::UnsupportedWindow)
    } else if step_size == 0 {
        Some(SettingsError::ZeroStep)
    } else if step_size > size {
        Some(SettingsError::StepExceedsWindow)
    } else {
        None
    }
}

/// What has to be done again after a change of settings.
#[derive(Clone, Copy, PartialEq, Eq, Debug, Structural)]
pub enum Refresh {
    /// The spectra themselves: sample, transform and draw again.
    Recalculate,
    /// Only the images: color the spectra at hand again.
    Redraw,
    /// Nothing.
    Keep,
}

/// The parameters of a spectrogram, with the color table that was last made
/// for them.
#[derive(Debug)]
pub struct FftSettings {
    size: usize,
    step_size: usize,
    plot_colorscheme: Colorscheme,
    color_lookup_table: Option<ColorLookupTable>,
}

impl FftSettings {
    /// The window length, in samples.
    pub closed spec fn size_spec(&self) -> usize {
        self.size
    }

    /// The number of samples between the starts of two windows.
    pub closed spec fn step_size_spec(&self) -> usize {
        self.step_size
    }

    /// The gradient chosen for the images.
    pub closed spec fn colorscheme_spec(&self) -> Colorscheme {
        self.plot_colorscheme
    }

    /// The color table at hand, made for whatever gradient was chosen when
    /// it was made.
    pub closed spec fn cached(&self) -> Option<ColorLookupTable> {
        self.color_lookup_table
    }

    /// The sizes are without fault, and a table at hand is a whole one.
    #[verifier::type_invariant]
    pub closed spec fn wf(&self) -> bool {
        &&& fault(self.size, self.step_size) is None
        &&& self.color_lookup_table matches Some(table) ==> table.wf()
    }

    /// Whether the table at hand is missing or was made for another
    /// gradient than the one now chosen.
    pub open spec fn stale(&self) -> bool {
        match self.cached() {
            Some(table) => table.scheme() != self.colorscheme_spec(),
            None => true,
        }
    }

    /// Settings for a window of `size` samples moved on by `step_size`,
    /// drawn with `plot_colorscheme`; or the first fault of the two sizes.
    pub fn new(size: usize, step_size: usize, plot_colorscheme: Colorscheme) -> (made: Result<
        Self,
        SettingsError,
    >)
        ensures
            match made {
                Ok(settings) => {
                    &&& fault(size, step_size) is None
                    &&& settings.wf()
                    &&& settings.size_spec() == size
                    &&& settings.step_size_spec() == step_size
                    &&& settings.colorscheme_spec() == plot_colorscheme
                    &&& settings.cached() is None
                },
                Err(error) => fault(size, step_size) == Some(error),
            },
    {
        if size == 0 {
            Err(SettingsError::ZeroWindow)
        } else if fft_size_index(size).is_none() {
            Err(SettingsError::UnsupportedWindow)
        } else if step_size == 0 {
            Err(SettingsError::ZeroStep)
        } else if step_size > size {
            Err(SettingsError::StepExceedsWindow)
        } else {
            Ok(Self { size, step_size, plot_colorscheme, color_lookup_table: None })
        }
    }

    /// The window length, in samples.
    pub fn size(&self) -> (size: usize)
        ensures
            size == self.size_spec(),
            supported_size(size),
    {
        proof {
            use_type_invariant(self);
        }
        self.size
    }

    /// The number of samples between the starts of two windows.
    pub fn step_size(&self) -> (step_size: usize)
        ensures
            step_size == self.step_size_spec(),
            0 < step_size <= self.size_spec(),
    {
        proof {
            use_type_invariant(self);
        }
        self.step_size
    }

    /// The gradient chosen for the images.
    pub fn plot_colorscheme(&self) -> (scheme: Colorscheme)
        ensures
            scheme == self.colorscheme_spec(),
    {
        self.plot_colorscheme
    }

    /// Chooses another gradient. The table at hand stays, and is stale from
    /// now on if it was made for another one.
    pub fn set_plot_colorscheme(&mut self, scheme: Colorscheme)
        ensures
            final(self).colorscheme_spec() == scheme,
            final(self).size_spec() == old(self).size_spec(),
            final(self).step_size_spec() == old(self).step_size_spec(),
            final(self).cached() == old(self).cached(),
    {
        proof {
            use_type_invariant(&*self);
        }
        self.plot_colorscheme = scheme;
    }

    /// Whether the spectra made with `other` are of no use for `self`: the
    /// window or the step differs.
    pub fn needs_recalculating(&self, other: &Self) -> (needed: bool)
        ensures
            needed == (self.size_spec() != other.size_spec() || self.step_size_spec()
                != other.step_size_spec()),
    {
        self.size != other.size || self.step_size != other.step_size
    }

    /// Whether the images made with `other` are of no use for `self`: the
    /// spectra are, the gradient differs, or the level that the brightest
    /// color stands for has changed. That level is not held here, so the
    /// caller says whether it changed.
    pub fn needs_redrawing(&self, other: &Self, top_level_changed: bool) -> (needed: bool)
        ensures
            needed == (self.size_spec() != other.size_spec() || self.step_size_spec()
                != other.step_size_spec() || self.colorscheme_spec() != other.colorscheme_spec()
                || top_level_changed),
    {
        self.needs_recalculating(other) || self.plot_colorscheme != other.plot_colorscheme
            || top_level_changed
    }

    /// What has to be done again when `self` takes the place of `previous`:
    /// a new window or step asks for new spectra, a new gradient or a new
    /// top level only for new images.
    pub fn refresh_after(&self, previous: &Self, top_level_changed: bool) -> (refresh: Refresh)
        ensures
            refresh == if self.size_spec() != previous.size_spec() || self.step_size_spec()
                != previous.step_size_spec() {
                Refresh::Recalculate
            } else if self.colorscheme_spec() != previous.colorscheme_spec() || top_level_changed {
                Refresh::Redraw
            } else {
                Refresh::Keep
            },
    {
        if self.needs_recalculating(previous) {
            Refresh::Recalculate
        } else if self.needs_redrawing(previous, top_level_changed) {
            Refresh::Redraw
        } else {
            Refresh::Keep
        }
    }

    /// Whether a color table has to be made before colors can be looked up.
    pub fn lookup_is_stale(&self) -> (stale: bool)
        ensures
            stale == self.stale(),
    {
        match &self.color_lookup_table {
            Some(table) => table.colorscheme() != self.plot_colorscheme,
            None => true,
        }
    }

    /// Takes `colors` as the table of the gradient now chosen. They are
    /// refused, and the table at hand is kept, unless there are exactly
    /// `COLORGRAD_LOOKUP_SIZE` of them.
    pub fn install_lookup(&mut self, colors: Vec<Color>) -> (taken: bool)
        ensures
            taken == (colors@.len() == COLORGRAD_LOOKUP_SIZE),
            final(self).size_spec() == old(self).size_spec(),
            final(self).step_size_spec() == old(self).step_size_spec(),
            final(self).colorscheme_spec() == old(self).colorscheme_spec(),
            taken ==> !final(self).stale() && final(self).cached()->0.colors() == colors@,
            !taken ==> final(self).cached() == old(self).cached(),
    {
        proof {
            use_type_invariant(&*self);
        }
        match ColorLookupTable::new(self.plot_colorscheme, colors) {
            Some(table) => {
                self.color_lookup_table = Some(table);
                true
            },
            None => false,
        }
    }

    /// The table for the gradient now chosen, if it is at hand.
    pub fn color_lookup_table(&self) -> (table: Option<&ColorLookupTable>)
        ensures
            table is Some <==> !self.stale(),
            table matches Some(t) ==> Some(*t) == self.cached() && t.wf(),
    {
        proof {
            use_type_invariant(self);
        }
        match &self.color_lookup_table {
            Some(table) => {
                if table.colorscheme() == self.plot_colorscheme {
                    Some(table)
                } else {
                    None
                }
            },
            None => None,
        }
    }

    /// The color for a scaled level, or `None` while the table is stale.
    pub fn color_at(&self, scaled: i64) -> (color: Option<Color>)
        ensures
            color == if self.stale() {
                None
            } else {
                Some(self.cached()->0.color_of(scaled as int))
            },
    {
        match self.color_lookup_table() {
            Some(table) => Some(table.color_at(scaled)),
            None => None,
        }
    }
}

impl Default for FftSettings {
    /// A window of 256 samples moved on by 8, drawn with the default gradient.
    fn default() -> (settings: Self)
        ensures
            settings.size_spec() == 256,
            settings.step_size_spec() == 8,
            settings.colorscheme_spec() == Colorscheme::Inferno,
            settings.cached() is None,
    {
        Self {
            size: 256,
            step_size: 8,
            plot_colorscheme: Colorscheme::Inferno,
            color_lookup_table: None,
        }
    }
}

impl Clone for FftSettings {
    /// The same settings, with a table of the same colors if one is at hand.
    fn clone(&self) -> (copy: Self)
        ensures
            copy.wf(),
            copy.size_spec() == self.size_spec(),
            copy.step_size_spec() == self.step_size_spec(),
            copy.colorscheme_spec() == self.colorscheme_spec(),
            copy.stale() == self.stale(),
            self.cached() matches Some(table) ==> copy.cached() is Some
                && copy.cached()->0.colors() == table.colors(),
    {
        proof {
            use_type_invariant(self);
        }
        let color_lookup_table = match &self.color_lookup_table {
            Some(table) => Some(table.clone()),
            None => None,
        };
        Self {
            size: self.size,
            step_size: self.step_size,
            plot_colorscheme: self.plot_colorscheme,
            color_lookup_table,
        }
    }
}

} // verus!
