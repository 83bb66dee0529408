//! Colors and the lookup table that maps a spectrum level to a color.
//!
//! A table holds `COLORGRAD_LOOKUP_SIZE` colors taken from a gradient at
//! evenly spaced offsets. A level is looked up by the integer part of
//! `level * COLORGRAD_LOOKUP_SIZE`, held to the table's range.
use vstd::prelude::*;

verus! {

/// The number of colors in a lookup table.
pub const COLORGRAD_LOOKUP_SIZE: usize = 128;

/// A color of four channels, as a pixel of an image holds it.
#[derive(Clone, Copy, PartialEq, Eq, Debug, Structural)]
pub struct Color {
    pub r: u8,
    pub g: u8,
    pub b: u8,
    pub a: u8,
}

impl Color {
    /// The pixel through which the background shows.
    pub open spec fn clear() -> Color {
        Color { r: 0, g: 0, b: 0, a: 0 }
    }

    /// An opaque color.
    pub fn from_rgb(r: u8, g: u8, b: u8) -> (color: Color)
        ensures
            color == (Color { r, g, b, a: 255 }),
    {
        Color { r, g, b, a: 255 }
    }

    /// The pixel through which the background shows.
    pub fn transparent() -> (color: Color)
        ensures
            color == Color::clear(),
    {
        Color { r: 0, g: 0, b: 0, a: 0 }
    }
}

/// The gradients that a spectrogram can be drawn with.
#[derive(Clone, Copy, PartialEq, Eq, Debug, Structural)]
pub enum Colorscheme {
    Turbo,
    Viridis,
    Inferno,
}

impl Default for Colorscheme {
    fn default() -> (scheme: Self)
        ensures
            scheme == Colorscheme::Inferno,
    {
        Colorscheme::Inferno
    }
}

/// `scaled` held to the indices of `bins` slots: below zero it is the first
/// slot, from `bins` on the last.
pub open spec fn clamped(scaled: int, bins: int) -> int {
    if scaled < 0 {
        0
    } else if scaled >= bins {
        bins - 1
    } else {
        scaled
    }
}

/// The slot among `bins` for a scaled value, which may lie outside them.
pub fn clamp_index(scaled: i64, bins: usize) -> (index: usize)
    requires
        bins > 0,
    ensures
        index == clamped(scaled as int, bins as int),
        index < bins,
{
    if scaled < 0 {
        0
    } else if scaled as u64 >= bins as u64 {
        bins - 1
    } else {
        scaled as usize
    }
}

/// The colors of one gradient, ready to be looked up.
#[derive(Debug)]
pub struct ColorLookupTable {
    scheme: Colorscheme,
    colors: Vec<Color>,
}

impl ColorLookupTable {
    /// The gradient that the colors were taken from.
    pub closed spec fn scheme(&self) -> Colorscheme {
        self.scheme
    }

    /// The colors, from the gradient's start to its end.
    pub closed spec fn colors(&self) -> Seq<Color> {
        self.colors@
    }

    /// A table has exactly `COLORGRAD_LOOKUP_SIZE` colors.
    #[verifier::type_invariant]
    pub closed spec fn wf(&self) -> bool {
        self.colors@.len() == COLORGRAD_LOOKUP_SIZE
    }

    /// The color that a scaled level is drawn with.
    pub open spec fn color_of(&self, scaled: int) -> Color {
        self.colors()[clamped(scaled, COLORGRAD_LOOKUP_SIZE as int)]
    }

    /// A table of `colors` for `scheme`, if there are exactly
    /// `COLORGRAD_LOOKUP_SIZE` of them.
    pub fn new(scheme: Colorscheme, colors: Vec<Color>) -> (table: Option<Self>)
        ensures
            table is Some <==> colors@.len() == COLORGRAD_LOOKUP_SIZE,
            table matches Some(t) ==> t.wf() && t.scheme() == scheme && t.colors() == colors@,
    {
        if colors.len() == COLORGRAD_LOOKUP_SIZE {
            Some(Self { scheme, colors })
        } else {
            None
        }
    }

    /// The gradient that the colors were taken from.
    pub fn colorscheme(&self) -> (scheme: Colorscheme)
        ensures
            scheme == self.scheme(),
    {
        self.scheme
    }

    /// The color for `scaled`, the integer part of a level times
    /// `COLORGRAD_LOOKUP_SIZE`: levels below the gradient get its first
    /// color, levels beyond it its last.
    pub fn color_at(&self, scaled: i64) -> (color: Color)
        ensures
            self.wf(),
            color == self.color_of(scaled as int),
    {
        proof {
            use_type_invariant(self);
        }
        self.colors[clamp_index(scaled, COLORGRAD_LOOKUP_SIZE)]
    }
}

impl Clone for ColorLookupTable {
    /// A table of the same colors for the same gradient.
    fn clone(&self) -> (copy: Self)
        ensures
            copy.wf(),
            copy.scheme() == self.scheme(),
            copy.colors() == self.colors(),
    {
        proof {
            use_type_invariant(self);
        }
        let mut colors: Vec<Color> = Vec::new();
        let mut i: usize = 0;
        while i < COLORGRAD_LOOKUP_SIZE
            invariant
                self.colors@.len() == COLORGRAD_LOOKUP_SIZE,
                i <= COLORGRAD_LOOKUP_SIZE,
                colors@ == self.colors@.take(i as int),
            decreases COLORGRAD_LOOKUP_SIZE - i,
        {
            colors.push(self.colors[i]);
            assert(colors@ =~= self.colors@.take(i + 1));
            i += 1;
        }
        assert(colors@ =~= self.colors@);
        Self { scheme: self.scheme, colors }
    }
}

} // verus!
