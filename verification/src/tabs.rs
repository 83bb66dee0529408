//! The views of one flight that a user can switch between.
use vstd::prelude::*;

verus! {

/// One of the views of a flight.
#[derive(Clone, Copy, PartialEq, Eq, Debug, Structural)]
pub enum FlightViewTab {
    Plot,
    Tune,
    Vibe,
}

impl Default for FlightViewTab {
    fn default() -> (tab: Self)
        ensures
            tab == FlightViewTab::Plot,
    {
        FlightViewTab::Plot
    }
}

impl FlightViewTab {
    /// The text on the tab: a sign, then the name.
    pub open spec fn label_text(self) -> Seq<char> {
        match self {
            FlightViewTab::Plot => "🗠  Plot"@,
            FlightViewTab::Tune => "⛭  Tune"@,
            FlightViewTab::Vibe => "💃 Vibe"@,
        }
    }

    /// The sign alone, for where there is no room for the name.
    pub open spec fn sign_text(self) -> Seq<char> {
        match self {
            FlightViewTab::Plot => "🗠"@,
            FlightViewTab::Tune => "⛭"@,
            FlightViewTab::Vibe => "💃"@,
        }
    }

    /// The text on the tab.
    pub fn label(&self) -> (text: &'static str)
        ensures
            text@ == self.label_text(),
    {
        match self {
            FlightViewTab::Plot => "🗠  Plot",
            FlightViewTab::Tune => "⛭  Tune",
            FlightViewTab::Vibe => "💃 Vibe",
        }
    }

    /// The text on the tab where the window is narrow: the label up to its
    /// first space.
    pub fn short_label(&self) -> (text: &'static str)
        ensures
            text@ == self.sign_text(),
    {
        match self {
            FlightViewTab::Plot => "🗠",
            FlightViewTab::Tune => "⛭",
            FlightViewTab::Vibe => "💃",
        }
    }

    /// The views, in the order of their tabs.
    pub fn all() -> (tabs: [FlightViewTab; 3])
        ensures
            tabs@ == seq![FlightViewTab::Plot, FlightViewTab::Tune, FlightViewTab::Vibe],
    {
        let tabs = [FlightViewTab::Plot, FlightViewTab::Tune, FlightViewTab::Vibe];
        assert(tabs@ =~= seq![FlightViewTab::Plot, FlightViewTab::Tune, FlightViewTab::Vibe]);
        tabs
    }
}

/// The sign of a tab is its label up to the first space.
pub proof fn law_sign_starts_label(tab: FlightViewTab)
    ensures
        tab.sign_text().len() == 1,
        tab.label_text().len() > 2,
        tab.label_text()[0] == tab.sign_text()[0],
        tab.label_text()[1] == ' ',
{
    reveal_strlit("🗠  Plot");
    reveal_strlit("⛭  Tune");
    reveal_strlit("💃 Vibe");
    reveal_strlit("🗠");
    reveal_strlit("⛭");
    reveal_strlit("💃");
}

} // verus!
