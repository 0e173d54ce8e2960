//! The style tokens that colour a bar, and where they come from.

use vstd::prelude::*;

verus! {

/// Which of the two colours a bar is drawn in.
#[derive(Clone, Copy, PartialEq, Eq, Structural, Debug)]
pub enum ColorChoice {
    /// The colour of a partition that is nearly full.
    Alert,
    /// The colour of every other partition.
    Normal,
}

/// The three style tokens of a report. Each is written into the text as it
/// stands; none of them takes up a cell on the screen.
pub struct Palette {
    pub alert: String,
    pub normal: String,
    pub reset: String,
}

/// A palette as plain values.
pub struct PaletteView {
    pub alert: Seq<char>,
    pub normal: Seq<char>,
    pub reset: Seq<char>,
}

impl View for Palette {
    type V = PaletteView;

    open spec fn view(&self) -> PaletteView {
        PaletteView { alert: self.alert@, normal: self.normal@, reset: self.reset@ }
    }
}

impl PaletteView {
    /// The token that switches to a colour.
    pub open spec fn token(&self, color: ColorChoice) -> Seq<char> {
        match color {
            ColorChoice::Alert => self.alert,
            ColorChoice::Normal => self.normal,
        }
    }
}

/// The escape sequence that selects the alert colour, a red foreground.
pub open spec fn alert_sequence() -> Seq<char> {
    "\x1b[38;5;1m"@
}

/// The escape sequence that selects the normal colour, a cyan foreground.
pub open spec fn normal_sequence() -> Seq<char> {
    "\x1b[38;5;6m"@
}

/// The escape sequence that resets every style.
pub open spec fn reset_sequence() -> Seq<char> {
    "\x1b[m"@
}

impl Palette {
    /// The tokens of an ANSI terminal. Where colours are switched off for the
    /// process, a colour token is empty.
    pub fn terminal() -> (palette: Palette)
        ensures
            palette.alert@ == alert_sequence() || palette.alert@.len() == 0,
            palette.normal@ == normal_sequence() || palette.normal@.len() == 0,
            palette.reset@ == reset_sequence(),
    {
        Palette { alert: red_foreground(), normal: cyan_foreground(), reset: style_reset() }
    }

    /// Picks the token that switches to a colour.
    pub fn pick(&self, color: ColorChoice) -> (token: &str)
        ensures
            token@ == self@.token(color),
    {
        match color {
            ColorChoice::Alert => self.alert.as_str(),
            ColorChoice::Normal => self.normal.as_str(),
        }
    }
}

/// What `termion::color::Fg(termion::color::Red)` displays as: the sequence
/// for a red foreground, or nothing where termion finds `NO_COLOR` set in the
/// environment. Trusted, not proved.
#[verifier::external_body]
fn red_foreground() -> (token: String)
    ensures
        token@ == alert_sequence() || token@.len() == 0,
{
    format!("{}", termion::color::Fg(termion::color::Red))
}

/// What `termion::color::Fg(termion::color::Cyan)` displays as: the sequence
/// for a cyan foreground, or nothing where termion finds `NO_COLOR` set in
/// the environment. Trusted, not proved.
#[verifier::external_body]
fn cyan_foreground() -> (token: String)
    ensures
        token@ == normal_sequence() || token@.len() == 0,
{
    format!("{}", termion::color::Fg(termion::color::Cyan))
}

/// What `termion::style::Reset` displays as: the sequence that resets every
/// style, whatever the environment. Trusted, not proved.
#[verifier::external_body]
fn style_reset() -> (token: String)
    ensures
        token@ == reset_sequence(),
{
    format!("{}", termion::style::Reset)
}

} // verus!
