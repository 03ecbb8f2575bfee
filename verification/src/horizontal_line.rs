//! A horizontal line drawn with a repeated character, used as a separator in dialogs.

use vstd::prelude::*;

verus! {

/// A horizontal line of `length` cells drawn with `achar`.
pub struct HorizontalLine {
    achar: String,
    enabled: bool,
    length: usize,
}

/// The color style a line is drawn in.
#[derive(Clone, Copy, Debug, PartialEq, Eq, Structural)]
pub enum LineStyle {
    Secondary,
    Highlight,
    Primary,
}

/// The style: secondary unless both the line and the printer are enabled, then highlight
/// when focused, primary otherwise.
pub open spec fn line_style_spec(enabled: bool, printer_enabled: bool, focused: bool) -> LineStyle {
    if !(enabled && printer_enabled) {
        LineStyle::Secondary
    } else if focused {
        LineStyle::Highlight
    } else {
        LineStyle::Primary
    }
}

impl HorizontalLine {
    pub closed spec fn text(&self) -> Seq<char> {
        self.achar@
    }

    pub closed spec fn len_spec(&self) -> usize {
        self.length
    }

    pub closed spec fn is_enabled(&self) -> bool {
        self.enabled
    }

    /// An enabled line of `length` cells drawn with `kar`.
    pub fn new(kar: &str, length: usize) -> (l: Self)
        ensures
            l.text() == kar@,
            l.len_spec() == length,
            l.is_enabled(),
    {
        HorizontalLine { achar: String::from_str(kar), enabled: true, length }
    }

    /// The text the line is drawn with.
    pub fn achar(&self) -> (s: &str)
        ensures
            s@ == self.text(),
    {
        self.achar.as_str()
    }

    /// The number of cells the line covers.
    pub fn length(&self) -> (n: usize)
        ensures
            n == self.len_spec(),
    {
        self.length
    }

    /// Whether anything is drawn on a printer `width` cells wide: not on an empty one.
    pub fn draws_on(&self, width: usize) -> (b: bool)
        ensures
            b == (width != 0),
    {
        width != 0
    }

    /// The style the line is drawn in on a printer.
    pub fn style(&self, printer_enabled: bool, focused: bool) -> (s: LineStyle)
        ensures
            s == line_style_spec(self.is_enabled(), printer_enabled, focused),
    {
        if !(self.enabled && printer_enabled) {
            LineStyle::Secondary
        } else if focused {
            LineStyle::Highlight
        } else {
            LineStyle::Primary
        }
    }
}

} // verus!
