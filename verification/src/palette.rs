//! The colours of the raster view, chosen by treatment.

use crate::classify::Treatment;
use vstd::prelude::*;

verus! {

/// A colour as red, green and blue.
#[derive(Clone, Copy, Debug, PartialEq, Eq, Structural)]
pub struct Rgb {
    pub r: u8,
    pub g: u8,
    pub b: u8,
}

/// The colours of the raster view.
#[derive(Clone, Copy, Debug, PartialEq, Eq, Structural)]
pub struct Palette {
    /// What the canvas is filled with.
    pub background: Rgb,
    /// Dates, descriptions, and the parentheses of a pending task.
    pub text: Rgb,
    /// The "done" colour.
    pub done: Rgb,
    /// The "overdue" colour.
    pub overdue: Rgb,
    /// The hour tag of a pending slot.
    pub pending: Rgb,
}

impl Palette {
    /// The colour of an hour tag under a treatment.
    pub open spec fn bracket_ink(self, t: Treatment) -> Rgb {
        match t {
            Treatment::Done => self.done,
            Treatment::Overdue => self.overdue,
            Treatment::Pending => self.pending,
        }
    }

    /// The colour of a task's parentheses under a treatment.
    pub open spec fn paren_ink(self, t: Treatment) -> Rgb {
        match t {
            Treatment::Done => self.done,
            Treatment::Overdue => self.overdue,
            Treatment::Pending => self.text,
        }
    }

    /// The Nord colours.
    pub fn nord() -> (palette: Palette)
        ensures
            palette == (Palette {
                background: Rgb { r: 0x2e, g: 0x34, b: 0x40 },
                text: Rgb { r: 0xd8, g: 0xde, b: 0xe9 },
                done: Rgb { r: 0xa3, g: 0xbe, b: 0x8c },
                overdue: Rgb { r: 0xbf, g: 0x61, b: 0x6a },
                pending: Rgb { r: 0x81, g: 0xa1, b: 0xc1 },
            }),
    {
        Palette {
            background: Rgb { r: 0x2e, g: 0x34, b: 0x40 },
            text: Rgb { r: 0xd8, g: 0xde, b: 0xe9 },
            done: Rgb { r: 0xa3, g: 0xbe, b: 0x8c },
            overdue: Rgb { r: 0xbf, g: 0x61, b: 0x6a },
            pending: Rgb { r: 0x81, g: 0xa1, b: 0xc1 },
        }
    }

    /// Picks the colour of an hour tag.
    pub fn bracket(&self, t: Treatment) -> (ink: Rgb)
        ensures
            ink == self.bracket_ink(t),
    {
        match t {
            Treatment::Done => self.done,
            Treatment::Overdue => self.overdue,
            Treatment::Pending => self.pending,
        }
    }

    /// Picks the colour of a task's parentheses.
    pub fn paren(&self, t: Treatment) -> (ink: Rgb)
        ensures
            ink == self.paren_ink(t),
    {
        match t {
            Treatment::Done => self.done,
            Treatment::Overdue => self.overdue,
            Treatment::Pending => self.text,
        }
    }
}

} // verus!
