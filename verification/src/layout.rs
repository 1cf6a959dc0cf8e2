//! Screen geometry: the panel's size and where each channel's section
//! sits.  The panel is mounted rotated, so the layout's width is the
//! panel's native height and the other way round.

use vstd::prelude::*;

use crate::event::Channel;

verus! {

/// The panel's native width in pixels.
pub const PANEL_WIDTH: u16 = 240;

/// The panel's native height in pixels.
pub const PANEL_HEIGHT: u16 = 320;

/// The screen layout under the mounted rotation.
#[derive(Clone, Copy, Debug, PartialEq, Eq, Structural)]
pub struct Layout;

impl Layout {
    /// Drawing width: the rotated panel's height.
    pub fn width(&mut self) -> (r: u16)
        ensures
            r == 320,
    {
        PANEL_HEIGHT
    }

    /// Drawing height: the rotated panel's width.
    pub fn height(&mut self) -> (r: u16)
        ensures
            r == 240,
    {
        PANEL_WIDTH
    }

    /// Horizontal centre of the drawing area.
    pub fn center_x(&mut self) -> (r: i32)
        ensures
            r == 160,
    {
        self.width() as i32 / 2
    }

    /// Vertical centre of the drawing area.
    pub fn center_y(&mut self) -> (r: i32)
        ensures
            r == 120,
    {
        self.height() as i32 / 2
    }

    /// Top-left corner of a channel's section of the screen.
    pub fn channel_origin(&mut self, channel: Channel) -> (r: (i32, i32))
        ensures
            channel is A ==> r.0 == 0 && r.1 == 40,
            channel is B ==> r.0 == 163 && r.1 == 40,
    {
        match channel {
            Channel::A => (0, 40),
            Channel::B => (163, 40),
        }
    }
}

} // verus!
