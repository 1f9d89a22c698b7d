//! Paint commands: the renderer's only observable output besides cache
//! writes.
//!
//! A render pass turns a scene subtree into an ordered sequence of
//! [`DrawCommand`] values; the host replays them onto its drawing surface.
//! Contracts speak of the mathematical image of a command, [`Cmd`], whose
//! coordinates are unbounded integers.

use vstd::prelude::*;

use crate::pool::Colour;

verus! {

/// A paint call, as emitted to the host.  Coordinates are absolute pixels,
/// accumulated over the ancestor chain of relative offsets.
#[derive(Clone, Debug, PartialEq)]
pub enum DrawCommand {
    /// Fill the enclosing frame area with a background colour; the host
    /// sizes the area (a mask or working set covers its whole region).
    FrameFill { x: i32, y: i32, colour: Colour },
    /// Fill the given rectangle.
    FillRect { x: i32, y: i32, width: u16, height: u16, colour: Colour },
    /// Stroke the border of the given rectangle.
    StrokeRect { x: i32, y: i32, width: u16, height: u16, line_width: u8, colour: Colour },
    /// Paint a text label.
    Text { x: i32, y: i32, colour: Colour, text: String },
    /// A visible placeholder naming an identifier that did not resolve to
    /// an object of the expected kind.
    Diagnostic { x: i32, y: i32, missing_id: u16 },
    /// Set the drawing surface's border-emphasis stroke width.
    SetBorderWidth { width: u8 },
    /// Paint the raster previously stored in the session cache under
    /// `handle`, scaled to the given display rectangle.
    Image { x: i32, y: i32, width: u16, height: u16, handle: u64 },
}

/// The mathematical image of a paint call, with unbounded coordinates.
pub enum Cmd {
    FrameFill { x: int, y: int, colour: Colour },
    FillRect { x: int, y: int, width: int, height: int, colour: Colour },
    StrokeRect { x: int, y: int, width: int, height: int, line_width: int, colour: Colour },
    Text { x: int, y: int, colour: Colour, text: Seq<char> },
    Diagnostic { x: int, y: int, missing_id: int },
    SetBorderWidth { width: int },
    Image { x: int, y: int, width: int, height: int, handle: int },
}

impl View for DrawCommand {
    type V = Cmd;

    open spec fn view(&self) -> Cmd {
        match *self {
            DrawCommand::FrameFill { x, y, colour } => Cmd::FrameFill {
                x: x as int,
                y: y as int,
                colour,
            },
            DrawCommand::FillRect { x, y, width, height, colour } => Cmd::FillRect {
                x: x as int,
                y: y as int,
                width: width as int,
                height: height as int,
                colour,
            },
            DrawCommand::StrokeRect { x, y, width, height, line_width, colour } => Cmd::StrokeRect {
                x: x as int,
                y: y as int,
                width: width as int,
                height: height as int,
                line_width: line_width as int,
                colour,
            },
            DrawCommand::Text { x, y, colour, text } => Cmd::Text {
                x: x as int,
                y: y as int,
                colour,
                text: text@,
            },
            DrawCommand::Diagnostic { x, y, missing_id } => Cmd::Diagnostic {
                x: x as int,
                y: y as int,
                missing_id: missing_id as int,
            },
            DrawCommand::SetBorderWidth { width } => Cmd::SetBorderWidth { width: width as int },
            DrawCommand::Image { x, y, width, height, handle } => Cmd::Image {
                x: x as int,
                y: y as int,
                width: width as int,
                height: height as int,
                handle: handle as int,
            },
        }
    }
}

/// The sequence of mathematical paint calls a command buffer stands for.
pub open spec fn cmd_views(s: Seq<DrawCommand>) -> Seq<Cmd> {
    s.map_values(|c: DrawCommand| c@)
}

} // verus!
