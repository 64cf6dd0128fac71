//! What a device that reads DVI keeps: where it stands, and the scale of the
//! file. And what it draws, and why it may stop.

use crate::dvi2svg::instruction::DecodeError;
use vstd::prelude::*;

verus! {

/// Why the reading of a DVI file stops.
#[derive(Debug, Clone, Copy, PartialEq, Eq)]
pub enum DviError {
    /// The bytes of the file cannot be read.
    Decode(DecodeError),
    /// A character code is no Unicode scalar value.
    InvalidCharacter,
    /// A font is selected that was not defined.
    UnknownFont,
    /// Text is to be set and no font is selected.
    NoFontSelected,
    /// The font tables know neither the selected font nor the one that stands
    /// in for it.
    NoFontData,
    /// Something is to be drawn and the preamble has not been seen.
    NoPreamble,
    /// A page ends with positions or colours left on their stacks.
    UnbalancedPage,
    /// A position is to be restored and none was saved.
    EmptyPositionStack,
    /// A colour is to be restored and none was saved.
    EmptyColorStack,
    /// A position, or the width of text, is too large a number.
    OutOfRange,
}

/// The position of the device, in the units of the file, with the four
/// distances that the file can move by again.
#[derive(Debug, Clone, Copy, PartialEq, Eq)]
pub struct Position {
    pub h: i32,
    pub v: i32,
    pub w: i32,
    pub x: i32,
    pub y: i32,
    pub z: i32,
}

impl Position {
    /// The position after a move to the right, if it is a position.
    pub open spec fn moved_right(self, distance: int) -> Option<Position> {
        if i32::MIN <= self.h + distance <= i32::MAX {
            Some(Position { h: (self.h + distance) as i32, ..self })
        } else {
            None
        }
    }

    /// The position after a move down, if it is a position.
    pub open spec fn moved_down(self, distance: int) -> Option<Position> {
        if i32::MIN <= self.v + distance <= i32::MAX {
            Some(Position { v: (self.v + distance) as i32, ..self })
        } else {
            None
        }
    }

    /// The position after a move to the right by one of the two distances
    /// that are kept for that: by w if `first`, else by x. A distance that is
    /// given is kept in place of the one that was.
    pub open spec fn changed_right(self, distance: Option<i32>, first: bool) -> Option<Position> {
        let kept = match distance {
            Some(d) => if first {
                Position { w: d, ..self }
            } else {
                Position { x: d, ..self }
            },
            None => self,
        };
        kept.moved_right(
            if first {
                kept.w as int
            } else {
                kept.x as int
            },
        )
    }

    /// The position after a move down by one of the two distances that are
    /// kept for that: by y if `first`, else by z.
    pub open spec fn changed_down(self, distance: Option<i32>, first: bool) -> Option<Position> {
        let kept = match distance {
            Some(d) => if first {
                Position { y: d, ..self }
            } else {
                Position { z: d, ..self }
            },
            None => self,
        };
        kept.moved_down(
            if first {
                kept.y as int
            } else {
                kept.z as int
            },
        )
    }

    /// The origin, with all distances 0.
    pub fn empty() -> (position: Position)
        ensures
            position == (Position { h: 0, v: 0, w: 0, x: 0, y: 0, z: 0 }),
    {
        Position { h: 0, v: 0, w: 0, x: 0, y: 0, z: 0 }
    }

    pub fn h(&self) -> (h: i32)
        ensures
            h == self.h,
    {
        self.h
    }

    pub fn v(&self) -> (v: i32)
        ensures
            v == self.v,
    {
        self.v
    }

    /// Moves to the right. Where that leads out of the range of positions
    /// nothing changes.
    pub fn move_right(&mut self, distance: i32) -> (moved: Result<(), DviError>)
        ensures
            match moved {
                Ok(_) => old(self).moved_right(distance as int) == Some(*final(self)),
                Err(error) => {
                    &&& error == DviError::OutOfRange
                    &&& old(self).moved_right(distance as int) is None
                    &&& *final(self) == *old(self)
                },
            },
    {
        match self.h.checked_add(distance) {
            Some(h) => {
                self.h = h;
                Ok(())
            },
            None => Err(DviError::OutOfRange),
        }
    }

    /// Moves down. Where that leads out of the range of positions nothing
    /// changes.
    pub fn move_down(&mut self, distance: i32) -> (moved: Result<(), DviError>)
        ensures
            match moved {
                Ok(_) => old(self).moved_down(distance as int) == Some(*final(self)),
                Err(error) => {
                    &&& error == DviError::OutOfRange
                    &&& old(self).moved_down(distance as int) is None
                    &&& *final(self) == *old(self)
                },
            },
    {
        match self.v.checked_add(distance) {
            Some(v) => {
                self.v = v;
                Ok(())
            },
            None => Err(DviError::OutOfRange),
        }
    }

    /// Moves to the right by w if `first`, else by x, after keeping the
    /// distance that is given, if one is. Where the move leads out of the
    /// range of positions nothing changes.
    pub fn change_right(
        &mut self,
        distance: Option<i32>,
        first: bool,
    ) -> (moved: Result<(), DviError>)
        ensures
            match moved {
                Ok(_) => old(self).changed_right(distance, first) == Some(*final(self)),
                Err(error) => {
                    &&& error == DviError::OutOfRange
                    &&& old(self).changed_right(distance, first) is None
                    &&& *final(self) == *old(self)
                },
            },
    {
        let mut kept = *self;
        if let Some(d) = distance {
            if first {
                kept.w = d;
            } else {
                kept.x = d;
            }
        }
        let by = if first {
            kept.w
        } else {
            kept.x
        };
        match kept.move_right(by) {
            Ok(()) => {
                *self = kept;
                Ok(())
            },
            Err(error) => Err(error),
        }
    }

    /// Moves down by y if `first`, else by z, after keeping the distance that
    /// is given, if one is. Where the move leads out of the range of
    /// positions nothing changes.
    pub fn change_down(
        &mut self,
        distance: Option<i32>,
        first: bool,
    ) -> (moved: Result<(), DviError>)
        ensures
            match moved {
                Ok(_) => old(self).changed_down(distance, first) == Some(*final(self)),
                Err(error) => {
                    &&& error == DviError::OutOfRange
                    &&& old(self).changed_down(distance, first) is None
                    &&& *final(self) == *old(self)
                },
            },
    {
        let mut kept = *self;
        if let Some(d) = distance {
            if first {
                kept.y = d;
            } else {
                kept.z = d;
            }
        }
        let by = if first {
            kept.y
        } else {
            kept.z
        };
        match kept.move_down(by) {
            Ok(()) => {
                *self = kept;
                Ok(())
            },
            Err(error) => Err(error),
        }
    }
}

/// What the preamble of a DVI file says.
#[derive(Debug, Clone, PartialEq, Eq)]
pub struct PreambleData {
    pub format: u8,
    pub numerator: u32,
    pub denominator: u32,
    pub magnification: u32,
    pub comment: Vec<u8>,
}

/// The model of [`PreambleData`].
pub struct PreambleView {
    pub format: u8,
    pub numerator: u32,
    pub denominator: u32,
    pub magnification: u32,
    pub comment: Seq<u8>,
}

impl View for PreambleData {
    type V = PreambleView;

    open spec fn view(&self) -> PreambleView {
        PreambleView {
            format: self.format,
            numerator: self.numerator,
            denominator: self.denominator,
            magnification: self.magnification,
            comment: self.comment@,
        }
    }
}

/// Something that is drawn. Positions and sizes are in the units of the
/// file; what they are in points depends on the preamble.
#[derive(Debug, Clone, PartialEq, Eq)]
pub enum Fragment {
    /// Text: glyphs of one font, in one colour, from a reference point on.
    Text {
        h: i32,
        v: i32,
        /// The name of the font, as the file defines it.
        font_name: Vec<u8>,
        color: Vec<u8>,
        /// The glyphs, each as a character or as a numeric entity.
        entities: Vec<u8>,
        /// The sum of the widths of the glyphs, in the units of the font.
        width: u64,
        /// The largest height of a glyph.
        height: u32,
        /// The largest depth of a glyph.
        depth: u32,
        /// The size that the font was designed for, as its metrics give it.
        font_design_size: u32,
        /// The scale of the font, as the file defines it.
        scale_factor: u32,
        /// The size that the font was designed for, as the file defines it.
        design_size: u32,
    },
    /// A filled rectangle that reaches up and to the right from a reference
    /// point.
    Rule { h: i32, v: i32, height: i32, width: i32, color: Vec<u8> },
    /// Markup that the file hands through, in which the position is still to
    /// be filled in.
    Raw { h: i32, v: i32, svg: Vec<u8> },
}

/// The model of a [`Fragment`].
pub enum FragmentView {
    Text {
        h: i32,
        v: i32,
        font_name: Seq<u8>,
        color: Seq<u8>,
        entities: Seq<u8>,
        width: u64,
        height: u32,
        depth: u32,
        font_design_size: u32,
        scale_factor: u32,
        design_size: u32,
    },
    Rule { h: i32, v: i32, height: i32, width: i32, color: Seq<u8> },
    Raw { h: i32, v: i32, svg: Seq<u8> },
}

impl FragmentView {
    /// The colour of a fragment that has one: of text and of a rule.
    pub open spec fn color(self) -> Option<Seq<u8>> {
        match self {
            FragmentView::Text { color, .. } => Some(color),
            FragmentView::Rule { color, .. } => Some(color),
            FragmentView::Raw { .. } => None,
        }
    }
}

impl View for Fragment {
    type V = FragmentView;

    open spec fn view(&self) -> FragmentView {
        match self {
            Fragment::Text {
                h,
                v,
                font_name,
                color,
                entities,
                width,
                height,
                depth,
                font_design_size,
                scale_factor,
                design_size,
            } => FragmentView::Text {
                h: *h,
                v: *v,
                font_name: font_name@,
                color: color@,
                entities: entities@,
                width: *width,
                height: *height,
                depth: *depth,
                font_design_size: *font_design_size,
                scale_factor: *scale_factor,
                design_size: *design_size,
            },
            Fragment::Rule { h, v, height, width, color } => FragmentView::Rule {
                h: *h,
                v: *v,
                height: *height,
                width: *width,
                color: color@,
            },
            Fragment::Raw { h, v, svg } => FragmentView::Raw { h: *h, v: *v, svg: svg@ },
        }
    }
}

/// One of the three handlers of specials.
#[derive(Debug, Clone, Copy, PartialEq, Eq)]
pub enum SpecialHandler {
    /// Markup that is handed through.
    Svg,
    /// The stack of colours.
    Color,
    /// The size of the paper.
    Papersize,
}

} // verus!
