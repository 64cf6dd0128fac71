//! The device that turns a DVI file into what is to be drawn.
//!
//! The device keeps a list of fragments: text, rules and markup that the
//! file hands through. Its contracts are stated over [`MachineView`], the
//! model of its state, and the operations of the model.

use crate::bytes::{
    count, digits, digits_of, has_prefix, occurrences, push_all, slice_of, starts_with,
    text_of_bytes,
};
use crate::dvi2svg::fonts::{design_size_of, font_table, metrics_of};
use crate::dvi2svg::instruction::{FontDef, FontDefView, Instruction, InstructionView};
use crate::dvi2svg::machine::{
    DviError, Fragment, FragmentView, Position, PreambleData, PreambleView, SpecialHandler,
};
use crate::dvi2svg::utils::{color_of, paper_size, paper_size_of, tex_color_to_hex};
use dvi2html::tfm::FontDataHelper;
use std::collections::HashMap;
use vstd::prelude::*;
use vstd::slice::slice_to_vec;
use vstd::string::StringSliceAdditionalSpecFns;
use vstd::utf8::{decode_utf8, encode_scalar, is_scalar, valid_utf8};

verus! {

/// What font tables hold: for each font, by its name, its design size and
/// the width, height and depth of each of its glyphs.
pub type FontTable = Map<Seq<char>, (u32, Map<u32, (u32, u32, u32)>)>;

/// The character code whose glyph stands in for a glyph that a font lacks.
pub const STAND_IN_GLYPH: u32 = 126;

/// A numeric character reference: an ampersand, a number sign, a number in
/// decimal notation and a semicolon.
pub open spec fn numeric_entity(n: int) -> Seq<u8> {
    seq![38u8, 35u8] + digits_of(n as nat) + seq![59u8]
}

/// How a character code of a Computer Modern font is written in markup. The
/// codes up to 32, and 127, are written as numeric character references to
/// where their glyphs are in the fonts on screen; every other code is
/// written as the character of that number, in UTF-8. There is nothing for
/// a code that is no Unicode scalar value.
pub open spec fn entity_of(code: u32) -> Option<Seq<u8>> {
    if code <= 9 {
        Some(numeric_entity(161 + code))
    } else if code <= 19 {
        Some(numeric_entity(173 + code - 10))
    } else if code == 20 {
        Some(numeric_entity(8729))
    } else if code <= 32 {
        Some(numeric_entity(184 + code - 21))
    } else if code == 127 {
        Some(numeric_entity(196))
    } else if is_scalar(code) {
        Some(encode_scalar(code))
    } else {
        None
    }
}

/// The name under which the metrics of the font `name` are found: the name
/// itself, or `cmb10` where the tables do not know it.
pub open spec fn metrics_key(table: FontTable, name: Seq<u8>) -> Option<Seq<char>> {
    if valid_utf8(name) && table.contains_key(decode_utf8(name)) {
        Some(decode_utf8(name))
    } else if table.contains_key("cmb10"@) {
        Some("cmb10"@)
    } else {
        None
    }
}

/// The metrics of the glyph for `code`: its own, or those of the glyph that
/// stands in where the font has none for `code`.
pub open spec fn glyph_of(font: (u32, Map<u32, (u32, u32, u32)>), code: u32) -> Option<
    (u32, u32, u32),
> {
    if font.1.contains_key(code) {
        Some(font.1[code])
    } else if font.1.contains_key(STAND_IN_GLYPH) {
        Some(font.1[STAND_IN_GLYPH])
    } else {
        None
    }
}

/// Text that has been measured.
pub struct TextRun {
    /// The glyphs, as they are written in markup.
    pub entities: Seq<u8>,
    /// The sum of the widths of the glyphs.
    pub width: int,
    /// The largest height of a glyph.
    pub height: u32,
    /// The largest depth of a glyph.
    pub depth: u32,
}

/// The text of `codes` in a font, measured. A code for which the font has no
/// metrics, its own or those that stand in, is left out. There is no text if
/// one of the other codes is no Unicode scalar value.
pub open spec fn run_of(font: (u32, Map<u32, (u32, u32, u32)>), codes: Seq<u32>) -> Option<
    TextRun,
>
    decreases codes.len(),
{
    if codes.len() == 0 {
        Some(TextRun { entities: Seq::empty(), width: 0, height: 0, depth: 0 })
    } else {
        match run_of(font, codes.drop_last()) {
            None => None,
            Some(run) => match glyph_of(font, codes.last()) {
                None => Some(run),
                Some(glyph) => match entity_of(codes.last()) {
                    None => None,
                    Some(entity) => Some(
                        TextRun {
                            entities: run.entities + entity,
                            width: run.width + glyph.0,
                            height: if glyph.1 > run.height {
                                glyph.1
                            } else {
                                run.height
                            },
                            depth: if glyph.2 > run.depth {
                                glyph.2
                            } else {
                                run.depth
                            },
                        },
                    ),
                },
            },
        }
    }
}

/// How far text of the given width, in the units of its font, moves the
/// position, in the units of the file: the width times the design size of
/// the font's metrics times the scale of the font, by 2 to the 24th and the
/// design size of the font's definition, rounded down. There is no such
/// number if the design size is 0, or the width or the result is too large.
pub open spec fn advance_of(
    width: int,
    font_design_size: u32,
    scale_factor: u32,
    design_size: u32,
) -> Option<i32> {
    let advance = width * font_design_size * scale_factor / (16777216 * design_size);
    if design_size == 0 || width > u64::MAX || width < 0 || advance > i32::MAX {
        None
    } else {
        Some(advance as i32)
    }
}

/// The depth of nesting of markup after `svg` has been added: one more for
/// each `<svg>` in it and one less for each `</svg>`, counted modulo 256.
pub open spec fn depth_after(depth: u8, svg: Seq<u8>) -> u8 {
    ((depth + occurrences(svg, "<svg>".spec_bytes()) % 256 + 256 - occurrences(
        svg,
        "</svg>".spec_bytes(),
    ) % 256) % 256) as u8
}

/// The width and the height of the paper where the file gives none: the
/// numeral 100, for a hundred points.
pub open spec fn default_paper_side() -> Seq<u8> {
    seq![49u8, 48u8, 48u8]
}

/// The handlers of specials, in the order in which they are asked.
pub open spec fn default_handlers() -> Seq<SpecialHandler> {
    seq![SpecialHandler::Svg, SpecialHandler::Color, SpecialHandler::Papersize]
}

/// The model of an [`SVGMachine`].
pub struct MachineView {
    /// What has been drawn, in the order in which it was.
    pub content: Seq<FragmentView>,
    /// The current colour.
    pub color: Seq<u8>,
    /// The colours that were current when colours were pushed.
    pub color_stack: Seq<Seq<u8>>,
    /// The preamble, once it has been seen: the scale of the file.
    pub preamble: Option<PreambleView>,
    pub svg_depth: u8,
    /// The width and the height of the paper, as numerals of points.
    pub paper: Option<(Seq<u8>, Seq<u8>)>,
    pub position: Position,
    pub position_stack: Seq<Position>,
    /// The current font.
    pub font: Option<FontDefView>,
    /// The fonts that have been defined, by their numbers. A definition
    /// takes the place of an earlier one of the same number.
    pub fonts: Map<u32, FontDefView>,
    pub nb_pages: u16,
    /// Markup that the file has handed through and that is not drawn yet.
    pub svg_buffer: Seq<u8>,
}

impl MachineView {
    /// The device before it has read anything: at the origin, with black as
    /// its colour.
    pub open spec fn initial() -> MachineView {
        MachineView {
            content: Seq::empty(),
            color: "black".spec_bytes(),
            color_stack: Seq::empty(),
            preamble: None,
            svg_depth: 1,
            paper: None,
            position: Position { h: 0, v: 0, w: 0, x: 0, y: 0, z: 0 },
            position_stack: Seq::empty(),
            font: None,
            fonts: Map::empty(),
            nb_pages: 0,
            svg_buffer: Seq::empty(),
        }
    }

    /// The width and the height of the paper, as numerals of points: those
    /// that the file has given, and 100 each where it has given none.
    pub open spec fn paper_size(self) -> (Seq<u8>, Seq<u8>) {
        match self.paper {
            Some(size) => size,
            None => (default_paper_side(), default_paper_side()),
        }
    }

    /// Drawing the text of `codes` in the current font and colour at the
    /// position. The result is how far the text reaches to the right.
    pub open spec fn text_put(self, codes: Seq<u32>, table: FontTable) -> (
        MachineView,
        Result<i32, DviError>,
    ) {
        if self.preamble is None {
            (self, Err(DviError::NoPreamble))
        } else if self.font is None {
            (self, Err(DviError::NoFontSelected))
        } else {
            let font = self.font->0;
            match metrics_key(table, font.filename) {
                None => (self, Err(DviError::NoFontData)),
                Some(key) => match run_of(table[key], codes) {
                    None => (self, Err(DviError::InvalidCharacter)),
                    Some(run) => match advance_of(
                        run.width,
                        table[key].0,
                        font.scale_factor,
                        font.design_size,
                    ) {
                        None => (self, Err(DviError::OutOfRange)),
                        Some(advance) => (
                            MachineView {
                                content: self.content.push(
                                    FragmentView::Text {
                                        h: self.position.h,
                                        v: self.position.v,
                                        font_name: font.filename,
                                        color: self.color,
                                        entities: run.entities,
                                        width: run.width as u64,
                                        height: run.height,
                                        depth: run.depth,
                                        font_design_size: table[key].0,
                                        scale_factor: font.scale_factor,
                                        design_size: font.design_size,
                                    },
                                ),
                                ..self
                            },
                            Ok(advance),
                        ),
                    },
                },
            }
        }
    }

    /// Drawing a rule of the given height and width in the current colour at
    /// the position.
    pub open spec fn rule_put(self, height: i32, width: i32) -> (
        MachineView,
        Result<(), DviError>,
    ) {
        if self.preamble is None {
            (self, Err(DviError::NoPreamble))
        } else {
            (
                MachineView {
                    content: self.content.push(
                        FragmentView::Rule {
                            h: self.position.h,
                            v: self.position.v,
                            height,
                            width,
                            color: self.color,
                        },
                    ),
                    ..self
                },
                Ok(()),
            )
        }
    }

    /// Drawing the markup that is waiting, at the position. Nothing happens
    /// if none is waiting.
    pub open spec fn flushed(self) -> (MachineView, Result<(), DviError>) {
        if self.svg_buffer.len() == 0 {
            (self, Ok(()))
        } else if self.preamble is None {
            (self, Err(DviError::NoPreamble))
        } else {
            (
                MachineView {
                    content: self.content.push(
                        FragmentView::Raw {
                            h: self.position.h,
                            v: self.position.v,
                            svg: self.svg_buffer,
                        },
                    ),
                    svg_depth: depth_after(self.svg_depth, self.svg_buffer),
                    svg_buffer: Seq::empty(),
                    ..self
                },
                Ok(()),
            )
        }
    }

    /// What the handler of markup does with a special: markup behind
    /// `dvisvgm:raw ` is kept for later, and the special is dealt with. Every
    /// other special has the markup that is waiting drawn, and is left to the
    /// other handlers.
    pub open spec fn special_svg(self, command: Seq<u8>) -> (MachineView, Result<bool, DviError>) {
        let prefix = "dvisvgm:raw ".spec_bytes();
        if has_prefix(command, prefix) {
            (
                MachineView {
                    svg_buffer: self.svg_buffer + command.skip(prefix.len() as int),
                    ..self
                },
                Ok(true),
            )
        } else {
            match self.flushed() {
                (machine, Ok(_)) => (machine, Ok(false)),
                (machine, Err(error)) => (machine, Err(error)),
            }
        }
    }

    /// What the handler of colours does with a special. `color pop` makes the
    /// colour that was pushed last the current one. `color push ` and a colour
    /// pushes the current colour and makes the given one current; where the
    /// colour is not known nothing changes. Both are dealt with then. Every
    /// other special is left to the other handlers.
    pub open spec fn special_color(self, command: Seq<u8>) -> (
        MachineView,
        Result<bool, DviError>,
    ) {
        let push = "color push ".spec_bytes();
        if has_prefix(command, "color pop".spec_bytes()) {
            if self.color_stack.len() == 0 {
                (self, Err(DviError::EmptyColorStack))
            } else {
                (
                    MachineView {
                        color: self.color_stack.last(),
                        color_stack: self.color_stack.drop_last(),
                        ..self
                    },
                    Ok(true),
                )
            }
        } else if has_prefix(command, push) {
            match color_of(command.skip(push.len() as int)) {
                Some(color) => (
                    MachineView {
                        color: color,
                        color_stack: self.color_stack.push(self.color),
                        ..self
                    },
                    Ok(true),
                ),
                None => (self, Ok(true)),
            }
        } else {
            (self, Ok(false))
        }
    }

    /// What the handler of the paper size does with a special: behind
    /// `papersize=`, a paper size becomes the size of the paper, and what is
    /// no paper size changes nothing. The special is left to the other
    /// handlers in any case.
    pub open spec fn special_papersize(self, command: Seq<u8>) -> (
        MachineView,
        Result<bool, DviError>,
    ) {
        let prefix = "papersize=".spec_bytes();
        if has_prefix(command, prefix) {
            match paper_size_of(command.skip(prefix.len() as int)) {
                Some(size) => (MachineView { paper: Some(size), ..self }, Ok(false)),
                None => (self, Ok(false)),
            }
        } else {
            (self, Ok(false))
        }
    }

    /// What a handler does with a special. The result says whether it has
    /// dealt with it.
    pub open spec fn special(self, handler: SpecialHandler, command: Seq<u8>) -> (
        MachineView,
        Result<bool, DviError>,
    ) {
        match handler {
            SpecialHandler::Svg => self.special_svg(command),
            SpecialHandler::Color => self.special_color(command),
            SpecialHandler::Papersize => self.special_papersize(command),
        }
    }

    /// Handing a special to the handlers, in their order, until one has dealt
    /// with it or fails.
    pub open spec fn special_handled(self, handlers: Seq<SpecialHandler>, command: Seq<u8>) -> (
        MachineView,
        Result<(), DviError>,
    )
        decreases handlers.len(),
    {
        if handlers.len() == 0 {
            (self, Ok(()))
        } else {
            match self.special(handlers[0], command) {
                (machine, Ok(dealt_with)) => if dealt_with {
                    (machine, Ok(()))
                } else {
                    machine.special_handled(handlers.skip(1), command)
                },
                (machine, Err(error)) => (machine, Err(error)),
            }
        }
    }

    /// The end of a page: both stacks must be empty, and the markup that is
    /// waiting is drawn.
    pub open spec fn page_ended(self) -> (MachineView, Result<(), DviError>) {
        if self.position_stack.len() > 0 || self.color_stack.len() > 0 {
            (self, Err(DviError::UnbalancedPage))
        } else {
            self.flushed()
        }
    }

    /// The device at another position, or the failure to get there.
    pub open spec fn at(self, position: Option<Position>) -> (MachineView, Result<(), DviError>) {
        match position {
            Some(position) => (MachineView { position, ..self }, Ok(())),
            None => (self, Err(DviError::OutOfRange)),
        }
    }

    /// Restoring the position that was saved last.
    pub open spec fn position_popped(self) -> (MachineView, Result<(), DviError>) {
        if self.position_stack.len() == 0 {
            (self, Err(DviError::EmptyPositionStack))
        } else {
            (
                MachineView {
                    position: self.position_stack.last(),
                    position_stack: self.position_stack.drop_last(),
                    ..self
                },
                Ok(()),
            )
        }
    }

    /// Selecting the font with the given number.
    pub open spec fn font_selected(self, number: u32) -> (MachineView, Result<(), DviError>) {
        if self.fonts.contains_key(number) {
            (MachineView { font: Some(self.fonts[number]), ..self }, Ok(()))
        } else {
            (self, Err(DviError::UnknownFont))
        }
    }

    /// Setting or putting a character: its code must be a Unicode scalar
    /// value; it is drawn, and where it is set the position moves to the right
    /// by its width.
    pub open spec fn char_drawn(self, code: u32, table: FontTable, moving: bool) -> (
        MachineView,
        Result<(), DviError>,
    ) {
        if !is_scalar(code) {
            (self, Err(DviError::InvalidCharacter))
        } else {
            match self.text_put(seq![code], table) {
                (machine, Ok(advance)) => if moving {
                    machine.at(machine.position.moved_right(advance as int))
                } else {
                    (machine, Ok(()))
                },
                (machine, Err(error)) => (machine, Err(error)),
            }
        }
    }

    /// Setting or putting a rule: it is drawn, and where it is set the
    /// position moves to the right by its width.
    pub open spec fn rule_drawn(self, height: i32, width: i32, moving: bool) -> (
        MachineView,
        Result<(), DviError>,
    ) {
        match self.rule_put(height, width) {
            (machine, Ok(_)) => if moving {
                machine.at(machine.position.moved_right(width as int))
            } else {
                (machine, Ok(()))
            },
            (machine, Err(error)) => (machine, Err(error)),
        }
    }

    /// What an instruction does to the device.
    pub open spec fn executed(
        self,
        instruction: InstructionView,
        table: FontTable,
        handlers: Seq<SpecialHandler>,
    ) -> (MachineView, Result<(), DviError>) {
        match instruction {
            InstructionView::SetChar(code) => self.char_drawn(code, table, true),
            InstructionView::PutChar(code) => self.char_drawn(code, table, false),
            InstructionView::SetRule(height, width) => self.rule_drawn(height, width, true),
            InstructionView::PutRule(height, width) => self.rule_drawn(height, width, false),
            InstructionView::Nop => (self, Ok(())),
            InstructionView::Bop(_, _) => (
                MachineView { position_stack: Seq::empty(), ..self },
                Ok(()),
            ),
            InstructionView::Eop => self.page_ended(),
            InstructionView::Push => (
                MachineView { position_stack: self.position_stack.push(self.position), ..self },
                Ok(()),
            ),
            InstructionView::Pop => self.position_popped(),
            InstructionView::Right(distance) => self.at(
                self.position.moved_right(distance as int),
            ),
            InstructionView::W(distance) => self.at(self.position.changed_right(distance, true)),
            InstructionView::X(distance) => self.at(self.position.changed_right(distance, false)),
            InstructionView::Down(distance) => self.at(self.position.moved_down(distance as int)),
            InstructionView::Y(distance) => self.at(self.position.changed_down(distance, true)),
            InstructionView::Z(distance) => self.at(self.position.changed_down(distance, false)),
            InstructionView::Font(number) => self.font_selected(number),
            InstructionView::Xxx(command) => self.special_handled(handlers, command),
            InstructionView::FontDef(font) => (
                MachineView { fonts: self.fonts.insert(font.number, font), ..self },
                Ok(()),
            ),
            InstructionView::Pre { format, numerator, denominator, magnification, comment } => (
                MachineView {
                    preamble: Some(
                        PreambleView { format, numerator, denominator, magnification, comment },
                    ),
                    ..self
                },
                Ok(()),
            ),
            InstructionView::Post { total_no_pages, .. } => (
                MachineView { nb_pages: total_no_pages, ..self },
                Ok(()),
            ),
            InstructionView::PostPost { .. } => (self, Ok(())),
        }
    }

    /// What instructions do to the device, one after the other, up to the
    /// first that fails.
    pub open spec fn ran(
        self,
        instructions: Seq<InstructionView>,
        table: FontTable,
        handlers: Seq<SpecialHandler>,
    ) -> (MachineView, Result<(), DviError>)
        decreases instructions.len(),
    {
        if instructions.len() == 0 {
            (self, Ok(()))
        } else {
            match self.executed(instructions[0], table, handlers) {
                (machine, Ok(_)) => machine.ran(instructions.skip(1), table, handlers),
                (machine, Err(error)) => (machine, Err(error)),
            }
        }
    }
}

/// An implementation of the device that collects what is to be drawn.
#[derive(Debug)]
pub struct SVGMachine {
    content: Vec<Fragment>,
    color: Vec<u8>,
    color_stack: Vec<Vec<u8>>,
    preamble: Option<PreambleData>,
    svg_depth: u8,
    paper: Option<(Vec<u8>, Vec<u8>)>,
    position: Position,
    position_stack: Vec<Position>,
    font: Option<FontDef>,
    fonts: HashMap<u32, FontDef>,
    nb_pages: u16,
    svg_buffer: Vec<u8>,
}

impl View for SVGMachine {
    type V = MachineView;

    closed spec fn view(&self) -> MachineView {
        MachineView {
            content: self.content@.map_values(|f: Fragment| f@),
            color: self.color@,
            color_stack: self.color_stack@.map_values(|c: Vec<u8>| c@),
            preamble: match self.preamble {
                Some(preamble) => Some(preamble@),
                None => None,
            },
            svg_depth: self.svg_depth,
            paper: match self.paper {
                Some((width, height)) => Some((width@, height@)),
                None => None,
            },
            position: self.position,
            position_stack: self.position_stack@,
            font: match self.font {
                Some(font) => Some(font@),
                None => None,
            },
            fonts: self.fonts@.map_values(|f: FontDef| f@),
            nb_pages: self.nb_pages,
            svg_buffer: self.svg_buffer@,
        }
    }
}

/// Where text cannot be measured up to some code, it cannot be measured as
/// a whole.
proof fn lemma_run_fails(font: (u32, Map<u32, (u32, u32, u32)>), codes: Seq<u32>, upto: int)
    requires
        0 <= upto <= codes.len(),
        run_of(font, codes.take(upto)) is None,
    ensures
        run_of(font, codes) is None,
    decreases codes.len() - upto,
{
    if upto < codes.len() {
        assert(codes.take(upto + 1).drop_last() =~= codes.take(upto));
        lemma_run_fails(font, codes, upto + 1);
    } else {
        assert(codes.take(upto) =~= codes);
    }
}

/// A numeric character reference.
fn numeric(n: u64) -> (entity: Vec<u8>)
    ensures
        entity@ == numeric_entity(n as int),
{
    let mut entity: Vec<u8> = Vec::new();
    entity.push(38u8);
    entity.push(35u8);
    let number = digits(n);
    push_all(&mut entity, number.as_slice());
    entity.push(59u8);
    assert(entity@ =~= numeric_entity(n as int));
    entity
}

/// The UTF-8 encoding of a Unicode scalar value.
fn encode(code: u32) -> (bytes: Vec<u8>)
    requires
        is_scalar(code),
    ensures
        bytes@ == encode_scalar(code),
{
    let mut bytes: Vec<u8> = Vec::new();
    if code <= 0x7F {
        bytes.push((code & 0x7F) as u8);
    } else if code <= 0x7FF {
        bytes.push(0xC0 | ((code >> 6) & 0x1F) as u8);
        bytes.push(0x80 | (code & 0x3F) as u8);
    } else if code <= 0xFFFF {
        bytes.push(0xE0 | ((code >> 12) & 0x0F) as u8);
        bytes.push(0x80 | ((code >> 6) & 0x3F) as u8);
        bytes.push(0x80 | (code & 0x3F) as u8);
    } else {
        bytes.push(0xF0 | ((code >> 18) & 0x7) as u8);
        bytes.push(0x80 | ((code >> 12) & 0x3F) as u8);
        bytes.push(0x80 | ((code >> 6) & 0x3F) as u8);
        bytes.push(0x80 | (code & 0x3F) as u8);
    }
    assert(bytes@ =~= encode_scalar(code));
    bytes
}

/// How a character code of a Computer Modern font is written in markup.
pub fn entity(code: u32) -> (written: Option<Vec<u8>>)
    ensures
        match written {
            Some(written) => entity_of(code) == Some(written@),
            None => entity_of(code) is None,
        },
{
    if code <= 9 {
        Some(numeric(161 + code as u64))
    } else if code <= 19 {
        Some(numeric(173 + code as u64 - 10))
    } else if code == 20 {
        Some(numeric(8729))
    } else if code <= 32 {
        Some(numeric(184 + code as u64 - 21))
    } else if code == 127 {
        Some(numeric(196))
    } else if code <= 0x10FFFF && !(0xD800 <= code && code <= 0xDFFF) {
        Some(encode(code))
    } else {
        None
    }
}

/// How far text of the given width moves the position.
fn advance(
    width: u128,
    font_design_size: u32,
    scale_factor: u32,
    design_size: u32,
) -> (moved: Option<i32>)
    ensures
        moved == advance_of(width as int, font_design_size, scale_factor, design_size),
{
    if design_size == 0 || width > u64::MAX as u128 {
        return None;
    }
    assert(width * font_design_size <= 0xFFFF_FFFF_FFFF_FFFF * 0xFFFF_FFFF) by (nonlinear_arith)
        requires
            width <= 0xFFFF_FFFF_FFFF_FFFF,
            font_design_size <= 0xFFFF_FFFF,
    ;
    let scaled: u128 = width * font_design_size as u128;
    assert(scaled * scale_factor <= 0xFFFF_FFFF_FFFF_FFFF * 0xFFFF_FFFF * 0xFFFF_FFFF)
        by (nonlinear_arith)
        requires
            scaled <= 0xFFFF_FFFF_FFFF_FFFF * 0xFFFF_FFFF,
            scale_factor <= 0xFFFF_FFFF,
    ;
    let product: u128 = scaled * scale_factor as u128;
    let divisor: u128 = 16777216 * design_size as u128;
    let quotient: u128 = product / divisor;
    if quotient > i32::MAX as u128 {
        None
    } else {
        Some(quotient as i32)
    }
}

/// A copy of a font definition.
fn copy_font(font: &FontDef) -> (copy: FontDef)
    ensures
        copy@ == font@,
{
    FontDef {
        number: font.number,
        checksum: font.checksum,
        scale_factor: font.scale_factor,
        design_size: font.design_size,
        directory: match &font.directory {
            Some(directory) => Some(slice_to_vec(directory.as_slice())),
            None => None,
        },
        filename: slice_to_vec(font.filename.as_slice()),
    }
}

impl SVGMachine {
    pub fn new() -> (machine: SVGMachine)
        ensures
            machine@ == MachineView::initial(),
    {
        let machine = SVGMachine {
            content: Vec::new(),
            color: slice_to_vec("black".as_bytes()),
            color_stack: Vec::new(),
            preamble: None,
            // The entire document is wrapped in markup, so the depth starts at 1.
            svg_depth: 1,
            paper: None,
            position: Position::empty(),
            position_stack: Vec::new(),
            font: None,
            fonts: HashMap::new(),
            nb_pages: 0,
            svg_buffer: Vec::new(),
        };
        assert(machine@.content =~= Seq::empty());
        assert(machine@.color_stack =~= Seq::empty());
        assert(machine@.fonts =~= Map::empty());
        machine
    }

    /// What has been drawn, in the order in which it was.
    pub fn get_content(&self) -> (content: &Vec<Fragment>)
        ensures
            content@.map_values(|f: Fragment| f@) == self@.content,
    {
        &self.content
    }

    /// The current colour.
    pub fn color(&self) -> (color: &Vec<u8>)
        ensures
            color@ == self@.color,
    {
        &self.color
    }

    /// The width and the height of the paper, as numerals of points, if the
    /// file has given them.
    pub fn paper(&self) -> (paper: Option<(&Vec<u8>, &Vec<u8>)>)
        ensures
            match paper {
                Some((width, height)) => self@.paper == Some((width@, height@)),
                None => self@.paper is None,
            },
    {
        match &self.paper {
            Some((width, height)) => Some((width, height)),
            None => None,
        }
    }

    /// The width and the height of the paper, as numerals of points: those
    /// that the file has given, and 100 each where it has given none.
    pub fn paper_size(&self) -> (size: (Vec<u8>, Vec<u8>))
        ensures
            (size.0@, size.1@) == self@.paper_size(),
    {
        match &self.paper {
            Some((width, height)) => (
                slice_to_vec(width.as_slice()),
                slice_to_vec(height.as_slice()),
            ),
            None => {
                let mut side: Vec<u8> = Vec::new();
                side.push(49u8);
                side.push(48u8);
                side.push(48u8);
                assert(side@ =~= default_paper_side());
                (slice_to_vec(side.as_slice()), side)
            },
        }
    }

    /// The preamble, once it has been seen.
    pub fn preamble(&self) -> (preamble: Option<&PreambleData>)
        ensures
            match preamble {
                Some(preamble) => self@.preamble == Some(preamble@),
                None => self@.preamble is None,
            },
    {
        match &self.preamble {
            Some(preamble) => Some(preamble),
            None => None,
        }
    }

    /// The number of pages that the postamble gives.
    pub fn nb_pages(&self) -> (pages: u16)
        ensures
            pages == self@.nb_pages,
    {
        self.nb_pages
    }

    /// The depth of nesting of the markup that has been drawn.
    pub fn svg_depth(&self) -> (depth: u8)
        ensures
            depth == self@.svg_depth,
    {
        self.svg_depth
    }

    pub fn set_nb_pages(&mut self, nb_pages: u16)
        ensures
            final(self)@ == (MachineView { nb_pages: nb_pages, ..old(self)@ }),
    {
        self.nb_pages = nb_pages;
    }

    /// The position, to change it.
    pub fn get_position(&mut self) -> (position: &mut Position)
        ensures
            *position == old(self)@.position,
            final(self)@ == (MachineView { position: *final(position), ..old(self)@ }),
    {
        &mut self.position
    }

    /// Draws the text of the character codes of `buffer` at the position, in
    /// the current font and colour. The result is how far the text reaches to
    /// the right, in the units of the file. Where the text cannot be drawn
    /// nothing changes.
    #[verifier::loop_isolation(false)]
    pub fn put_text(
        &mut self,
        buffer: Vec<u32>,
        font_helper: &FontDataHelper,
    ) -> (advance: Result<i32, DviError>)
        ensures
            (final(self)@, advance) == old(self)@.text_put(buffer@, font_table(*font_helper)),
    {
        let ghost table = font_table(*font_helper);
        if self.preamble.is_none() {
            return Err(DviError::NoPreamble);
        }
        let (font_name, scale_factor, design_size) = match &self.font {
            Some(font) => (
                slice_to_vec(font.filename.as_slice()),
                font.scale_factor,
                font.design_size,
            ),
            None => {
                return Err(DviError::NoFontSelected);
            },
        };
        let (key, font_design_size) = match find_metrics(font_helper, &font_name) {
            Some(found) => found,
            None => {
                return Err(DviError::NoFontData);
            },
        };
        let ghost font = table[key@];
        let mut entities: Vec<u8> = Vec::new();
        let mut width: u128 = 0;
        let mut height: u32 = 0;
        let mut depth: u32 = 0;
        let mut i: usize = 0;
        assert(buffer@.take(0) =~= Seq::empty());
        while i < buffer.len()
            invariant
                i <= buffer@.len(),
                table == font_table(*font_helper),
                table.contains_key(key@),
                font == table[key@],
                width <= i * 0xFFFF_FFFF,
                run_of(font, buffer@.take(i as int)) == Some(
                    TextRun { entities: entities@, width: width as int, height, depth },
                ),
            decreases buffer.len() - i,
        {
            let code = buffer[i];
            let glyph = match metrics_of(font_helper, key.as_str(), code) {
                Some(glyph) => Some(glyph),
                None => metrics_of(font_helper, key.as_str(), STAND_IN_GLYPH),
            };
            proof {
                assert(buffer@.take(i + 1).drop_last() =~= buffer@.take(i as int));
                assert(buffer@.take(i + 1).last() == code);
            }
            match glyph {
                Some((glyph_width, glyph_height, glyph_depth)) => {
                    // Fonts on screen have these glyphs elsewhere.
                    match entity(code) {
                        Some(written) => {
                            push_all(&mut entities, written.as_slice());
                            width = width + glyph_width as u128;
                            if glyph_height > height {
                                height = glyph_height;
                            }
                            if glyph_depth > depth {
                                depth = glyph_depth;
                            }
                        },
                        None => {
                            proof {
                                lemma_run_fails(font, buffer@, i + 1);
                            }
                            return Err(DviError::InvalidCharacter);
                        },
                    }
                },
                None => {},
            }
            i += 1;
        }
        assert(buffer@.take(i as int) =~= buffer@);
        let moved = match advance(width, font_design_size, scale_factor, design_size) {
            Some(moved) => moved,
            None => {
                return Err(DviError::OutOfRange);
            },
        };
        let fragment = Fragment::Text {
            h: self.position.h,
            v: self.position.v,
            font_name,
            color: slice_to_vec(self.color.as_slice()),
            entities,
            width: width as u64,
            height,
            depth,
            font_design_size,
            scale_factor,
            design_size,
        };
        self.content.push(fragment);
        assert(self@.content =~= old(self)@.content.push(fragment@));
        Ok(moved)
    }

    /// Draws a rule of height `a` and width `b` that reaches up and to the
    /// right from the position, in the current colour. Where the preamble has
    /// not been seen nothing changes.
    pub fn put_rule(&mut self, a: i32, b: i32) -> (drawn: Result<(), DviError>)
        ensures
            (final(self)@, drawn) == old(self)@.rule_put(a, b),
    {
        if self.preamble.is_none() {
            return Err(DviError::NoPreamble);
        }
        let fragment = Fragment::Rule {
            h: self.position.h,
            v: self.position.v,
            height: a,
            width: b,
            color: slice_to_vec(self.color.as_slice()),
        };
        self.content.push(fragment);
        assert(self@.content =~= old(self)@.content.push(fragment@));
        Ok(())
    }

    /// Begins a page: no position is saved any more. The position stays.
    pub fn begin_page(&mut self, arr: &Vec<i32>, p: i32)
        ensures
            final(self)@ == (MachineView { position_stack: Seq::empty(), ..old(self)@ }),
    {
        self.position_stack.clear();
    }

    /// Ends a page: no position and no colour may be saved, and the markup
    /// that is waiting is drawn.
    pub fn end_page(&mut self) -> (ended: Result<(), DviError>)
        ensures
            (final(self)@, ended) == old(self)@.page_ended(),
    {
        if self.position_stack.len() > 0 || self.color_stack.len() > 0 {
            return Err(DviError::UnbalancedPage);
        }
        if self.svg_buffer.len() > 0 {
            self.put_svg()
        } else {
            Ok(())
        }
    }

    pub fn push_position(&mut self)
        ensures
            final(self)@ == (MachineView {
                position_stack: old(self)@.position_stack.push(old(self)@.position),
                ..old(self)@
            }),
    {
        self.position_stack.push(self.position);
    }

    pub fn pop_position(&mut self) -> (popped: Result<(), DviError>)
        ensures
            (final(self)@, popped) == old(self)@.position_popped(),
    {
        match self.position_stack.pop() {
            Some(position) => {
                self.position = position;
                Ok(())
            },
            None => Err(DviError::EmptyPositionStack),
        }
    }

    /// Selects the font that was defined last with the number `index`.
    pub fn set_font(&mut self, index: u32) -> (selected: Result<(), DviError>)
        ensures
            (final(self)@, selected) == old(self)@.font_selected(index),
    {
        broadcast use vstd::std_specs::hash::group_hash_axioms;

        let found = match self.fonts.get(&index) {
            Some(font) => Some(copy_font(font)),
            None => None,
        };
        match found {
            Some(font) => {
                self.font = Some(font);
                Ok(())
            },
            None => Err(DviError::UnknownFont),
        }
    }

    pub fn add_font(&mut self, font: FontDef)
        ensures
            final(self)@ == (MachineView {
                fonts: old(self)@.fonts.insert(font.number, font@),
                ..old(self)@
            }),
    {
        broadcast use vstd::std_specs::hash::group_hash_axioms;

        self.fonts.insert(font.number, font);
        assert(self@.fonts =~= old(self)@.fonts.insert(font.number, font@));
    }

    pub fn set_preamble_data(&mut self, data: PreambleData)
        ensures
            final(self)@ == (MachineView { preamble: Some(data@), ..old(self)@ }),
    {
        self.preamble = Some(data);
    }

    /// Hands a special to the handlers, in their order, until one has dealt
    /// with it or fails.
    pub fn handle_special(
        &mut self,
        special_handlers: &[SpecialHandler],
        command: &[u8],
    ) -> (handled: Result<(), DviError>)
        ensures
            (final(self)@, handled) == old(self)@.special_handled(special_handlers@, command@),
    {
        let mut i: usize = 0;
        assert(special_handlers@.skip(0) =~= special_handlers@);
        while i < special_handlers.len()
            invariant
                i <= special_handlers@.len(),
                old(self)@.special_handled(special_handlers@, command@)
                    == self@.special_handled(special_handlers@.skip(i as int), command@),
            decreases special_handlers.len() - i,
        {
            let ghost rest = special_handlers@.skip(i as int);
            assert(rest[0] == special_handlers@[i as int]);
            assert(rest.skip(1) =~= special_handlers@.skip(i + 1));
            let dealt_with = match special_handlers[i] {
                SpecialHandler::Svg => special_html_svg(self, command),
                SpecialHandler::Color => special_html_color(self, command),
                SpecialHandler::Papersize => special_html_papersize(self, command),
            };
            match dealt_with {
                Ok(true) => {
                    return Ok(());
                },
                Ok(false) => {},
                Err(error) => {
                    return Err(error);
                },
            }
            i += 1;
        }
        Ok(())
    }

    /// Moves to where a move has led, if it has led to a position.
    fn arrive(
        &mut self,
        moved: Result<(), DviError>,
        position: Position,
    ) -> (done: Result<(), DviError>)
        requires
            moved is Err ==> moved == Err::<(), DviError>(DviError::OutOfRange),
        ensures
            (final(self)@, done) == old(self)@.at(
                if moved is Ok {
                    Some(position)
                } else {
                    None
                },
            ),
    {
        match moved {
            Ok(()) => {
                self.position = position;
                Ok(())
            },
            Err(error) => Err(error),
        }
    }

    /// Sets or puts a character.
    fn draw_char(
        &mut self,
        code: u32,
        font_helper: &FontDataHelper,
        moving: bool,
    ) -> (done: Result<(), DviError>)
        ensures
            (final(self)@, done) == old(self)@.char_drawn(
                code,
                font_table(*font_helper),
                moving,
            ),
    {
        if !(code <= 0x10FFFF && !(0xD800 <= code && code <= 0xDFFF)) {
            return Err(DviError::InvalidCharacter);
        }
        let mut buffer: Vec<u32> = Vec::new();
        buffer.push(code);
        assert(buffer@ =~= seq![code]);
        match self.put_text(buffer, font_helper) {
            Ok(advance) => {
                if moving {
                    let mut position = self.position;
                    let moved = position.move_right(advance);
                    self.arrive(moved, position)
                } else {
                    Ok(())
                }
            },
            Err(error) => Err(error),
        }
    }

    /// Sets or puts a rule.
    fn draw_rule(&mut self, height: i32, width: i32, moving: bool) -> (done: Result<(), DviError>)
        ensures
            (final(self)@, done) == old(self)@.rule_drawn(height, width, moving),
    {
        match self.put_rule(height, width) {
            Ok(()) => {
                if moving {
                    let mut position = self.position;
                    let moved = position.move_right(width);
                    self.arrive(moved, position)
                } else {
                    Ok(())
                }
            },
            Err(error) => Err(error),
        }
    }

    /// Does what an instruction says.
    pub fn execute(
        &mut self,
        instruction: &Instruction,
        font_helper: &FontDataHelper,
        special_handlers: &[SpecialHandler],
    ) -> (done: Result<(), DviError>)
        ensures
            (final(self)@, done) == old(self)@.executed(
                instruction@,
                font_table(*font_helper),
                special_handlers@,
            ),
    {
        match instruction {
            Instruction::SetChar(code) => self.draw_char(*code, font_helper, true),
            Instruction::PutChar(code) => self.draw_char(*code, font_helper, false),
            Instruction::SetRule(a, b) => self.draw_rule(*a, *b, true),
            Instruction::PutRule(a, b) => self.draw_rule(*a, *b, false),
            Instruction::Nop => Ok(()),
            Instruction::Bop(arr, p) => {
                self.begin_page(arr, *p);
                Ok(())
            },
            Instruction::Eop => self.end_page(),
            Instruction::Push => {
                self.push_position();
                Ok(())
            },
            Instruction::Pop => self.pop_position(),
            Instruction::Right(d) => {
                let mut position = self.position;
                let moved = position.move_right(*d);
                self.arrive(moved, position)
            },
            Instruction::W(o) => {
                let mut position = self.position;
                let moved = position.change_right(*o, true);
                self.arrive(moved, position)
            },
            Instruction::X(o) => {
                let mut position = self.position;
                let moved = position.change_right(*o, false);
                self.arrive(moved, position)
            },
            Instruction::Down(d) => {
                let mut position = self.position;
                let moved = position.move_down(*d);
                self.arrive(moved, position)
            },
            Instruction::Y(o) => {
                let mut position = self.position;
                let moved = position.change_down(*o, true);
                self.arrive(moved, position)
            },
            Instruction::Z(o) => {
                let mut position = self.position;
                let moved = position.change_down(*o, false);
                self.arrive(moved, position)
            },
            Instruction::Font(f) => self.set_font(*f),
            Instruction::Xxx(command) => self.handle_special(
                special_handlers,
                command.as_slice(),
            ),
            Instruction::FontDef(def) => {
                self.add_font(copy_font(def));
                Ok(())
            },
            Instruction::Pre { format, numerator, denominator, magnification, comment } => {
                self.set_preamble_data(
                    PreambleData {
                        format: *format,
                        numerator: *numerator,
                        denominator: *denominator,
                        magnification: *magnification,
                        comment: slice_to_vec(comment.as_slice()),
                    },
                );
                Ok(())
            },
            Instruction::Post {
                final_bop_pointer: _,
                numerator: _,
                denominator: _,
                magnification: _,
                tallest_height: _,
                widest_width: _,
                max_stack_depth: _,
                total_no_pages,
            } => {
                self.set_nb_pages(*total_no_pages);
                Ok(())
            },
            Instruction::PostPost { post_pointer: _, ident: _, two_two_three: _ } => Ok(()),
        }
    }

    /// Does what instructions say, one after the other, up to the first that
    /// fails.
    pub fn run(
        &mut self,
        instructions: &Vec<Instruction>,
        font_helper: &FontDataHelper,
        special_handlers: &[SpecialHandler],
    ) -> (done: Result<(), DviError>)
        ensures
            (final(self)@, done) == old(self)@.ran(
                instructions@.map_values(|i: Instruction| i@),
                font_table(*font_helper),
                special_handlers@,
            ),
    {
        let ghost all = instructions@.map_values(|i: Instruction| i@);
        let ghost table = font_table(*font_helper);
        let mut i: usize = 0;
        assert(all.skip(0) =~= all);
        while i < instructions.len()
            invariant
                i <= instructions@.len(),
                all == instructions@.map_values(|i: Instruction| i@),
                table == font_table(*font_helper),
                old(self)@.ran(all, table, special_handlers@) == self@.ran(
                    all.skip(i as int),
                    table,
                    special_handlers@,
                ),
            decreases instructions.len() - i,
        {
            let ghost rest = all.skip(i as int);
            assert(rest[0] == instructions@[i as int]@);
            assert(rest.skip(1) =~= all.skip(i + 1));
            match self.execute(&instructions[i], font_helper, special_handlers) {
                Ok(()) => {},
                Err(error) => {
                    return Err(error);
                },
            }
            i += 1;
        }
        Ok(())
    }

    fn special_color(&mut self, command: &[u8]) -> (dealt_with: Result<bool, DviError>)
        ensures
            (final(self)@, dealt_with) == old(self)@.special_color(command@),
    {
        let push = "color push ".as_bytes();
        if starts_with(command, "color pop".as_bytes()) {
            match self.color_stack.pop() {
                Some(color) => {
                    self.color = color;
                    assert(self@.color_stack =~= old(self)@.color_stack.drop_last());
                    Ok(true)
                },
                None => Err(DviError::EmptyColorStack),
            }
        } else if starts_with(command, push) {
            let wanted = slice_of(command, push.len(), command.len());
            assert(wanted@ =~= command@.skip(push@.len() as int));
            match tex_color_to_hex(wanted.as_slice()) {
                Some(color) => {
                    let mut previous = color;
                    core::mem::swap(&mut self.color, &mut previous);
                    self.color_stack.push(previous);
                    assert(self@.color_stack =~= old(self)@.color_stack.push(old(self)@.color));
                    Ok(true)
                },
                None => Ok(true),
            }
        } else {
            Ok(false)
        }
    }

    fn special_papersize(&mut self, command: &[u8]) -> (dealt_with: Result<bool, DviError>)
        ensures
            (final(self)@, dealt_with) == old(self)@.special_papersize(command@),
    {
        let pattern = "papersize=".as_bytes();
        if starts_with(command, pattern) {
            let sizes = slice_of(command, pattern.len(), command.len());
            assert(sizes@ =~= command@.skip(pattern@.len() as int));
            match paper_size(sizes.as_slice()) {
                Some(size) => {
                    self.paper = Some(size);
                },
                None => {},
            }
        }
        Ok(false)
    }

    fn append_svg(&mut self, s: &[u8])
        ensures
            final(self)@ == (MachineView {
                svg_buffer: old(self)@.svg_buffer + s@,
                ..old(self)@
            }),
    {
        push_all(&mut self.svg_buffer, s);
    }

    /// Draws the markup that is waiting, at the position.
    fn put_svg(&mut self) -> (drawn: Result<(), DviError>)
        requires
            old(self)@.svg_buffer.len() > 0,
        ensures
            (final(self)@, drawn) == old(self)@.flushed(),
    {
        if self.preamble.is_none() {
            return Err(DviError::NoPreamble);
        }
        let opened = count(self.svg_buffer.as_slice(), "<svg>".as_bytes());
        let closed = count(self.svg_buffer.as_slice(), "</svg>".as_bytes());
        let depth: u64 = (self.svg_depth as u64 + (opened % 256) as u64 + 256 - (closed
            % 256) as u64) % 256;
        let mut svg: Vec<u8> = Vec::new();
        core::mem::swap(&mut self.svg_buffer, &mut svg);
        let fragment = Fragment::Raw { h: self.position.h, v: self.position.v, svg };
        self.svg_depth = depth as u8;
        self.content.push(fragment);
        assert(self@.content =~= old(self)@.content.push(fragment@));
        assert(self@.svg_buffer =~= Seq::empty());
        Ok(())
    }

    fn special_svg(&mut self, command: &[u8]) -> (dealt_with: Result<bool, DviError>)
        ensures
            (final(self)@, dealt_with) == old(self)@.special_svg(command@),
    {
        let pattern = "dvisvgm:raw ".as_bytes();
        if starts_with(command, pattern) {
            let svg = slice_of(command, pattern.len(), command.len());
            assert(svg@ =~= command@.skip(pattern@.len() as int));
            self.append_svg(svg.as_slice());
            Ok(true)
        } else if self.svg_buffer.len() > 0 {
            match self.put_svg() {
                Ok(()) => Ok(false),
                Err(error) => Err(error),
            }
        } else {
            Ok(false)
        }
    }
}

/// The name under which the metrics of the font `name` are found, and the
/// design size that they give.
fn find_metrics(fonts: &FontDataHelper, name: &Vec<u8>) -> (found: Option<(String, u32)>)
    ensures
        match found {
            Some((key, size)) => metrics_key(font_table(*fonts), name@) == Some(key@)
                && font_table(*fonts).contains_key(key@) && size == font_table(*fonts)[key@].0,
            None => metrics_key(font_table(*fonts), name@) is None,
        },
{
    match text_of_bytes(slice_to_vec(name.as_slice())) {
        Some(text) => {
            match design_size_of(fonts, text.as_str()) {
                Some(size) => {
                    return Some((text, size));
                },
                None => {},
            }
        },
        None => {},
    }
    // The bold font stands in for a font that the tables do not know.
    match design_size_of(fonts, "cmb10") {
        Some(size) => Some(("cmb10".to_owned(), size)),
        None => None,
    }
}

pub fn special_html_color(
    m: &mut SVGMachine,
    command: &[u8],
) -> (dealt_with: Result<bool, DviError>)
    ensures
        (final(m)@, dealt_with) == old(m)@.special_color(command@),
{
    m.special_color(command)
}

pub fn special_html_papersize(
    m: &mut SVGMachine,
    command: &[u8],
) -> (dealt_with: Result<bool, DviError>)
    ensures
        (final(m)@, dealt_with) == old(m)@.special_papersize(command@),
{
    m.special_papersize(command)
}

pub fn special_html_svg(
    m: &mut SVGMachine,
    command: &[u8],
) -> (dealt_with: Result<bool, DviError>)
    ensures
        (final(m)@, dealt_with) == old(m)@.special_svg(command@),
{
    m.special_svg(command)
}

} // verus!
