//! From the bytes of a DVI file to what is to be drawn.

pub mod fonts;
pub mod instruction;
pub mod machine;
pub mod machine_laws;
pub mod svg;
pub mod svgmachine;
pub mod utils;

use crate::dvi2svg::fonts::{font_table, load_fonts};
use crate::dvi2svg::instruction::{
    lemma_parse_fails_with_error, parse_dvi, parse_error, parsed,
};
use crate::dvi2svg::machine::{DviError, SpecialHandler};
use crate::dvi2svg::svgmachine::{default_handlers, FontTable, MachineView, SVGMachine};
use dvi2html::tfm::FontDataHelper;
use vstd::prelude::*;

verus! {

/// What a DVI file draws: the device after it has read the whole file, with
/// the handlers of specials in their usual order, or why the reading stops.
/// A file whose bytes cannot be read to their end draws nothing.
pub open spec fn interpreted(input: Seq<u8>, table: FontTable) -> Result<MachineView, DviError> {
    match parsed(input) {
        None => Err(DviError::Decode(parse_error(input)->0)),
        Some(instructions) => match MachineView::initial().ran(
            instructions,
            table,
            default_handlers(),
        ) {
            (machine, Ok(_)) => Ok(machine),
            (_, Err(error)) => Err(error),
        },
    }
}

/// Reads a DVI file with the given font tables. The result is the device
/// that holds what the file draws.
pub fn dvi2svg_with(input: &[u8], fonts: &FontDataHelper) -> (drawn: Result<SVGMachine, DviError>)
    ensures
        match drawn {
            Ok(machine) => interpreted(input@, font_table(*fonts)) == Ok::<MachineView, DviError>(
                machine@,
            ),
            Err(error) => interpreted(input@, font_table(*fonts)) == Err::<MachineView, DviError>(
                error,
            ),
        },
{
    let instructions = match parse_dvi(input) {
        Ok(instructions) => instructions,
        Err(error) => {
            return Err(DviError::Decode(error));
        },
    };
    let mut handlers: Vec<SpecialHandler> = Vec::new();
    handlers.push(SpecialHandler::Svg);
    handlers.push(SpecialHandler::Color);
    handlers.push(SpecialHandler::Papersize);
    assert(handlers@ =~= default_handlers());
    let mut machine = SVGMachine::new();
    match machine.run(&instructions, fonts, handlers.as_slice()) {
        Ok(()) => Ok(machine),
        Err(error) => Err(error),
    }
}

/// Reads a DVI file with the font tables that come with the library. The
/// result is the device that holds what the file draws.
///
/// A file whose bytes cannot be read fails for that reason. Every other
/// result is what the file draws with font tables.
pub fn dvi2svg(input: &[u8]) -> (drawn: Result<SVGMachine, DviError>)
    ensures
        parse_error(input@) is Some ==> drawn == Err::<SVGMachine, DviError>(
            DviError::Decode(parse_error(input@)->0),
        ),
        match drawn {
            Ok(machine) => exists|fonts: FontDataHelper|
                interpreted(input@, #[trigger] font_table(fonts)) == Ok::<MachineView, DviError>(
                    machine@,
                ),
            Err(error) => exists|fonts: FontDataHelper|
                interpreted(input@, #[trigger] font_table(fonts)) == Err::<MachineView, DviError>(
                    error,
                ),
        },
{
    proof {
        lemma_parse_fails_with_error(input@);
    }
    let fonts = load_fonts().unwrap();
    dvi2svg_with(input, &fonts)
}

} // verus!
