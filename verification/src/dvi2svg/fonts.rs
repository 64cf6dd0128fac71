//! The metrics of the fonts: how wide, high and deep each glyph is.
//!
//! The metrics come with the font tables of `dvi2html`. They are read
//! through the functions of this module, whose contracts say what is looked
//! up and are not proved.

use dvi2html::tfm::FontDataHelper;
use vstd::prelude::*;

verus! {

/// The font tables of `dvi2html`.
#[verifier::external_type_specification]
#[verifier::external_body]
pub struct ExFontDataHelper(dvi2html::tfm::FontDataHelper);

/// What font tables hold: for each font that they know, by its name, the
/// size that it was designed for and, for each character code that it has,
/// the width, the height and the depth of the glyph.
pub uninterp spec fn font_table(fonts: FontDataHelper) -> Map<
    Seq<char>,
    (u32, Map<u32, (u32, u32, u32)>),
>;

/// Whether font tables know the font `name` and its glyph for `code`.
pub open spec fn has_glyph(
    table: Map<Seq<char>, (u32, Map<u32, (u32, u32, u32)>)>,
    name: Seq<char>,
    code: u32,
) -> bool {
    table.contains_key(name) && table[name].1.contains_key(code)
}

/// `FontDataHelper::init` of `dvi2html`: the font tables that come with it.
/// It takes nothing and reads what is compiled into `dvi2html` alone, and
/// every result that it returns is a table: there always is one.
#[verifier::external_body]
pub(crate) fn load_fonts() -> (fonts: Option<FontDataHelper>)
    ensures
        fonts is Some,
{
    FontDataHelper::init().ok()
}

/// `FontDataHelper::get` of `dvi2html`: the entry under `name`, if there is
/// one. Of the entry the result holds the field `design_size` and, from the
/// entry for `code` among its field `characters`, if there is one, the fields
/// `width`, `height` and `depth`.
#[verifier::external_body]
fn font_entry(
    fonts: &FontDataHelper,
    name: &str,
    code: u32,
) -> (entry: Option<(u32, Option<(u32, u32, u32)>)>)
    ensures
        entry is Some <==> font_table(*fonts).contains_key(name@),
        entry matches Some((size, _)) ==> size == font_table(*fonts)[name@].0,
        entry matches Some((_, metrics)) ==> (metrics is Some <==> has_glyph(
            font_table(*fonts),
            name@,
            code,
        )),
        entry matches Some((_, Some(metrics))) ==> metrics == font_table(*fonts)[name@].1[code],
{
    fonts.get(name.to_string()).map(
        |data|
            (
                data.design_size,
                data.characters.get(&code).map(|glyph| (glyph.width, glyph.height, glyph.depth)),
            ),
    )
}

/// The size that the font `name` was designed for, if the tables know the
/// font.
pub fn design_size_of(fonts: &FontDataHelper, name: &str) -> (size: Option<u32>)
    ensures
        size == if font_table(*fonts).contains_key(name@) {
            Some(font_table(*fonts)[name@].0)
        } else {
            None::<u32>
        },
{
    match font_entry(fonts, name, 0) {
        Some((size, _)) => Some(size),
        None => None,
    }
}

/// The width, the height and the depth of the glyph for `code` in the font
/// `name`, if the tables know both.
pub fn metrics_of(
    fonts: &FontDataHelper,
    name: &str,
    code: u32,
) -> (metrics: Option<(u32, u32, u32)>)
    ensures
        metrics is Some <==> has_glyph(font_table(*fonts), name@, code),
        metrics is Some ==> metrics->0 == font_table(*fonts)[name@].1[code],
{
    match font_entry(fonts, name, code) {
        Some((_, metrics)) => metrics,
        None => None,
    }
}

} // verus!
