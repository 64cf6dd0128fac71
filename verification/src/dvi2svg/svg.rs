//! The markup that a drawing is written in.
//!
//! The functions of this module put markup together from text that is given:
//! coordinates and sizes come as numerals that the caller has written.

use crate::bytes::{push_all, replace, replaced};
use vstd::prelude::*;
use vstd::string::StringSliceAdditionalSpecFns;

verus! {

/// A text element: the glyphs `entities` in a font, a colour and a size, with
/// their reference point at `x` and `y`.
pub open spec fn text_markup(
    y: Seq<u8>,
    x: Seq<u8>,
    font_name: Seq<u8>,
    color: Seq<u8>,
    font_size: Seq<u8>,
    entities: Seq<u8>,
) -> Seq<u8> {
    "<text y=\"".spec_bytes() + y + "\" x=\"".spec_bytes() + x + "\" font-family=\"".spec_bytes()
        + font_name + "\" fill=\"".spec_bytes() + color + "\" font-size=\"".spec_bytes()
        + font_size + "\">".spec_bytes() + entities + "</text>".spec_bytes()
}

/// A rectangle of a width and a height, filled with a colour, with its upper
/// left corner at `x` and `y`.
pub open spec fn rect_markup(
    x: Seq<u8>,
    y: Seq<u8>,
    width: Seq<u8>,
    height: Seq<u8>,
    color: Seq<u8>,
) -> Seq<u8> {
    "<rect x=\"".spec_bytes() + x + "\" y=\"".spec_bytes() + y + "\" width=\"".spec_bytes()
        + width + "\" height=\"".spec_bytes() + height + "\" fill=\"".spec_bytes() + color
        + "\" stroke=\"none\"/>".spec_bytes()
}

/// The document: the content in a frame of the given width and height, in
/// points, with a margin of an inch to the left and above, and with the
/// style that text in the math italic fonts is shown in.
pub open spec fn document_markup(width: Seq<u8>, height: Seq<u8>, content: Seq<u8>) -> Seq<u8> {
    "<svg version=\"1.1\" xmlns=\"http://www.w3.org/2000/svg\"\n     width=\"".spec_bytes()
        + width + "pt\" height=\"".spec_bytes() + height
        + "pt\"\n     viewBox=\"-72 -72 ".spec_bytes() + width + " ".spec_bytes() + height
        + "\">\n  <style>\n    text[font-family*=\"cmmi\"] { font-family: \"New Computer Modern Math\"; font-style: italic; }\n  </style>\n  ".spec_bytes()
        + content + "\n</svg>".spec_bytes()
}

/// Markup that a file has handed through, as it is drawn: `{?x}` and `{?y}`
/// stand for the position and `{?nl}` for a line feed, and the marks of the
/// beginning and of the end of a picture are taken away. The replacements
/// are made one after the other, in this order.
pub open spec fn raw_markup(svg: Seq<u8>, x: Seq<u8>, y: Seq<u8>) -> Seq<u8> {
    replaced(
        replaced(
            replaced(
                replaced(replaced(svg, "{?x}".spec_bytes(), x), "{?y}".spec_bytes(), y),
                "{?nl}".spec_bytes(),
                "\n".spec_bytes(),
            ),
            "<svg beginpicture>".spec_bytes(),
            Seq::empty(),
        ),
        "</svg endpicture>".spec_bytes(),
        Seq::empty(),
    )
}

/// A text element.
pub fn text_element(
    y: &[u8],
    x: &[u8],
    font_name: &[u8],
    color: &[u8],
    font_size: &[u8],
    entities: &[u8],
) -> (markup: Vec<u8>)
    ensures
        markup@ == text_markup(y@, x@, font_name@, color@, font_size@, entities@),
{
    let mut markup: Vec<u8> = Vec::new();
    push_all(&mut markup, "<text y=\"".as_bytes());
    push_all(&mut markup, y);
    push_all(&mut markup, "\" x=\"".as_bytes());
    push_all(&mut markup, x);
    push_all(&mut markup, "\" font-family=\"".as_bytes());
    push_all(&mut markup, font_name);
    push_all(&mut markup, "\" fill=\"".as_bytes());
    push_all(&mut markup, color);
    push_all(&mut markup, "\" font-size=\"".as_bytes());
    push_all(&mut markup, font_size);
    push_all(&mut markup, "\">".as_bytes());
    push_all(&mut markup, entities);
    push_all(&mut markup, "</text>".as_bytes());
    assert(markup@ =~= text_markup(y@, x@, font_name@, color@, font_size@, entities@));
    markup
}

/// A rectangle.
pub fn rect_element(x: &[u8], y: &[u8], width: &[u8], height: &[u8], color: &[u8]) -> (markup:
    Vec<u8>)
    ensures
        markup@ == rect_markup(x@, y@, width@, height@, color@),
{
    let mut markup: Vec<u8> = Vec::new();
    push_all(&mut markup, "<rect x=\"".as_bytes());
    push_all(&mut markup, x);
    push_all(&mut markup, "\" y=\"".as_bytes());
    push_all(&mut markup, y);
    push_all(&mut markup, "\" width=\"".as_bytes());
    push_all(&mut markup, width);
    push_all(&mut markup, "\" height=\"".as_bytes());
    push_all(&mut markup, height);
    push_all(&mut markup, "\" fill=\"".as_bytes());
    push_all(&mut markup, color);
    push_all(&mut markup, "\" stroke=\"none\"/>".as_bytes());
    assert(markup@ =~= rect_markup(x@, y@, width@, height@, color@));
    markup
}

/// The document around the content.
pub fn document(width: &[u8], height: &[u8], content: &[u8]) -> (markup: Vec<u8>)
    ensures
        markup@ == document_markup(width@, height@, content@),
{
    let mut markup: Vec<u8> = Vec::new();
    push_all(
        &mut markup,
        "<svg version=\"1.1\" xmlns=\"http://www.w3.org/2000/svg\"\n     width=\"".as_bytes(),
    );
    push_all(&mut markup, width);
    push_all(&mut markup, "pt\" height=\"".as_bytes());
    push_all(&mut markup, height);
    push_all(&mut markup, "pt\"\n     viewBox=\"-72 -72 ".as_bytes());
    push_all(&mut markup, width);
    push_all(&mut markup, " ".as_bytes());
    push_all(&mut markup, height);
    push_all(
        &mut markup,
        "\">\n  <style>\n    text[font-family*=\"cmmi\"] { font-family: \"New Computer Modern Math\"; font-style: italic; }\n  </style>\n  ".as_bytes(),
    );
    push_all(&mut markup, content);
    push_all(&mut markup, "\n</svg>".as_bytes());
    assert(markup@ =~= document_markup(width@, height@, content@));
    markup
}

/// Markup that a file has handed through, as it is drawn at a position.
pub fn expand_raw(svg: &[u8], x: &[u8], y: &[u8]) -> (markup: Vec<u8>)
    ensures
        markup@ == raw_markup(svg@, x@, y@),
{
    let with_x = replace(svg, "{?x}".as_bytes(), x);
    let with_y = replace(with_x.as_slice(), "{?y}".as_bytes(), y);
    let with_lines = replace(with_y.as_slice(), "{?nl}".as_bytes(), "\n".as_bytes());
    // TikZ leaves marks around a picture. The whole document is one picture,
    // so they are not needed.
    let nothing: Vec<u8> = Vec::new();
    let opened = replace(
        with_lines.as_slice(),
        "<svg beginpicture>".as_bytes(),
        nothing.as_slice(),
    );
    assert(nothing@ =~= Seq::empty());
    replace(opened.as_slice(), "</svg endpicture>".as_bytes(), nothing.as_slice())
}

} // verus!
