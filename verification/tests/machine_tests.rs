use rust_tikz::dvi2svg::instruction::{DecodeError, FontDef, Instruction};
use rust_tikz::dvi2svg::machine::{DviError, Fragment, Position, PreambleData, SpecialHandler};
use rust_tikz::dvi2svg::svg::{document, expand_raw, rect_element, text_element};
use rust_tikz::dvi2svg::svgmachine::{
    entity, special_html_color, special_html_papersize, special_html_svg, SVGMachine,
};
use rust_tikz::dvi2svg::utils::{numeral, paper_size, tex_color_to_hex};
use rust_tikz::dvi2svg::{dvi2svg, dvi2svg_with};

const HANDLERS: [SpecialHandler; 3] =
    [SpecialHandler::Svg, SpecialHandler::Color, SpecialHandler::Papersize];

fn fonts() -> dvi2html::tfm::FontDataHelper {
    dvi2html::tfm::FontDataHelper::init().unwrap()
}

fn preamble() -> Vec<u8> {
    let mut bytes = vec![247, 2];
    bytes.extend(25400000u32.to_be_bytes());
    bytes.extend(473628672u32.to_be_bytes());
    bytes.extend(1000u32.to_be_bytes());
    bytes.push(0);
    bytes
}

fn begin_page() -> Vec<u8> {
    let mut bytes = vec![139];
    bytes.extend([0u8; 40]);
    bytes.extend((-1i32).to_be_bytes());
    bytes
}

fn font_def(number: u8, name: &str) -> Vec<u8> {
    let mut bytes = vec![243, number, 0, 0, 0, 0];
    bytes.extend(655360u32.to_be_bytes());
    bytes.extend(655360u32.to_be_bytes());
    bytes.push(0);
    bytes.push(name.len() as u8);
    bytes.extend(name.as_bytes());
    bytes
}

fn special(command: &str) -> Vec<u8> {
    let mut bytes = vec![239, command.len() as u8];
    bytes.extend(command.as_bytes());
    bytes
}

fn rule(op: u8, height: i32, width: i32) -> Vec<u8> {
    let mut bytes = vec![op];
    bytes.extend(height.to_be_bytes());
    bytes.extend(width.to_be_bytes());
    bytes
}

fn right(distance: i32) -> Vec<u8> {
    let mut bytes = vec![146];
    bytes.extend(distance.to_be_bytes());
    bytes
}

fn down(distance: i32) -> Vec<u8> {
    let mut bytes = vec![160];
    bytes.extend(distance.to_be_bytes());
    bytes
}

fn postamble(pages: u16) -> Vec<u8> {
    let mut bytes = vec![248, 0, 0, 0, 0];
    bytes.extend(25400000u32.to_be_bytes());
    bytes.extend(473628672u32.to_be_bytes());
    bytes.extend(1000u32.to_be_bytes());
    bytes.extend([0u8; 8]);
    bytes.extend(3u16.to_be_bytes());
    bytes.extend(pages.to_be_bytes());
    bytes.extend([249, 0, 0, 0, 0, 2, 223, 223, 223, 223]);
    bytes
}

/// A file of one page that holds `body` between its beginning and its end.
fn page(body: &[Vec<u8>]) -> Vec<u8> {
    let mut bytes = preamble();
    bytes.extend(begin_page());
    bytes.extend(font_def(0, "cmr10"));
    bytes.push(171);
    for part in body {
        bytes.extend(part);
    }
    bytes.push(140);
    bytes.extend(postamble(1));
    bytes
}

/// The advance of a glyph of cmr10 at 10pt, as the font tables give it.
fn advance_of(code: u32) -> i32 {
    let fonts = fonts();
    let font = fonts.get("cmr10".to_string()).unwrap();
    let width = font.characters.get(&code).unwrap().width as u128;
    (width * font.design_size as u128 * 655360 / (16777216 * 655360)) as i32
}

/// The document that a device has drawn, with numbers as the scale of the
/// file gives them.
fn rendered(machine: &SVGMachine) -> String {
    let mut content: Vec<u8> = Vec::new();
    let scale = machine.preamble().map(|preamble| {
        (preamble.magnification as f64 * preamble.numerator as f64)
            / (1000.0 * preamble.denominator as f64)
            * 72.27
            / 100_000.0
            / 2.54
    });
    for fragment in machine.get_content() {
        let points = scale.unwrap();
        match fragment {
            Fragment::Text {
                h,
                v,
                font_name,
                color,
                entities,
                font_design_size,
                scale_factor,
                design_size,
                ..
            } => {
                let left = *h as f64 * points;
                let bottom = *v as f64 * points;
                let size = (*font_design_size as f64 / 1_048_576.0) * (*scale_factor as f64)
                    / (*design_size as f64);
                content.extend(text_element(
                    bottom.to_string().as_bytes(),
                    left.to_string().as_bytes(),
                    font_name,
                    color,
                    size.to_string().as_bytes(),
                    entities,
                ));
            }
            Fragment::Rule { h, v, height, width, color } => {
                let a = *height as f64 * points;
                let b = *width as f64 * points;
                let left = *h as f64 * points;
                let top = *v as f64 * points - a;
                content.extend(rect_element(
                    left.to_string().as_bytes(),
                    top.to_string().as_bytes(),
                    b.to_string().as_bytes(),
                    a.to_string().as_bytes(),
                    color,
                ));
            }
            Fragment::Raw { h, v, svg } => {
                let left = *h as f64 * points;
                let top = *v as f64 * points;
                content.extend(expand_raw(svg, left.to_string().as_bytes(), top.to_string().as_bytes()));
            }
        }
    }
    let (width, height) = machine.paper_size();
    let (width, height) = (
        String::from_utf8(width).unwrap().parse::<f64>().unwrap().to_string(),
        String::from_utf8(height).unwrap().parse::<f64>().unwrap().to_string(),
    );
    String::from_utf8(document(width.as_bytes(), height.as_bytes(), &content)).unwrap()
}

#[test]
fn an_empty_document_is_the_frame_alone() {
    let machine = dvi2svg(&page(&[])).unwrap();
    assert!(machine.get_content().is_empty());
    assert_eq!(machine.nb_pages(), 1);
    let svg = rendered(&machine);
    assert_eq!(
        svg,
        "<svg version=\"1.1\" xmlns=\"http://www.w3.org/2000/svg\"\n     width=\"100pt\" height=\"100pt\"\n     viewBox=\"-72 -72 100 100\">\n  <style>\n    text[font-family*=\"cmmi\"] { font-family: \"New Computer Modern Math\"; font-style: italic; }\n  </style>\n  \n</svg>"
    );
    assert!(!svg.contains("<text"));
    assert!(!svg.contains("<rect"));
}

#[test]
fn plain_text_is_drawn_glyph_by_glyph() {
    let machine = dvi2svg(&page(&[vec![b'H'], vec![b'i']])).unwrap();
    let content = machine.get_content();
    assert_eq!(content.len(), 2);
    let font = fonts();
    let cmr10 = font.get("cmr10".to_string()).unwrap();
    assert_eq!(
        content[0],
        Fragment::Text {
            h: 0,
            v: 0,
            font_name: b"cmr10".to_vec(),
            color: b"black".to_vec(),
            entities: b"H".to_vec(),
            width: cmr10.characters[&72].width as u64,
            height: cmr10.characters[&72].height,
            depth: cmr10.characters[&72].depth,
            font_design_size: cmr10.design_size,
            scale_factor: 655360,
            design_size: 655360,
        }
    );
    // The second glyph stands behind the first: H is 7.5pt wide.
    assert_eq!(advance_of(72), 491521);
    match &content[1] {
        Fragment::Text { h, v, entities, .. } => {
            assert_eq!((*h, *v), (advance_of(72), 0));
            assert_eq!(entities, b"i");
        }
        other => panic!("{:?}", other),
    }
    let svg = rendered(&machine);
    assert_eq!(svg.matches("<text ").count(), 2);
    assert_eq!(svg.matches("fill=\"black\"").count(), 2);
    assert_eq!(svg.matches("font-family=\"cmr10\"").count(), 2);
    assert!(svg.contains(
        "<text y=\"0\" x=\"0\" font-family=\"cmr10\" fill=\"black\" font-size=\"10\">H</text>"
    ));
}

#[test]
fn put_does_not_move_and_set_does() {
    let machine =
        dvi2svg(&page(&[vec![133, b'a'], vec![b'b'], right(-5), down(7), vec![128, b'c']])).unwrap();
    let at: Vec<(i32, i32)> = machine
        .get_content()
        .iter()
        .map(|fragment| match fragment {
            Fragment::Text { h, v, .. } => (*h, *v),
            other => panic!("{:?}", other),
        })
        .collect();
    assert_eq!(at, [(0, 0), (0, 0), (advance_of(98) - 5, 7)]);
}

#[test]
fn a_rule_reaches_up_and_to_the_right() {
    let machine = dvi2svg(&page(&[down(655360), rule(132, 65536, 655360), rule(137, 1, 2)])).unwrap();
    assert_eq!(
        machine.get_content()[..],
        [
            Fragment::Rule { h: 0, v: 655360, height: 65536, width: 655360, color: b"black".to_vec() },
            Fragment::Rule { h: 655360, v: 655360, height: 1, width: 2, color: b"black".to_vec() },
        ]
    );
    let svg = rendered(&machine);
    // One unit of the file is 1/65536 of a point here.
    let rect = &svg[svg.find("<rect").unwrap()..];
    let number = |name: &str| -> f64 {
        let from = rect.find(name).unwrap() + name.len();
        let to = from + rect[from..].find('"').unwrap();
        rect[from..to].parse().unwrap()
    };
    assert!(svg.contains("<rect x=\"0\" y=\""));
    assert!(svg.contains("\" fill=\"black\" stroke=\"none\"/>"));
    assert!((number(" y=\"") - 9.0).abs() < 1e-9);
    assert!((number(" width=\"") - 10.0).abs() < 1e-9);
    assert!((number(" height=\"") - 1.0).abs() < 1e-9);
}

#[test]
fn text_is_drawn_in_the_pushed_colour_and_the_old_one_comes_back() {
    let machine = dvi2svg(&page(&[
        vec![b'a'],
        special("color push rgb 1 0 0"),
        vec![b'b'],
        special("color push gray 0.5"),
        rule(137, 1, 1),
        special("color pop"),
        vec![b'c'],
        special("color pop"),
        vec![b'd'],
    ]))
    .unwrap();
    let colors: Vec<String> = machine
        .get_content()
        .iter()
        .map(|fragment| match fragment {
            Fragment::Text { color, .. } | Fragment::Rule { color, .. } => {
                String::from_utf8(color.clone()).unwrap()
            }
            other => panic!("{:?}", other),
        })
        .collect();
    assert_eq!(colors, ["black", "#ff0000", "#7f7f7f", "#ff0000", "black"]);
    assert_eq!(machine.color(), b"black");
    assert!(rendered(&machine).contains("fill=\"#ff0000\" font-size=\"10\">b</text>"));
}

#[test]
fn a_colour_that_is_not_known_changes_nothing() {
    let mut machine = SVGMachine::new();
    assert_eq!(special_html_color(&mut machine, b"color push nosuchcolour"), Ok(true));
    assert_eq!(special_html_color(&mut machine, b"color push rgb 1 0"), Ok(true));
    assert_eq!(machine.color(), b"black");
    // Nothing was pushed.
    assert_eq!(special_html_color(&mut machine, b"color pop"), Err(DviError::EmptyColorStack));
    assert_eq!(special_html_color(&mut machine, b"color push  red "), Ok(true));
    assert_eq!(machine.color(), b"red");
    assert_eq!(special_html_color(&mut machine, b"color popular"), Ok(true));
    assert_eq!(machine.color(), b"black");
    assert_eq!(special_html_color(&mut machine, b"colour pop"), Ok(false));
    assert_eq!(special_html_color(&mut machine, b"color push"), Ok(false));
}

#[test]
fn the_paper_size_sets_the_frame() {
    let machine = dvi2svg(&page(&[special("papersize=200pt,150pt")])).unwrap();
    let (width, height) = machine.paper().unwrap();
    assert_eq!((width.as_slice(), height.as_slice()), (&b"200"[..], &b"150"[..]));
    assert!(rendered(&machine).starts_with(
        "<svg version=\"1.1\" xmlns=\"http://www.w3.org/2000/svg\"\n     width=\"200pt\" height=\"150pt\"\n     viewBox=\"-72 -72 200 150\">"
    ));
}

#[test]
fn a_malformed_paper_size_changes_nothing() {
    let mut machine = SVGMachine::new();
    for command in ["papersize=200pt", "papersize=200,150", "papersize=apt,bpt", "papersize=",
        "papersize=1pt,", "papersize=-1pt,2pt", "papersize=1e3pt,2pt", "papersize= 1pt,2pt"]
    {
        assert_eq!(special_html_papersize(&mut machine, command.as_bytes()), Ok(false));
        assert!(machine.paper().is_none(), "{}", command);
    }
    assert_eq!(special_html_papersize(&mut machine, b"papersize=597.50787pt,845.04684pt"), Ok(false));
    assert_eq!(special_html_papersize(&mut machine, b"papersize=oops"), Ok(false));
    assert_eq!(special_html_papersize(&mut machine, b"Papersize=1pt,2pt"), Ok(false));
    let (width, height) = machine.paper().unwrap();
    assert_eq!((width.as_slice(), height.as_slice()), (&b"597.50787"[..], &b"845.04684"[..]));
    assert_eq!(special_html_papersize(&mut machine, b"papersize=1pt,2.5pt,3pt"), Ok(false));
    let (width, height) = machine.paper().unwrap();
    assert_eq!((width.as_slice(), height.as_slice()), (&b"1"[..], &b"2.5"[..]));
}

#[test]
fn raw_markup_waits_for_the_next_special_that_is_not_raw() {
    let machine = dvi2svg(&page(&[
        special("dvisvgm:raw <g class=\"x\" at=\"{?x},{?y}\">{?nl}"),
        special("dvisvgm:raw </g>"),
        right(655360),
        vec![b'a'],
        down(-65536),
        special("color push rgb 0 0 1"),
        vec![b'b'],
        special("color pop"),
    ]))
    .unwrap();
    let content = machine.get_content();
    assert_eq!(content.len(), 3);
    // The markup is drawn where the device stands at the special that
    // follows, behind the text that was drawn meanwhile.
    assert!(matches!(&content[0], Fragment::Text { entities, .. } if entities == b"a"));
    assert_eq!(
        content[1],
        Fragment::Raw {
            h: 655360 + advance_of(97),
            v: -65536,
            svg: b"<g class=\"x\" at=\"{?x},{?y}\">{?nl}</g>".to_vec(),
        }
    );
    assert!(matches!(&content[2], Fragment::Text { color, .. } if color == b"#0000ff"));
    let svg = rendered(&machine);
    let raw = svg.find("<g class=\"x\" at=\"").unwrap();
    assert!(svg[raw..].starts_with("<g class=\"x\" at=\"15.0"));
    assert!(svg[raw..].contains(",-0.99999999"));
    assert!(svg[raw..].contains("\">\n</g><text"));
    assert!(raw < svg.find("fill=\"#0000ff\"").unwrap());
}

#[test]
fn raw_markup_is_drawn_at_the_end_of_the_page() {
    let machine = dvi2svg(&page(&[special("dvisvgm:raw <svg><svg></svg>")])).unwrap();
    assert_eq!(
        machine.get_content()[..],
        [Fragment::Raw { h: 0, v: 0, svg: b"<svg><svg></svg>".to_vec() }]
    );
    assert_eq!(machine.svg_depth(), 2);
}

#[test]
fn the_depth_of_markup_is_counted_modulo_256() {
    let mut machine = SVGMachine::new();
    machine.set_preamble_data(PreambleData {
        format: 2,
        numerator: 1,
        denominator: 1,
        magnification: 1000,
        comment: Vec::new(),
    });
    assert_eq!(machine.svg_depth(), 1);
    assert_eq!(special_html_svg(&mut machine, b"dvisvgm:raw </svg></svg>"), Ok(true));
    assert_eq!(machine.svg_depth(), 1);
    assert_eq!(special_html_svg(&mut machine, b"other"), Ok(false));
    assert_eq!(machine.svg_depth(), 255);
    assert_eq!(special_html_svg(&mut machine, b"other"), Ok(false));
    assert_eq!(machine.get_content().len(), 1);
    assert_eq!(special_html_svg(&mut machine, b" dvisvgm:raw x"), Ok(false));
    assert_eq!(special_html_svg(&mut machine, b"dvisvgm:raw <svg><svg beginpicture>"), Ok(true));
    assert_eq!(machine.end_page(), Ok(()));
    assert_eq!(machine.svg_depth(), 0);
}

#[test]
fn raw_markup_is_expanded_in_order() {
    assert_eq!(
        expand_raw(b"<svg beginpicture><a x='{?x}' y='{?y}'/>{?nl}</svg endpicture>", b"1.5", b"-2"),
        b"<a x='1.5' y='-2'/>\n"
    );
    // What a replacement puts in is looked at by the replacements after it.
    assert_eq!(expand_raw(b"{?x}", b"{?y}", b"7"), b"7");
    assert_eq!(expand_raw(b"{?y}", b"7", b"{?x}"), b"{?x}");
    assert_eq!(expand_raw(b"{?{?nl}x}", b"1", b"2"), b"{?\nx}");
    assert_eq!(expand_raw(b"<svg begin<svg beginpicture>picture>", b"", b""), b"<svg beginpicture>");
    assert_eq!(expand_raw(b"", b"1", b"2"), b"");
    assert_eq!(expand_raw(b"{?x}{?x}{?", b"ab", b""), b"abab{?");
}

#[test]
fn elements_are_written_as_markup() {
    assert_eq!(
        text_element(b"1", b"2", b"cmr10", b"red", b"10", b"&#161;x"),
        b"<text y=\"1\" x=\"2\" font-family=\"cmr10\" fill=\"red\" font-size=\"10\">&#161;x</text>"
    );
    assert_eq!(
        rect_element(b"1", b"2", b"3", b"4", b"#00ff00"),
        b"<rect x=\"1\" y=\"2\" width=\"3\" height=\"4\" fill=\"#00ff00\" stroke=\"none\"/>"
    );
    assert_eq!(text_element(b"", b"", b"", b"", b"", b""), b"<text y=\"\" x=\"\" font-family=\"\" fill=\"\" font-size=\"\"></text>");
}

#[test]
fn glyphs_are_written_as_entities() {
    let written = |code: u32| entity(code).map(|bytes| String::from_utf8(bytes).unwrap());
    assert_eq!(written(0).unwrap(), "&#161;");
    assert_eq!(written(9).unwrap(), "&#170;");
    assert_eq!(written(10).unwrap(), "&#173;");
    assert_eq!(written(19).unwrap(), "&#182;");
    assert_eq!(written(20).unwrap(), "&#8729;");
    assert_eq!(written(21).unwrap(), "&#184;");
    assert_eq!(written(32).unwrap(), "&#195;");
    assert_eq!(written(33).unwrap(), "!");
    assert_eq!(written(126).unwrap(), "~");
    assert_eq!(written(127).unwrap(), "&#196;");
    assert_eq!(written(128).unwrap(), "\u{80}");
    assert_eq!(written(0x7FF).unwrap(), "\u{7FF}");
    assert_eq!(written(0x800).unwrap(), "\u{800}");
    assert_eq!(written(0xD7FF).unwrap(), "\u{D7FF}");
    assert_eq!(written(0xD800), None);
    assert_eq!(written(0xDFFF), None);
    assert_eq!(written(0xE000).unwrap(), "\u{E000}");
    assert_eq!(written(0xFFFF).unwrap(), "\u{FFFF}");
    assert_eq!(written(0x10000).unwrap(), "\u{10000}");
    assert_eq!(written(0x10FFFF).unwrap(), "\u{10FFFF}");
    assert_eq!(written(0x110000), None);
    assert_eq!(written(u32::MAX), None);
    for code in 33..0x11000u32 {
        if code != 127 {
            assert_eq!(written(code), char::from_u32(code).map(|c| c.to_string()));
        }
    }
}

#[test]
fn colours_are_written_for_style_sheets() {
    let css = |color: &str| tex_color_to_hex(color.as_bytes()).map(|c| String::from_utf8(c).unwrap());
    assert_eq!(css("gray 0").unwrap(), "black");
    assert_eq!(css("gray 1").unwrap(), "white");
    assert_eq!(css("gray  0").unwrap(), "#000000");
    assert_eq!(css("gray 1.0").unwrap(), "#ffffff");
    assert_eq!(css("gray 0.5").unwrap(), "#7f7f7f");
    assert_eq!(css("rgb 1 0 0").unwrap(), "#ff0000");
    assert_eq!(css("rgb 0 1 0").unwrap(), "#00ff00");
    assert_eq!(css("rgb 0.2 0.4 0.6").unwrap(), "#336699");
    assert_eq!(css("rgb .8 1. 0.0392157").unwrap(), "#ccff0a");
    assert_eq!(css("rgb 0.0039215 0.0039216 0.9999999").unwrap(), "#0001fe");
    // Nine places behind the point count, and no more.
    assert_eq!(css("gray 0.003921568").unwrap(), "#000000");
    assert_eq!(css("gray 0.003921569").unwrap(), "#010101");
    assert_eq!(css("gray 0.0039215689999").unwrap(), "#000000");
    assert_eq!(css("gray 0.999999999").unwrap(), "#fefefe");
    assert_eq!(css("gray 000.5").unwrap(), "#7f7f7f");
    assert_eq!(css("gray 010.5").unwrap(), "#ffffff");
    assert_eq!(css(" rgb\t2 17.5 0.999999 ").unwrap(), "#fffffe");
    assert_eq!(css("cmyk 0 0 0 0").unwrap(), "#ffffff");
    assert_eq!(css("cmyk 0 0 0 1").unwrap(), "#000000");
    assert_eq!(css("cmyk 1 0 0 0").unwrap(), "#00ffff");
    assert_eq!(css("cmyk 0 1 0.5 0.5").unwrap(), "#7f003f");
    assert_eq!(css("red").unwrap(), "red");
    assert_eq!(css("gray").unwrap(), "gray");
    assert_eq!(css(" lightgray ").unwrap(), "lightgray");
    for name in ["black", "blue", "brown", "cyan", "darkgray", "gray", "green", "lightgray", "lime",
        "magenta", "olive", "orange", "pink", "purple", "red", "teal", "violet", "white", "yellow"]
    {
        assert_eq!(css(name).unwrap(), name);
    }
    for unknown in ["", " ", "Red", "rgb", "rgb 1 0", "rgb 1 0 0 0", "rgb 1 0 x", "rgb 1 0 -1",
        "rgb 1 0 1e0", "rgb 1 0 .", "rgb 1 0 1.2.3", "cmyk 0 0 0", "cmyk 0 0 0 0 0", "gray 1 1",
        "gray x", "red blue", "hsb 0 0 0", "rgb0 0 0", "cmyk 1 1 1 1 1 1"]
    {
        assert_eq!(css(unknown), None, "{:?}", unknown);
    }
}

#[test]
fn numerals_are_digits_around_at_most_one_point() {
    for valid in ["0", "7", "123", "1.5", "1.", ".5", "0.000", "00.00"] {
        assert!(numeral(valid.as_bytes()), "{}", valid);
    }
    for invalid in ["", ".", "1..2", "1.2.3", "-1", "+1", "1e3", " 1", "1 ", "a", "1a", "0x1"] {
        assert!(!numeral(invalid.as_bytes()), "{}", invalid);
    }
}

#[test]
fn paper_sizes_are_two_lengths() {
    assert_eq!(paper_size(b"200pt,150pt"), Some((b"200".to_vec(), b"150".to_vec())));
    assert_eq!(paper_size(b".5pt,1.pt"), Some((b".5".to_vec(), b"1.".to_vec())));
    assert_eq!(paper_size(b"1pt,2pt,"), Some((b"1".to_vec(), b"2".to_vec())));
    assert_eq!(paper_size(b"1pt,2pt,junk,more"), Some((b"1".to_vec(), b"2".to_vec())));
    for invalid in ["", ",", "pt,pt", "1pt", "1pt,", ",1pt", "1pt;2pt", "1in,2in", "1pt,2", "1 pt,2pt",
        "1pt, 2pt"]
    {
        assert_eq!(paper_size(invalid.as_bytes()), None, "{:?}", invalid);
    }
}

#[test]
fn positions_move_and_keep_their_distances() {
    let mut position = Position::empty();
    assert_eq!((position.h(), position.v()), (0, 0));
    assert_eq!(position.move_right(5), Ok(()));
    assert_eq!(position.move_down(-7), Ok(()));
    assert_eq!(position.change_right(Some(10), true), Ok(()));
    assert_eq!(position.change_right(None, true), Ok(()));
    assert_eq!(position.change_right(Some(-1), false), Ok(()));
    assert_eq!(position.change_right(None, false), Ok(()));
    assert_eq!(position.change_down(Some(100), true), Ok(()));
    assert_eq!(position.change_down(Some(1), false), Ok(()));
    assert_eq!(position.change_down(None, true), Ok(()));
    assert_eq!(position.change_down(None, false), Ok(()));
    assert_eq!(position, Position { h: 23, v: 195, w: 10, x: -1, y: 100, z: 1 });
    let before = position;
    assert_eq!(position.move_right(i32::MAX), Err(DviError::OutOfRange));
    assert_eq!(position.move_down(i32::MAX), Err(DviError::OutOfRange));
    assert_eq!(position.change_right(Some(i32::MAX), true), Err(DviError::OutOfRange));
    assert_eq!(position.change_down(Some(i32::MAX), false), Err(DviError::OutOfRange));
    // A distance that leads nowhere is not kept.
    assert_eq!(position, before);
    assert_eq!(position.move_right(i32::MAX - 23), Ok(()));
    assert_eq!(position.h(), i32::MAX);
}

#[test]
fn positions_are_saved_and_restored() {
    let machine = dvi2svg(&page(&[
        right(10),
        vec![141],
        vec![151, 0, 0, 0, 3],
        vec![165, 0, 0, 0, 4],
        vec![141],
        down(100),
        rule(137, 1, 1),
        vec![142],
        vec![147],
        vec![161],
        rule(137, 2, 2),
        vec![142],
        rule(137, 3, 3),
    ]))
    .unwrap();
    let at: Vec<(i32, i32)> = machine
        .get_content()
        .iter()
        .map(|fragment| match fragment {
            Fragment::Rule { h, v, .. } => (*h, *v),
            other => panic!("{:?}", other),
        })
        .collect();
    assert_eq!(at, [(13, 104), (16, 8), (10, 0)]);
}

#[test]
fn the_font_that_was_defined_last_is_selected() {
    let fonts = fonts();
    let mut machine = SVGMachine::new();
    let def = |number: u32, name: &str| FontDef {
        number,
        checksum: 0,
        scale_factor: 655360,
        design_size: 655360,
        directory: None,
        filename: name.as_bytes().to_vec(),
    };
    machine.add_font(def(7, "cmr10"));
    machine.add_font(def(8, "cmmi10"));
    machine.add_font(def(7, "cmbx10"));
    machine.set_preamble_data(PreambleData {
        format: 2,
        numerator: 25400000,
        denominator: 473628672,
        magnification: 1000,
        comment: Vec::new(),
    });
    assert_eq!(machine.put_text(vec![65], &fonts), Err(DviError::NoFontSelected));
    assert_eq!(machine.set_font(9), Err(DviError::UnknownFont));
    assert_eq!(machine.put_text(vec![65], &fonts), Err(DviError::NoFontSelected));
    assert_eq!(machine.set_font(7), Ok(()));
    assert!(machine.put_text(vec![65], &fonts).is_ok());
    assert_eq!(machine.set_font(8), Ok(()));
    assert!(machine.put_text(vec![65], &fonts).is_ok());
    let names: Vec<&[u8]> = machine
        .get_content()
        .iter()
        .map(|fragment| match fragment {
            Fragment::Text { font_name, .. } => font_name.as_slice(),
            other => panic!("{:?}", other),
        })
        .collect();
    assert_eq!(names, [&b"cmbx10"[..], &b"cmmi10"[..]]);
}

#[test]
fn text_is_measured_with_the_metrics_of_its_font() {
    let fonts = fonts();
    let cmr10 = fonts.get("cmr10".to_string()).unwrap();
    let mut machine = dvi2svg_with(&page(&[]), &fonts).unwrap();
    let codes = vec![72, 105, 0, 20, 127, 0x1F600, 233];
    let known: Vec<u32> =
        codes.iter().copied().filter(|c| cmr10.characters.contains_key(c)).collect();
    // The font has no glyph for three of the codes: the tilde stands in.
    assert_eq!(known, [72, 105, 0, 20]);
    let stand_in = &cmr10.characters[&126];
    let mut width = 3 * stand_in.width as u64;
    let mut height = stand_in.height;
    let mut depth = stand_in.depth;
    for code in &known {
        let glyph = &cmr10.characters[code];
        width += glyph.width as u64;
        height = height.max(glyph.height);
        depth = depth.max(glyph.depth);
    }
    let advance = machine.put_text(codes, &fonts).unwrap();
    assert_eq!(
        advance as u128,
        width as u128 * cmr10.design_size as u128 * 655360 / (16777216 * 655360)
    );
    assert_eq!(
        machine.get_content()[0],
        Fragment::Text {
            h: 0,
            v: 0,
            font_name: b"cmr10".to_vec(),
            color: b"black".to_vec(),
            entities: "Hi&#161;&#8729;&#196;\u{1F600}\u{E9}".as_bytes().to_vec(),
            width,
            height,
            depth,
            font_design_size: cmr10.design_size,
            scale_factor: 655360,
            design_size: 655360,
        }
    );
    // Nothing is drawn for no codes, and the position is where it was.
    assert_eq!(machine.put_text(Vec::new(), &fonts), Ok(0));
    assert!(matches!(&machine.get_content()[1], Fragment::Text { entities, width: 0, .. } if entities.is_empty()));
}

#[test]
fn a_font_that_is_not_known_is_measured_as_the_bold_font() {
    let fonts = fonts();
    let cmb10 = fonts.get("cmb10".to_string()).unwrap();
    for name in [&b"nosuchfont"[..], &[0xFF, 0xFE][..], &b""[..]] {
        let mut machine = SVGMachine::new();
        machine.execute(
            &Instruction::Pre {
                format: 2,
                numerator: 25400000,
                denominator: 473628672,
                magnification: 1000,
                comment: Vec::new(),
            },
            &fonts,
            &HANDLERS,
        )
        .unwrap();
        machine.add_font(FontDef {
            number: 0,
            checksum: 0,
            scale_factor: 2 * 655360,
            design_size: 655360,
            directory: Some(b"dir".to_vec()),
            filename: name.to_vec(),
        });
        machine.set_font(0).unwrap();
        let advance = machine.put_text(vec![77], &fonts).unwrap();
        let glyph = &cmb10.characters[&77];
        assert_eq!(
            advance as u128,
            glyph.width as u128 * cmb10.design_size as u128 * 2 * 655360 / (16777216 * 655360)
        );
        match &machine.get_content()[0] {
            Fragment::Text { font_name, width, font_design_size, .. } => {
                assert_eq!(font_name.as_slice(), name);
                assert_eq!(*width, glyph.width as u64);
                assert_eq!(*font_design_size, cmb10.design_size);
            }
            other => panic!("{:?}", other),
        }
    }
}

#[test]
fn nothing_is_drawn_before_the_preamble() {
    let fonts = fonts();
    let mut machine = SVGMachine::new();
    machine.add_font(FontDef {
        number: 0,
        checksum: 0,
        scale_factor: 1,
        design_size: 1,
        directory: None,
        filename: b"cmr10".to_vec(),
    });
    machine.set_font(0).unwrap();
    assert!(machine.preamble().is_none());
    assert_eq!(machine.put_text(vec![65], &fonts), Err(DviError::NoPreamble));
    assert_eq!(machine.put_rule(1, 1), Err(DviError::NoPreamble));
    assert_eq!(machine.execute(&Instruction::SetChar(65), &fonts, &HANDLERS), Err(DviError::NoPreamble));
    assert_eq!(machine.execute(&Instruction::PutRule(1, 1), &fonts, &HANDLERS), Err(DviError::NoPreamble));
    assert_eq!(special_html_svg(&mut machine, b"dvisvgm:raw <g/>"), Ok(true));
    assert_eq!(special_html_svg(&mut machine, b"color pop"), Err(DviError::NoPreamble));
    assert_eq!(machine.end_page(), Err(DviError::NoPreamble));
    assert!(machine.get_content().is_empty());
    let mut bytes = begin_page();
    bytes.extend(rule(137, 1, 1));
    assert_eq!(dvi2svg(&bytes).err(), Some(DviError::NoPreamble));
}

#[test]
fn a_page_must_end_balanced() {
    let fonts = fonts();
    assert_eq!(dvi2svg(&page(&[vec![141]])).err(), Some(DviError::UnbalancedPage));
    assert_eq!(
        dvi2svg(&page(&[special("color push rgb 0 0 0")])).err(),
        Some(DviError::UnbalancedPage)
    );
    assert_eq!(dvi2svg(&page(&[vec![142]])).err(), Some(DviError::EmptyPositionStack));
    assert_eq!(dvi2svg(&page(&[special("color pop")])).err(), Some(DviError::EmptyColorStack));
    // The beginning of a page forgets the positions that were saved.
    let mut machine = SVGMachine::new();
    machine.push_position();
    machine.push_position();
    assert_eq!(machine.end_page(), Err(DviError::UnbalancedPage));
    machine.execute(&Instruction::Bop(vec![0; 10], -1), &fonts, &HANDLERS).unwrap();
    assert_eq!(machine.pop_position(), Err(DviError::EmptyPositionStack));
    assert_eq!(machine.end_page(), Ok(()));
    let balanced = dvi2svg(&page(&[
        vec![141],
        special("color push red"),
        special("color pop"),
        vec![142],
    ]))
    .unwrap();
    assert_eq!(balanced.color(), b"black");
}

#[test]
fn each_failure_has_its_reason() {
    let fonts = fonts();
    assert_eq!(dvi2svg(&[247, 2]).err(), Some(DviError::Decode(DecodeError::Truncated)));
    assert_eq!(dvi2svg(&[138, 255]).err(), Some(DviError::Decode(DecodeError::UnknownOpcode(255))));
    assert_eq!(
        dvi2svg_with(&[250], &fonts).err(),
        Some(DviError::Decode(DecodeError::UnknownOpcode(250)))
    );
    assert_eq!(
        dvi2svg(&page(&[vec![131, 0, 0, 0xD8, 0]])).err(),
        Some(DviError::InvalidCharacter)
    );
    assert_eq!(
        dvi2svg(&page(&[vec![136, 0, 0x11, 0, 0]])).err(),
        Some(DviError::InvalidCharacter)
    );
    assert_eq!(dvi2svg(&page(&[vec![172]])).err(), Some(DviError::UnknownFont));
    assert_eq!(dvi2svg(&page(&[right(i32::MAX), right(1)])).err(), Some(DviError::OutOfRange));
    assert_eq!(dvi2svg(&page(&[down(i32::MIN), down(-1)])).err(), Some(DviError::OutOfRange));
    assert_eq!(
        dvi2svg(&page(&[right(i32::MAX), rule(132, 1, 1)])).err(),
        Some(DviError::OutOfRange)
    );
    assert_eq!(
        dvi2svg(&page(&[right(i32::MAX), vec![b'a']])).err(),
        Some(DviError::OutOfRange)
    );
    // A font of design size 0 has no advance.
    let mut machine = dvi2svg_with(&page(&[]), &fonts).unwrap();
    machine.add_font(FontDef {
        number: 5,
        checksum: 0,
        scale_factor: 1,
        design_size: 0,
        directory: None,
        filename: b"cmr10".to_vec(),
    });
    machine.set_font(5).unwrap();
    assert_eq!(machine.put_text(vec![65], &fonts), Err(DviError::OutOfRange));
    machine.add_font(FontDef {
        number: 6,
        checksum: 0,
        scale_factor: u32::MAX,
        design_size: 1,
        directory: None,
        filename: b"cmr10".to_vec(),
    });
    machine.set_font(6).unwrap();
    assert_eq!(machine.put_text(vec![65], &fonts), Err(DviError::OutOfRange));
    assert!(machine.get_content().is_empty());
}

#[test]
fn reading_stops_at_the_first_instruction_that_fails() {
    let fonts = fonts();
    let mut machine = SVGMachine::new();
    let instructions = vec![
        Instruction::Right(3),
        Instruction::Pop,
        Instruction::Right(4),
    ];
    assert_eq!(machine.run(&instructions, &fonts, &HANDLERS), Err(DviError::EmptyPositionStack));
    assert_eq!(machine.get_position().h(), 3);
    assert_eq!(machine.run(&instructions[2..].to_vec(), &fonts, &HANDLERS), Ok(()));
    assert_eq!(machine.get_position().h(), 7);
    machine.get_position().move_down(9).unwrap();
    assert_eq!(*machine.get_position(), Position { h: 7, v: 9, w: 0, x: 0, y: 0, z: 0 });
}

#[test]
fn the_first_handler_that_deals_with_a_special_wins() {
    let mut machine = SVGMachine::new();
    // Markup that looks like a colour is kept as markup.
    assert_eq!(machine.handle_special(&HANDLERS, b"dvisvgm:raw color push red"), Ok(()));
    assert_eq!(machine.color(), b"black");
    assert_eq!(machine.handle_special(&[SpecialHandler::Color], b"color push red"), Ok(()));
    assert_eq!(machine.color(), b"red");
    // Without its handler a special does nothing.
    assert_eq!(machine.handle_special(&[], b"color pop"), Ok(()));
    assert_eq!(machine.handle_special(&[SpecialHandler::Papersize], b"color pop"), Ok(()));
    assert_eq!(machine.color(), b"red");
    // The handler of markup comes first and fails: no preamble was seen.
    assert_eq!(machine.handle_special(&HANDLERS, b"color pop"), Err(DviError::NoPreamble));
    assert_eq!(machine.color(), b"red");
    assert_eq!(
        machine.handle_special(&[SpecialHandler::Color, SpecialHandler::Svg], b"color pop"),
        Ok(())
    );
    assert_eq!(machine.color(), b"black");
    assert_eq!(machine.handle_special(&HANDLERS[1..], b"papersize=1pt,2pt"), Ok(()));
    assert!(machine.paper().is_some());
}

#[test]
fn the_same_file_draws_the_same() {
    let bytes = page(&[vec![b'a'], special("dvisvgm:raw <g/>"), rule(132, 5, 6)]);
    let first = dvi2svg(&bytes).unwrap();
    let second = dvi2svg(&bytes).unwrap();
    assert_eq!(first.get_content(), second.get_content());
    assert_eq!(rendered(&first), rendered(&second));
}

#[test]
fn the_paper_is_100_points_wide_and_high_by_default() {
    let machine = SVGMachine::new();
    assert!(machine.paper().is_none());
    assert_eq!(machine.paper_size(), (b"100".to_vec(), b"100".to_vec()));
    assert!(machine.get_content().is_empty());
    let s = rendered(&machine);
    assert!(s.starts_with("<svg"));
    assert!(s.ends_with("</svg>"));
    assert!(s.contains("width=\"100pt\" height=\"100pt\""));
    assert!(s.contains("viewBox=\"-72 -72 100 100\""));
    assert!(s.contains("<style>"));
    assert!(!s.contains("<text"));
    assert!(!s.contains("<rect"));
    let mut machine = machine;
    special_html_papersize(&mut machine, b"papersize=20.50pt,7pt").unwrap();
    assert_eq!(machine.paper_size(), (b"20.50".to_vec(), b"7".to_vec()));
    assert!(rendered(&machine).contains("width=\"20.5pt\" height=\"7pt\""));
}
