//! The notations that specials use: decimal numerals, colours as TeX writes
//! them, and paper sizes.

use crate::bytes::{same_bytes, slice_of};
use vstd::prelude::*;
use vstd::string::StringSliceAdditionalSpecFns;

verus! {

/// Whether a byte is a decimal digit.
pub open spec fn is_digit(b: u8) -> bool {
    48 <= b <= 57
}

/// Whether a byte is white space: a space, or one of the control characters
/// from the tabulator to the carriage return.
pub open spec fn is_blank(b: u8) -> bool {
    b == 32 || 9 <= b <= 13
}

/// The index of the first byte `b` of `text` at or after `from`, or the
/// length of `text`.
pub open spec fn index_of(text: Seq<u8>, b: u8, from: int) -> int
    decreases text.len() - from,
{
    if from < 0 || from >= text.len() {
        text.len() as int
    } else if text[from] == b {
        from
    } else {
        index_of(text, b, from + 1)
    }
}

/// The index of the first byte of `text` at or after `from` that is no white
/// space, or the length of `text`.
pub open spec fn token_start(text: Seq<u8>, from: int) -> int
    decreases text.len() - from,
{
    if from < 0 || from >= text.len() {
        text.len() as int
    } else if !is_blank(text[from]) {
        from
    } else {
        token_start(text, from + 1)
    }
}

/// The index of the first byte of `text` at or after `from` that is white
/// space, or the length of `text`.
pub open spec fn token_end(text: Seq<u8>, from: int) -> int
    decreases text.len() - from,
{
    if from < 0 || from >= text.len() {
        text.len() as int
    } else if is_blank(text[from]) {
        from
    } else {
        token_end(text, from + 1)
    }
}

/// The word of `text` that begins at or after `from`: what stands between
/// white space. It is empty if only white space follows.
pub open spec fn word_at(text: Seq<u8>, from: int) -> Seq<u8> {
    text.subrange(token_start(text, from), token_end(text, token_start(text, from)))
}

/// Where the word that begins at or after `from` ends.
pub open spec fn word_end(text: Seq<u8>, from: int) -> int {
    token_end(text, token_start(text, from))
}

/// Whether every byte of `text` is a decimal digit.
pub open spec fn all_digits(text: Seq<u8>) -> bool {
    forall|i: int| 0 <= i < text.len() ==> is_digit(#[trigger] text[i])
}

/// Whether `text` is a decimal numeral: digits, with at most one point among
/// them, and one digit at least.
pub open spec fn is_numeral(text: Seq<u8>) -> bool {
    let point = index_of(text, 46, 0);
    &&& all_digits(text.subrange(0, point))
    &&& point < text.len() ==> all_digits(text.subrange(point + 1, text.len() as int))
    &&& if point < text.len() {
        text.len() >= 2
    } else {
        text.len() >= 1
    }
}

/// The digit of the numeral `text` that stands `place` places behind the
/// point; 0 where the numeral has none there.
pub open spec fn fraction_digit(text: Seq<u8>, place: int) -> int {
    let at = index_of(text, 46, 0) + 1 + place;
    if at < text.len() {
        text[at] - 48
    } else {
        0
    }
}

/// Whether the numeral is 1 or more: a digit before its point is not 0.
pub open spec fn is_whole(text: Seq<u8>) -> bool {
    exists|i: int| 0 <= i < index_of(text, 46, 0) && #[trigger] text[i] != 48
}

/// A whole, in the parts that shares are counted in.
pub const WHOLE: u64 = 1000000000;

/// The value of a numeral in parts of a thousand million, rounded down, and
/// at most a thousand million: a share between nothing and all.
pub open spec fn share_of(text: Seq<u8>) -> int {
    if is_whole(text) {
        WHOLE as int
    } else {
        fraction_digit(text, 0) * 100000000 + fraction_digit(text, 1) * 10000000
            + fraction_digit(text, 2) * 1000000 + fraction_digit(text, 3) * 100000
            + fraction_digit(text, 4) * 10000 + fraction_digit(text, 5) * 1000 + fraction_digit(
            text,
            6,
        ) * 100 + fraction_digit(text, 7) * 10 + fraction_digit(text, 8)
    }
}

/// The hexadecimal digit of a number below 16, in lower case.
pub open spec fn hex_digit(n: int) -> u8 {
    if n < 10 {
        (48 + n) as u8
    } else {
        (87 + n) as u8
    }
}

/// The two hexadecimal digits of a number below 256.
pub open spec fn hex_pair(n: int) -> Seq<u8> {
    seq![hex_digit(n / 16), hex_digit(n % 16)]
}

/// The level of a colour channel, from 0 to 255, for a share.
pub open spec fn level(share: int) -> int {
    255 * share / WHOLE as int
}

/// The level of a colour channel that a share of ink and a share of black
/// leave: what the ink does not take of what the black does not take.
pub open spec fn inked_level(ink: int, black: int) -> int {
    255 * (WHOLE - ink) * (WHOLE - black) / (WHOLE * WHOLE)
}

/// A colour in the notation of style sheets: a number sign and two
/// hexadecimal digits for each of red, green and blue.
pub open spec fn hex_color(red: int, green: int, blue: int) -> Seq<u8> {
    seq![35u8] + hex_pair(red) + hex_pair(green) + hex_pair(blue)
}

/// Whether `word` is one of the colour names that are taken as they are.
pub open spec fn is_color_name(word: Seq<u8>) -> bool {
    ||| word == "black".spec_bytes()
    ||| word == "blue".spec_bytes()
    ||| word == "brown".spec_bytes()
    ||| word == "cyan".spec_bytes()
    ||| word == "darkgray".spec_bytes()
    ||| word == "gray".spec_bytes()
    ||| word == "green".spec_bytes()
    ||| word == "lightgray".spec_bytes()
    ||| word == "lime".spec_bytes()
    ||| word == "magenta".spec_bytes()
    ||| word == "olive".spec_bytes()
    ||| word == "orange".spec_bytes()
    ||| word == "pink".spec_bytes()
    ||| word == "purple".spec_bytes()
    ||| word == "red".spec_bytes()
    ||| word == "teal".spec_bytes()
    ||| word == "violet".spec_bytes()
    ||| word == "white".spec_bytes()
    ||| word == "yellow".spec_bytes()
}

/// The words of a colour: the model and up to four numerals behind it.
pub struct ColorWords {
    pub model: Seq<u8>,
    pub first: Seq<u8>,
    pub second: Seq<u8>,
    pub third: Seq<u8>,
    pub fourth: Seq<u8>,
    /// How many words there are in all.
    pub count: int,
}

/// The first five words of `text`, and how many words `text` has, counted up
/// to six.
pub open spec fn color_words(text: Seq<u8>) -> ColorWords {
    let e0 = word_end(text, 0);
    let e1 = word_end(text, e0);
    let e2 = word_end(text, e1);
    let e3 = word_end(text, e2);
    let e4 = word_end(text, e3);
    let model = word_at(text, 0);
    let first = word_at(text, e0);
    let second = word_at(text, e1);
    let third = word_at(text, e2);
    let fourth = word_at(text, e3);
    ColorWords {
        model,
        first,
        second,
        third,
        fourth,
        count: if model.len() == 0 {
            0
        } else if first.len() == 0 {
            1
        } else if second.len() == 0 {
            2
        } else if third.len() == 0 {
            3
        } else if fourth.len() == 0 {
            4
        } else if word_at(text, e4).len() == 0 {
            5
        } else {
            6
        },
    }
}

/// The colour that a TeX colour stands for, in the notation of style sheets,
/// if it is one of these:
///  - `gray 0` and `gray 1`, which are `black` and `white`;
///  - `rgb` with the shares of red, green and blue;
///  - `cmyk` with the shares of cyan, magenta, yellow and black ink;
///  - `gray` with the share of white;
///  - one of the colour names, which stands for itself.
/// A share is a decimal numeral, of which nine places behind the point
/// count. Shares above 1 count as 1.
pub open spec fn color_of(text: Seq<u8>) -> Option<Seq<u8>> {
    let words = color_words(text);
    if text == "gray 0".spec_bytes() {
        Some("black".spec_bytes())
    } else if text == "gray 1".spec_bytes() {
        Some("white".spec_bytes())
    } else if words.model == "rgb".spec_bytes() && words.count == 4 && is_numeral(words.first)
        && is_numeral(words.second) && is_numeral(words.third) {
        Some(
            hex_color(
                level(share_of(words.first)),
                level(share_of(words.second)),
                level(share_of(words.third)),
            ),
        )
    } else if words.model == "cmyk".spec_bytes() && words.count == 5 && is_numeral(words.first)
        && is_numeral(words.second) && is_numeral(words.third) && is_numeral(words.fourth) {
        Some(
            hex_color(
                inked_level(share_of(words.first), share_of(words.fourth)),
                inked_level(share_of(words.second), share_of(words.fourth)),
                inked_level(share_of(words.third), share_of(words.fourth)),
            ),
        )
    } else if words.model == "gray".spec_bytes() && words.count == 2 && is_numeral(words.first) {
        Some(
            hex_color(
                level(share_of(words.first)),
                level(share_of(words.first)),
                level(share_of(words.first)),
            ),
        )
    } else if words.count == 1 && is_color_name(words.model) {
        Some(words.model)
    } else {
        None
    }
}

/// The width and the height that a paper size gives, as numerals of points:
/// `text` is a width, a comma and a height, each a decimal numeral followed
/// by `pt`. What follows a second comma does not count.
pub open spec fn paper_size_of(text: Seq<u8>) -> Option<(Seq<u8>, Seq<u8>)> {
    let comma = index_of(text, 44, 0);
    let second = index_of(text, 44, comma + 1);
    let width = text.subrange(0, comma);
    let height = text.subrange(comma + 1, second);
    if comma < text.len() && is_length(width) && is_length(height) {
        Some((width.subrange(0, width.len() - 2), height.subrange(0, height.len() - 2)))
    } else {
        None
    }
}

/// Whether `text` is a length in points: a decimal numeral followed by `pt`.
pub open spec fn is_length(text: Seq<u8>) -> bool {
    &&& text.len() >= 2
    &&& text[text.len() - 2] == 112
    &&& text[text.len() - 1] == 116
    &&& is_numeral(text.subrange(0, text.len() - 2))
}

/// The index of the first byte `b` at or after `from`.
fn find_byte(text: &[u8], b: u8, from: usize) -> (at: usize)
    requires
        from <= text@.len(),
    ensures
        at == index_of(text@, b, from as int),
        from <= at <= text@.len(),
{
    let mut at: usize = from;
    while at < text.len() && text[at] != b
        invariant
            from <= at <= text@.len(),
            index_of(text@, b, from as int) == index_of(text@, b, at as int),
        decreases text.len() - at,
    {
        at += 1;
    }
    at
}

/// Whether a byte is white space.
fn blank(b: u8) -> (r: bool)
    ensures
        r == is_blank(b),
{
    b == 32 || (9 <= b && b <= 13)
}

/// Where the word that begins at or after `from` begins and ends.
fn next_word(text: &[u8], from: usize) -> (bounds: (usize, usize))
    requires
        from <= text@.len(),
    ensures
        bounds.0 == token_start(text@, from as int),
        bounds.1 == word_end(text@, from as int),
        from <= bounds.0 <= bounds.1 <= text@.len(),
        text@.subrange(bounds.0 as int, bounds.1 as int) == word_at(text@, from as int),
{
    let mut start: usize = from;
    while start < text.len() && blank(text[start])
        invariant
            from <= start <= text@.len(),
            token_start(text@, from as int) == token_start(text@, start as int),
        decreases text.len() - start,
    {
        start += 1;
    }
    let mut end: usize = start;
    while end < text.len() && !blank(text[end])
        invariant
            start <= end <= text@.len(),
            token_end(text@, start as int) == token_end(text@, end as int),
        decreases text.len() - end,
    {
        end += 1;
    }
    (start, end)
}

/// Whether `text` is a decimal numeral.
pub fn numeral(text: &[u8]) -> (valid: bool)
    ensures
        valid == is_numeral(text@),
{
    let size = text.len();
    let point = find_byte(text, 46, 0);
    let mut i: usize = 0;
    while i < size
        invariant
            i <= size,
            size == text@.len(),
            point == index_of(text@, 46, 0),
            point <= size,
            forall|j: int| 0 <= j < i && j != point ==> is_digit(#[trigger] text@[j]),
        decreases size - i,
    {
        if i != point && !(48 <= text[i] && text[i] <= 57) {
            proof {
                let at = i as int;
                if at < point {
                    assert(text@.subrange(0, point as int)[at] == text@[at]);
                } else {
                    assert(text@.subrange(point + 1, size as int)[at - point - 1] == text@[at]);
                }
            }
            return false;
        }
        i += 1;
    }
    assert(all_digits(text@.subrange(0, point as int)));
    assert(point < size ==> all_digits(text@.subrange(point + 1, size as int)));
    if point < size {
        size >= 2
    } else {
        size >= 1
    }
}

/// The value of a numeral as a share.
fn share(text: &[u8]) -> (value: u64)
    requires
        is_numeral(text@),
    ensures
        value == share_of(text@),
        value <= WHOLE,
{
    let size = text.len();
    let point = find_byte(text, 46, 0);
    let mut i: usize = 0;
    while i < point
        invariant
            i <= point <= size,
            size == text@.len(),
            point == index_of(text@, 46, 0),
            forall|j: int| 0 <= j < i ==> text@[j] == 48,
        decreases point - i,
    {
        if text[i] != 48 {
            assert(is_whole(text@));
            return WHOLE;
        }
        i += 1;
    }
    assert(!is_whole(text@));
    fraction(text, point, 0) * 100000000 + fraction(text, point, 1) * 10000000 + fraction(
        text,
        point,
        2,
    ) * 1000000 + fraction(text, point, 3) * 100000 + fraction(text, point, 4) * 10000
        + fraction(text, point, 5) * 1000 + fraction(text, point, 6) * 100 + fraction(
        text,
        point,
        7,
    ) * 10 + fraction(text, point, 8)
}

/// The digit that stands `place` places behind the point of a numeral.
fn fraction(text: &[u8], point: usize, place: usize) -> (digit: u64)
    requires
        is_numeral(text@),
        point == index_of(text@, 46, 0),
        point <= text@.len(),
        place < 9,
    ensures
        digit == fraction_digit(text@, place as int),
        digit <= 9,
{
    let size = text.len();
    if size - point > 1 && place < size - point - 1 {
        assert(is_digit(text@.subrange(point + 1, size as int)[place as int]));
        (text[point + 1 + place] - 48) as u64
    } else {
        0
    }
}

/// The hexadecimal digit of a number below 16.
fn hex(n: u64) -> (digit: u8)
    requires
        n < 16,
    ensures
        digit == hex_digit(n as int),
{
    if n < 10 {
        (48 + n) as u8
    } else {
        (87 + n) as u8
    }
}

/// A colour in the notation of style sheets.
fn hex_color_of(red: u64, green: u64, blue: u64) -> (color: Vec<u8>)
    requires
        red < 256,
        green < 256,
        blue < 256,
    ensures
        color@ == hex_color(red as int, green as int, blue as int),
{
    let mut color: Vec<u8> = Vec::new();
    color.push(35u8);
    color.push(hex(red / 16));
    color.push(hex(red % 16));
    color.push(hex(green / 16));
    color.push(hex(green % 16));
    color.push(hex(blue / 16));
    color.push(hex(blue % 16));
    assert(color@ =~= hex_color(red as int, green as int, blue as int));
    color
}

/// The level of a colour channel for a share.
fn level_of(share: u64) -> (value: u64)
    requires
        share <= WHOLE,
    ensures
        value == level(share as int),
        value < 256,
{
    255 * share / WHOLE
}

/// The level of a colour channel that a share of ink and a share of black
/// leave.
fn inked_level_of(ink: u64, black: u64) -> (value: u64)
    requires
        ink <= WHOLE,
        black <= WHOLE,
    ensures
        value == inked_level(ink as int, black as int),
        value < 256,
{
    let light: u128 = (WHOLE - ink) as u128;
    let clear: u128 = (WHOLE - black) as u128;
    assert(light * clear <= 1000000000000000000) by (nonlinear_arith)
        requires
            light <= 1000000000,
            clear <= 1000000000,
    ;
    let both: u128 = light * clear;
    assert(255 * (WHOLE - ink) * (WHOLE - black) == 255 * both) by (nonlinear_arith)
        requires
            both == (WHOLE - ink) * (WHOLE - black),
    ;
    assert(WHOLE * WHOLE == 1000000000000000000) by (nonlinear_arith)
        requires
            WHOLE == 1000000000,
    ;
    (255 * both / 1000000000000000000) as u64
}

/// Whether `word` is one of the colour names that are taken as they are.
fn color_name(word: &[u8]) -> (known: bool)
    ensures
        known == is_color_name(word@),
{
    same_bytes(word, "black".as_bytes()) || same_bytes(word, "blue".as_bytes()) || same_bytes(
        word,
        "brown".as_bytes(),
    ) || same_bytes(word, "cyan".as_bytes()) || same_bytes(word, "darkgray".as_bytes())
        || same_bytes(word, "gray".as_bytes()) || same_bytes(word, "green".as_bytes())
        || same_bytes(word, "lightgray".as_bytes()) || same_bytes(word, "lime".as_bytes())
        || same_bytes(word, "magenta".as_bytes()) || same_bytes(word, "olive".as_bytes())
        || same_bytes(word, "orange".as_bytes()) || same_bytes(word, "pink".as_bytes())
        || same_bytes(word, "purple".as_bytes()) || same_bytes(word, "red".as_bytes())
        || same_bytes(word, "teal".as_bytes()) || same_bytes(word, "violet".as_bytes())
        || same_bytes(word, "white".as_bytes()) || same_bytes(word, "yellow".as_bytes())
}

/// The colour that a TeX colour stands for, in the notation of style sheets:
/// a name, or a number sign and six hexadecimal digits. `None` for what is no
/// colour that is known.
pub fn tex_color_to_hex(color: &[u8]) -> (css: Option<Vec<u8>>)
    ensures
        match css {
            Some(css) => color_of(color@) == Some(css@),
            None => color_of(color@) is None,
        },
{
    if same_bytes(color, "gray 0".as_bytes()) {
        return Some(vstd::slice::slice_to_vec("black".as_bytes()));
    }
    if same_bytes(color, "gray 1".as_bytes()) {
        return Some(vstd::slice::slice_to_vec("white".as_bytes()));
    }
    let (s0, e0) = next_word(color, 0);
    let (s1, e1) = next_word(color, e0);
    let (s2, e2) = next_word(color, e1);
    let (s3, e3) = next_word(color, e2);
    let (s4, e4) = next_word(color, e3);
    let (s5, e5) = next_word(color, e4);
    let count: usize = if e0 == s0 {
        0
    } else if e1 == s1 {
        1
    } else if e2 == s2 {
        2
    } else if e3 == s3 {
        3
    } else if e4 == s4 {
        4
    } else if e5 == s5 {
        5
    } else {
        6
    };
    let model = vstd::slice::slice_subrange(color, s0, e0);
    let first = vstd::slice::slice_subrange(color, s1, e1);
    let second = vstd::slice::slice_subrange(color, s2, e2);
    let third = vstd::slice::slice_subrange(color, s3, e3);
    let fourth = vstd::slice::slice_subrange(color, s4, e4);
    assert(count == color_words(color@).count);
    if same_bytes(model, "rgb".as_bytes()) && count == 4 && numeral(first) && numeral(second)
        && numeral(third) {
        Some(
            hex_color_of(level_of(share(first)), level_of(share(second)), level_of(share(third))),
        )
    } else if same_bytes(model, "cmyk".as_bytes()) && count == 5 && numeral(first) && numeral(
        second,
    ) && numeral(third) && numeral(fourth) {
        let black = share(fourth);
        Some(
            hex_color_of(
                inked_level_of(share(first), black),
                inked_level_of(share(second), black),
                inked_level_of(share(third), black),
            ),
        )
    } else if same_bytes(model, "gray".as_bytes()) && count == 2 && numeral(first) {
        let white = level_of(share(first));
        Some(hex_color_of(white, white, white))
    } else if count == 1 && color_name(model) {
        Some(vstd::slice::slice_to_vec(model))
    } else {
        None
    }
}

/// Whether `text` is a length in points.
fn length(text: &[u8]) -> (valid: bool)
    ensures
        valid == is_length(text@),
{
    let size = text.len();
    if size < 2 || text[size - 2] != 112 || text[size - 1] != 116 {
        return false;
    }
    numeral(vstd::slice::slice_subrange(text, 0, size - 2))
}

/// The width and the height that a paper size gives, as numerals of points.
/// `None` for what is no paper size.
pub fn paper_size(text: &[u8]) -> (size: Option<(Vec<u8>, Vec<u8>)>)
    ensures
        match size {
            Some((width, height)) => paper_size_of(text@) == Some((width@, height@)),
            None => paper_size_of(text@) is None,
        },
{
    let comma = find_byte(text, 44, 0);
    if comma >= text.len() {
        return None;
    }
    let second = find_byte(text, 44, comma + 1);
    let width = vstd::slice::slice_subrange(text, 0, comma);
    let height = vstd::slice::slice_subrange(text, comma + 1, second);
    if length(width) && length(height) {
        Some((slice_of(width, 0, width.len() - 2), slice_of(height, 0, height.len() - 2)))
    } else {
        None
    }
}

} // verus!
